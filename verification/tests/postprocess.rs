use online_media_ingest::postprocess::{
    BoxStep, PostProcessOptions, PostprocessRoute, audio_extraction_paths, faststart_args,
    mp4_box_step, postprocess_route, remux_temp_path, box_walk_step, extraction_extension, BoxWalk, WalkNext,
};
use online_media_ingest::paths::is_separator_free;

#[test]
fn test_postprocess_options_has_work() {
    assert!(!PostProcessOptions::default().has_work());

    let with_sub = PostProcessOptions {
        subtitle_file: Some("sub.srt".to_string()),
        ..Default::default()
    };
    assert!(with_sub.has_work());

    let audio_only = PostProcessOptions {
        audio_only: true,
        ..Default::default()
    };
    assert!(audio_only.has_work());

    let with_meta = PostProcessOptions {
        metadata: vec![("title".into(), "Test".into())],
        ..Default::default()
    };
    assert!(with_meta.has_work());
}

#[test]
fn faststart_alone_takes_the_faststart_route() {
    let faststart = PostProcessOptions { faststart: true, ..Default::default() };
    assert!(faststart.is_faststart_only());
    assert_eq!(postprocess_route(&faststart), PostprocessRoute::FaststartFirst);

    let with_chapters = PostProcessOptions {
        faststart: true,
        chapters_file: Some("_chapters.ffmeta".into()),
        ..Default::default()
    };
    assert!(!with_chapters.is_faststart_only());
    assert_eq!(postprocess_route(&with_chapters), PostprocessRoute::Remux);

    let audio = PostProcessOptions { audio_only: true, faststart: true, ..Default::default() };
    assert_eq!(postprocess_route(&audio), PostprocessRoute::ExtractAudio);
    assert_eq!(postprocess_route(&PostProcessOptions::default()), PostprocessRoute::Nothing);
}

#[test]
fn mp4_box_walk_steps() {
    let moov = [0, 0, 0, 8, b'm', b'o', b'o', b'v'];
    assert_eq!(mp4_box_step(&moov, 0), BoxStep::Moov);
    let mdat = [0, 0, 1, 0, b'm', b'd', b'a', b't'];
    assert_eq!(mp4_box_step(&mdat, 32), BoxStep::Mdat);
    let ftyp = [0, 0, 0, 0x20, b'f', b't', b'y', b'p'];
    assert_eq!(mp4_box_step(&ftyp, 0), BoxStep::Next(32));
    let big = [1, 0, 0, 0, b'f', b'r', b'e', b'e'];
    assert_eq!(mp4_box_step(&big, 100), BoxStep::Next(100 + 16_777_216));
    let broken = [0, 0, 0, 4, b'f', b'r', b'e', b'e'];
    assert_eq!(mp4_box_step(&broken, 0), BoxStep::Stop);
}

#[test]
fn postprocess_paths_and_arguments() {
    assert_eq!(remux_temp_path("/tmp/video.mp4"), "/tmp/video._pp.tmp.mp4");
    let paths = audio_extraction_paths("/tmp/song.webm", Some("mp3"));
    assert_eq!(paths.output, "/tmp/song.mp3");
    assert_eq!(paths.temp, "/tmp/song.mp3");
    let same = audio_extraction_paths("/tmp/song.m4a", None);
    assert_eq!(same.output, "/tmp/song.m4a");
    assert_eq!(same.temp, "/tmp/song._pp.tmp.m4a");
    let bare = audio_extraction_paths("/tmp/song", None);
    assert_eq!(bare.output, "/tmp/song.m4a");
    assert_eq!(bare.temp, "/tmp/song.m4a");
    assert_eq!(
        faststart_args("in.mp4", "out.mp4"),
        vec!["-y", "-i", "in.mp4", "-c", "copy", "-movflags", "+faststart", "out.mp4"]
    );
}

fn header(size: u32, name: &[u8; 4]) -> [u8; 8] {
    let s = size.to_be_bytes();
    [s[0], s[1], s[2], s[3], name[0], name[1], name[2], name[3]]
}

#[test]
fn box_walk_reads_at_most_eight_headers() {
    let start = BoxWalk::start();
    assert_eq!(start.offset(), 0);
    let mut walk = start;
    for i in 0..7u64 {
        match box_walk_step(walk, &header(32, b"free")) {
            WalkNext::Seek(next) => {
                assert_eq!(next.offset(), 32 * (i + 1));
                walk = next;
            }
            other => panic!("unexpected {other:?}"),
        }
    }
    assert!(matches!(box_walk_step(walk, &header(32, b"free")), WalkNext::Answer(false)));
    assert!(matches!(box_walk_step(BoxWalk::start(), &header(8, b"moov")), WalkNext::Answer(true)));
    assert!(matches!(box_walk_step(BoxWalk::start(), &header(8, b"mdat")), WalkNext::Answer(false)));
    assert!(matches!(box_walk_step(BoxWalk::start(), &header(3, b"ftyp")), WalkNext::Answer(false)));
}

#[test]
fn extensions_and_separators() {
    assert_eq!(extraction_extension("/tmp/a.webm", Some("mp3")), "mp3");
    assert_eq!(extraction_extension("/tmp/a.webm", None), "webm");
    assert_eq!(extraction_extension("/tmp/a", None), "m4a");
    assert!(is_separator_free("mp3"));
    assert!(!is_separator_free("a/b"));
    assert!(!is_separator_free("a\\b"));
}
