//! Post-processing of a downloaded media file: which operations are asked for, which
//! way they are carried out, and the MP4 box walk that tells whether a file already has
//! the faststart layout.
use vstd::prelude::*;
use crate::music::pairs_view;
use crate::paths::{
    extension_of, path_eq, path_extension, path_with_extension, paths_equal, separator_free, with_extension,
};
use crate::text::{opt_view, push_str, string_of, strings_view};

verus! {

/// Post-processing to apply after a download.
#[derive(Debug)]
pub struct PostProcessOptions {
    /// Subtitle file to embed into the output container.
    pub subtitle_file: Option<String>,
    /// Subtitle language code (e.g. "eng", "chi", "jpn").
    pub subtitle_language: Option<String>,
    /// Chapter metadata file (ffmetadata format) to embed.
    pub chapters_file: Option<String>,
    /// Cover image to embed as attached picture.
    pub cover_file: Option<String>,
    /// Metadata key-value pairs to embed (e.g. title, artist, comment).
    pub metadata: Vec<(String, String)>,
    /// Extract audio only (discard the video track).
    pub audio_only: bool,
    /// Target audio container when `audio_only` is set; the current extension when
    /// omitted.
    pub audio_container: Option<String>,
    /// Move the `moov` atom to the file start (MP4 faststart) even when nothing else
    /// is asked for.
    pub faststart: bool,
}

impl Default for PostProcessOptions {
    fn default() -> (r: Self)
        ensures
            r.subtitle_file is None,
            r.subtitle_language is None,
            r.chapters_file is None,
            r.cover_file is None,
            r.metadata@.len() == 0,
            !r.audio_only,
            r.audio_container is None,
            !r.faststart,
    {
        PostProcessOptions {
            subtitle_file: None,
            subtitle_language: None,
            chapters_file: None,
            cover_file: None,
            metadata: Vec::new(),
            audio_only: false,
            audio_container: None,
            faststart: false,
        }
    }
}

pub open spec fn has_work_spec(o: PostProcessOptions) -> bool {
    o.subtitle_file is Some || o.chapters_file is Some || o.cover_file is Some || o.metadata@.len()
        > 0 || o.audio_only || o.faststart
}

pub open spec fn faststart_only_spec(o: PostProcessOptions) -> bool {
    o.faststart && o.subtitle_file is None && o.chapters_file is None && o.cover_file is None
        && o.metadata@.len() == 0 && !o.audio_only
}

impl PostProcessOptions {
    /// Whether any post-processing is asked for.
    pub fn has_work(&self) -> (r: bool)
        ensures
            r == has_work_spec(*self),
    {
        self.subtitle_file.is_some() || self.chapters_file.is_some() || self.cover_file.is_some()
            || self.metadata.len() > 0 || self.audio_only || self.faststart
    }

    /// Whether the faststart layout is the only thing asked for, which a plain
    /// `ffmpeg` copy can do.
    pub fn is_faststart_only(&self) -> (r: bool)
        ensures
            r == faststart_only_spec(*self),
    {
        self.faststart && self.subtitle_file.is_none() && self.chapters_file.is_none()
            && self.cover_file.is_none() && self.metadata.len() == 0 && !self.audio_only
    }
}

/// How a post-processing run proceeds.
#[derive(Debug, Clone, Copy, PartialEq, Eq, Structural)]
pub enum PostprocessRoute {
    /// Nothing is asked for: the file stays as it is.
    Nothing,
    /// The audio track is extracted.
    ExtractAudio,
    /// Only the faststart layout is asked for: check the layout first, then try the
    /// `ffmpeg` program, then the remux.
    FaststartFirst,
    /// The file is remuxed with everything asked for.
    Remux,
}

/// How a run with `options` proceeds: nothing without work, audio extraction for
/// audio-only, the faststart path where that is all, else a remux.
pub open spec fn route_of(options: PostProcessOptions) -> PostprocessRoute {
    if !has_work_spec(options) {
        PostprocessRoute::Nothing
    } else if options.audio_only {
        PostprocessRoute::ExtractAudio
    } else if faststart_only_spec(options) {
        PostprocessRoute::FaststartFirst
    } else {
        PostprocessRoute::Remux
    }
}

/// How a run with `options` proceeds; see [`route_of`].
pub fn postprocess_route(options: &PostProcessOptions) -> (r: PostprocessRoute)
    ensures
        r == route_of(*options),
{
    if !options.has_work() {
        PostprocessRoute::Nothing
    } else if options.audio_only {
        PostprocessRoute::ExtractAudio
    } else if options.is_faststart_only() {
        PostprocessRoute::FaststartFirst
    } else {
        PostprocessRoute::Remux
    }
}

/// A request for the faststart layout alone is work, and is routed to the faststart
/// path.
pub proof fn law_faststart_only_routes_to_faststart(options: PostProcessOptions)
    requires
        faststart_only_spec(options),
    ensures
        has_work_spec(options),
        route_of(options) == PostprocessRoute::FaststartFirst,
{
}

/// The temporary file a remux writes: the media path with the extension
/// `_pp.tmp.mp4`.
pub fn remux_temp_path(media_file: &str) -> (r: String)
    ensures
        r@ == path_with_extension(media_file@, "_pp.tmp.mp4"@),
{
    proof {
        reveal_strlit("_pp.tmp.mp4");
    }
    with_extension(media_file, "_pp.tmp.mp4")
}

/// The arguments of the `ffmpeg` run that rewrites a file with the faststart layout.
pub fn faststart_args(input: &str, output: &str) -> (r: Vec<String>)
    ensures
        strings_view(r@) == seq![
            "-y"@,
            "-i"@,
            input@,
            "-c"@,
            "copy"@,
            "-movflags"@,
            "+faststart"@,
            output@,
        ],
{
    let mut args: Vec<String> = Vec::new();
    args.push(String::from_str("-y"));
    args.push(String::from_str("-i"));
    args.push(String::from_str(input));
    args.push(String::from_str("-c"));
    args.push(String::from_str("copy"));
    args.push(String::from_str("-movflags"));
    args.push(String::from_str("+faststart"));
    args.push(String::from_str(output));
    assert(strings_view(args@) =~= seq![
        "-y"@,
        "-i"@,
        input@,
        "-c"@,
        "copy"@,
        "-movflags"@,
        "+faststart"@,
        output@,
    ]);
    args
}

/// The extension an audio extraction writes: the requested container, else the file's
/// own extension, else `m4a`.
pub open spec fn extraction_ext(media: Seq<char>, container: Option<Seq<char>>) -> Seq<char> {
    match container {
        Some(c) => c,
        None => match path_extension(media) {
            Some(e) => e,
            None => "m4a"@,
        },
    }
}

/// The extension an audio extraction writes; see [`extraction_ext`].
pub fn extraction_extension(media_file: &str, audio_container: Option<&str>) -> (r: String)
    ensures
        r@ == extraction_ext(
            media_file@,
            match audio_container {
                Some(c) => Some(c@),
                None => None,
            },
        ),
{
    match audio_container {
        Some(c) => String::from_str(c),
        None => match extension_of(media_file) {
            Some(e) => e,
            None => String::from_str("m4a"),
        },
    }
}

/// The files of an audio extraction.
pub struct AudioExtractionPaths {
    /// The file the audio ends up in.
    pub output: String,
    /// The file the extraction writes; the output itself unless that is the input.
    pub temp: String,
}

/// Where an audio extraction writes: the media path with the extraction extension, or,
/// where that is the media file itself, first a `_pp.tmp.<ext>` file beside it.
pub fn audio_extraction_paths(media_file: &str, audio_container: Option<&str>) -> (r:
    AudioExtractionPaths)
    requires
        separator_free(
            extraction_ext(
                media_file@,
                match audio_container {
                    Some(c) => Some(c@),
                    None => None,
                },
            ),
        ),
    ensures
        r.output@ == path_with_extension(
            media_file@,
            extraction_ext(
                media_file@,
                match audio_container {
                    Some(c) => Some(c@),
                    None => None,
                },
            ),
        ),
        r.temp@ == if path_eq(r.output@, media_file@) {
            path_with_extension(
                media_file@,
                "_pp.tmp."@ + extraction_ext(
                    media_file@,
                    match audio_container {
                        Some(c) => Some(c@),
                        None => None,
                    },
                ),
            )
        } else {
            r.output@
        },
{
    let ext = extraction_extension(media_file, audio_container);
    let output = with_extension(media_file, ext.as_str());
    let temp = if paths_equal(output.as_str(), media_file) {
        let mut name: Vec<char> = Vec::new();
        push_str(&mut name, "_pp.tmp.");
        push_str(&mut name, ext.as_str());
        let n = string_of(&name);
        proof {
            reveal_strlit("_pp.tmp.");
            assert(separator_free(n@)) by {
                assert forall|i: int| 0 <= i < n@.len() implies #[trigger] n@[i] != '/' && n@[i] != '\\' by {
                    if i >= 8 {
                        assert(n@[i] == ext@[i - 8]);
                    }
                }
            }
        }
        with_extension(media_file, n.as_str())
    } else {
        output.clone()
    };
    AudioExtractionPaths { output, temp }
}

/// What one 8-byte MP4 box header says about the faststart layout.
#[derive(Debug, Clone, Copy, PartialEq, Eq, Structural)]
pub enum BoxStep {
    /// A `moov` box came first: the file is faststart.
    Moov,
    /// An `mdat` box came first: the file is not faststart.
    Mdat,
    /// The header is malformed (size below 8): stop looking.
    Stop,
    /// Another box: read the next header at this offset.
    Next(u64),
}

/// The box size in a header: its first four bytes, big-endian.
pub open spec fn box_size(header: Seq<u8>) -> nat {
    (header[0] as nat) * 16777216 + (header[1] as nat) * 65536 + (header[2] as nat) * 256
        + (header[3] as nat)
}

pub open spec fn box_name_is(header: Seq<u8>, name: Seq<u8>) -> bool {
    header.subrange(4, 8) == name
}

/// What the box header at `offset` says; see [`BoxStep`].
pub open spec fn box_step_of(header: Seq<u8>, offset: u64) -> BoxStep {
    if box_name_is(header, seq![0x6du8, 0x6fu8, 0x6fu8, 0x76u8]) {
        BoxStep::Moov
    } else if box_name_is(header, seq![0x6du8, 0x64u8, 0x61u8, 0x74u8]) {
        BoxStep::Mdat
    } else if box_size(header) < 8 {
        BoxStep::Stop
    } else {
        BoxStep::Next((offset + box_size(header)) as u64)
    }
}

/// Reads one box header of an MP4 file at `offset`: a `moov` box means faststart, an
/// `mdat` box means not, a malformed size stops the walk, and any other box moves the
/// walk past it. The walk reads at most eight headers, so offsets stay below
/// `8 * 2^32`.
pub fn mp4_box_step(header: &[u8; 8], offset: u64) -> (r: BoxStep)
    requires
        offset <= 7 * 0x1_0000_0000,
    ensures
        r == box_step_of(header@, offset),
        r matches BoxStep::Next(n) ==> n <= offset + 0x1_0000_0000,
{
    let h = header;
    if h[4] == 0x6d && h[5] == 0x6f && h[6] == 0x6f && h[7] == 0x76 {
        assert(header@.subrange(4, 8) =~= seq![0x6du8, 0x6fu8, 0x6fu8, 0x76u8]);
        return BoxStep::Moov;
    }
    if h[4] == 0x6d && h[5] == 0x64 && h[6] == 0x61 && h[7] == 0x74 {
        assert(header@.subrange(4, 8) =~= seq![0x6du8, 0x64u8, 0x61u8, 0x74u8]);
        return BoxStep::Mdat;
    }
    proof {
        if box_name_is(header@, seq![0x6du8, 0x6fu8, 0x6fu8, 0x76u8]) {
            assert(header@.subrange(4, 8)[0] == header@[4]);
            assert(header@.subrange(4, 8)[1] == header@[5]);
            assert(header@.subrange(4, 8)[2] == header@[6]);
            assert(header@.subrange(4, 8)[3] == header@[7]);
        }
        if box_name_is(header@, seq![0x6du8, 0x64u8, 0x61u8, 0x74u8]) {
            assert(header@.subrange(4, 8)[0] == header@[4]);
            assert(header@.subrange(4, 8)[1] == header@[5]);
            assert(header@.subrange(4, 8)[2] == header@[6]);
            assert(header@.subrange(4, 8)[3] == header@[7]);
        }
    }
    let size: u64 = (h[0] as u64) * 16777216 + (h[1] as u64) * 65536 + (h[2] as u64) * 256
        + (h[3] as u64);
    if size < 8 {
        return BoxStep::Stop;
    }
    BoxStep::Next(offset + size)
}

/// Where the walk over an MP4 file's box headers stands: the offset of the next header
/// and how many headers were read before it. The walk reads at most eight headers.
#[derive(Debug)]
pub struct BoxWalk {
    offset: u64,
    headers_read: u64,
}

/// What the walk does after reading a header.
#[derive(Debug)]
pub enum WalkNext {
    /// The walk is over: whether the file is faststart.
    Answer(bool),
    /// Read the next header at this position.
    Seek(BoxWalk),
}

impl BoxWalk {
    #[verifier::type_invariant]
    spec fn inv(self) -> bool {
        &&& self.headers_read < 8
        &&& self.offset <= self.headers_read * 0x1_0000_0000
    }

    pub closed spec fn spec_offset(self) -> u64 {
        self.offset
    }

    pub closed spec fn spec_headers_read(self) -> nat {
        self.headers_read as nat
    }

    /// The walk before any header is read: at offset 0.
    pub fn start() -> (r: BoxWalk)
        ensures
            r.spec_offset() == 0,
            r.spec_headers_read() == 0,
    {
        BoxWalk { offset: 0, headers_read: 0 }
    }

    /// The offset of the next header.
    pub fn offset(&self) -> (r: u64)
        ensures
            r == self.spec_offset(),
    {
        self.offset
    }
}

/// The walk's answer after reading `header` at the walk's offset: `moov` means
/// faststart, `mdat` or a malformed size means not, and any other box moves the walk
/// past it, unless that was the eighth header, which ends the walk without an answer
/// found, so not faststart.
pub fn box_walk_step(walk: BoxWalk, header: &[u8; 8]) -> (r: WalkNext)
    ensures
        match box_step_of(header@, walk.spec_offset()) {
            BoxStep::Moov => r == WalkNext::Answer(true),
            BoxStep::Mdat | BoxStep::Stop => r == WalkNext::Answer(false),
            BoxStep::Next(n) => if walk.spec_headers_read() + 1 >= 8 {
                r == WalkNext::Answer(false)
            } else {
                r matches WalkNext::Seek(w) && w.spec_offset() == n && w.spec_headers_read()
                    == walk.spec_headers_read() + 1
            },
        },
{
    proof {
        use_type_invariant(&walk);
    }
    match mp4_box_step(header, walk.offset) {
        BoxStep::Moov => WalkNext::Answer(true),
        BoxStep::Mdat => WalkNext::Answer(false),
        BoxStep::Stop => WalkNext::Answer(false),
        BoxStep::Next(n) => {
            if walk.headers_read + 1 >= 8 {
                WalkNext::Answer(false)
            } else {
                WalkNext::Seek(BoxWalk { offset: n, headers_read: walk.headers_read + 1 })
            }
        },
    }
}

} // verus!
