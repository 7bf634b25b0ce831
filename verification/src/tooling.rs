//! Where the helper programs are looked for, and what their version output means.
//!
//! Looking at the disk and the environment is left to the caller: the functions here
//! give the places to look, in the order they are tried, and the caller takes the first
//! that exists.
use vstd::prelude::*;
use crate::paths::{join_path, path_eq, path_join, paths_equal};
use crate::text::{chars_of, opt_view, push_str, string_of, strings_view, trim, trim_chars};

verus! {

/// The file name of a program on the platform (`.exe` on Windows).
pub open spec fn program_name(base: Seq<char>, windows: bool) -> Seq<char> {
    if windows {
        base + ".exe"@
    } else {
        base
    }
}

/// The names the ffmpeg program may have.
pub fn ffmpeg_binary_candidates(windows: bool) -> (r: Vec<&'static str>)
    ensures
        r@.len() == 1,
        r@[0]@ == program_name("ffmpeg"@, windows),
{
    let mut v: Vec<&'static str> = Vec::new();
    if windows {
        proof {
            reveal_strlit("ffmpeg.exe");
            reveal_strlit("ffmpeg");
            reveal_strlit(".exe");
            assert("ffmpeg.exe"@ =~= "ffmpeg"@ + ".exe"@);
        }
        v.push("ffmpeg.exe");
    } else {
        v.push("ffmpeg");
    }
    v
}

/// The names the yt-dlp program may have.
pub fn ytdlp_binary_candidates(windows: bool) -> (r: Vec<&'static str>)
    ensures
        r@.len() == 1,
        r@[0]@ == program_name("yt-dlp"@, windows),
{
    let mut v: Vec<&'static str> = Vec::new();
    if windows {
        proof {
            reveal_strlit("yt-dlp.exe");
            reveal_strlit("yt-dlp");
            reveal_strlit(".exe");
            assert("yt-dlp.exe"@ =~= "yt-dlp"@ + ".exe"@);
        }
        v.push("yt-dlp.exe");
    } else {
        v.push("yt-dlp");
    }
    v
}

/// The vendor directories ffmpeg is looked for in, relative to a workspace root;
/// `data_local_path` is the value of `DATA_LOCAL_PATH` where it is set.
pub fn vendor_search_dirs(data_local_path: Option<&str>) -> (r: Vec<String>)
    ensures
        strings_view(r@) == match data_local_path {
            Some(d) => seq!["bin/ffmpeg"@, d@ + "/vendors/ffmpeg"@],
            None => seq!["bin/ffmpeg"@, "data/vendors/ffmpeg"@, ".data/vendors/ffmpeg"@],
        },
{
    let mut v: Vec<String> = Vec::new();
    v.push(String::from_str("bin/ffmpeg"));
    match data_local_path {
        Some(d) => {
            let mut p: Vec<char> = Vec::new();
            push_str(&mut p, d);
            push_str(&mut p, "/vendors/ffmpeg");
            v.push(string_of(&p));
            assert(strings_view(v@) =~= seq!["bin/ffmpeg"@, d@ + "/vendors/ffmpeg"@]);
        },
        None => {
            v.push(String::from_str("data/vendors/ffmpeg"));
            v.push(String::from_str(".data/vendors/ffmpeg"));
            assert(strings_view(v@) =~= seq![
                "bin/ffmpeg"@,
                "data/vendors/ffmpeg"@,
                ".data/vendors/ffmpeg"@,
            ]);
        },
    }
    v
}

/// The vendor directories yt-dlp is looked for in, relative to a workspace root;
/// `data_local_path` is the value of `DATA_LOCAL_PATH` where it is set.
pub fn ytdlp_vendor_dirs(data_local_path: Option<&str>) -> (r: Vec<String>)
    ensures
        strings_view(r@) == match data_local_path {
            Some(d) => seq!["bin/yt-dlp/current/bin"@, "bin/yt-dlp"@, d@ + "/vendors/yt-dlp"@],
            None => seq![
                "bin/yt-dlp/current/bin"@,
                "bin/yt-dlp"@,
                "data/vendors/yt-dlp"@,
                ".data/vendors/yt-dlp"@,
            ],
        },
{
    let mut v: Vec<String> = Vec::new();
    v.push(String::from_str("bin/yt-dlp/current/bin"));
    v.push(String::from_str("bin/yt-dlp"));
    match data_local_path {
        Some(d) => {
            let mut p: Vec<char> = Vec::new();
            push_str(&mut p, d);
            push_str(&mut p, "/vendors/yt-dlp");
            v.push(string_of(&p));
            assert(strings_view(v@) =~= seq![
                "bin/yt-dlp/current/bin"@,
                "bin/yt-dlp"@,
                d@ + "/vendors/yt-dlp"@,
            ]);
        },
        None => {
            v.push(String::from_str("data/vendors/yt-dlp"));
            v.push(String::from_str(".data/vendors/yt-dlp"));
            assert(strings_view(v@) =~= seq![
                "bin/yt-dlp/current/bin"@,
                "bin/yt-dlp"@,
                "data/vendors/yt-dlp"@,
                ".data/vendors/yt-dlp"@,
            ]);
        },
    }
    v
}

/// The places a yt-dlp install under `custom_root` may hold the program, in the order
/// they are tried: the root itself, then `current/bin`.
pub fn ytdlp_binary_paths_at(custom_root: &str, windows: bool) -> (r: Vec<String>)
    ensures
        strings_view(r@) == seq![
            path_join(custom_root@, program_name("yt-dlp"@, windows)),
            path_join(
                path_join(path_join(custom_root@, "current"@), "bin"@),
                program_name("yt-dlp"@, windows),
            ),
        ],
{
    let names = ytdlp_binary_candidates(windows);
    let name = names[0];
    let mut v: Vec<String> = Vec::new();
    v.push(join_path(custom_root, name));
    let current = join_path(custom_root, "current");
    let bin = join_path(current.as_str(), "bin");
    v.push(join_path(bin.as_str(), name));
    assert(strings_view(v@) =~= seq![
        path_join(custom_root@, program_name("yt-dlp"@, windows)),
        path_join(
            path_join(path_join(custom_root@, "current"@), "bin"@),
            program_name("yt-dlp"@, windows),
        ),
    ]);
    v
}

/// Whether some path of `ps` equals `p` as paths.
pub open spec fn holds_path(ps: Seq<Seq<char>>, p: Seq<char>) -> bool {
    exists|i: int| 0 <= i < ps.len() && path_eq(ps[i], p)
}

/// The workspace roots after adding `dirs` in order to `roots`, each unless an equal
/// path is there already.
pub open spec fn roots_added(roots: Seq<Seq<char>>, dirs: Seq<Seq<char>>) -> Seq<Seq<char>>
    decreases dirs.len(),
{
    if dirs.len() == 0 {
        roots
    } else {
        let prev = roots_added(roots, dirs.drop_last());
        if holds_path(prev, dirs.last()) {
            prev
        } else {
            prev.push(dirs.last())
        }
    }
}

/// The workspace roots: the directory `ONLINE_MEDIA_WORKSPACE_ROOT` names, then the
/// current directory and its ancestors, each once. Both arguments hold only existing
/// directories.
pub fn candidate_workspace_roots(env_root: Option<String>, ancestors: &Vec<String>) -> (r: Vec<String>)
    ensures
        strings_view(r@) == roots_added(
            match env_root {
                Some(e) => seq![e@],
                None => Seq::<Seq<char>>::empty(),
            },
            strings_view(ancestors@),
        ),
{
    let mut roots: Vec<String> = Vec::new();
    let ghost start = match env_root {
        Some(ref e) => seq![e@],
        None => Seq::<Seq<char>>::empty(),
    };
    match env_root {
        Some(e) => roots.push(e),
        None => {},
    }
    assert(strings_view(roots@) =~= start);
    let ghost ds = strings_view(ancestors@);
    let mut i: usize = 0;
    while i < ancestors.len()
        invariant
            i <= ancestors@.len(),
            ds == strings_view(ancestors@),
            strings_view(roots@) == roots_added(start, ds.take(i as int)),
        decreases ancestors@.len() - i,
    {
        proof {
            assert(ds.take(i as int + 1).drop_last() =~= ds.take(i as int));
            assert(ds.take(i as int + 1).last() == ancestors@[i as int]@);
        }
        let mut found = false;
        let mut j: usize = 0;
        while j < roots.len()
            invariant
                j <= roots@.len(),
                i < ancestors@.len(),
                found == exists|k: int| 0 <= k < j && path_eq(roots@[k]@, ancestors@[i as int]@),
            decreases roots@.len() - j,
        {
            if paths_equal(roots[j].as_str(), ancestors[i].as_str()) {
                found = true;
            }
            j = j + 1;
        }
        proof {
            let rv = strings_view(roots@);
            if found {
                let k = choose|k: int| 0 <= k < roots@.len() && path_eq(roots@[k]@, ancestors@[i as int]@);
                assert(rv[k] == roots@[k]@);
            } else {
                assert forall|k: int| 0 <= k < rv.len() implies !path_eq(rv[k], ancestors@[i as int]@) by {
                    assert(rv[k] == roots@[k]@);
                }
            }
        }
        if !found {
            let ghost before = strings_view(roots@);
            roots.push(ancestors[i].clone());
            assert(strings_view(roots@) =~= before.push(ancestors@[i as int]@));
        }
        i = i + 1;
    }
    assert(ds.take(ancestors@.len() as int) =~= ds);
    roots
}

/// Where yt-dlp is installed: `bin/yt-dlp` under the first workspace root.
pub fn ytdlp_install_dir(roots: &Vec<String>) -> (r: Option<String>)
    ensures
        opt_view(r) == if roots@.len() > 0 {
            Some(path_join(roots@[0]@, "bin/yt-dlp"@))
        } else {
            None
        },
{
    if roots.len() == 0 {
        None
    } else {
        Some(join_path(roots[0].as_str(), "bin/yt-dlp"))
    }
}

/// A path as text (the library holds paths as UTF-8, so nothing is lost).
pub fn display_path(path: &str) -> (r: String)
    ensures
        r@ == path@,
{
    String::from_str(path)
}

/// The version a `--version` run printed: its output trimmed, unless that is empty.
pub fn version_from_output(stdout: &str) -> (r: Option<String>)
    ensures
        opt_view(r) == if trim(stdout@).len() == 0 {
            None
        } else {
            Some(trim(stdout@))
        },
{
    let v = chars_of(stdout);
    let t = trim_chars(&v);
    if t.len() == 0 {
        None
    } else {
        Some(string_of(&t))
    }
}

/// The release asset yt-dlp is downloaded as on a platform.
pub open spec fn release_asset_of(os: Seq<char>, arch: Seq<char>) -> Option<Seq<char>> {
    if os == "linux"@ && arch == "x86_64"@ {
        Some("yt-dlp_linux"@)
    } else if os == "linux"@ && arch == "aarch64"@ {
        Some("yt-dlp_linux_aarch64"@)
    } else if os == "macos"@ {
        Some("yt-dlp_macos"@)
    } else if os == "windows"@ {
        Some("yt-dlp.exe"@)
    } else {
        None
    }
}

/// The release asset yt-dlp is downloaded as on a platform; `None` where there is none.
pub fn ytdlp_release_asset_name(os: &str, arch: &str) -> (r: Option<&'static str>)
    ensures
        match r {
            Some(a) => release_asset_of(os@, arch@) == Some(a@),
            None => release_asset_of(os@, arch@) is None,
        },
{
    let linux = crate::text::str_eq(os, "linux");
    if linux && crate::text::str_eq(arch, "x86_64") {
        Some("yt-dlp_linux")
    } else if linux && crate::text::str_eq(arch, "aarch64") {
        Some("yt-dlp_linux_aarch64")
    } else if crate::text::str_eq(os, "macos") {
        Some("yt-dlp_macos")
    } else if crate::text::str_eq(os, "windows") {
        Some("yt-dlp.exe")
    } else {
        None
    }
}

/// Where a yt-dlp install writes: the program in the install directory, and the
/// hidden temporary file it is first written to.
pub fn ytdlp_install_paths(install_dir: &str, windows: bool) -> (r: (String, String))
    ensures
        r.0@ == path_join(install_dir@, program_name("yt-dlp"@, windows)),
        r.1@ == path_join(install_dir@, "."@ + program_name("yt-dlp"@, windows) + ".tmp"@),
{
    let names = ytdlp_binary_candidates(windows);
    let name = names[0];
    let dest = join_path(install_dir, name);
    let mut t: Vec<char> = Vec::new();
    push_str(&mut t, ".");
    push_str(&mut t, name);
    push_str(&mut t, ".tmp");
    let tn = string_of(&t);
    let temp = join_path(install_dir, tn.as_str());
    (dest, temp)
}

/// Whether an installed yt-dlp is behind: both versions are known and differ.
pub fn needs_update(current: &Option<String>, latest: &Option<String>) -> (r: bool)
    ensures
        r == match (current, latest) {
            (Some(c), Some(l)) => c@ != l@,
            _ => false,
        },
{
    match (current, latest) {
        (Some(c), Some(l)) => !crate::text::str_eq(c.as_str(), l.as_str()),
        _ => false,
    }
}

} // verus!
