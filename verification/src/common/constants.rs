//! The fixed names and paths of the pipeline. Paths are text with `/` between
//! their parts; a leading `~/` stands for the home directory.

use vstd::prelude::*;
use vstd::string::{StrSliceExecFns, StringExecFns};

verus! {

/// The bundle id of the player app on the device.
pub const APP_BUNDLE_ID: &'static str = "org.videolan.vlc-ios";

/// The character between the parts of a path.
pub const SEPARATOR: char = '/';

/// `child` adjoined to `base`: an absolute `child` replaces `base`; otherwise
/// it follows `base`, after a separator where `base` does not end in one.
pub open spec fn joined(base: Seq<char>, child: Seq<char>) -> Seq<char> {
    if child.len() > 0 && child[0] == SEPARATOR {
        child
    } else if base.len() == 0 || base.last() == SEPARATOR {
        base + child
    } else {
        base + seq![SEPARATOR] + child
    }
}

/// Whether `path` starts with `~/`.
pub open spec fn is_home_relative(path: Seq<char>) -> bool {
    path.len() >= 2 && path[0] == '~' && path[1] == SEPARATOR
}

/// `path` with a leading `~/` replaced by the home directory, where there is
/// both such a prefix and a home directory; otherwise `path` as it is.
pub open spec fn expanded(path: Seq<char>, home: Option<Seq<char>>) -> Seq<char> {
    match home {
        Some(home) if is_home_relative(path) => joined(home, path.skip(2)),
        _ => path,
    }
}

/// The value of an optional string.
pub open spec fn optional_text(text: Option<&str>) -> Option<Seq<char>> {
    match text {
        Some(text) => Some(text@),
        None => None,
    }
}

/// Adjoins `child` to `base`.
pub fn join_path(base: &str, child: &str) -> (path: String)
    ensures
        path@ == joined(base@, child@),
{
    let base_len = base.unicode_len();
    let child_len = child.unicode_len();
    if child_len > 0 && child.get_char(0) == SEPARATOR {
        String::from_str(child)
    } else {
        let mut path = String::from_str(base);
        if base_len > 0 && base.get_char(base_len - 1) != SEPARATOR {
            path.append("/");
            proof {
                reveal_strlit("/");
                assert("/"@ =~= seq![SEPARATOR]);
            }
        }
        path.append(child);
        path
    }
}

/// Turns a path text into a path, with a leading `~/` replaced by `home`
/// where a home directory is given.
pub fn convert_path_string_to_pathbuf(path: &str, home: Option<&str>) -> (full: String)
    ensures
        full@ == expanded(path@, optional_text(home)),
{
    let len = path.unicode_len();
    if len >= 2 && path.get_char(0) == '~' && path.get_char(1) == SEPARATOR {
        match home {
            Some(home) => {
                let rest = path.substring_char(2, len);
                assert(path@.subrange(2, len as int) =~= path@.skip(2));
                return join_path(home, rest);
            },
            None => {},
        }
    }
    String::from_str(path)
}

/// The song list: what is still to be downloaded.
pub fn youtube_songs_file() -> (path: String)
    ensures
        path@ == "youtube_files/ytb-songs.txt"@,
{
    String::from_str("youtube_files/ytb-songs.txt")
}

/// The historic ledger: what has been downloaded.
pub fn youtube_songs_historic_path() -> (path: String)
    ensures
        path@ == "youtube_files/ytb-songs-historic.txt"@,
{
    String::from_str("youtube_files/ytb-songs-historic.txt")
}

/// Where the device is mounted: `VLC` in the home directory.
pub fn mounting_path(home: Option<&str>) -> (path: String)
    ensures
        path@ == expanded("~/VLC"@, optional_text(home)),
{
    convert_path_string_to_pathbuf("~/VLC", home)
}

/// Where the downloader puts the songs: `Music/DLP/` in the home directory.
pub fn download_path(home: Option<&str>) -> (path: String)
    ensures
        path@ == expanded("~/Music/DLP/"@, optional_text(home)),
{
    convert_path_string_to_pathbuf("~/Music/DLP/", home)
}

} // verus!
