//! Where the fonts of a platform are looked for, and how the output of
//! `fc-list` is read.
//!
//! Listing directories and running `fc-list` is left to the caller; the
//! functions here say which directories to list and which paths a listing
//! names.

use vstd::prelude::*;
use vstd::string::StringExecFns;
use vstd::utf8::{encode_utf8, valid_utf8};
use crate::font_parser::bytes::utf8_str;
use crate::platform_integration::discovery::{spec_names, spec_text};
use crate::platform_integration::order::spec_path_bytes;
use crate::platform_integration::paths::{
    expand_home,
    join_path,
    join_windows,
    spec_expand_home,
    spec_joined,
    spec_joined_windows,
};
use crate::platform_integration::types::Platform;

verus! {

/// The byte that ends a line.
pub const LINE_FEED: u8 = 0x0A;

/// The directories that hold the fonts of a platform: on Linux the two
/// shared font directories and the two font directories of the user; on
/// Windows `Fonts` below the Windows directory, where that is known; on
/// macOS the two font directories of the system and, where the home
/// directory is known, `Library/Fonts` below it.
pub open spec fn spec_font_directories(
    platform: Platform,
    home: Option<Seq<char>>,
    windir: Option<Seq<char>>,
) -> Seq<Seq<char>> {
    match platform {
        Platform::Linux => seq![
            "/usr/share/fonts"@,
            "/usr/local/share/fonts"@,
            spec_expand_home("~/.fonts"@, home),
            spec_expand_home("~/.local/share/fonts"@, home),
        ],
        Platform::Windows => match windir {
            Some(dir) => seq![spec_joined_windows(dir, "Fonts"@)],
            None => Seq::<Seq<char>>::empty(),
        },
        Platform::MacOS => match home {
            Some(dir) => seq![
                "/System/Library/Fonts"@,
                "/Library/Fonts"@,
                spec_joined(dir, "Library/Fonts"@),
            ],
            None => seq!["/System/Library/Fonts"@, "/Library/Fonts"@],
        },
        Platform::Unknown => Seq::<Seq<char>>::empty(),
    }
}

/// The directories that hold the fonts of a platform; see
/// [`spec_font_directories`].
pub fn font_directories(platform: Platform, home: Option<&str>, windir: Option<&str>) -> (dirs:
    Vec<String>)
    ensures
        spec_names(dirs@) == spec_font_directories(platform, spec_text(home), spec_text(windir)),
{
    let mut dirs: Vec<String> = Vec::new();
    match platform {
        Platform::Linux => {
            dirs.push(String::from_str("/usr/share/fonts"));
            dirs.push(String::from_str("/usr/local/share/fonts"));
            dirs.push(expand_home("~/.fonts", home));
            dirs.push(expand_home("~/.local/share/fonts", home));
        },
        Platform::Windows => {
            match windir {
                Some(dir) => {
                    dirs.push(join_windows(dir, "Fonts"));
                },
                None => {},
            }
        },
        Platform::MacOS => {
            dirs.push(String::from_str("/System/Library/Fonts"));
            dirs.push(String::from_str("/Library/Fonts"));
            match home {
                Some(dir) => {
                    dirs.push(join_path(dir, "Library/Fonts"));
                },
                None => {},
            }
        },
        Platform::Unknown => {},
    }
    proof {
        assert(spec_names(dirs@) =~= spec_font_directories(
            platform,
            spec_text(home),
            spec_text(windir),
        ));
    }
    dirs
}

/// Whether the font directories of a platform are searched with all that
/// lies below them: on Linux they are; elsewhere only the files in the
/// directories themselves count.
pub fn scans_subdirectories(platform: Platform) -> (deep: bool)
    ensures
        deep == (platform == Platform::Linux),
{
    match platform {
        Platform::Linux => true,
        _ => false,
    }
}

/// Whether a byte is ASCII white space: a blank, or one of the control
/// characters from tab to carriage return.
pub open spec fn spec_is_space(b: u8) -> bool {
    b == 0x20 || (0x09 <= b && b <= 0x0D)
}

/// The index at which the line that starts at `from` ends: that of the
/// next line feed, or the end of the text.
pub open spec fn spec_line_end(bytes: Seq<u8>, from: int) -> int
    decreases bytes.len() - from,
{
    if from < 0 || from >= bytes.len() || bytes[from] == LINE_FEED {
        from
    } else {
        spec_line_end(bytes, from + 1)
    }
}

/// The first index from `from` on, and before `to`, whose byte is not white
/// space; `to` when there is none.
pub open spec fn spec_skip_spaces(bytes: Seq<u8>, from: int, to: int) -> int
    decreases to - from,
{
    if from >= to || !spec_is_space(bytes[from]) {
        from
    } else {
        spec_skip_spaces(bytes, from + 1, to)
    }
}

/// The index behind the last byte before `to`, and not before `from`, that
/// is not white space; `from` when there is none.
pub open spec fn spec_drop_spaces(bytes: Seq<u8>, from: int, to: int) -> int
    decreases to - from,
{
    if to <= from || !spec_is_space(bytes[to - 1]) {
        to
    } else {
        spec_drop_spaces(bytes, from, to - 1)
    }
}

/// The bytes between `from` and `to` without the white space at their
/// start and at their end.
pub open spec fn spec_trimmed(bytes: Seq<u8>, from: int, to: int) -> Seq<u8> {
    let start = spec_skip_spaces(bytes, from, to);
    bytes.subrange(start, spec_drop_spaces(bytes, start, to))
}

/// The paths that the lines from `from` on name: each line without the
/// white space around it, where something is left and it is well-formed
/// text.
pub open spec fn spec_listed_paths(bytes: Seq<u8>, from: int) -> Seq<Seq<u8>>
    decreases bytes.len() - from,
    via lemma_lines_advance
{
    if from < 0 || from >= bytes.len() {
        Seq::<Seq<u8>>::empty()
    } else {
        let end = spec_line_end(bytes, from);
        let line = spec_trimmed(bytes, from, end);
        let rest = if end < bytes.len() {
            spec_listed_paths(bytes, end + 1)
        } else {
            Seq::<Seq<u8>>::empty()
        };
        if line.len() > 0 && valid_utf8(line) {
            seq![line] + rest
        } else {
            rest
        }
    }
}

/// The line after a line starts behind the start of that line.
#[via_fn]
proof fn lemma_lines_advance(bytes: Seq<u8>, from: int) {
    if 0 <= from < bytes.len() {
        lemma_line_end(bytes, from);
    }
}

/// A line ends at or behind its start, and not behind the end of the text.
proof fn lemma_line_end(bytes: Seq<u8>, from: int)
    requires
        0 <= from <= bytes.len(),
    ensures
        from <= spec_line_end(bytes, from) <= bytes.len(),
    decreases bytes.len() - from,
{
    if from < bytes.len() && bytes[from] != LINE_FEED {
        lemma_line_end(bytes, from + 1);
    }
}

/// The paths that the output of `fc-list` names when it is asked to print
/// one file per line: every line without the white space around it, in
/// order; empty lines are left out.
pub fn fc_list_paths(output: &str) -> (paths: Vec<String>)
    ensures
        spec_path_bytes(paths@) == spec_listed_paths(encode_utf8(output@), 0),
{
    let bytes: &[u8] = output.as_bytes();
    let len: usize = bytes.len();
    let mut paths: Vec<String> = Vec::new();
    let mut from: usize = 0;
    while from < len
        invariant
            len == bytes@.len(),
            bytes@ == encode_utf8(output@),
            from <= len,
            spec_path_bytes(paths@) + spec_listed_paths(bytes@, from as int) == spec_listed_paths(
                bytes@,
                0,
            ),
        decreases len - from,
    {
        let mut end: usize = from;
        while end < len && bytes[end] != LINE_FEED
            invariant
                from <= end <= len,
                len == bytes@.len(),
                spec_line_end(bytes@, from as int) == spec_line_end(bytes@, end as int),
            decreases len - end,
        {
            end = end + 1;
        }
        let mut start: usize = from;
        while start < end && is_space(bytes[start])
            invariant
                from <= start <= end <= len,
                len == bytes@.len(),
                spec_skip_spaces(bytes@, from as int, end as int) == spec_skip_spaces(
                    bytes@,
                    start as int,
                    end as int,
                ),
            decreases end - start,
        {
            start = start + 1;
        }
        let mut stop: usize = end;
        while stop > start && is_space(bytes[stop - 1])
            invariant
                start <= stop <= end <= len,
                len == bytes@.len(),
                spec_drop_spaces(bytes@, start as int, end as int) == spec_drop_spaces(
                    bytes@,
                    start as int,
                    stop as int,
                ),
            decreases stop - start,
        {
            stop = stop - 1;
        }
        let ghost before = spec_path_bytes(paths@);
        let ghost rest = if end < len {
            spec_listed_paths(bytes@, end + 1)
        } else {
            Seq::<Seq<u8>>::empty()
        };
        if stop > start {
            let line: &[u8] = vstd::slice::slice_subrange(bytes, start, stop);
            assert(line@ == spec_trimmed(bytes@, from as int, end as int));
            match utf8_str(line) {
                Some(text) => {
                    paths.push(String::from_str(text));
                    assert(spec_path_bytes(paths@) =~= before.push(line@));
                    assert(before.push(line@) + rest =~= before + (seq![line@] + rest));
                },
                None => {},
            }
        } else {
            assert(spec_trimmed(bytes@, from as int, end as int).len() == 0);
        }
        proof {
            lemma_line_end(bytes@, from as int);
        }
        if end < len {
            from = end + 1;
        } else {
            assert(rest =~= spec_listed_paths(bytes@, len as int));
            from = len;
        }
    }
    proof {
        assert(spec_listed_paths(bytes@, from as int) =~= Seq::<Seq<u8>>::empty());
        assert(spec_path_bytes(paths@) + Seq::<Seq<u8>>::empty() =~= spec_path_bytes(paths@));
    }
    paths
}

/// Whether a byte is ASCII white space.
fn is_space(b: u8) -> (space: bool)
    ensures
        space == spec_is_space(b),
{
    b == 0x20 || (0x09 <= b && b <= 0x0D)
}

} // verus!
