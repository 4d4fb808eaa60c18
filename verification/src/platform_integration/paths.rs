//! Font file paths: extensions, file stems and the home directory.
//!
//! Paths are read as bytes. The last component of a path is what follows
//! its last `/`; the extension of a component is what follows its last
//! `.`, unless that `.` is the first byte of the component.

use vstd::prelude::*;
use vstd::string::{StrSliceExecFns, StringExecFns};
use vstd::utf8::{encode_utf8, valid_utf8};
use crate::font_parser::bytes::utf8_str;
use crate::font_registry::registry::{ascii_lower, spec_ascii_lower};
use crate::platform_integration::types::Platform;

verus! {

/// The byte `/`.
pub const SLASH: u8 = 0x2F;

/// The byte `.`.
pub const DOT: u8 = 0x2E;

/// Index of the byte after the last `b` among the first `k` bytes of
/// `bytes`, or 0 when `b` does not occur among them.
pub open spec fn spec_after_last(bytes: Seq<u8>, b: u8, k: int) -> int
    decreases k,
{
    if k <= 0 {
        0
    } else if bytes[k - 1] == b {
        k
    } else {
        spec_after_last(bytes, b, k - 1)
    }
}

/// Start of the last component of a path.
pub open spec fn spec_name_start(path: Seq<u8>) -> int {
    spec_after_last(path, SLASH, path.len() as int)
}

/// The last component of a path.
pub open spec fn spec_file_name(path: Seq<u8>) -> Seq<u8> {
    path.subrange(spec_name_start(path), path.len() as int)
}

/// The extension of a file name: what follows its last `.`; nothing when
/// the name has no `.` or only one at its start.
pub open spec fn spec_name_extension(name: Seq<u8>) -> Option<Seq<u8>> {
    let after_dot = spec_after_last(name, DOT, name.len() as int);
    if after_dot <= 1 {
        None
    } else {
        Some(name.subrange(after_dot, name.len() as int))
    }
}

/// The stem of a file name: what precedes its extension.
pub open spec fn spec_name_stem(name: Seq<u8>) -> Seq<u8> {
    let after_dot = spec_after_last(name, DOT, name.len() as int);
    if after_dot <= 1 {
        name
    } else {
        name.subrange(0, after_dot - 1)
    }
}

/// The extension of the last component of a path.
pub open spec fn spec_extension(path: Seq<u8>) -> Option<Seq<u8>> {
    spec_name_extension(spec_file_name(path))
}

/// Whether `bytes`, with ASCII letters folded to lower case, equal `lower`.
pub open spec fn spec_folds_to(bytes: Seq<u8>, lower: Seq<u8>) -> bool {
    bytes.len() == lower.len() && forall|i: int|
        0 <= i < bytes.len() ==> spec_ascii_lower(#[trigger] bytes[i]) == lower[i]
}

/// Whether an extension, whatever its case, is one of the font file
/// extensions of a platform: `ttf`, `otf`, `ttc` and `otc` everywhere,
/// `woff`, `woff2`, `pfb` and `pfa` on Linux as well, `dfont` on macOS.
pub open spec fn spec_font_extension(extension: Seq<u8>, platform: Platform) -> bool {
    ||| spec_folds_to(extension, encode_utf8("ttf"@))
    ||| spec_folds_to(extension, encode_utf8("otf"@))
    ||| spec_folds_to(extension, encode_utf8("ttc"@))
    ||| spec_folds_to(extension, encode_utf8("otc"@))
    ||| platform == Platform::Linux && (spec_folds_to(extension, encode_utf8("woff"@))
        || spec_folds_to(extension, encode_utf8("woff2"@)) || spec_folds_to(
        extension,
        encode_utf8("pfb"@),
    ) || spec_folds_to(extension, encode_utf8("pfa"@)))
    ||| platform == Platform::MacOS && spec_folds_to(extension, encode_utf8("dfont"@))
}

/// Whether a path names a font file on a platform: its last component
/// has an extension, and that is a font file extension of the platform.
pub open spec fn spec_is_font_file(path: Seq<u8>, platform: Platform) -> bool {
    spec_extension(path) matches Some(extension) && spec_font_extension(extension, platform)
}

/// `spec_after_last` lies within the bytes it looks at.
pub proof fn lemma_after_last(bytes: Seq<u8>, b: u8, k: int)
    requires
        0 <= k <= bytes.len(),
    ensures
        0 <= spec_after_last(bytes, b, k) <= k,
    decreases k,
{
    if k > 0 && bytes[k - 1] != b {
        lemma_after_last(bytes, b, k - 1);
    }
}

/// Index of the byte after the last `b` in `bytes` from `from` on, or
/// `from` when `b` does not occur there.
fn after_last(bytes: &[u8], b: u8, from: usize) -> (r: usize)
    requires
        from <= bytes@.len(),
    ensures
        r - from == spec_after_last(bytes@.subrange(from as int, bytes@.len() as int), b, bytes@.len() - from),
        from <= r <= bytes@.len(),
{
    let ghost tail = bytes@.subrange(from as int, bytes@.len() as int);
    let mut k: usize = bytes.len();
    while k > from
        invariant
            from <= k <= bytes@.len(),
            tail == bytes@.subrange(from as int, bytes@.len() as int),
            spec_after_last(tail, b, bytes@.len() - from) == spec_after_last(tail, b, k - from),
        decreases k,
    {
        assert(tail[k - from - 1] == bytes@[k - 1]);
        if bytes[k - 1] == b {
            return k;
        }
        k = k - 1;
    }
    k
}

/// Whether `bytes`, with ASCII letters folded to lower case, equal the
/// bytes of the lower-case text `lower`.
fn folds_to(bytes: &[u8], lower: &str) -> (r: bool)
    ensures
        r == spec_folds_to(bytes@, encode_utf8(lower@)),
{
    let target: &[u8] = lower.as_bytes();
    if bytes.len() != target.len() {
        return false;
    }
    let mut i: usize = 0;
    while i < bytes.len()
        invariant
            target@ == encode_utf8(lower@),
            bytes@.len() == target@.len(),
            i <= bytes@.len(),
            forall|k: int| 0 <= k < i ==> spec_ascii_lower(#[trigger] bytes@[k]) == target@[k],
        decreases bytes@.len() - i,
    {
        if ascii_lower(bytes[i]) != target[i] {
            assert(spec_ascii_lower(bytes@[i as int]) != target@[i as int]);
            return false;
        }
        i = i + 1;
    }
    true
}

/// Whether a path names a font file on a platform; see [`spec_is_font_file`].
pub fn is_font_file(path: &str, platform: Platform) -> (r: bool)
    ensures
        r == spec_is_font_file(encode_utf8(path@), platform),
{
    let bytes: &[u8] = path.as_bytes();
    let name_start: usize = after_last(bytes, SLASH, 0);
    assert(bytes@.subrange(0, bytes@.len() as int) =~= bytes@);
    let after_dot: usize = after_last(bytes, DOT, name_start);
    if after_dot - name_start <= 1 {
        return false;
    }
    let extension: &[u8] = vstd::slice::slice_subrange(bytes, after_dot, bytes.len());
    proof {
        let name = spec_file_name(bytes@);
        assert(extension@ =~= name.subrange(after_dot - name_start, name.len() as int));
    }
    let common: bool = folds_to(extension, "ttf") || folds_to(extension, "otf") || folds_to(
        extension,
        "ttc",
    ) || folds_to(extension, "otc");
    if common {
        return true;
    }
    match platform {
        Platform::Linux => folds_to(extension, "woff") || folds_to(extension, "woff2") || folds_to(
            extension,
            "pfb",
        ) || folds_to(extension, "pfa"),
        Platform::MacOS => folds_to(extension, "dfont"),
        _ => false,
    }
}

/// The family name that a path stands for: the stem of its last
/// component, or `Unknown` when the stem is empty or not well-formed text.
pub open spec fn spec_family_from_path(path: Seq<u8>) -> Seq<u8> {
    let stem = spec_name_stem(spec_file_name(path));
    if stem.len() > 0 && valid_utf8(stem) {
        stem
    } else {
        encode_utf8("Unknown"@)
    }
}

/// The family name that a path stands for; see [`spec_family_from_path`].
pub fn extract_family_from_path(path: &str) -> (family: String)
    ensures
        encode_utf8(family@) == spec_family_from_path(encode_utf8(path@)),
{
    let bytes: &[u8] = path.as_bytes();
    let name_start: usize = after_last(bytes, SLASH, 0);
    assert(bytes@.subrange(0, bytes@.len() as int) =~= bytes@);
    let after_dot: usize = after_last(bytes, DOT, name_start);
    let stem_end: usize = if after_dot - name_start <= 1 {
        bytes.len()
    } else {
        after_dot - 1
    };
    let stem: &[u8] = vstd::slice::slice_subrange(bytes, name_start, stem_end);
    proof {
        let name = spec_file_name(bytes@);
        assert(stem@ =~= spec_name_stem(name));
    }
    if stem.len() == 0 {
        return String::from_str("Unknown");
    }
    match utf8_str(stem) {
        Some(text) => String::from_str(text),
        None => String::from_str("Unknown"),
    }
}

/// The path `rest` below the directory `base`: `rest` itself when it
/// starts at the root; otherwise `base` and `rest`, with a `/` between them
/// unless `base` is empty or ends in one.
pub open spec fn spec_joined(base: Seq<char>, rest: Seq<char>) -> Seq<char> {
    if rest.len() > 0 && rest[0] == '/' {
        rest
    } else if base.len() == 0 || base.last() == '/' {
        base + rest
    } else {
        base + seq!['/'] + rest
    }
}

/// A path whose leading `~/` stands for the home directory: what follows
/// the `~/`, below the home directory. Any other path, and every path when
/// the home directory is not known, stays as it is.
pub open spec fn spec_expand_home(path: Seq<char>, home: Option<Seq<char>>) -> Seq<char> {
    match home {
        Some(dir) => if path.len() >= 2 && path[0] == '~' && path[1] == '/' {
            spec_joined(dir, path.subrange(2, path.len() as int))
        } else {
            path
        },
        None => path,
    }
}

/// The path `rest` below the directory `base`; see [`spec_joined`].
pub fn join_path(base: &str, rest: &str) -> (joined: String)
    ensures
        joined@ == spec_joined(base@, rest@),
{
    let rest_len: usize = rest.unicode_len();
    if rest_len > 0 && rest.get_char(0) == '/' {
        return String::from_str(rest);
    }
    let base_len: usize = base.unicode_len();
    if base_len == 0 || base.get_char(base_len - 1) == '/' {
        String::from_str(base).concat(rest)
    } else {
        proof {
            reveal_strlit("/");
            assert("/"@ =~= seq!['/']);
        }
        String::from_str(base).concat("/").concat(rest)
    }
}

/// The name `name` below the Windows directory `base`: with a backslash
/// between them unless `base` is empty or ends in a backslash or in `/`.
pub open spec fn spec_joined_windows(base: Seq<char>, name: Seq<char>) -> Seq<char> {
    if base.len() == 0 || base.last() == '\\' || base.last() == '/' {
        base + name
    } else {
        base + seq!['\\'] + name
    }
}

/// The name `name` below the Windows directory `base`; see
/// [`spec_joined_windows`].
pub fn join_windows(base: &str, name: &str) -> (joined: String)
    ensures
        joined@ == spec_joined_windows(base@, name@),
{
    let base_len: usize = base.unicode_len();
    if base_len == 0 || base.get_char(base_len - 1) == '\\' || base.get_char(base_len - 1) == '/' {
        String::from_str(base).concat(name)
    } else {
        proof {
            reveal_strlit("\\");
            assert("\\"@ =~= seq!['\\']);
        }
        String::from_str(base).concat("\\").concat(name)
    }
}

/// A path with a leading `~/` replaced by the home directory; see
/// [`spec_expand_home`].
pub fn expand_home(path: &str, home: Option<&str>) -> (expanded: String)
    ensures
        expanded@ == spec_expand_home(
            path@,
            match home {
                Some(dir) => Some(dir@),
                None => None,
            },
        ),
{
    match home {
        Some(dir) => {
            let n: usize = path.unicode_len();
            if n >= 2 && path.get_char(0) == '~' && path.get_char(1) == '/' {
                join_path(dir, path.substring_char(2, n))
            } else {
                String::from_str(path)
            }
        },
        None => String::from_str(path),
    }
}

} // verus!
