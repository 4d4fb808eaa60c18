//! Discovery of the fonts of a platform.
//!
//! Listing directories and asking the font configuration of the system is
//! left to the caller. The functions here decide what is done with what was
//! found: which paths are font files, how the values of fontconfig map to
//! weights and styles, and which description a font gets.

use std::collections::HashMap;
use vstd::prelude::*;
use vstd::std_specs::hash::obeys_key_model;
use vstd::string::StringExecFns;
use vstd::utf8::encode_utf8;
use crate::font_types::{FontStyle, FontWeight};
use crate::platform_integration::order::{
    lemma_path_less_irreflexive,
    lemma_sorted,
    lemma_unique,
    place_path,
    spec_path_bytes,
    spec_path_less,
    spec_paths_ascend,
    spec_sorted,
    spec_unique,
};
use crate::platform_integration::paths::{
    expand_home,
    join_windows,
    spec_joined_windows,
    extract_family_from_path,
    is_font_file,
    spec_expand_home,
    spec_family_from_path,
    spec_is_font_file,
};
use crate::platform_integration::types::{FontCategory, Platform, PlatformFontInfo};
use crate::text_shaper::features::bytes_equal;

verus! {

/// The angle of 10 degrees, as 16.16 fixed point.
pub const OBLIQUE_ANGLE: i32 = 655360;

/// The weight that fontconfig gives a font without one: regular.
pub const FONTCONFIG_DEFAULT_WEIGHT: i32 = 80;

/// The platform with the given operating system name, as the standard
/// library spells it: `linux`, `windows` or `macos`.
pub open spec fn spec_detect_platform(os: Seq<char>) -> Platform {
    if os == "linux"@ {
        Platform::Linux
    } else if os == "windows"@ {
        Platform::Windows
    } else if os == "macos"@ {
        Platform::MacOS
    } else {
        Platform::Unknown
    }
}

/// Whether two strings are the same text.
fn same_text(a: &str, b: &str) -> (same: bool)
    ensures
        same == (a@ == b@),
{
    let same: bool = bytes_equal(a.as_bytes(), b.as_bytes());
    proof {
        vstd::utf8::encode_utf8_decode_utf8(a@);
        vstd::utf8::encode_utf8_decode_utf8(b@);
    }
    same
}

/// The platform with the given operating system name.
pub fn detect_platform(os: &str) -> (platform: Platform)
    ensures
        platform == spec_detect_platform(os@),
{
    if same_text(os, "linux") {
        Platform::Linux
    } else if same_text(os, "windows") {
        Platform::Windows
    } else if same_text(os, "macos") {
        Platform::MacOS
    } else {
        Platform::Unknown
    }
}

/// The weight for a weight of fontconfig, whose scale runs from 0 (thin)
/// over 80 (regular) and 200 (bold) to 210 and beyond (black).
pub open spec fn spec_fontconfig_weight(fc_weight: i32) -> FontWeight {
    if 0 <= fc_weight <= 40 {
        FontWeight::Thin
    } else if 41 <= fc_weight <= 55 {
        FontWeight::ExtraLight
    } else if 56 <= fc_weight <= 75 {
        FontWeight::Light
    } else if 76 <= fc_weight <= 90 {
        FontWeight::Regular
    } else if 91 <= fc_weight <= 110 {
        FontWeight::Medium
    } else if 111 <= fc_weight <= 180 {
        FontWeight::SemiBold
    } else if 181 <= fc_weight <= 200 {
        FontWeight::Bold
    } else if 201 <= fc_weight <= 209 {
        FontWeight::ExtraBold
    } else {
        FontWeight::Black
    }
}

/// The weight for a weight of fontconfig; see [`spec_fontconfig_weight`].
pub fn map_fontconfig_weight(fc_weight: i32) -> (weight: FontWeight)
    ensures
        weight == spec_fontconfig_weight(fc_weight),
{
    if 0 <= fc_weight && fc_weight <= 40 {
        FontWeight::Thin
    } else if 41 <= fc_weight && fc_weight <= 55 {
        FontWeight::ExtraLight
    } else if 56 <= fc_weight && fc_weight <= 75 {
        FontWeight::Light
    } else if 76 <= fc_weight && fc_weight <= 90 {
        FontWeight::Regular
    } else if 91 <= fc_weight && fc_weight <= 110 {
        FontWeight::Medium
    } else if 111 <= fc_weight && fc_weight <= 180 {
        FontWeight::SemiBold
    } else if 181 <= fc_weight && fc_weight <= 200 {
        FontWeight::Bold
    } else if 201 <= fc_weight && fc_weight <= 209 {
        FontWeight::ExtraBold
    } else {
        FontWeight::Black
    }
}

/// The style for a slant of fontconfig: 100 is italic, 110 is oblique by
/// about 10 degrees, anything else is upright.
pub open spec fn spec_fontconfig_slant(fc_slant: i32) -> FontStyle {
    if fc_slant == 100 {
        FontStyle::Italic
    } else if fc_slant == 110 {
        FontStyle::Oblique(OBLIQUE_ANGLE)
    } else {
        FontStyle::Normal
    }
}

/// The style for a slant of fontconfig; see [`spec_fontconfig_slant`].
pub fn map_fontconfig_slant(fc_slant: i32) -> (style: FontStyle)
    ensures
        style == spec_fontconfig_slant(fc_slant),
{
    if fc_slant == 100 {
        FontStyle::Italic
    } else if fc_slant == 110 {
        FontStyle::Oblique(OBLIQUE_ANGLE)
    } else {
        FontStyle::Normal
    }
}

/// The default families of a platform, by category.
#[derive(Debug, Clone, PartialEq)]
pub struct DefaultFamilies {
    /// Families with serifs.
    pub serif: Vec<String>,
    /// Families without serifs.
    pub sans_serif: Vec<String>,
    /// Families in which every glyph has the same width.
    pub monospace: Vec<String>,
    /// Families that imitate handwriting.
    pub cursive: Vec<String>,
    /// Decorative families.
    pub fantasy: Vec<String>,
    /// Families with emoji.
    pub emoji: Vec<String>,
}

impl DefaultFamilies {
    /// The families of a category.
    pub open spec fn spec_get(self, category: FontCategory) -> Vec<String> {
        match category {
            FontCategory::Serif => self.serif,
            FontCategory::SansSerif => self.sans_serif,
            FontCategory::Monospace => self.monospace,
            FontCategory::Cursive => self.cursive,
            FontCategory::Fantasy => self.fantasy,
            FontCategory::Emoji => self.emoji,
        }
    }

    /// The families of a category. Every category has an entry.
    pub fn get(&self, category: &FontCategory) -> (r: Option<&Vec<String>>)
        ensures
            r == Some(&self.spec_get(*category)),
    {
        match category {
            FontCategory::Serif => Some(&self.serif),
            FontCategory::SansSerif => Some(&self.sans_serif),
            FontCategory::Monospace => Some(&self.monospace),
            FontCategory::Cursive => Some(&self.cursive),
            FontCategory::Fantasy => Some(&self.fantasy),
            FontCategory::Emoji => Some(&self.emoji),
        }
    }

    /// Whether a category has an entry: every category has.
    pub fn contains_key(&self, _category: &FontCategory) -> (b: bool)
        ensures
            b,
    {
        true
    }

    /// Number of categories: six.
    pub fn len(&self) -> (n: usize)
        ensures
            n == 6,
    {
        6
    }
}

/// A list of the given names.
fn names(a: &str, b: &str) -> (list: Vec<String>)
    ensures
        list@.len() == 2,
        list@[0]@ == a@,
        list@[1]@ == b@,
{
    let mut list: Vec<String> = Vec::new();
    list.push(String::from_str(a));
    list.push(String::from_str(b));
    list
}

/// A list with one more name at its end.
fn with_name(list: Vec<String>, name: &str) -> (longer: Vec<String>)
    ensures
        longer@.len() == list@.len() + 1,
        longer@[list@.len() as int]@ == name@,
        forall|i: int| 0 <= i < list@.len() ==> longer@[i] == list@[i],
{
    let mut longer: Vec<String> = list;
    longer.push(String::from_str(name));
    longer
}

/// The texts of a list of names.
pub open spec fn spec_names(list: Seq<String>) -> Seq<Seq<char>> {
    Seq::new(list.len(), |i: int| list[i]@)
}

/// The default families of a platform in a category, in order of
/// preference. An unknown platform has none in any category.
pub open spec fn spec_default_names(platform: Platform, category: FontCategory) -> Seq<Seq<char>> {
    match platform {
        Platform::Linux => match category {
            FontCategory::Serif => seq!["DejaVu Serif"@, "Liberation Serif"@, "Noto Serif"@, "Times New Roman"@],
            FontCategory::SansSerif => seq!["DejaVu Sans"@, "Liberation Sans"@, "Noto Sans"@, "Arial"@],
            FontCategory::Monospace => seq!["DejaVu Sans Mono"@, "Liberation Mono"@, "Noto Mono"@, "Courier New"@],
            FontCategory::Cursive => seq!["URW Chancery L"@, "Comic Sans MS"@],
            FontCategory::Fantasy => seq!["Impact"@, "Copperplate"@],
            FontCategory::Emoji => seq!["Noto Color Emoji"@, "Emoji One"@],
        },
        Platform::Windows => match category {
            FontCategory::Serif => seq!["Times New Roman"@, "Georgia"@, "Palatino Linotype"@],
            FontCategory::SansSerif => seq!["Arial"@, "Verdana"@, "Tahoma"@, "Segoe UI"@],
            FontCategory::Monospace => seq!["Courier New"@, "Consolas"@, "Lucida Console"@],
            FontCategory::Cursive => seq!["Comic Sans MS"@, "Brush Script MT"@],
            FontCategory::Fantasy => seq!["Impact"@, "Copperplate Gothic"@],
            FontCategory::Emoji => seq!["Segoe UI Emoji"@],
        },
        Platform::MacOS => match category {
            FontCategory::Serif => seq!["Times New Roman"@, "Georgia"@, "Palatino"@],
            FontCategory::SansSerif => seq!["Helvetica"@, "Arial"@, "Verdana"@, "San Francisco"@],
            FontCategory::Monospace => seq!["Courier"@, "Monaco"@, "Menlo"@],
            FontCategory::Cursive => seq!["Apple Chancery"@, "Comic Sans MS"@],
            FontCategory::Fantasy => seq!["Papyrus"@, "Impact"@],
            FontCategory::Emoji => seq!["Apple Color Emoji"@],
        },
        Platform::Unknown => Seq::<Seq<char>>::empty(),
    }
}

/// A list of one name.
fn one_name(a: &str) -> (list: Vec<String>)
    ensures
        list@.len() == 1,
        list@[0]@ == a@,
{
    let mut list: Vec<String> = Vec::new();
    list.push(String::from_str(a));
    list
}

/// The default families of a platform: in every category the families of
/// [`spec_default_names`], in their order.
pub fn get_defaults(platform: Platform) -> (defaults: DefaultFamilies)
    ensures
        forall|category: FontCategory|
            spec_names(#[trigger] defaults.spec_get(category)@) == spec_default_names(
                platform,
                category,
            ),
{
    let defaults: DefaultFamilies = match platform {
        Platform::Linux => DefaultFamilies {
            serif: with_name(with_name(names("DejaVu Serif", "Liberation Serif"), "Noto Serif"), "Times New Roman"),
            sans_serif: with_name(with_name(names("DejaVu Sans", "Liberation Sans"), "Noto Sans"), "Arial"),
            monospace: with_name(with_name(names("DejaVu Sans Mono", "Liberation Mono"), "Noto Mono"), "Courier New"),
            cursive: names("URW Chancery L", "Comic Sans MS"),
            fantasy: names("Impact", "Copperplate"),
            emoji: names("Noto Color Emoji", "Emoji One"),
        },
        Platform::Windows => DefaultFamilies {
            serif: with_name(names("Times New Roman", "Georgia"), "Palatino Linotype"),
            sans_serif: with_name(with_name(names("Arial", "Verdana"), "Tahoma"), "Segoe UI"),
            monospace: with_name(names("Courier New", "Consolas"), "Lucida Console"),
            cursive: names("Comic Sans MS", "Brush Script MT"),
            fantasy: names("Impact", "Copperplate Gothic"),
            emoji: one_name("Segoe UI Emoji"),
        },
        Platform::MacOS => DefaultFamilies {
            serif: with_name(names("Times New Roman", "Georgia"), "Palatino"),
            sans_serif: with_name(with_name(names("Helvetica", "Arial"), "Verdana"), "San Francisco"),
            monospace: with_name(names("Courier", "Monaco"), "Menlo"),
            cursive: names("Apple Chancery", "Comic Sans MS"),
            fantasy: names("Papyrus", "Impact"),
            emoji: one_name("Apple Color Emoji"),
        },
        Platform::Unknown => DefaultFamilies {
            serif: Vec::new(),
            sans_serif: Vec::new(),
            monospace: Vec::new(),
            cursive: Vec::new(),
            fantasy: Vec::new(),
            emoji: Vec::new(),
        },
    };
    proof {
        assert forall|category: FontCategory|
            spec_names(#[trigger] defaults.spec_get(category)@) == spec_default_names(
                platform,
                category,
            ) by {
            assert(spec_names(defaults.spec_get(category)@) =~= spec_default_names(platform, category));
        }
    }
    defaults
}

/// The default families of a platform as a map from category to
/// families. An unknown platform gives an empty map; every other platform
/// gives a map that holds, for each category, the families of
/// [`spec_default_names`] in their order.
///
/// What a hash map holds after an insertion is known only for keys whose
/// hash and equality agree (`obeys_key_model`). The derived impls of
/// `FontCategory` are of that kind, but they are not verified code, so the
/// contents of a map that is not empty are stated under that condition.
pub fn get_default_font_families(platform: Platform) -> (defaults: HashMap<
    FontCategory,
    Vec<String>,
>)
    ensures
        platform == Platform::Unknown ==> defaults@ == Map::<FontCategory, Vec<String>>::empty(),
        platform != Platform::Unknown && obeys_key_model::<FontCategory>() ==> forall|
            category: FontCategory,
        |
            defaults@.contains_key(category) && spec_names(#[trigger] defaults@[category]@)
                == spec_default_names(platform, category),
{
    let mut map: HashMap<FontCategory, Vec<String>> = HashMap::new();
    match platform {
        Platform::Unknown => {},
        _ => {
            let families: DefaultFamilies = get_defaults(platform);
            proof {
                assert(spec_names(families.spec_get(FontCategory::Serif)@) == spec_default_names(
                    platform,
                    FontCategory::Serif,
                ));
                assert(spec_names(families.spec_get(FontCategory::SansSerif)@)
                    == spec_default_names(platform, FontCategory::SansSerif));
                assert(spec_names(families.spec_get(FontCategory::Monospace)@)
                    == spec_default_names(platform, FontCategory::Monospace));
                assert(spec_names(families.spec_get(FontCategory::Cursive)@)
                    == spec_default_names(platform, FontCategory::Cursive));
                assert(spec_names(families.spec_get(FontCategory::Fantasy)@)
                    == spec_default_names(platform, FontCategory::Fantasy));
                assert(spec_names(families.spec_get(FontCategory::Emoji)@) == spec_default_names(
                    platform,
                    FontCategory::Emoji,
                ));
            }
            map.insert(FontCategory::Serif, families.serif);
            map.insert(FontCategory::SansSerif, families.sans_serif);
            map.insert(FontCategory::Monospace, families.monospace);
            map.insert(FontCategory::Cursive, families.cursive);
            map.insert(FontCategory::Fantasy, families.fantasy);
            map.insert(FontCategory::Emoji, families.emoji);
        },
    }
    map
}

/// The directories in which the font configuration of a platform is
/// looked for, in order of preference: on Linux `/etc/fonts` and then
/// `.config/fontconfig` under the home directory; on Windows `Fonts` under
/// the Windows directory, where that is known; on macOS `/Library/Fonts`.
pub open spec fn spec_config_paths(
    platform: Platform,
    home: Option<Seq<char>>,
    windir: Option<Seq<char>>,
) -> Seq<Seq<char>> {
    match platform {
        Platform::Linux => seq!["/etc/fonts"@, spec_expand_home("~/.config/fontconfig"@, home)],
        Platform::Windows => match windir {
            Some(dir) => seq![spec_joined_windows(dir, "Fonts"@)],
            None => Seq::<Seq<char>>::empty(),
        },
        Platform::MacOS => seq!["/Library/Fonts"@],
        Platform::Unknown => Seq::<Seq<char>>::empty(),
    }
}

/// A string as a sequence of characters, where there is one.
pub open spec fn spec_text(text: Option<&str>) -> Option<Seq<char>> {
    match text {
        Some(t) => Some(t@),
        None => None,
    }
}

/// The directories in which the font configuration of a platform is
/// looked for; see [`spec_config_paths`].
pub fn get_config_path(platform: Platform, home: Option<&str>, windir: Option<&str>) -> (paths:
    Vec<String>)
    ensures
        spec_names(paths@) == spec_config_paths(platform, spec_text(home), spec_text(windir)),
{
    let mut paths: Vec<String> = Vec::new();
    match platform {
        Platform::Linux => {
            paths.push(String::from_str("/etc/fonts"));
            paths.push(expand_home("~/.config/fontconfig", home));
        },
        Platform::Windows => {
            match windir {
                Some(dir) => {
                    paths.push(join_windows(dir, "Fonts"));
                },
                None => {},
            }
        },
        Platform::MacOS => {
            paths.push(String::from_str("/Library/Fonts"));
        },
        Platform::Unknown => {},
    }
    proof {
        assert(spec_names(paths@) =~= spec_config_paths(
            platform,
            spec_text(home),
            spec_text(windir),
        ));
    }
    paths
}

/// The directories in which the font configuration of a platform is
/// looked for; see [`spec_config_paths`].
pub fn get_font_config_path(platform: Platform, home: Option<&str>, windir: Option<&str>) -> (paths:
    Vec<String>)
    ensures
        spec_names(paths@) == spec_config_paths(platform, spec_text(home), spec_text(windir)),
{
    get_config_path(platform, home, windir)
}

/// The font files among the first `k` scanned paths, in their order.
pub open spec fn spec_font_files(scanned: Seq<Seq<u8>>, platform: Platform, k: int) -> Seq<Seq<u8>>
    decreases k,
{
    if k <= 0 {
        Seq::<Seq<u8>>::empty()
    } else if spec_is_font_file(scanned[k - 1], platform) {
        spec_font_files(scanned, platform, k - 1).push(scanned[k - 1])
    } else {
        spec_font_files(scanned, platform, k - 1)
    }
}

/// The paths that count as fonts: every path that the font list of the
/// platform reports, whatever its name, and after them the scanned paths
/// that name font files.
pub open spec fn spec_kept(platform: Platform, listed: Seq<Seq<u8>>, scanned: Seq<Seq<u8>>) -> Seq<
    Seq<u8>,
> {
    listed + spec_font_files(scanned, platform, scanned.len() as int)
}

/// The fonts that are discovered: the paths that count as fonts, each
/// once. On Linux they are in ascending order of the paths; elsewhere in
/// the order of their first occurrence.
pub open spec fn spec_discovered(platform: Platform, listed: Seq<Seq<u8>>, scanned: Seq<Seq<u8>>)
    -> Seq<Seq<u8>> {
    let kept = spec_kept(platform, listed, scanned);
    if platform == Platform::Linux {
        spec_sorted(kept, kept.len() as int)
    } else {
        spec_unique(kept, kept.len() as int)
    }
}

/// Whether `path` is among `paths`.
fn contains_path(paths: &Vec<String>, path: &str) -> (found: bool)
    ensures
        found == spec_path_bytes(paths@).contains(encode_utf8(path@)),
{
    let mut i: usize = 0;
    while i < paths.len()
        invariant
            i <= paths@.len(),
            forall|j: int| 0 <= j < i ==> spec_path_bytes(paths@)[j] != encode_utf8(path@),
        decreases paths@.len() - i,
    {
        if bytes_equal(paths[i].as_str().as_bytes(), path.as_bytes()) {
            assert(spec_path_bytes(paths@)[i as int] == encode_utf8(path@));
            return true;
        }
        assert(spec_path_bytes(paths@)[i as int] == encode_utf8(paths@[i as int]@));
        i = i + 1;
    }
    false
}

/// The paths that count as fonts; see [`spec_kept`].
fn kept_paths(platform: Platform, listed: &Vec<String>, scanned: &Vec<String>) -> (kept: Vec<
    String,
>)
    ensures
        spec_path_bytes(kept@) == spec_kept(
            platform,
            spec_path_bytes(listed@),
            spec_path_bytes(scanned@),
        ),
{
    let mut kept: Vec<String> = Vec::new();
    let mut i: usize = 0;
    while i < listed.len()
        invariant
            i <= listed@.len(),
            spec_path_bytes(kept@) == spec_path_bytes(listed@).subrange(0, i as int),
        decreases listed@.len() - i,
    {
        let ghost before = spec_path_bytes(kept@);
        kept.push(String::from_str(listed[i].as_str()));
        assert(spec_path_bytes(kept@) =~= before.push(encode_utf8(listed@[i as int]@)));
        assert(spec_path_bytes(kept@) =~= spec_path_bytes(listed@).subrange(0, i + 1));
        i = i + 1;
    }
    assert(spec_path_bytes(listed@).subrange(0, i as int) =~= spec_path_bytes(listed@));
    let mut k: usize = 0;
    while k < scanned.len()
        invariant
            k <= scanned@.len(),
            spec_path_bytes(kept@) == spec_path_bytes(listed@) + spec_font_files(
                spec_path_bytes(scanned@),
                platform,
                k as int,
            ),
        decreases scanned@.len() - k,
    {
        let path: &str = scanned[k].as_str();
        assert(spec_path_bytes(scanned@)[k as int] == encode_utf8(path@));
        if is_font_file(path, platform) {
            let ghost before = spec_path_bytes(kept@);
            kept.push(String::from_str(path));
            assert(spec_path_bytes(kept@) =~= before.push(encode_utf8(path@)));
            assert(spec_path_bytes(kept@) =~= spec_path_bytes(listed@) + spec_font_files(
                spec_path_bytes(scanned@),
                platform,
                k + 1,
            ));
        }
        k = k + 1;
    }
    proof {
        assert(spec_path_bytes(kept@) =~= spec_path_bytes(listed@) + spec_font_files(
            spec_path_bytes(scanned@),
            platform,
            k as int,
        ));
    }
    kept
}

/// The fonts of a platform among the paths that were found: `listed` are
/// the paths that the font list of the platform reports, which all count;
/// `scanned` are the files of the font directories, of which those with the
/// name of a font file count. Each font is given once; on Linux the fonts
/// are sorted, elsewhere they stay in the order in which they were found.
pub fn discover_fonts(platform: Platform, listed: &Vec<String>, scanned: &Vec<String>) -> (fonts:
    Vec<String>)
    ensures
        spec_path_bytes(fonts@) == spec_discovered(
            platform,
            spec_path_bytes(listed@),
            spec_path_bytes(scanned@),
        ),
{
    let kept: Vec<String> = kept_paths(platform, listed, scanned);
    let ghost all = spec_path_bytes(kept@);
    let sort: bool = match platform {
        Platform::Linux => true,
        _ => false,
    };
    let mut fonts: Vec<String> = Vec::new();
    let mut i: usize = 0;
    while i < kept.len()
        invariant
            i <= kept@.len(),
            all == spec_path_bytes(kept@),
            sort == (platform == Platform::Linux),
            sort ==> spec_path_bytes(fonts@) == spec_sorted(all, i as int) && spec_paths_ascend(
                spec_path_bytes(fonts@),
            ),
            !sort ==> spec_path_bytes(fonts@) == spec_unique(all, i as int),
        decreases kept@.len() - i,
    {
        let path: &str = kept[i].as_str();
        assert(all[i as int] == encode_utf8(path@));
        if sort {
            place_path(&mut fonts, path);
        } else if !contains_path(&fonts, path) {
            let ghost before = spec_path_bytes(fonts@);
            fonts.push(String::from_str(path));
            assert(spec_path_bytes(fonts@) =~= before.push(encode_utf8(path@)));
        }
        i = i + 1;
    }
    fonts
}

/// The fonts of a platform among the paths that were found; see
/// [`discover_fonts`].
pub fn discover_system_fonts(platform: Platform, listed: &Vec<String>, scanned: &Vec<String>) -> (fonts:
    Vec<String>)
    ensures
        spec_path_bytes(fonts@) == spec_discovered(
            platform,
            spec_path_bytes(listed@),
            spec_path_bytes(scanned@),
        ),
{
    discover_fonts(platform, listed, scanned)
}

/// Whether `x` is one of the paths that count as fonts: a listed path, or
/// a scanned path that names a font file.
pub open spec fn spec_counts(
    platform: Platform,
    listed: Seq<Seq<u8>>,
    scanned: Seq<Seq<u8>>,
    x: Seq<u8>,
) -> bool {
    listed.contains(x) || (scanned.contains(x) && spec_is_font_file(x, platform))
}

/// The font files among the scanned paths are the scanned paths that name
/// font files.
pub proof fn lemma_font_files(scanned: Seq<Seq<u8>>, platform: Platform, k: int)
    requires
        0 <= k <= scanned.len(),
    ensures
        forall|x: Seq<u8>|
            #[trigger] spec_font_files(scanned, platform, k).contains(x) <==> (spec_is_font_file(
                x,
                platform,
            ) && exists|j: int| 0 <= j < k && #[trigger] scanned[j] == x),
    decreases k,
{
    if k > 0 {
        lemma_font_files(scanned, platform, k - 1);
        let earlier = spec_font_files(scanned, platform, k - 1);
        let now = spec_font_files(scanned, platform, k);
        assert forall|x: Seq<u8>|
            now.contains(x) <==> (spec_is_font_file(x, platform) && exists|j: int|
                0 <= j < k && #[trigger] scanned[j] == x) by {
            if now.contains(x) {
                let i = choose|i: int| 0 <= i < now.len() && now[i] == x;
                if i < earlier.len() {
                    assert(earlier[i] == x);
                    assert(earlier.contains(x));
                    let j = choose|j: int| 0 <= j < k - 1 && #[trigger] scanned[j] == x;
                    assert(0 <= j < k && scanned[j] == x);
                } else {
                    assert(scanned[k - 1] == x);
                }
            }
            if spec_is_font_file(x, platform) && exists|j: int|
                0 <= j < k && #[trigger] scanned[j] == x {
                let j = choose|j: int| 0 <= j < k && #[trigger] scanned[j] == x;
                if j < k - 1 {
                    assert(earlier.contains(x));
                    let i = choose|i: int| 0 <= i < earlier.len() && earlier[i] == x;
                    assert(now[i] == x);
                } else {
                    assert(now[now.len() - 1] == x);
                }
            }
        }
    }
}

/// No font is discovered twice; the discovered fonts are the paths that
/// count as fonts and no other; and on Linux they ascend.
pub proof fn lemma_discovered(platform: Platform, listed: Seq<Seq<u8>>, scanned: Seq<Seq<u8>>)
    ensures
        forall|i: int, j: int|
            0 <= i < j < spec_discovered(platform, listed, scanned).len() ==> spec_discovered(
                platform,
                listed,
                scanned,
            )[i] != spec_discovered(platform, listed, scanned)[j],
        forall|x: Seq<u8>|
            spec_discovered(platform, listed, scanned).contains(x) <==> spec_counts(
                platform,
                listed,
                scanned,
                x,
            ),
        platform == Platform::Linux ==> spec_paths_ascend(
            spec_discovered(platform, listed, scanned),
        ),
{
    let kept = spec_kept(platform, listed, scanned);
    let files = spec_font_files(scanned, platform, scanned.len() as int);
    let found = spec_discovered(platform, listed, scanned);
    lemma_font_files(scanned, platform, scanned.len() as int);
    lemma_sorted(kept, kept.len() as int);
    lemma_unique(kept, kept.len() as int);
    if platform == Platform::Linux {
        assert forall|i: int, j: int| 0 <= i < j < found.len() implies found[i] != found[j] by {
            assert(spec_path_less(found[i], found[j]));
            lemma_path_less_irreflexive(found[i]);
        }
    }
    assert forall|x: Seq<u8>| found.contains(x) <==> spec_counts(platform, listed, scanned, x) by {
        if found.contains(x) {
            let j = choose|j: int| 0 <= j < kept.len() && #[trigger] kept[j] == x;
            if j < listed.len() {
                assert(listed[j] == x);
            } else {
                assert(files[j - listed.len()] == x);
                assert(files.contains(x));
                let m = choose|m: int| 0 <= m < scanned.len() && #[trigger] scanned[m] == x;
                assert(scanned.contains(x));
            }
        }
        if listed.contains(x) {
            let j = choose|j: int| 0 <= j < listed.len() && listed[j] == x;
            assert(kept[j] == x);
        }
        if scanned.contains(x) && spec_is_font_file(x, platform) {
            let m = choose|m: int| 0 <= m < scanned.len() && scanned[m] == x;
            assert(scanned[m] == x);
            assert(files.contains(x));
            let i = choose|i: int| 0 <= i < files.len() && files[i] == x;
            assert(kept[listed.len() + i] == x);
        }
    }
}

/// A font as fontconfig describes it.
#[derive(Debug, Clone)]
pub struct FontconfigEntry {
    /// The file of the font, if fontconfig knows it.
    pub path: Option<String>,
    /// Whether that file exists.
    pub exists: bool,
    /// The family name, if fontconfig knows it.
    pub family: Option<String>,
    /// The weight on the scale of fontconfig, if fontconfig knows it.
    pub weight: Option<i32>,
    /// The slant on the scale of fontconfig, if fontconfig knows it.
    pub slant: Option<i32>,
}

/// Whether `text` starts with the bytes of `prefix`.
pub open spec fn spec_starts_with(text: Seq<u8>, prefix: Seq<u8>) -> bool {
    text.len() >= prefix.len() && text.subrange(0, prefix.len() as int) == prefix
}

/// Whether a path lies in one of the directories of the system: `/usr/`,
/// `/lib/` or `/etc/`.
pub open spec fn spec_is_system_path(path: Seq<u8>) -> bool {
    spec_starts_with(path, encode_utf8("/usr/"@)) || spec_starts_with(path, encode_utf8("/lib/"@))
        || spec_starts_with(path, encode_utf8("/etc/"@))
}

/// Whether `text` starts with `prefix`.
fn starts_with(text: &[u8], prefix: &str) -> (r: bool)
    ensures
        r == spec_starts_with(text@, encode_utf8(prefix@)),
{
    let p: &[u8] = prefix.as_bytes();
    if text.len() < p.len() {
        return false;
    }
    bytes_equal(vstd::slice::slice_subrange(text, 0, p.len()), p)
}

/// Whether a path lies in one of the directories of the system.
pub fn is_system_path(path: &str) -> (r: bool)
    ensures
        r == spec_is_system_path(encode_utf8(path@)),
{
    let bytes: &[u8] = path.as_bytes();
    starts_with(bytes, "/usr/") || starts_with(bytes, "/lib/") || starts_with(bytes, "/etc/")
}

/// Whether entry `k` of `entries` gives a font: it has a path that no
/// entry before it has, and its file exists.
pub open spec fn spec_entry_counts(entries: Seq<FontconfigEntry>, k: int) -> bool {
    &&& entries[k].path is Some
    &&& entries[k].exists
    &&& forall|j: int|
        0 <= j < k && (#[trigger] entries[j]).path is Some ==> encode_utf8(entries[j].path->0@)
            != encode_utf8(entries[k].path->0@)
}

/// Number of the first `k` entries that give a font.
pub open spec fn spec_entry_count(entries: Seq<FontconfigEntry>, k: int) -> int
    decreases k,
{
    if k <= 0 {
        0
    } else {
        spec_entry_count(entries, k - 1) + if spec_entry_counts(entries, k - 1) {
            1int
        } else {
            0int
        }
    }
}

/// The first `k` entries that give a font, in their order.
pub open spec fn spec_counted(entries: Seq<FontconfigEntry>, k: int) -> Seq<FontconfigEntry>
    decreases k,
{
    if k <= 0 {
        Seq::<FontconfigEntry>::empty()
    } else if spec_entry_counts(entries, k - 1) {
        spec_counted(entries, k - 1).push(entries[k - 1])
    } else {
        spec_counted(entries, k - 1)
    }
}

/// Whether `font` is the description of an entry that has a path: the
/// path of the entry; its family, or `Unknown` where it has none; the weight
/// for its weight, regular where it has none; the style for its slant,
/// upright where it has none; and a system font when the path lies in a
/// directory of the system.
pub open spec fn spec_describes(font: PlatformFontInfo, entry: FontconfigEntry) -> bool {
    &&& entry.path is Some
    &&& font.path@ == entry.path->0@
    &&& font.family_name@ == (match entry.family {
        Some(name) => name@,
        None => "Unknown"@,
    })
    &&& font.weight == spec_fontconfig_weight(
        match entry.weight {
            Some(w) => w,
            None => FONTCONFIG_DEFAULT_WEIGHT,
        },
    )
    &&& font.style == spec_fontconfig_slant(
        match entry.slant {
            Some(s) => s,
            None => 0,
        },
    )
    &&& font.is_system_font == spec_is_system_path(encode_utf8(entry.path->0@))
}

/// As many entries give a font as are counted.
pub proof fn lemma_counted_len(entries: Seq<FontconfigEntry>, k: int)
    ensures
        spec_counted(entries, k).len() == spec_entry_count(entries, k),
    decreases k,
{
    if k > 0 {
        lemma_counted_len(entries, k - 1);
    }
}

/// The fonts that fontconfig describes.
///
/// An entry without a path, with a path that an earlier entry has, or
/// whose file does not exist is left out. Every other entry gives one font,
/// described as [`spec_describes`] says, in the order of the entries. Fails
/// when no font is left.
pub fn use_fontconfig_library(entries: &Vec<FontconfigEntry>) -> (r: Result<
    Vec<PlatformFontInfo>,
    String,
>)
    ensures
        r is Ok <==> spec_entry_count(entries@, entries@.len() as int) > 0,
        r matches Ok(fonts) ==> fonts@.len() == spec_counted(entries@, entries@.len() as int).len()
            && forall|i: int|
            0 <= i < fonts@.len() ==> spec_describes(
                #[trigger] fonts@[i],
                spec_counted(entries@, entries@.len() as int)[i],
            ),
        r matches Err(reason) ==> reason@ == "No fonts found via fontconfig"@,
{
    let mut fonts: Vec<PlatformFontInfo> = Vec::new();
    let mut i: usize = 0;
    while i < entries.len()
        invariant
            i <= entries@.len(),
            fonts@.len() == spec_counted(entries@, i as int).len(),
            forall|m: int|
                0 <= m < fonts@.len() ==> spec_describes(
                    #[trigger] fonts@[m],
                    spec_counted(entries@, i as int)[m],
                ),
        decreases entries@.len() - i,
    {
        let entry: &FontconfigEntry = &entries[i];
        match &entry.path {
            Some(path) => {
                let mut seen: bool = false;
                let mut j: usize = 0;
                while j < i
                    invariant
                        j <= i <= entries@.len(),
                        entries@[i as int].path == Some(*path),
                        seen == exists|m: int|
                            0 <= m < j && (#[trigger] entries@[m]).path is Some && encode_utf8(
                                entries@[m].path->0@,
                            ) == encode_utf8(path@),
                    decreases i - j,
                {
                    match &entries[j].path {
                        Some(earlier) => {
                            if bytes_equal(earlier.as_str().as_bytes(), path.as_str().as_bytes()) {
                                seen = true;
                            }
                        },
                        None => {},
                    }
                    j = j + 1;
                }
                if !seen && entry.exists {
                    let family: String = match &entry.family {
                        Some(name) => name.clone(),
                        None => String::from_str("Unknown"),
                    };
                    let fc_weight: i32 = match entry.weight {
                        Some(w) => w,
                        None => FONTCONFIG_DEFAULT_WEIGHT,
                    };
                    let fc_slant: i32 = match entry.slant {
                        Some(s) => s,
                        None => 0,
                    };
                    let is_system_font: bool = is_system_path(path.as_str());
                    fonts.push(
                        PlatformFontInfo::new(
                            family,
                            path.clone(),
                            map_fontconfig_weight(fc_weight),
                            map_fontconfig_slant(fc_slant),
                            is_system_font,
                        ),
                    );
                }
            },
            None => {},
        }
        i = i + 1;
    }
    proof {
        lemma_counted_len(entries@, entries@.len() as int);
    }
    if fonts.len() == 0 {
        Err(String::from_str("No fonts found via fontconfig"))
    } else {
        Ok(fonts)
    }
}

/// Whether `fonts` are the fonts of the system with their descriptions:
/// those that fontconfig describes, or, where fontconfig gave none, one
/// regular, upright system font for every discovered path, named after its
/// file.
pub open spec fn spec_detailed(
    fontconfig: Result<Vec<PlatformFontInfo>, String>,
    paths: Seq<String>,
    fonts: Vec<PlatformFontInfo>,
) -> bool {
    match fontconfig {
        Ok(described) => fonts == described,
        Err(_) => fonts@.len() == paths.len() && forall|i: int|
            0 <= i < fonts@.len() ==> {
                &&& (#[trigger] fonts@[i]).path@ == paths[i]@
                &&& encode_utf8(fonts@[i].family_name@) == spec_family_from_path(
                    encode_utf8(paths[i]@),
                )
                &&& fonts@[i].weight == FontWeight::Regular
                &&& fonts@[i].style == FontStyle::Normal
                &&& fonts@[i].is_system_font
            },
    }
}

/// The fonts of the system with their descriptions; see [`spec_detailed`].
pub fn discover_fonts_detailed(
    fontconfig: Result<Vec<PlatformFontInfo>, String>,
    paths: &Vec<String>,
) -> (fonts: Vec<PlatformFontInfo>)
    ensures
        spec_detailed(fontconfig, paths@, fonts),
{
    match fontconfig {
        Ok(described) => described,
        Err(_) => {
            let mut fonts: Vec<PlatformFontInfo> = Vec::new();
            let mut i: usize = 0;
            while i < paths.len()
                invariant
                    i <= paths@.len(),
                    fonts@.len() == i,
                    forall|k: int|
                        0 <= k < i ==> {
                            &&& (#[trigger] fonts@[k]).path@ == paths@[k]@
                            &&& encode_utf8(fonts@[k].family_name@) == spec_family_from_path(
                                encode_utf8(paths@[k]@),
                            )
                            &&& fonts@[k].weight == FontWeight::Regular
                            &&& fonts@[k].style == FontStyle::Normal
                            &&& fonts@[k].is_system_font
                        },
                decreases paths@.len() - i,
            {
                let path: &str = paths[i].as_str();
                fonts.push(
                    PlatformFontInfo::new(
                        extract_family_from_path(path),
                        String::from_str(path),
                        FontWeight::Regular,
                        FontStyle::Normal,
                        true,
                    ),
                );
                i = i + 1;
            }
            fonts
        },
    }
}

/// The fonts of the system with their descriptions; see [`spec_detailed`].
pub fn discover_system_fonts_detailed(
    fontconfig: Result<Vec<PlatformFontInfo>, String>,
    paths: &Vec<String>,
) -> (fonts: Vec<PlatformFontInfo>)
    ensures
        spec_detailed(fontconfig, paths@, fonts),
{
    discover_fonts_detailed(fontconfig, paths)
}

} // verus!
