//! What is decided about the fonts of a platform.

use font_system::font_system_api::{
    ComponentMemoryBreakdown, FontError, FontSystem, FontSystemConfig, MemoryStats,
};
use font_system::font_types::{FontStyle, FontWeight};
use font_system::platform_integration::discovery::is_system_path;
use font_system::platform_integration::order::path_less;
use font_system::platform_integration::{
    detect_platform, discover_fonts, discover_fonts_detailed, discover_system_fonts, expand_home,
    extract_family_from_path, fc_list_paths, font_directories, get_config_path,
    get_default_font_families, get_defaults, is_font_file, join_path, join_windows,
    map_fontconfig_slant,
    map_fontconfig_weight, scans_subdirectories, use_fontconfig_library, FontCategory,
    FontconfigEntry, Platform, PlatformFontInfo,
};

#[test]
fn platforms_are_told_by_name() {
    assert_eq!(detect_platform("linux"), Platform::Linux);
    assert_eq!(detect_platform("windows"), Platform::Windows);
    assert_eq!(detect_platform("macos"), Platform::MacOS);
    assert_eq!(detect_platform("freebsd"), Platform::Unknown);
    assert_eq!(detect_platform("Linux"), Platform::Unknown);
    assert_eq!(detect_platform(""), Platform::Unknown);
}

#[test]
fn font_files_are_told_by_their_extension() {
    for path in ["a.ttf", "/x/y.OTF", "C:\\Fonts\\z.TtC", "dir.d/f.otc", "..otc", "a.b.ttf"] {
        for platform in [Platform::Linux, Platform::Windows, Platform::MacOS, Platform::Unknown] {
            assert!(is_font_file(path, platform), "{} {:?}", path, platform);
        }
    }
    for path in ["x.woff", "x.WOFF2", "x.pfb", "x.Pfa"] {
        assert!(is_font_file(path, Platform::Linux));
        assert!(!is_font_file(path, Platform::Windows));
        assert!(!is_font_file(path, Platform::MacOS));
    }
    assert!(is_font_file("x.dfont", Platform::MacOS));
    assert!(!is_font_file("x.dfont", Platform::Linux));
    for path in ["", "ttf", ".ttf", "/fonts/.ttf", "a.ttf/", "a.ttf/b", "a.txt", "a.ttf.gz", "a.", "a.ttff", "a.tt"] {
        assert!(!is_font_file(path, Platform::Linux), "{}", path);
    }
}

#[test]
fn families_are_named_after_file_stems() {
    assert_eq!(extract_family_from_path("/usr/share/fonts/DejaVuSans.ttf"), "DejaVuSans");
    assert_eq!(extract_family_from_path("Arial Bold.otf"), "Arial Bold");
    assert_eq!(extract_family_from_path("a.b.c"), "a.b");
    assert_eq!(extract_family_from_path("/dir.d/noext"), "noext");
    assert_eq!(extract_family_from_path("/dir/.hidden"), ".hidden");
    assert_eq!(extract_family_from_path("/dir/"), "Unknown");
    assert_eq!(extract_family_from_path(""), "Unknown");
    assert_eq!(extract_family_from_path("\u{e9}t\u{e9}.ttf"), "\u{e9}t\u{e9}");
}

#[test]
fn home_directory_is_expanded() {
    assert_eq!(expand_home("~/.fonts", Some("/home/me")), "/home/me/.fonts");
    assert_eq!(expand_home("~/", Some("/home/me")), "/home/me/");
    assert_eq!(expand_home("~", Some("/home/me")), "~");
    assert_eq!(expand_home("/etc/~/x", Some("/home/me")), "/etc/~/x");
    assert_eq!(expand_home("~/.fonts", None), "~/.fonts");
    assert_eq!(expand_home("~/\u{e9}", Some("/h\u{f4}me")), "/h\u{f4}me/\u{e9}");
    assert_eq!(
        get_config_path(Platform::Linux, Some("/home/me"), None),
        vec!["/etc/fonts".to_string(), "/home/me/.config/fontconfig".to_string()]
    );
    assert_eq!(
        get_config_path(Platform::Linux, None, None),
        vec!["/etc/fonts".to_string(), "~/.config/fontconfig".to_string()]
    );
    assert_eq!(
        get_config_path(Platform::Windows, None, Some("C:\\Windows")),
        vec!["C:\\Windows\\Fonts".to_string()]
    );
    assert!(get_config_path(Platform::Windows, None, None).is_empty());
    assert_eq!(get_config_path(Platform::MacOS, None, None), vec!["/Library/Fonts".to_string()]);
    assert!(get_config_path(Platform::Unknown, Some("/h"), Some("w")).is_empty());
}

#[test]
fn fontconfig_values_map_to_weights_and_styles() {
    let expected = [
        (i32::MIN, FontWeight::Black), (-1, FontWeight::Black), (0, FontWeight::Thin),
        (40, FontWeight::Thin), (41, FontWeight::ExtraLight), (55, FontWeight::ExtraLight),
        (56, FontWeight::Light), (75, FontWeight::Light), (76, FontWeight::Regular),
        (80, FontWeight::Regular), (90, FontWeight::Regular), (91, FontWeight::Medium),
        (110, FontWeight::Medium), (111, FontWeight::SemiBold), (180, FontWeight::SemiBold),
        (181, FontWeight::Bold), (200, FontWeight::Bold), (201, FontWeight::ExtraBold),
        (209, FontWeight::ExtraBold), (210, FontWeight::Black), (i32::MAX, FontWeight::Black),
    ];
    for (value, weight) in expected {
        assert_eq!(map_fontconfig_weight(value), weight, "{}", value);
    }
    assert_eq!(map_fontconfig_slant(0), FontStyle::Normal);
    assert_eq!(map_fontconfig_slant(100), FontStyle::Italic);
    assert_eq!(map_fontconfig_slant(110), FontStyle::Oblique(10 * 65536));
    assert_eq!(map_fontconfig_slant(50), FontStyle::Normal);
    assert_eq!(map_fontconfig_slant(-100), FontStyle::Normal);
}

#[test]
fn default_families_of_each_platform() {
    let linux = get_defaults(Platform::Linux);
    assert_eq!(linux.serif, vec!["DejaVu Serif", "Liberation Serif", "Noto Serif", "Times New Roman"]);
    assert_eq!(linux.sans_serif, vec!["DejaVu Sans", "Liberation Sans", "Noto Sans", "Arial"]);
    assert_eq!(linux.monospace, vec!["DejaVu Sans Mono", "Liberation Mono", "Noto Mono", "Courier New"]);
    assert_eq!(linux.cursive, vec!["URW Chancery L", "Comic Sans MS"]);
    assert_eq!(linux.fantasy, vec!["Impact", "Copperplate"]);
    assert_eq!(linux.emoji, vec!["Noto Color Emoji", "Emoji One"]);
    assert_eq!(linux.get(&FontCategory::Fantasy), Some(&linux.fantasy));
    assert!(linux.contains_key(&FontCategory::Emoji));
    assert_eq!(linux.len(), 6);
    let windows = get_defaults(Platform::Windows);
    assert_eq!(windows.serif, vec!["Times New Roman", "Georgia", "Palatino Linotype"]);
    assert_eq!(windows.sans_serif, vec!["Arial", "Verdana", "Tahoma", "Segoe UI"]);
    assert_eq!(windows.monospace, vec!["Courier New", "Consolas", "Lucida Console"]);
    assert_eq!(windows.cursive, vec!["Comic Sans MS", "Brush Script MT"]);
    assert_eq!(windows.fantasy, vec!["Impact", "Copperplate Gothic"]);
    assert_eq!(windows.emoji, vec!["Segoe UI Emoji"]);
    let macos = get_defaults(Platform::MacOS);
    assert_eq!(macos.serif, vec!["Times New Roman", "Georgia", "Palatino"]);
    assert_eq!(macos.sans_serif, vec!["Helvetica", "Arial", "Verdana", "San Francisco"]);
    assert_eq!(macos.monospace, vec!["Courier", "Monaco", "Menlo"]);
    assert_eq!(macos.cursive, vec!["Apple Chancery", "Comic Sans MS"]);
    assert_eq!(macos.fantasy, vec!["Papyrus", "Impact"]);
    assert_eq!(macos.emoji, vec!["Apple Color Emoji"]);
    assert!(get_defaults(Platform::Unknown).serif.is_empty());

    let map = get_default_font_families(Platform::MacOS);
    assert_eq!(map.len(), 6);
    assert_eq!(map.get(&FontCategory::Monospace), Some(&macos.monospace));
    assert_eq!(map.get(&FontCategory::Serif), Some(&macos.serif));
    assert!(get_default_font_families(Platform::Unknown).is_empty());
}

fn paths(list: &[&str]) -> Vec<String> {
    list.iter().map(|p| p.to_string()).collect()
}

#[test]
fn discovery_keeps_font_files_once() {
    let scanned =
        paths(&["/a/x.ttf", "/a/readme.md", "/a/y.woff", "/a/x.ttf", "/a/X.ttf", "/a/y.woff"]);
    let none: Vec<String> = Vec::new();
    // On Linux the fonts are sorted.
    assert_eq!(
        discover_fonts(Platform::Linux, &none, &scanned),
        vec!["/a/X.ttf", "/a/x.ttf", "/a/y.woff"]
    );
    // Elsewhere they stay in the order in which they were found.
    assert_eq!(discover_fonts(Platform::Windows, &none, &scanned), vec!["/a/x.ttf", "/a/X.ttf"]);
    assert_eq!(discover_fonts(Platform::MacOS, &none, &scanned), vec!["/a/x.ttf", "/a/X.ttf"]);
    assert!(discover_fonts(Platform::Linux, &none, &none).is_empty());
    assert_eq!(
        discover_system_fonts(Platform::Linux, &none, &paths(&["/b/z.otf", "/b/a.otf"])),
        vec!["/b/a.otf", "/b/z.otf"]
    );
}

#[test]
fn listed_paths_count_whatever_their_name() {
    let listed = paths(&["/fonts/z.ttf", "/fonts/plain", "/fonts/a.pcf.gz", "/fonts/z.ttf"]);
    let scanned = paths(&["/scan/b.otf", "/scan/notes.txt", "/fonts/z.ttf", "/scan/plain"]);
    assert_eq!(
        discover_fonts(Platform::Linux, &listed, &scanned),
        vec!["/fonts/a.pcf.gz", "/fonts/plain", "/fonts/z.ttf", "/scan/b.otf"]
    );
    assert_eq!(
        discover_fonts(Platform::MacOS, &listed, &scanned),
        vec!["/fonts/z.ttf", "/fonts/plain", "/fonts/a.pcf.gz", "/scan/b.otf"]
    );
}

#[test]
fn paths_are_ordered_component_by_component() {
    // `/` comes before every other byte: a directory comes before its longer namesakes.
    assert!(path_less(b"/fonts/truetype/z.ttf", b"/fonts/truetype-extra/a.ttf"));
    assert!(!path_less(b"/fonts/truetype-extra/a.ttf", b"/fonts/truetype/z.ttf"));
    assert!(path_less(b"/a/b", b"/a.b"));
    assert!(path_less(b"/a", b"/a/b"));
    assert!(path_less(b"", b"/"));
    assert!(!path_less(b"/a", b"/a"));
    assert!(path_less(b"/a/B", b"/a/b"));
    assert!(path_less(b"/a/\x00", b"/a/\x01"));
    assert!(path_less(b"/a//", b"/a/\x00"));

    let scanned = paths(&[
        "/usr/share/fonts/truetype-extra/a.ttf",
        "/usr/share/fonts/truetype/dejavu/DejaVuSans.ttf",
        "/usr/share/fonts/truetype/dejavu/DejaVuSans-Bold.ttf",
        "/usr/share/fonts/opentype/x y.otf",
        "/usr/share/fonts/opentype/x.otf",
        "/usr/share/fonts/truetype/dejavu/DejaVuSans.ttf",
        "/usr/local/share/fonts/b.ttf",
        "/usr/share/fonts/truetype.ttf",
    ]);
    let found = discover_fonts(Platform::Linux, &Vec::new(), &scanned);
    let mut expected: Vec<std::path::PathBuf> =
        scanned.iter().map(std::path::PathBuf::from).collect();
    expected.sort();
    expected.dedup();
    let expected: Vec<String> =
        expected.into_iter().map(|p| p.to_str().unwrap().to_string()).collect();
    assert_eq!(found, expected);
    assert_eq!(found[0], "/usr/local/share/fonts/b.ttf");
    assert_eq!(found.len(), 7);
}

fn entry(path: Option<&str>, exists: bool, family: Option<&str>, weight: Option<i32>, slant: Option<i32>) -> FontconfigEntry {
    FontconfigEntry {
        path: path.map(|p| p.to_string()),
        exists,
        family: family.map(|f| f.to_string()),
        weight,
        slant,
    }
}

#[test]
fn fontconfig_entries_become_font_descriptions() {
    let entries = vec![
        entry(None, true, Some("No Path"), None, None),
        entry(Some("/usr/share/fonts/a.ttf"), true, Some("A"), Some(200), Some(100)),
        entry(Some("/home/me/b.ttf"), true, None, None, None),
        entry(Some("/usr/share/fonts/a.ttf"), true, Some("A again"), Some(80), Some(0)),
        entry(Some("/gone.ttf"), false, Some("Gone"), None, None),
        entry(Some("/gone.ttf"), true, Some("Gone twice"), None, None),
        entry(Some("/etc/c.otf"), true, Some("C"), Some(0), Some(110)),
    ];
    let fonts = use_fontconfig_library(&entries).unwrap();
    assert_eq!(
        fonts,
        vec![
            PlatformFontInfo::new("A".to_string(), "/usr/share/fonts/a.ttf".to_string(), FontWeight::Bold, FontStyle::Italic, true),
            PlatformFontInfo::new("Unknown".to_string(), "/home/me/b.ttf".to_string(), FontWeight::Regular, FontStyle::Normal, false),
            PlatformFontInfo::new("C".to_string(), "/etc/c.otf".to_string(), FontWeight::Thin, FontStyle::Oblique(655360), true),
        ]
    );
    assert_eq!(
        use_fontconfig_library(&vec![entry(None, true, None, None, None)]),
        Err("No fonts found via fontconfig".to_string())
    );
    assert!(use_fontconfig_library(&vec![]).is_err());
    assert!(is_system_path("/usr/x"));
    assert!(is_system_path("/lib/"));
    assert!(is_system_path("/etc/fonts/a"));
    assert!(!is_system_path("/usr"));
    assert!(!is_system_path("/home/usr/"));
    assert!(!is_system_path(""));

    // Where fontconfig gave nothing, every path becomes a regular system font.
    let paths = vec!["/f/One.ttf".to_string(), "/f/two.otf".to_string()];
    let fallback = discover_fonts_detailed(Err("none".to_string()), &paths);
    assert_eq!(
        fallback,
        vec![
            PlatformFontInfo::new("One".to_string(), "/f/One.ttf".to_string(), FontWeight::Regular, FontStyle::Normal, true),
            PlatformFontInfo::new("two".to_string(), "/f/two.otf".to_string(), FontWeight::Regular, FontStyle::Normal, true),
        ]
    );
    assert_eq!(discover_fonts_detailed(Ok(fonts.clone()), &paths), fonts);
}

#[test]
fn facade_reports_that_it_is_not_wired() {
    let mut system = FontSystem::new(FontSystemConfig::default()).unwrap();
    assert!(system.config().enable_hinting);
    assert_eq!(
        system.load_font_file("/x.ttf"),
        Err(FontError::LoadError("Not yet implemented - waiting for font_parser".to_string()))
    );
    assert_eq!(
        system.load_font_data(vec![1]),
        Err(FontError::LoadError("Not yet implemented - waiting for font_parser".to_string()))
    );
    assert_eq!(
        system.load_system_fonts(),
        Err(FontError::SystemError("Not yet implemented - waiting for platform_integration".to_string()))
    );
    assert_eq!(system.font_count(), 0);
    assert_eq!(FontError::FontNotFound.to_string(), "Font not found");
    let breakdown = ComponentMemoryBreakdown {
        font_registry_bytes: 1,
        glyph_renderer_bytes: 2,
        text_shaper_bytes: 3,
        platform_integration_bytes: usize::MAX - 6,
    };
    assert_eq!(breakdown.checked_total(), Some(usize::MAX));
    assert_eq!(breakdown.total(), usize::MAX);
    let over = ComponentMemoryBreakdown { font_registry_bytes: 2, ..breakdown };
    assert_eq!(over.checked_total(), None);
    assert_eq!(ComponentMemoryBreakdown::new().total(), 0);
    let stats = MemoryStats { total_bytes: 10 * 1024 * 1024 + 5, ..MemoryStats::new() };
    assert_eq!(stats.total_whole_mb(), 10);
}

#[test]
fn font_directories_of_each_platform() {
    assert_eq!(
        font_directories(Platform::Linux, Some("/home/u"), None),
        vec![
            "/usr/share/fonts",
            "/usr/local/share/fonts",
            "/home/u/.fonts",
            "/home/u/.local/share/fonts"
        ]
    );
    assert_eq!(
        font_directories(Platform::Linux, None, None),
        vec!["/usr/share/fonts", "/usr/local/share/fonts", "~/.fonts", "~/.local/share/fonts"]
    );
    assert_eq!(
        font_directories(Platform::Windows, Some("/home/u"), Some("C:\\Windows")),
        vec!["C:\\Windows\\Fonts"]
    );
    assert!(font_directories(Platform::Windows, Some("/home/u"), None).is_empty());
    assert_eq!(
        font_directories(Platform::MacOS, Some("/Users/u"), None),
        vec!["/System/Library/Fonts", "/Library/Fonts", "/Users/u/Library/Fonts"]
    );
    assert_eq!(
        font_directories(Platform::MacOS, None, None),
        vec!["/System/Library/Fonts", "/Library/Fonts"]
    );
    assert!(font_directories(Platform::Unknown, Some("/home/u"), Some("C:")).is_empty());
    assert!(scans_subdirectories(Platform::Linux));
    assert!(!scans_subdirectories(Platform::Windows));
    assert!(!scans_subdirectories(Platform::MacOS));
    assert!(!scans_subdirectories(Platform::Unknown));
}

#[test]
fn listing_names_one_path_per_line() {
    assert_eq!(
        fc_list_paths("/usr/share/fonts/a.ttf\n  /usr/share/fonts/b c.otf \r\n\n\t\n/x.woff"),
        vec!["/usr/share/fonts/a.ttf", "/usr/share/fonts/b c.otf", "/x.woff"]
    );
    assert!(fc_list_paths("").is_empty());
    assert!(fc_list_paths("\n \n\r\n").is_empty());
    assert_eq!(fc_list_paths("one"), vec!["one"]);
    assert_eq!(fc_list_paths("one\n"), vec!["one"]);
    assert_eq!(fc_list_paths("\none"), vec!["one"]);
    assert_eq!(fc_list_paths(" \u{e9}t\u{e9}.ttf\n"), vec!["\u{e9}t\u{e9}.ttf"]);
}

#[test]
fn paths_are_joined_as_paths() {
    assert_eq!(join_path("/home/u", ".fonts"), "/home/u/.fonts");
    assert_eq!(join_path("/home/u/", ".fonts"), "/home/u/.fonts");
    assert_eq!(join_path("/home/u", "/etc/fonts"), "/etc/fonts");
    assert_eq!(join_path("", ".fonts"), ".fonts");
    assert_eq!(join_path("/home/u", ""), "/home/u/");
    assert_eq!(join_path("/", "x"), "/x");
    for (base, rest) in [("/home/u", ".fonts"), ("/home/u/", "a/b"), ("/h", "/abs"), ("/h", "")] {
        let mut expected = std::path::PathBuf::from(base);
        expected.push(rest);
        assert_eq!(join_path(base, rest), expected.to_str().unwrap());
    }
    assert_eq!(expand_home("~/.fonts", Some("/home/u/")), "/home/u/.fonts");
    assert_eq!(expand_home("~//etc/fonts", Some("/home/u")), "/etc/fonts");
    assert_eq!(expand_home("~/", Some("/home/u")), "/home/u/");
    assert_eq!(expand_home("~/x", Some("")), "x");
    assert_eq!(join_windows("C:\\Windows", "Fonts"), "C:\\Windows\\Fonts");
    assert_eq!(join_windows("C:\\Windows\\", "Fonts"), "C:\\Windows\\Fonts");
    assert_eq!(join_windows("C:/Windows/", "Fonts"), "C:/Windows/Fonts");
    assert_eq!(join_windows("", "Fonts"), "Fonts");
    assert_eq!(
        font_directories(Platform::MacOS, Some("/Users/u/"), None),
        vec!["/System/Library/Fonts", "/Library/Fonts", "/Users/u/Library/Fonts"]
    );
    assert_eq!(
        get_config_path(Platform::Windows, None, Some("C:\\Windows\\")),
        vec!["C:\\Windows\\Fonts"]
    );
}
