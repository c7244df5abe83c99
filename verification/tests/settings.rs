use bulletty::theme::{parse_theme_colors, Theme};
use bulletty::usersettings::{Appearance, UserSettings};

const COLORS: [&str; 16] = [
    "1e232a", "1e232a", "212830", "545d68", "768390", "adbac7", "adbac7", "00ff00", "539bf5", "f69d50",
    "00ff00", "00ff00", "8ddb8c", "bc7cff", "00ff00", "00ff00",
];

fn theme_with(scheme: &str, colors: [&str; 16]) -> Theme {
    let mut t = Theme::default();
    t.scheme = scheme.to_string();
    t.base00 = colors[0].to_string();
    t.base01 = colors[1].to_string();
    t.base02 = colors[2].to_string();
    t.base03 = colors[3].to_string();
    t.base04 = colors[4].to_string();
    t.base05 = colors[5].to_string();
    t.base06 = colors[6].to_string();
    t.base07 = colors[7].to_string();
    t.base08 = colors[8].to_string();
    t.base09 = colors[9].to_string();
    t.base0A = colors[10].to_string();
    t.base0B = colors[11].to_string();
    t.base0C = colors[12].to_string();
    t.base0D = colors[13].to_string();
    t.base0E = colors[14].to_string();
    t.base0F = colors[15].to_string();
    t
}

#[test]
fn theme_colors_parse_as_hex() {
    let t = parse_theme_colors(theme_with("Dimmed", COLORS)).unwrap();
    assert_eq!(t.base[0], 0x1e232a);
    assert_eq!(t.base[8], 0x539bf5);
    assert_eq!(t.base[9], 0xf69d50);
    assert_eq!(t.base[15], 0x00ff00);
    assert_eq!(t.scheme, "Dimmed");
}

#[test]
fn theme_color_texts_follow_from_str_radix() {
    for text in ["", "+", "-1", "+ff", "FF", "fF", "g0", " 1", "ffffffff", "100000000", "0000000000000001", "1_0"] {
        let mut colors = COLORS;
        colors[5] = text;
        let ours = parse_theme_colors(theme_with("T", colors));
        let std = u32::from_str_radix(text, 16);
        assert_eq!(ours.is_ok(), std.is_ok(), "text {text:?}");
        if let (Ok(t), Ok(v)) = (ours, std) {
            assert_eq!(t.base[5], v);
        }
    }
}

#[test]
fn a_bad_color_fails_the_theme() {
    let mut colors = COLORS;
    colors[15] = "zz";
    assert!(parse_theme_colors(theme_with("Bad", colors)).is_err());
}

fn parsed(scheme: &str, first: &str) -> Theme {
    let mut colors = COLORS;
    colors[0] = first;
    parse_theme_colors(theme_with(scheme, colors)).unwrap()
}

#[test]
fn library_themes_override_embedded_ones() {
    let embedded = vec![("Dark".to_string(), parsed("Dark", "000001")), ("Light".to_string(), parsed("Light", "000002"))];
    let library = vec![parsed("Dark", "000003"), parsed("Mine", "000004"), parsed("Dark", "000005")];
    let settings = UserSettings::new(Appearance { theme: "Dark".to_string() }, embedded, library);
    assert_eq!(settings.get_theme().unwrap().base[0], 5);
    let mut names = settings.get_theme_list();
    names.sort();
    assert_eq!(names, vec!["Dark".to_string(), "Light".to_string(), "Mine".to_string()]);
}

#[test]
fn get_theme_falls_back_to_some_theme() {
    let embedded = vec![("Light".to_string(), parsed("Light", "000002"))];
    let settings = UserSettings::new(Appearance { theme: "Missing".to_string() }, embedded, vec![]);
    assert_eq!(settings.get_theme().unwrap().scheme, "Light");
    let empty = UserSettings::new(Appearance { theme: "Missing".to_string() }, vec![], vec![]);
    assert!(empty.get_theme().is_none());
    assert!(empty.get_theme_list().is_empty());
}

#[test]
fn default_theme_is_blank() {
    let t = Theme::default();
    assert_eq!(t.scheme, "");
    assert_eq!(t.base, [0u32; 16]);
}

#[test]
fn bad_color_error_is_the_first_failing_text() {
    let mut colors = COLORS;
    colors[3] = "";
    colors[7] = "zz";
    let Err(err) = parse_theme_colors(theme_with("Bad", colors)) else { panic!("the theme parsed") };
    assert_eq!(err, u32::from_str_radix("", 16).unwrap_err());
    let mut colors = COLORS;
    colors[2] = "zz";
    colors[9] = "";
    let Err(err) = parse_theme_colors(theme_with("Bad", colors)) else { panic!("the theme parsed") };
    assert_eq!(err, u32::from_str_radix("zz", 16).unwrap_err());
}

#[test]
fn repeated_get_theme_agrees_and_list_counts_themes() {
    let embedded = vec![("Light".to_string(), parsed("Light", "000002")), ("Dark".to_string(), parsed("Dark", "000001"))];
    let settings = UserSettings::new(Appearance { theme: "Missing".to_string() }, embedded, vec![parsed("Light", "000009")]);
    let a = settings.get_theme().unwrap();
    let b = settings.get_theme().unwrap();
    assert!(std::ptr::eq(a, b));
    assert_eq!(a.scheme, "Light");
    assert_eq!(a.base[0], 9);
    assert_eq!(settings.get_theme_list().len(), 2);
}
