use nterm::palette::{hex_slice_would_panic, ColorPalette, Rgba};

fn channel(c: u8) -> f32 {
    c as f32 / 255.0
}

#[test]
fn test_hex_to_rgba_valid() {
    let rgba = ColorPalette::hex_to_rgba("#ff0000").unwrap();
    assert_eq!(channel(rgba.red), 1.0);
    assert_eq!(channel(rgba.green), 0.0);
    assert_eq!(channel(rgba.blue), 0.0);
    assert_eq!(channel(rgba.alpha), 1.0);
}

#[test]
fn test_hex_to_rgba_without_hash() {
    let rgba = ColorPalette::hex_to_rgba("00ff00").unwrap();
    assert_eq!(channel(rgba.red), 0.0);
    assert_eq!(channel(rgba.green), 1.0);
    assert_eq!(channel(rgba.blue), 0.0);
}

#[test]
fn test_hex_to_rgba_invalid() {
    assert!(ColorPalette::hex_to_rgba("#ff").is_none());
    assert!(ColorPalette::hex_to_rgba("invalid").is_none());
    assert!(ColorPalette::hex_to_rgba("#gggggg").is_none());
}

#[test]
fn test_palette_size() {
    let palette = ColorPalette::solarized_dark();
    let colors = palette.get_palette();
    assert_eq!(colors.len(), 16, "Palette should have exactly 16 colors");
}

#[test]
fn test_solarized_dark_colors() {
    let palette = ColorPalette::solarized_dark();
    assert_eq!(palette.foreground, "#839496");
    assert_eq!(palette.background, "#002b36");
    assert_eq!(palette.red, "#dc322f");
}

#[test]
fn test_get_foreground_background() {
    let palette = ColorPalette::dracula();
    let fg = palette.get_foreground();
    let bg = palette.get_background();

    // Check that foreground and background are different
    assert_ne!(channel(fg.red), channel(bg.red));
}

#[test]
fn test_palette_by_name() {
    assert!(ColorPalette::by_name("solarized-dark").is_some());
    assert!(ColorPalette::by_name("dracula").is_some());
    assert!(ColorPalette::by_name("monokai").is_some());
    assert!(ColorPalette::by_name("gruvbox").is_some());
    assert!(ColorPalette::by_name("nord").is_some());
    assert!(ColorPalette::by_name("nonexistent").is_none());
}

#[test]
fn test_all_themes_have_valid_colors() {
    let themes = vec![
        ColorPalette::solarized_dark(),
        ColorPalette::solarized_light(),
        ColorPalette::dracula(),
        ColorPalette::monokai(),
        ColorPalette::gruvbox_dark(),
        ColorPalette::nord(),
    ];

    for theme in themes {
        // Test that foreground and background can be parsed
        assert!(ColorPalette::hex_to_rgba(&theme.foreground).is_some());
        assert!(ColorPalette::hex_to_rgba(&theme.background).is_some());

        // Test that all 16 colors are valid
        let palette = theme.get_palette();
        assert_eq!(palette.len(), 16);
    }
}

#[test]
fn test_gruvbox_aliases() {
    let gruvbox1 = ColorPalette::by_name("gruvbox").unwrap();
    let gruvbox2 = ColorPalette::by_name("gruvbox-dark").unwrap();

    assert_eq!(gruvbox1.foreground, gruvbox2.foreground);
    assert_eq!(gruvbox1.background, gruvbox2.background);
}

#[test]
fn hex_to_rgba_exact_channels() {
    assert_eq!(ColorPalette::hex_to_rgba("#839496"), Some(Rgba { red: 0x83, green: 0x94, blue: 0x96, alpha: 255 }));
    assert_eq!(ColorPalette::hex_to_rgba("##AbCdEf"), Some(Rgba { red: 0xab, green: 0xcd, blue: 0xef, alpha: 255 }));
    // A leading plus sign is accepted by base-16 parsing of each pair.
    assert_eq!(ColorPalette::hex_to_rgba("+f0a0b"), Some(Rgba { red: 15, green: 10, blue: 11, alpha: 255 }));
    assert_eq!(ColorPalette::hex_to_rgba("-f0a0b"), None);
    assert_eq!(ColorPalette::hex_to_rgba("#12345"), None);
    assert_eq!(ColorPalette::hex_to_rgba("#1234567"), None);
    assert_eq!(ColorPalette::hex_to_rgba(""), None);
}

#[test]
fn hex_slice_panic_detection() {
    // "ff" + a three-byte character + "a": six bytes, byte 4 inside the character.
    assert!(hex_slice_would_panic("ff\u{20ac}a"));
    // byte 2 inside a two-byte character
    assert!(hex_slice_would_panic("a\u{e9}abc"));
    assert!(!hex_slice_would_panic("#ff0000"));
    // first pair invalid: the reading stops before the second cut
    assert!(!hex_slice_would_panic("zz\u{20ac}a"));
    assert_eq!(ColorPalette::hex_to_rgba("zz\u{20ac}a"), None);
}

#[test]
fn palette_falls_back_per_colour() {
    let mut p = ColorPalette::dracula();
    p.red = "not a colour".to_string();
    p.bright_black = "#zzzzzz".to_string();
    p.foreground = "oops".to_string();
    p.background = "".to_string();
    let colors = p.get_palette();
    assert_eq!(colors[0], Rgba { red: 0, green: 0, blue: 0, alpha: 255 });
    assert_eq!(colors[1], Rgba { red: 204, green: 0, blue: 0, alpha: 255 });
    assert_eq!(colors[8], Rgba { red: 102, green: 102, blue: 102, alpha: 255 });
    assert_eq!(colors[15], Rgba { red: 0xe6, green: 0xe6, blue: 0xe6, alpha: 255 });
    assert_eq!(p.get_foreground(), Rgba { red: 255, green: 255, blue: 255, alpha: 255 });
    assert_eq!(p.get_background(), Rgba { red: 0, green: 0, blue: 0, alpha: 255 });
}

#[test]
fn by_name_selects_each_theme() {
    assert_eq!(ColorPalette::by_name("solarized-light").unwrap().background, "#fdf6e3");
    assert_eq!(ColorPalette::by_name("monokai").unwrap().red, "#f92672");
    assert_eq!(ColorPalette::by_name("nord").unwrap().bright_cyan, "#8fbcbb");
    assert!(ColorPalette::by_name("Dracula").is_none());
    assert!(ColorPalette::by_name("").is_none());
}
