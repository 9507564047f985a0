//! Colour palettes: the built-in themes, lookup by name, and the
//! conversion of `#rrggbb` strings into colours.
use vstd::prelude::*;
use vstd::string::*;
use vstd::utf8::{encode_utf8, is_continuation_byte};

use crate::strings::same_text;

verus! {

/// A colour with 8-bit channels; a channel value `c` stands for the
/// intensity `c / 255`.
#[derive(Debug, Clone, Copy, PartialEq, Eq, Structural)]
pub struct Rgba {
    pub red: u8,
    pub green: u8,
    pub blue: u8,
    pub alpha: u8,
}

impl Rgba {
    /// An opaque colour, as a value.
    pub open spec fn opaque(red: u8, green: u8, blue: u8) -> Rgba {
        Rgba { red, green, blue, alpha: 255 }
    }

    /// An opaque colour.
    pub fn new(red: u8, green: u8, blue: u8) -> (c: Rgba)
        ensures
            c == Rgba::opaque(red, green, blue),
    {
        Rgba { red, green, blue, alpha: 255 }
    }
}

/// The sixteen terminal colours plus foreground and background, each as
/// a `#rrggbb` string.
#[derive(Debug)]
pub struct ColorPalette {
    pub foreground: String,
    pub background: String,
    pub black: String,
    pub red: String,
    pub green: String,
    pub yellow: String,
    pub blue: String,
    pub magenta: String,
    pub cyan: String,
    pub white: String,
    pub bright_black: String,
    pub bright_red: String,
    pub bright_green: String,
    pub bright_yellow: String,
    pub bright_blue: String,
    pub bright_magenta: String,
    pub bright_cyan: String,
    pub bright_white: String,
}

impl View for ColorPalette {
    type V = Seq<Seq<char>>;

    /// The eighteen colour strings in declaration order.
    open spec fn view(&self) -> Seq<Seq<char>> {
        seq![
            self.foreground@,
            self.background@,
            self.black@,
            self.red@,
            self.green@,
            self.yellow@,
            self.blue@,
            self.magenta@,
            self.cyan@,
            self.white@,
            self.bright_black@,
            self.bright_red@,
            self.bright_green@,
            self.bright_yellow@,
            self.bright_blue@,
            self.bright_magenta@,
            self.bright_cyan@,
            self.bright_white@,
        ]
    }
}

impl Clone for ColorPalette {
    fn clone(&self) -> (r: Self)
        ensures
            r == *self,
    {
        ColorPalette {
            foreground: self.foreground.clone(),
            background: self.background.clone(),
            black: self.black.clone(),
            red: self.red.clone(),
            green: self.green.clone(),
            yellow: self.yellow.clone(),
            blue: self.blue.clone(),
            magenta: self.magenta.clone(),
            cyan: self.cyan.clone(),
            white: self.white.clone(),
            bright_black: self.bright_black.clone(),
            bright_red: self.bright_red.clone(),
            bright_green: self.bright_green.clone(),
            bright_yellow: self.bright_yellow.clone(),
            bright_blue: self.bright_blue.clone(),
            bright_magenta: self.bright_magenta.clone(),
            bright_cyan: self.bright_cyan.clone(),
            bright_white: self.bright_white.clone(),
        }
    }
}

/// The colour strings of the Solarized Dark theme, in declaration order.
pub open spec fn solarized_dark_colors() -> Seq<Seq<char>> {
    seq![
        "#839496"@,
        "#002b36"@,
        "#073642"@,
        "#dc322f"@,
        "#859900"@,
        "#b58900"@,
        "#268bd2"@,
        "#d33682"@,
        "#2aa198"@,
        "#eee8d5"@,
        "#002b36"@,
        "#cb4b16"@,
        "#586e75"@,
        "#657b83"@,
        "#839496"@,
        "#6c71c4"@,
        "#93a1a1"@,
        "#fdf6e3"@,
    ]
}

/// The colour strings of the Solarized Light theme, in declaration order.
pub open spec fn solarized_light_colors() -> Seq<Seq<char>> {
    seq![
        "#657b83"@,
        "#fdf6e3"@,
        "#073642"@,
        "#dc322f"@,
        "#859900"@,
        "#b58900"@,
        "#268bd2"@,
        "#d33682"@,
        "#2aa198"@,
        "#eee8d5"@,
        "#002b36"@,
        "#cb4b16"@,
        "#586e75"@,
        "#657b83"@,
        "#839496"@,
        "#6c71c4"@,
        "#93a1a1"@,
        "#fdf6e3"@,
    ]
}

/// The colour strings of the Dracula theme, in declaration order.
pub open spec fn dracula_colors() -> Seq<Seq<char>> {
    seq![
        "#f8f8f2"@,
        "#282a36"@,
        "#000000"@,
        "#ff5555"@,
        "#50fa7b"@,
        "#f1fa8c"@,
        "#bd93f9"@,
        "#ff79c6"@,
        "#8be9fd"@,
        "#bfbfbf"@,
        "#4d4d4d"@,
        "#ff6e67"@,
        "#5af78e"@,
        "#f4f99d"@,
        "#caa9fa"@,
        "#ff92d0"@,
        "#9aedfe"@,
        "#e6e6e6"@,
    ]
}

/// The colour strings of the Monokai theme, in declaration order.
pub open spec fn monokai_colors() -> Seq<Seq<char>> {
    seq![
        "#f8f8f2"@,
        "#272822"@,
        "#272822"@,
        "#f92672"@,
        "#a6e22e"@,
        "#f4bf75"@,
        "#66d9ef"@,
        "#ae81ff"@,
        "#a1efe4"@,
        "#f8f8f2"@,
        "#75715e"@,
        "#f92672"@,
        "#a6e22e"@,
        "#f4bf75"@,
        "#66d9ef"@,
        "#ae81ff"@,
        "#a1efe4"@,
        "#f9f8f5"@,
    ]
}

/// The colour strings of the Gruvbox Dark theme, in declaration order.
pub open spec fn gruvbox_dark_colors() -> Seq<Seq<char>> {
    seq![
        "#ebdbb2"@,
        "#282828"@,
        "#282828"@,
        "#cc241d"@,
        "#98971a"@,
        "#d79921"@,
        "#458588"@,
        "#b16286"@,
        "#689d6a"@,
        "#a89984"@,
        "#928374"@,
        "#fb4934"@,
        "#b8bb26"@,
        "#fabd2f"@,
        "#83a598"@,
        "#d3869b"@,
        "#8ec07c"@,
        "#ebdbb2"@,
    ]
}

/// The colour strings of the Nord theme, in declaration order.
pub open spec fn nord_colors() -> Seq<Seq<char>> {
    seq![
        "#d8dee9"@,
        "#2e3440"@,
        "#3b4252"@,
        "#bf616a"@,
        "#a3be8c"@,
        "#ebcb8b"@,
        "#81a1c1"@,
        "#b48ead"@,
        "#88c0d0"@,
        "#e5e9f0"@,
        "#4c566a"@,
        "#bf616a"@,
        "#a3be8c"@,
        "#ebcb8b"@,
        "#81a1c1"@,
        "#b48ead"@,
        "#8fbcbb"@,
        "#eceff4"@,
    ]
}

impl ColorPalette {
    /// Solarized Dark theme
    pub fn solarized_dark() -> (p: Self)
        ensures
            p@ == solarized_dark_colors(),
    {
        ColorPalette {
            foreground: String::from_str("#839496"),
            background: String::from_str("#002b36"),
            black: String::from_str("#073642"),
            red: String::from_str("#dc322f"),
            green: String::from_str("#859900"),
            yellow: String::from_str("#b58900"),
            blue: String::from_str("#268bd2"),
            magenta: String::from_str("#d33682"),
            cyan: String::from_str("#2aa198"),
            white: String::from_str("#eee8d5"),
            bright_black: String::from_str("#002b36"),
            bright_red: String::from_str("#cb4b16"),
            bright_green: String::from_str("#586e75"),
            bright_yellow: String::from_str("#657b83"),
            bright_blue: String::from_str("#839496"),
            bright_magenta: String::from_str("#6c71c4"),
            bright_cyan: String::from_str("#93a1a1"),
            bright_white: String::from_str("#fdf6e3"),
        }
    }

    /// Solarized Light theme
    pub fn solarized_light() -> (p: Self)
        ensures
            p@ == solarized_light_colors(),
    {
        ColorPalette {
            foreground: String::from_str("#657b83"),
            background: String::from_str("#fdf6e3"),
            black: String::from_str("#073642"),
            red: String::from_str("#dc322f"),
            green: String::from_str("#859900"),
            yellow: String::from_str("#b58900"),
            blue: String::from_str("#268bd2"),
            magenta: String::from_str("#d33682"),
            cyan: String::from_str("#2aa198"),
            white: String::from_str("#eee8d5"),
            bright_black: String::from_str("#002b36"),
            bright_red: String::from_str("#cb4b16"),
            bright_green: String::from_str("#586e75"),
            bright_yellow: String::from_str("#657b83"),
            bright_blue: String::from_str("#839496"),
            bright_magenta: String::from_str("#6c71c4"),
            bright_cyan: String::from_str("#93a1a1"),
            bright_white: String::from_str("#fdf6e3"),
        }
    }

    /// Dracula theme
    pub fn dracula() -> (p: Self)
        ensures
            p@ == dracula_colors(),
    {
        ColorPalette {
            foreground: String::from_str("#f8f8f2"),
            background: String::from_str("#282a36"),
            black: String::from_str("#000000"),
            red: String::from_str("#ff5555"),
            green: String::from_str("#50fa7b"),
            yellow: String::from_str("#f1fa8c"),
            blue: String::from_str("#bd93f9"),
            magenta: String::from_str("#ff79c6"),
            cyan: String::from_str("#8be9fd"),
            white: String::from_str("#bfbfbf"),
            bright_black: String::from_str("#4d4d4d"),
            bright_red: String::from_str("#ff6e67"),
            bright_green: String::from_str("#5af78e"),
            bright_yellow: String::from_str("#f4f99d"),
            bright_blue: String::from_str("#caa9fa"),
            bright_magenta: String::from_str("#ff92d0"),
            bright_cyan: String::from_str("#9aedfe"),
            bright_white: String::from_str("#e6e6e6"),
        }
    }

    /// Monokai theme
    pub fn monokai() -> (p: Self)
        ensures
            p@ == monokai_colors(),
    {
        ColorPalette {
            foreground: String::from_str("#f8f8f2"),
            background: String::from_str("#272822"),
            black: String::from_str("#272822"),
            red: String::from_str("#f92672"),
            green: String::from_str("#a6e22e"),
            yellow: String::from_str("#f4bf75"),
            blue: String::from_str("#66d9ef"),
            magenta: String::from_str("#ae81ff"),
            cyan: String::from_str("#a1efe4"),
            white: String::from_str("#f8f8f2"),
            bright_black: String::from_str("#75715e"),
            bright_red: String::from_str("#f92672"),
            bright_green: String::from_str("#a6e22e"),
            bright_yellow: String::from_str("#f4bf75"),
            bright_blue: String::from_str("#66d9ef"),
            bright_magenta: String::from_str("#ae81ff"),
            bright_cyan: String::from_str("#a1efe4"),
            bright_white: String::from_str("#f9f8f5"),
        }
    }

    /// Gruvbox Dark theme
    pub fn gruvbox_dark() -> (p: Self)
        ensures
            p@ == gruvbox_dark_colors(),
    {
        ColorPalette {
            foreground: String::from_str("#ebdbb2"),
            background: String::from_str("#282828"),
            black: String::from_str("#282828"),
            red: String::from_str("#cc241d"),
            green: String::from_str("#98971a"),
            yellow: String::from_str("#d79921"),
            blue: String::from_str("#458588"),
            magenta: String::from_str("#b16286"),
            cyan: String::from_str("#689d6a"),
            white: String::from_str("#a89984"),
            bright_black: String::from_str("#928374"),
            bright_red: String::from_str("#fb4934"),
            bright_green: String::from_str("#b8bb26"),
            bright_yellow: String::from_str("#fabd2f"),
            bright_blue: String::from_str("#83a598"),
            bright_magenta: String::from_str("#d3869b"),
            bright_cyan: String::from_str("#8ec07c"),
            bright_white: String::from_str("#ebdbb2"),
        }
    }

    /// Nord theme
    pub fn nord() -> (p: Self)
        ensures
            p@ == nord_colors(),
    {
        ColorPalette {
            foreground: String::from_str("#d8dee9"),
            background: String::from_str("#2e3440"),
            black: String::from_str("#3b4252"),
            red: String::from_str("#bf616a"),
            green: String::from_str("#a3be8c"),
            yellow: String::from_str("#ebcb8b"),
            blue: String::from_str("#81a1c1"),
            magenta: String::from_str("#b48ead"),
            cyan: String::from_str("#88c0d0"),
            white: String::from_str("#e5e9f0"),
            bright_black: String::from_str("#4c566a"),
            bright_red: String::from_str("#bf616a"),
            bright_green: String::from_str("#a3be8c"),
            bright_yellow: String::from_str("#ebcb8b"),
            bright_blue: String::from_str("#81a1c1"),
            bright_magenta: String::from_str("#b48ead"),
            bright_cyan: String::from_str("#8fbcbb"),
            bright_white: String::from_str("#eceff4"),
        }
    }

}

/// The palette that `name` selects: each theme by its name, and
/// Gruvbox Dark also as `gruvbox`.
pub open spec fn theme_named(name: Seq<char>) -> Option<Seq<Seq<char>>> {
    if name == "solarized-dark"@ {
        Some(solarized_dark_colors())
    } else if name == "solarized-light"@ {
        Some(solarized_light_colors())
    } else if name == "dracula"@ {
        Some(dracula_colors())
    } else if name == "monokai"@ {
        Some(monokai_colors())
    } else if name == "gruvbox-dark"@ || name == "gruvbox"@ {
        Some(gruvbox_dark_colors())
    } else if name == "nord"@ {
        Some(nord_colors())
    } else {
        None
    }
}

/// `gruvbox` is another name for Gruvbox Dark.
pub proof fn law_gruvbox_alias()
    ensures
        theme_named("gruvbox"@) == Some(gruvbox_dark_colors()),
        theme_named("gruvbox-dark"@) == Some(gruvbox_dark_colors()),
{
    reveal_strlit("gruvbox");
    reveal_strlit("gruvbox-dark");
    reveal_strlit("solarized-dark");
    reveal_strlit("solarized-light");
    reveal_strlit("dracula");
    reveal_strlit("monokai");
    assert("gruvbox"@.len() != "solarized-dark"@.len());
    assert("gruvbox"@.len() != "solarized-light"@.len());
    assert("gruvbox"@[0] != "dracula"@[0]);
    assert("gruvbox"@[0] != "monokai"@[0]);
    assert("gruvbox-dark"@.len() != "solarized-dark"@.len());
    assert("gruvbox-dark"@.len() != "solarized-light"@.len());
    assert("gruvbox-dark"@[0] != "dracula"@[0]);
    assert("gruvbox-dark"@[0] != "monokai"@[0]);
}

/// Each theme name selects that theme's own colours, whose foreground
/// and background are those the theme is known by: Solarized Dark
/// `#839496` on `#002b36`, Solarized Light `#657b83` on `#fdf6e3`, Dracula
/// `#f8f8f2` on `#282a36`, Monokai `#f8f8f2` on `#272822`, Gruvbox Dark
/// `#ebdbb2` on `#282828`, Nord `#d8dee9` on `#2e3440`.
pub proof fn law_theme_names_select_their_colors()
    ensures
        theme_named("solarized-dark"@) == Some(solarized_dark_colors()),
        theme_named("solarized-light"@) == Some(solarized_light_colors()),
        theme_named("dracula"@) == Some(dracula_colors()),
        theme_named("monokai"@) == Some(monokai_colors()),
        theme_named("gruvbox-dark"@) == Some(gruvbox_dark_colors()),
        theme_named("nord"@) == Some(nord_colors()),
        solarized_dark_colors()[0] == "#839496"@ && solarized_dark_colors()[1] == "#002b36"@,
        solarized_light_colors()[0] == "#657b83"@ && solarized_light_colors()[1] == "#fdf6e3"@,
        dracula_colors()[0] == "#f8f8f2"@ && dracula_colors()[1] == "#282a36"@,
        monokai_colors()[0] == "#f8f8f2"@ && monokai_colors()[1] == "#272822"@,
        gruvbox_dark_colors()[0] == "#ebdbb2"@ && gruvbox_dark_colors()[1] == "#282828"@,
        nord_colors()[0] == "#d8dee9"@ && nord_colors()[1] == "#2e3440"@,
{
    reveal_strlit("solarized-dark");
    reveal_strlit("solarized-light");
    reveal_strlit("dracula");
    reveal_strlit("monokai");
    reveal_strlit("gruvbox-dark");
    reveal_strlit("gruvbox");
    reveal_strlit("nord");
    assert("solarized-light"@.len() != "solarized-dark"@.len());
    assert("dracula"@[0] != "solarized-dark"@[0]);
    assert("dracula"@[0] != "solarized-light"@[0]);
    assert("monokai"@[0] != "solarized-dark"@[0]);
    assert("monokai"@[0] != "solarized-light"@[0]);
    assert("monokai"@[0] != "dracula"@[0]);
    law_gruvbox_alias();
    assert("nord"@[0] != "solarized-dark"@[0]);
    assert("nord"@[0] != "solarized-light"@[0]);
    assert("nord"@[0] != "dracula"@[0]);
    assert("nord"@[0] != "monokai"@[0]);
    assert("nord"@[0] != "gruvbox-dark"@[0]);
    assert("nord"@[0] != "gruvbox"@[0]);
}

/// Two theme names that select a palette select the same one only when
/// they are the same name, or are `gruvbox` and `gruvbox-dark`.
pub proof fn law_theme_names_distinct(a: Seq<char>, b: Seq<char>)
    requires
        theme_named(a) is Some,
        theme_named(a) == theme_named(b),
    ensures
        a == b || ((a == "gruvbox"@ || a == "gruvbox-dark"@) && (b == "gruvbox"@ || b
            == "gruvbox-dark"@)),
{
    reveal_strlit("#839496");
    reveal_strlit("#657b83");
    reveal_strlit("#f8f8f2");
    reveal_strlit("#ebdbb2");
    reveal_strlit("#d8dee9");
    reveal_strlit("#282a36");
    reveal_strlit("#272822");
    let sd = solarized_dark_colors();
    let sl = solarized_light_colors();
    let dr = dracula_colors();
    let mo = monokai_colors();
    let gr = gruvbox_dark_colors();
    let no = nord_colors();
    assert(sd[0][1] == '8');
    assert(sl[0][1] == '6');
    assert(dr[0][1] == 'f');
    assert(mo[0][1] == 'f');
    assert(gr[0][1] == 'e');
    assert(no[0][1] == 'd');
    assert(dr[1][2] == '8');
    assert(mo[1][2] == '7');
    assert(sd != sl && sd != dr && sd != mo && sd != gr && sd != no);
    assert(sl != dr && sl != mo && sl != gr && sl != no);
    assert(dr != mo && dr != gr && dr != no);
    assert(mo != gr && mo != no);
    assert(gr != no);
}

/// Value of an ASCII hexadecimal digit, either case.
pub open spec fn hex_digit_value(c: u8) -> Option<u8> {
    if 48 <= c <= 57 {
        Some((c - 48) as u8)
    } else if 97 <= c <= 102 {
        Some((c - 87) as u8)
    } else if 65 <= c <= 70 {
        Some((c - 55) as u8)
    } else {
        None
    }
}

/// A two-byte string read as a base-16 `u8`: an optional `+` sign
/// followed by digits only.
pub open spec fn parse_hex_byte(a: u8, b: u8) -> Option<u8> {
    if a == 43 {
        hex_digit_value(b)
    } else {
        match (hex_digit_value(a), hex_digit_value(b)) {
            (Some(x), Some(y)) => Some((x * 16 + y) as u8),
            _ => None,
        }
    }
}

/// The bytes after all leading `#`.
pub open spec fn strip_hashes(bytes: Seq<u8>) -> Seq<u8>
    decreases bytes.len(),
{
    if bytes.len() > 0 && bytes[0] == 35 {
        strip_hashes(bytes.skip(1))
    } else {
        bytes
    }
}

/// The colour that a `#rrggbb` string (any number of leading `#`, or
/// none) denotes: six bytes, read as three two-byte base-16 numbers.
pub open spec fn parse_hex_color(bytes: Seq<u8>) -> Option<Rgba> {
    let t = strip_hashes(bytes);
    if t.len() != 6 {
        None
    } else {
        match (parse_hex_byte(t[0], t[1]), parse_hex_byte(t[2], t[3]), parse_hex_byte(t[4], t[5])) {
            (Some(r), Some(g), Some(b)) => Some(Rgba::opaque(r, g, b)),
            _ => None,
        }
    }
}

/// The lowercase ASCII hexadecimal digit for `d` (below sixteen).
pub open spec fn hex_digit_byte(d: u8) -> u8 {
    if d < 10 {
        (48 + d) as u8
    } else {
        (87 + d) as u8
    }
}

/// The bytes of `#rrggbb` for a colour, in lowercase digits.
pub open spec fn hex_color_bytes(red: u8, green: u8, blue: u8) -> Seq<u8> {
    seq![
        35u8,
        hex_digit_byte(red / 16),
        hex_digit_byte(red % 16),
        hex_digit_byte(green / 16),
        hex_digit_byte(green % 16),
        hex_digit_byte(blue / 16),
        hex_digit_byte(blue % 16),
    ]
}

proof fn lemma_hex_pair(v: u8)
    ensures
        parse_hex_byte(hex_digit_byte(v / 16), hex_digit_byte(v % 16)) == Some(v),
{
    let hi = v / 16;
    let lo = v % 16;
    assert(v == hi * 16 + lo);
    assert(hex_digit_value(hex_digit_byte(hi)) == Some(hi));
    assert(hex_digit_value(hex_digit_byte(lo)) == Some(lo));
}

/// Reading the `#rrggbb` text of a colour gives that colour back: the
/// first digit pair is red, the second green, the third blue, each digit
/// pair a base-16 number.
pub proof fn law_hex_round_trip(red: u8, green: u8, blue: u8)
    ensures
        parse_hex_color(hex_color_bytes(red, green, blue)) == Some(Rgba::opaque(red, green, blue)),
{
    let bytes = hex_color_bytes(red, green, blue);
    let t = bytes.skip(1);
    assert(t[0] != 35u8);
    assert(strip_hashes(t) == t);
    assert(strip_hashes(bytes) == t);
    lemma_hex_pair(red);
    lemma_hex_pair(green);
    lemma_hex_pair(blue);
}

/// Reading `bytes` as a colour would cut a multi-byte character while
/// taking the two-byte pieces apart, which aborts.
pub open spec fn hex_slice_panics(bytes: Seq<u8>) -> bool {
    let t = strip_hashes(bytes);
    &&& t.len() == 6
    &&& (is_continuation_byte(t[2]) || (parse_hex_byte(t[0], t[1]) is Some
        && is_continuation_byte(t[4])))
}

/// `parse_hex_color`, or `fallback` where the string is no colour.
pub open spec fn color_or(bytes: Seq<u8>, fallback: Rgba) -> Rgba {
    match parse_hex_color(bytes) {
        Some(c) => c,
        None => fallback,
    }
}

fn hex_digit(c: u8) -> (r: Option<u8>)
    ensures
        r == hex_digit_value(c),
{
    if 48 <= c && c <= 57 {
        Some(c - 48)
    } else if 97 <= c && c <= 102 {
        Some(c - 87)
    } else if 65 <= c && c <= 70 {
        Some(c - 55)
    } else {
        None
    }
}

fn hex_byte(a: u8, b: u8) -> (r: Option<u8>)
    ensures
        r == parse_hex_byte(a, b),
{
    if a == 43 {
        return hex_digit(b);
    }
    match (hex_digit(a), hex_digit(b)) {
        (Some(x), Some(y)) => Some(x * 16 + y),
        _ => None,
    }
}

/// Number of leading `#` bytes.
fn hash_prefix_len(bytes: &[u8]) -> (k: usize)
    ensures
        k <= bytes@.len(),
        strip_hashes(bytes@) == bytes@.skip(k as int),
{
    let n = bytes.len();
    let mut k: usize = 0;
    assert(bytes@.skip(0) =~= bytes@);
    while k < n && bytes[k] == 35
        invariant
            k <= n,
            n == bytes@.len(),
            strip_hashes(bytes@) == strip_hashes(bytes@.skip(k as int)),
        decreases n - k,
    {
        assert(bytes@.skip(k as int).skip(1) =~= bytes@.skip(k + 1));
        k = k + 1;
    }
    k
}

/// Whether reading `hex` as a colour would cut a multi-byte character.
pub fn hex_slice_would_panic(hex: &str) -> (r: bool)
    ensures
        r == hex_slice_panics(hex.spec_bytes()),
{
    let bytes = hex.as_bytes();
    let k = hash_prefix_len(bytes);
    if bytes.len() - k != 6 {
        return false;
    }
    let b2 = bytes[k + 2];
    let b4 = bytes[k + 4];
    let cont2 = 128 <= b2 && b2 <= 191;
    let cont4 = 128 <= b4 && b4 <= 191;
    cont2 || (hex_byte(bytes[k], bytes[k + 1]).is_some() && cont4)
}

impl ColorPalette {
    /// Convert a hex colour string (`#rrggbb`, the `#` optional) to a
    /// colour.
    pub fn hex_to_rgba(hex: &str) -> (r: Option<Rgba>)
        requires
            !hex_slice_panics(hex.spec_bytes()),
        ensures
            r == parse_hex_color(hex.spec_bytes()),
    {
        let bytes = hex.as_bytes();
        let k = hash_prefix_len(bytes);
        if bytes.len() - k != 6 {
            return None;
        }
        let r = match hex_byte(bytes[k], bytes[k + 1]) {
            Some(v) => v,
            None => {
                return None;
            },
        };
        let g = match hex_byte(bytes[k + 2], bytes[k + 3]) {
            Some(v) => v,
            None => {
                return None;
            },
        };
        let b = match hex_byte(bytes[k + 4], bytes[k + 5]) {
            Some(v) => v,
            None => {
                return None;
            },
        };
        Some(Rgba::new(r, g, b))
    }

    /// Every terminal colour string can be read without cutting a
    /// character.
    pub open spec fn palette_ok(self) -> bool {
        &&& !hex_slice_panics(encode_utf8(self.black@))
        &&& !hex_slice_panics(encode_utf8(self.red@))
        &&& !hex_slice_panics(encode_utf8(self.green@))
        &&& !hex_slice_panics(encode_utf8(self.yellow@))
        &&& !hex_slice_panics(encode_utf8(self.blue@))
        &&& !hex_slice_panics(encode_utf8(self.magenta@))
        &&& !hex_slice_panics(encode_utf8(self.cyan@))
        &&& !hex_slice_panics(encode_utf8(self.white@))
        &&& !hex_slice_panics(encode_utf8(self.bright_black@))
        &&& !hex_slice_panics(encode_utf8(self.bright_red@))
        &&& !hex_slice_panics(encode_utf8(self.bright_green@))
        &&& !hex_slice_panics(encode_utf8(self.bright_yellow@))
        &&& !hex_slice_panics(encode_utf8(self.bright_blue@))
        &&& !hex_slice_panics(encode_utf8(self.bright_magenta@))
        &&& !hex_slice_panics(encode_utf8(self.bright_cyan@))
        &&& !hex_slice_panics(encode_utf8(self.bright_white@))
    }

    /// The sixteen terminal colours, black to bright white, each falling
    /// back to its default where its string is no colour.
    pub open spec fn spec_palette(self) -> Seq<Rgba> {
        seq![
            color_or(encode_utf8(self.black@), Rgba::opaque(0, 0, 0)),
            color_or(encode_utf8(self.red@), Rgba::opaque(204, 0, 0)),
            color_or(encode_utf8(self.green@), Rgba::opaque(0, 204, 0)),
            color_or(encode_utf8(self.yellow@), Rgba::opaque(204, 204, 0)),
            color_or(encode_utf8(self.blue@), Rgba::opaque(0, 0, 204)),
            color_or(encode_utf8(self.magenta@), Rgba::opaque(204, 0, 204)),
            color_or(encode_utf8(self.cyan@), Rgba::opaque(0, 204, 204)),
            color_or(encode_utf8(self.white@), Rgba::opaque(204, 204, 204)),
            color_or(encode_utf8(self.bright_black@), Rgba::opaque(102, 102, 102)),
            color_or(encode_utf8(self.bright_red@), Rgba::opaque(255, 0, 0)),
            color_or(encode_utf8(self.bright_green@), Rgba::opaque(0, 255, 0)),
            color_or(encode_utf8(self.bright_yellow@), Rgba::opaque(255, 255, 0)),
            color_or(encode_utf8(self.bright_blue@), Rgba::opaque(0, 0, 255)),
            color_or(encode_utf8(self.bright_magenta@), Rgba::opaque(255, 0, 255)),
            color_or(encode_utf8(self.bright_cyan@), Rgba::opaque(0, 255, 255)),
            color_or(encode_utf8(self.bright_white@), Rgba::opaque(255, 255, 255)),
        ]
    }

    /// Get a palette by name.
    pub fn by_name(name: &str) -> (r: Option<Self>)
        ensures
            match r {
                Some(p) => theme_named(name@) == Some(p@),
                None => theme_named(name@) is None,
            },
    {
        if same_text(name, "solarized-dark") {
            Some(Self::solarized_dark())
        } else if same_text(name, "solarized-light") {
            Some(Self::solarized_light())
        } else if same_text(name, "dracula") {
            Some(Self::dracula())
        } else if same_text(name, "monokai") {
            Some(Self::monokai())
        } else if same_text(name, "gruvbox-dark") || same_text(name, "gruvbox") {
            Some(Self::gruvbox_dark())
        } else if same_text(name, "nord") {
            Some(Self::nord())
        } else {
            None
        }
    }

    /// Get the 16-color palette, each colour falling back to a default
    /// where its string is no colour.
    pub fn get_palette(&self) -> (r: Vec<Rgba>)
        requires
            self.palette_ok(),
        ensures
            r@ == self.spec_palette(),
    {
        let mut v: Vec<Rgba> = Vec::new();
        v.push(color_or_default(self.black.as_str(), Rgba::new(0, 0, 0)));
        v.push(color_or_default(self.red.as_str(), Rgba::new(204, 0, 0)));
        v.push(color_or_default(self.green.as_str(), Rgba::new(0, 204, 0)));
        v.push(color_or_default(self.yellow.as_str(), Rgba::new(204, 204, 0)));
        v.push(color_or_default(self.blue.as_str(), Rgba::new(0, 0, 204)));
        v.push(color_or_default(self.magenta.as_str(), Rgba::new(204, 0, 204)));
        v.push(color_or_default(self.cyan.as_str(), Rgba::new(0, 204, 204)));
        v.push(color_or_default(self.white.as_str(), Rgba::new(204, 204, 204)));
        v.push(color_or_default(self.bright_black.as_str(), Rgba::new(102, 102, 102)));
        v.push(color_or_default(self.bright_red.as_str(), Rgba::new(255, 0, 0)));
        v.push(color_or_default(self.bright_green.as_str(), Rgba::new(0, 255, 0)));
        v.push(color_or_default(self.bright_yellow.as_str(), Rgba::new(255, 255, 0)));
        v.push(color_or_default(self.bright_blue.as_str(), Rgba::new(0, 0, 255)));
        v.push(color_or_default(self.bright_magenta.as_str(), Rgba::new(255, 0, 255)));
        v.push(color_or_default(self.bright_cyan.as_str(), Rgba::new(0, 255, 255)));
        v.push(color_or_default(self.bright_white.as_str(), Rgba::new(255, 255, 255)));
        assert(v@ =~= self.spec_palette());
        v
    }

    /// Get foreground color, white where the string is no colour.
    pub fn get_foreground(&self) -> (r: Rgba)
        requires
            !hex_slice_panics(encode_utf8(self.foreground@)),
        ensures
            r == color_or(encode_utf8(self.foreground@), Rgba::opaque(255, 255, 255)),
    {
        color_or_default(self.foreground.as_str(), Rgba::new(255, 255, 255))
    }

    /// Get background color, black where the string is no colour.
    pub fn get_background(&self) -> (r: Rgba)
        requires
            !hex_slice_panics(encode_utf8(self.background@)),
        ensures
            r == color_or(encode_utf8(self.background@), Rgba::opaque(0, 0, 0)),
    {
        color_or_default(self.background.as_str(), Rgba::new(0, 0, 0))
    }
}

fn color_or_default(hex: &str, fallback: Rgba) -> (r: Rgba)
    requires
        !hex_slice_panics(hex.spec_bytes()),
    ensures
        r == color_or(hex.spec_bytes(), fallback),
{
    match ColorPalette::hex_to_rgba(hex) {
        Some(c) => c,
        None => fallback,
    }
}

/// The colour that a terminal colour takes where its string is no
/// colour, by its ANSI number: black, red, green, yellow, blue, magenta,
/// cyan, white, then the bright ones.
pub open spec fn ansi_default(i: int) -> Rgba {
    seq![
        Rgba::opaque(0, 0, 0),
        Rgba::opaque(204, 0, 0),
        Rgba::opaque(0, 204, 0),
        Rgba::opaque(204, 204, 0),
        Rgba::opaque(0, 0, 204),
        Rgba::opaque(204, 0, 204),
        Rgba::opaque(0, 204, 204),
        Rgba::opaque(204, 204, 204),
        Rgba::opaque(102, 102, 102),
        Rgba::opaque(255, 0, 0),
        Rgba::opaque(0, 255, 0),
        Rgba::opaque(255, 255, 0),
        Rgba::opaque(0, 0, 255),
        Rgba::opaque(255, 0, 255),
        Rgba::opaque(0, 255, 255),
        Rgba::opaque(255, 255, 255),
    ][i]
}

/// The palette has sixteen entries, and entry `i` is read from the
/// terminal colour string with ANSI number `i`: the strings stand after
/// foreground and background in a palette's view, in the order black,
/// red, green, yellow, blue, magenta, cyan, white, bright black to bright
/// white. A string that is a colour gives that colour, any other string
/// the default of its number.
pub proof fn law_palette_in_ansi_order(p: ColorPalette)
    ensures
        p.spec_palette().len() == 16,
        forall|i: int|
            0 <= i < 16 ==> #[trigger] p.spec_palette()[i] == color_or(
                encode_utf8(p@[i + 2]),
                ansi_default(i),
            ),
{
    let pal = p.spec_palette();
    let v = p@;
    assert(pal[0] == color_or(encode_utf8(v[2]), ansi_default(0)));
    assert(pal[1] == color_or(encode_utf8(v[3]), ansi_default(1)));
    assert(pal[2] == color_or(encode_utf8(v[4]), ansi_default(2)));
    assert(pal[3] == color_or(encode_utf8(v[5]), ansi_default(3)));
    assert(pal[4] == color_or(encode_utf8(v[6]), ansi_default(4)));
    assert(pal[5] == color_or(encode_utf8(v[7]), ansi_default(5)));
    assert(pal[6] == color_or(encode_utf8(v[8]), ansi_default(6)));
    assert(pal[7] == color_or(encode_utf8(v[9]), ansi_default(7)));
    assert(pal[8] == color_or(encode_utf8(v[10]), ansi_default(8)));
    assert(pal[9] == color_or(encode_utf8(v[11]), ansi_default(9)));
    assert(pal[10] == color_or(encode_utf8(v[12]), ansi_default(10)));
    assert(pal[11] == color_or(encode_utf8(v[13]), ansi_default(11)));
    assert(pal[12] == color_or(encode_utf8(v[14]), ansi_default(12)));
    assert(pal[13] == color_or(encode_utf8(v[15]), ansi_default(13)));
    assert(pal[14] == color_or(encode_utf8(v[16]), ansi_default(14)));
    assert(pal[15] == color_or(encode_utf8(v[17]), ansi_default(15)));
}

} // verus!
