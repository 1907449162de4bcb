//! The launcher's user-facing settings, as plain values, with their stock
//! defaults, and the hex color parsing the theme files need. Reading and
//! writing the configuration file, and turning parsed color channels into
//! toolkit colors, is the shell's work.

use vstd::prelude::*;
use vstd::string::*;

verus! {

/// The launcher window's dimensions.
#[derive(Debug, Clone, PartialEq, Eq, Structural)]
pub struct WindowConfig {
    pub width: u16,
    pub height: u16,
}

impl Default for WindowConfig {
    /// The stock window size.
    fn default() -> (r: Self)
        ensures
            r.width == 774,
            r.height == 500,
    {
        WindowConfig { width: 774, height: 500 }
    }
}

/// Text presentation settings.
#[derive(Debug, Clone, PartialEq, Eq)]
pub struct TextConfig {
    pub font_name: String,
    pub list_text_size: u16,
    pub input_text_size: u16,
    pub placeholder: String,
}

impl Default for TextConfig {
    /// The stock text settings.
    fn default() -> (r: Self)
        ensures
            r.font_name@ == " "@,
            r.list_text_size == 16,
            r.input_text_size == 18,
            r.placeholder@ == "Type commands, search..."@,
    {
        TextConfig {
            font_name: " ".to_owned(),
            list_text_size: 16,
            input_text_size: 18,
            placeholder: "Type commands, search...".to_owned(),
        }
    }
}

/// Behavior toggles.
#[derive(Debug, Clone, PartialEq, Eq)]
pub struct BehaviorConfig {
    pub show_apps: bool,
    pub close_on_launch: bool,
    pub highlight_style_text: bool,
    pub default_terminal: String,
}

impl Default for BehaviorConfig {
    /// The stock behavior.
    fn default() -> (r: Self)
        ensures
            r.show_apps == true,
            r.close_on_launch == true,
            r.highlight_style_text == false,
            r.default_terminal@ == "kitty"@,
    {
        BehaviorConfig {
            show_apps: true,
            close_on_launch: true,
            highlight_style_text: false,
            default_terminal: "kitty".to_owned(),
        }
    }
}

/// Key bindings, as key names.
#[derive(Debug, Clone, PartialEq, Eq)]
pub struct KeybindsConfig {
    pub close: String,
    pub open_key: String,
    pub navigation: Vec<String>,
}

impl Default for KeybindsConfig {
    /// The stock bindings: escape closes, enter opens, the arrow keys move.
    fn default() -> (r: Self)
        ensures
            r.close@ == "escape"@,
            r.open_key@ == "enter"@,
            r.navigation.deep_view() =~= seq!["arrowup"@, "arrowdown"@],
    {
        let navigation = vec!["arrowup".to_owned(), "arrowdown".to_owned()];
        proof {
            assert(navigation.deep_view() =~= seq!["arrowup"@, "arrowdown"@]);
        }
        KeybindsConfig {
            close: "escape".to_owned(),
            open_key: "enter".to_owned(),
            navigation,
        }
    }
}

/// A hexadecimal digit.
pub open spec fn is_hex_digit(c: char) -> bool {
    ('0' <= c && c <= '9') || ('a' <= c && c <= 'f') || ('A' <= c && c <= 'F')
}

/// The value of a hexadecimal digit; 0 for any other character.
pub open spec fn hex_digit_val(c: char) -> u8 {
    if '0' <= c && c <= '9' {
        ((c as u32) - ('0' as u32)) as u8
    } else if 'a' <= c && c <= 'f' {
        ((c as u32) - ('a' as u32) + 10) as u8
    } else if 'A' <= c && c <= 'F' {
        ((c as u32) - ('A' as u32) + 10) as u8
    } else {
        0
    }
}

/// The byte two hexadecimal digits spell.
pub open spec fn hex_pair_val(h: char, l: char) -> u8 {
    (hex_digit_val(h) * 16 + hex_digit_val(l)) as u8
}

/// `s` without every leading `#`.
pub open spec fn without_hash_prefix(s: Seq<char>) -> Seq<char>
    decreases s.len(),
{
    if s.len() > 0 && s[0] == '#' {
        without_hash_prefix(s.subrange(1, s.len() as int))
    } else {
        s
    }
}

/// What a color text means: strip the leading `#`s; exactly six
/// hexadecimal digits must remain, read as three channel bytes.
pub open spec fn hex_color_spec(s: Seq<char>) -> Option<(u8, u8, u8)> {
    let t = without_hash_prefix(s);
    if t.len() == 6 && is_hex_digit(t[0]) && is_hex_digit(t[1]) && is_hex_digit(t[2])
        && is_hex_digit(t[3]) && is_hex_digit(t[4]) && is_hex_digit(t[5]) {
        Some((hex_pair_val(t[0], t[1]), hex_pair_val(t[2], t[3]), hex_pair_val(t[4], t[5])))
    } else {
        None
    }
}

/// The value of one hexadecimal digit, or nothing.
fn hex_val(c: char) -> (r: Option<u8>)
    ensures
        match r {
            Some(v) => is_hex_digit(c) && v == hex_digit_val(c),
            None => !is_hex_digit(c),
        },
{
    if '0' <= c && c <= '9' {
        Some(((c as u32) - ('0' as u32)) as u8)
    } else if 'a' <= c && c <= 'f' {
        Some(((c as u32) - ('a' as u32) + 10) as u8)
    } else if 'A' <= c && c <= 'F' {
        Some(((c as u32) - ('A' as u32) + 10) as u8)
    } else {
        None
    }
}

/// Parse a `#rrggbb` color text into its three channel bytes. Any number of
/// leading `#`s is accepted; anything but six hexadecimal digits after them
/// is rejected.
pub fn hex_to_rgb(hex: &str) -> (r: Option<(u8, u8, u8)>)
    ensures
        r == hex_color_spec(hex@),
{
    let n = hex.unicode_len();
    let mut i: usize = 0;
    proof {
        assert(hex@.subrange(0, n as int) =~= hex@);
    }
    while i < n && hex.get_char(i) == '#'
        invariant
            n == hex@.len(),
            i <= n,
            without_hash_prefix(hex@.subrange(i as int, n as int)) == without_hash_prefix(hex@),
        decreases n - i,
    {
        proof {
            let rest = hex@.subrange(i as int, n as int);
            assert(rest.subrange(1, rest.len() as int) =~= hex@.subrange(i + 1, n as int));
        }
        i += 1;
    }
    let ghost t = without_hash_prefix(hex@);
    proof {
        if i < n {
            assert(hex@.subrange(i as int, n as int)[0] != '#');
        }
        assert(t == hex@.subrange(i as int, n as int));
    }
    if n - i != 6 {
        return None;
    }
    proof {
        assert forall|k: int| 0 <= k < 6 implies t[k] == hex@[i + k] by {}
    }
    let c0 = hex_val(hex.get_char(i));
    let c1 = hex_val(hex.get_char(i + 1));
    let c2 = hex_val(hex.get_char(i + 2));
    let c3 = hex_val(hex.get_char(i + 3));
    let c4 = hex_val(hex.get_char(i + 4));
    let c5 = hex_val(hex.get_char(i + 5));
    match (c0, c1, c2, c3, c4, c5) {
        (Some(h0), Some(h1), Some(h2), Some(h3), Some(h4), Some(h5)) => Some(
            (h0 * 16 + h1, h2 * 16 + h3, h4 * 16 + h5),
        ),
        _ => None,
    }
}

} // verus!
