//! Base16 color themes: the sixteen colors of a theme as hexadecimal text and
//! as parsed values.

use vstd::prelude::*;

verus! {

/// A Base16 theme. `base00` .. `base0F` hold the colors as written in the
/// theme file (`RRGGBB` in hexadecimal); `base` holds them parsed.
#[allow(non_snake_case)]
pub struct Theme {
    pub scheme: String,
    pub author: String,
    pub base00: String,
    pub base01: String,
    pub base02: String,
    pub base03: String,
    pub base04: String,
    pub base05: String,
    pub base06: String,
    pub base07: String,
    pub base08: String,
    pub base09: String,
    pub base0A: String,
    pub base0B: String,
    pub base0C: String,
    pub base0D: String,
    pub base0E: String,
    pub base0F: String,
    pub base: [u32; 16],
}

/// A theme with no name, author or color texts, and every color 0.
pub open spec fn is_blank_theme(t: Theme) -> bool {
    &&& t.scheme@.len() == 0
    &&& t.author@.len() == 0
    &&& t.base00@.len() == 0
    &&& t.base01@.len() == 0
    &&& t.base02@.len() == 0
    &&& t.base03@.len() == 0
    &&& t.base04@.len() == 0
    &&& t.base05@.len() == 0
    &&& t.base06@.len() == 0
    &&& t.base07@.len() == 0
    &&& t.base08@.len() == 0
    &&& t.base09@.len() == 0
    &&& t.base0A@.len() == 0
    &&& t.base0B@.len() == 0
    &&& t.base0C@.len() == 0
    &&& t.base0D@.len() == 0
    &&& t.base0E@.len() == 0
    &&& t.base0F@.len() == 0
    &&& forall|i: int| 0 <= i < 16 ==> t.base@[i] == 0
}

impl Clone for Theme {
    fn clone(&self) -> (t: Self)
        ensures
            t == *self,
    {
        Theme {
            scheme: self.scheme.clone(),
            author: self.author.clone(),
            base00: self.base00.clone(),
            base01: self.base01.clone(),
            base02: self.base02.clone(),
            base03: self.base03.clone(),
            base04: self.base04.clone(),
            base05: self.base05.clone(),
            base06: self.base06.clone(),
            base07: self.base07.clone(),
            base08: self.base08.clone(),
            base09: self.base09.clone(),
            base0A: self.base0A.clone(),
            base0B: self.base0B.clone(),
            base0C: self.base0C.clone(),
            base0D: self.base0D.clone(),
            base0E: self.base0E.clone(),
            base0F: self.base0F.clone(),
            base: self.base,
        }
    }
}

impl Default for Theme {
    fn default() -> (t: Self)
        ensures
            is_blank_theme(t),
    {
        Theme {
            scheme: String::new(),
            author: String::new(),
            base00: String::new(),
            base01: String::new(),
            base02: String::new(),
            base03: String::new(),
            base04: String::new(),
            base05: String::new(),
            base06: String::new(),
            base07: String::new(),
            base08: String::new(),
            base09: String::new(),
            base0A: String::new(),
            base0B: String::new(),
            base0C: String::new(),
            base0D: String::new(),
            base0E: String::new(),
            base0F: String::new(),
            base: [0u32; 16],
        }
    }
}

#[verifier::external_type_specification]
#[verifier::external_body]
pub struct ExParseIntError(std::num::ParseIntError);

/// The value of a hexadecimal digit (either case), or none for any other
/// character.
pub open spec fn hex_digit_value(c: char) -> Option<nat> {
    let n = c as int;
    if 48 <= n <= 57 {
        Some((n - 48) as nat)
    } else if 97 <= n <= 102 {
        Some((n - 87) as nat)
    } else if 65 <= n <= 70 {
        Some((n - 55) as nat)
    } else {
        None
    }
}

/// The number that a string of hexadecimal digits stands for (0 for the
/// empty string), or none when a character is no hexadecimal digit.
pub open spec fn hex_digits_value(s: Seq<char>) -> Option<nat>
    decreases s.len(),
{
    if s.len() == 0 {
        Some(0)
    } else {
        match (hex_digits_value(s.drop_last()), hex_digit_value(s.last())) {
            (Some(high), Some(low)) => Some(high * 16 + low),
            _ => None,
        }
    }
}

/// What `u32::from_str_radix(s, 16)` accepts: an optional `+` followed by
/// at least one hexadecimal digit, standing for a number that fits in a
/// `u32`. Anything else (the empty string, a sign alone, a `-`, spaces or
/// other characters, too large a number) is rejected.
pub open spec fn parse_hex_u32(s: Seq<char>) -> Option<u32> {
    let digits = if s.len() > 0 && s[0] == '+' { s.drop_first() } else { s };
    if digits.len() == 0 {
        None
    } else {
        match hex_digits_value(digits) {
            Some(v) => if v <= u32::MAX { Some(v as u32) } else { None },
            None => None,
        }
    }
}

/// The error that `u32::from_str_radix(s, 16)` gives for text `s`.
pub uninterp spec fn hex_parse_error(s: Seq<char>) -> std::num::ParseIntError;

/// Parses hexadecimal text with `u32::from_str_radix(s, 16)`. Its contract
/// restates what the standard library documents: an optional `+` and then
/// only digits of the radix, any other character, an empty string or an
/// overflow being an error.
/// The error it gives is a function of the text alone (its kind: empty,
/// invalid digit or overflow), named `hex_parse_error`.
#[verifier::external_body]
fn hex_to_u32(s: &str) -> (r: Result<u32, std::num::ParseIntError>)
    ensures
        match r {
            Ok(v) => parse_hex_u32(s@) == Some(v),
            Err(e) => parse_hex_u32(s@) is None && e == hex_parse_error(s@),
        },
{
    u32::from_str_radix(s, 16)
}

/// The sixteen color texts of a theme, `base00` first.
pub open spec fn color_texts(t: Theme) -> Seq<Seq<char>> {
    seq![
        t.base00@, t.base01@, t.base02@, t.base03@, t.base04@, t.base05@, t.base06@, t.base07@,
        t.base08@, t.base09@, t.base0A@, t.base0B@, t.base0C@, t.base0D@, t.base0E@, t.base0F@,
    ]
}

/// Every color text of the theme parses as hexadecimal.
pub open spec fn colors_parse(t: Theme) -> bool {
    forall|i: int| 0 <= i < 16 ==> (#[trigger] parse_hex_u32(color_texts(t)[i])) is Some
}

/// The index of the first color text from `k` on that does not parse
/// (16 when they all do).
pub open spec fn first_bad_color_from(texts: Seq<Seq<char>>, k: int) -> int
    decreases 16 - k,
{
    if k >= 16 {
        16
    } else if parse_hex_u32(texts[k]) is None {
        k
    } else {
        first_bad_color_from(texts, k + 1)
    }
}

proof fn lemma_skip_good_color(texts: Seq<Seq<char>>, k: int)
    requires
        0 <= k < 16,
        parse_hex_u32(texts[k]) is Some,
    ensures
        first_bad_color_from(texts, k) == first_bad_color_from(texts, k + 1),
{
}

/// The index of the first color text of `t` that does not parse.
pub open spec fn first_bad_color(t: Theme) -> int {
    first_bad_color_from(color_texts(t), 0)
}

/// Parses the sixteen color texts of `theme` into `base`; fails with the
/// first text that is no hexadecimal `u32`.
pub fn parse_theme_colors(theme: Theme) -> (r: Result<Theme, std::num::ParseIntError>)
    ensures
        r is Ok <==> colors_parse(theme),
        r matches Err(e) ==> first_bad_color(theme) < 16 && e == hex_parse_error(color_texts(theme)[first_bad_color(theme)]),
        r matches Ok(t) ==> {
            &&& t == (Theme { base: t.base, ..theme })
            &&& forall|i: int| 0 <= i < 16 ==> Some(#[trigger] t.base@[i]) == parse_hex_u32(color_texts(theme)[i])
        },
{
    let ghost texts = color_texts(theme);
    let fields: [&String; 16] = [&theme.base00, &theme.base01, &theme.base02, &theme.base03, &theme.base04, &theme.base05, &theme.base06, &theme.base07, &theme.base08, &theme.base09, &theme.base0A, &theme.base0B, &theme.base0C, &theme.base0D, &theme.base0E, &theme.base0F];
    let mut base: [u32; 16] = [0u32; 16];
    let mut i: usize = 0;
    while i < 16
        invariant
            texts == color_texts(theme),
            forall|j: int| 0 <= j < 16 ==> (#[trigger] fields@[j])@ == texts[j],
            i <= 16,
            forall|j: int| 0 <= j < i ==> Some(#[trigger] base@[j]) == parse_hex_u32(texts[j]),
            first_bad_color_from(texts, 0) == first_bad_color_from(texts, i as int),
        decreases 16 - i,
    {
        match hex_to_u32(fields[i].as_str()) {
            Ok(v) => {
                base[i] = v;
                proof {
                    lemma_skip_good_color(texts, i as int);
                }
            },
            Err(e) => {
                assert(first_bad_color_from(texts, i as int) == i);
                return Err(e);
            },
        }
        i += 1;
    }
    proof {
        assert forall|j: int| 0 <= j < 16 implies (#[trigger] parse_hex_u32(texts[j])) is Some by {
            assert(Some(base@[j]) == parse_hex_u32(texts[j]));
        }
    }
    let mut theme = theme;
    theme.base = base;
    Ok(theme)
}

} // verus!
