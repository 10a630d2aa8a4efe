//! The colour seeds of a UI theme and the `#rrggbb` / `#rrggbbaa` notation they are written in.
use vstd::prelude::*;
use crate::layout::{byte_len, byte_len_at_most, utf8_len, utf8_len_of};
use crate::text::{chars_of, slice_range, trim_bounds, trimmed};

verus! {

/// A colour as a theme file writes it: opaque, or with an alpha channel that blends it over
/// a background.
#[derive(PartialEq, Eq, Structural, Clone, Copy, Debug)]
pub enum HexColor {
    Opaque(u8, u8, u8),
    Translucent(u8, u8, u8, u8),
}

/// The value of a hexadecimal digit (`0-9`, `a-f`, `A-F`).
pub open spec fn hex_digit(c: char) -> Option<nat> {
    if '0' <= c && c <= '9' {
        Some((c as int - '0' as int) as nat)
    } else if 'a' <= c && c <= 'f' {
        Some((c as int - 'a' as int + 10) as nat)
    } else if 'A' <= c && c <= 'F' {
        Some((c as int - 'A' as int + 10) as nat)
    } else {
        None
    }
}

/// A two-character field read as `u8::from_str_radix(field, 16)` reads it: two hexadecimal
/// digits, or a `+` sign and one digit.
pub open spec fn hex_field(a: char, b: char) -> Option<u8> {
    match hex_digit(b) {
        Some(y) => match hex_digit(a) {
            Some(x) => Some((16 * x + y) as u8),
            None => if a == '+' {
                Some(y as u8)
            } else {
                None
            },
        },
        None => None,
    }
}

/// The field of `s` that starts at character `i`.
pub open spec fn field_at(s: Seq<char>, i: int) -> Option<u8> {
    hex_field(s[i], s[i + 1])
}

/// Whether `c` is ASCII.
pub open spec fn is_ascii(c: char) -> bool {
    (c as u32) < 0x80
}

/// Whether every character of `s` is ASCII.
pub open spec fn all_ascii(s: Seq<char>) -> bool {
    forall|i: int| 0 <= i < s.len() ==> is_ascii(#[trigger] s[i])
}

/// The digits of a colour text: trimmed of whitespace, without one leading `#`.
pub open spec fn hex_body(text: Seq<char>) -> Seq<char> {
    let t = trimmed(text);
    if t.len() > 0 && t[0] == '#' {
        t.subrange(1, t.len() as int)
    } else {
        t
    }
}

/// The colour that a text such as `#1a2b3c` or `1a2b3c80` names: six digits give an opaque
/// colour, eight a colour with alpha; anything else names none.
pub open spec fn parsed_hex(text: Seq<char>) -> Option<HexColor> {
    let s = hex_body(text);
    if !all_ascii(s) {
        None
    } else if s.len() == 6 {
        match (field_at(s, 0), field_at(s, 2), field_at(s, 4)) {
            (Some(r), Some(g), Some(b)) => Some(HexColor::Opaque(r, g, b)),
            _ => None,
        }
    } else if s.len() == 8 {
        match (field_at(s, 0), field_at(s, 2), field_at(s, 4), field_at(s, 6)) {
            (Some(r), Some(g), Some(b), Some(a)) => Some(HexColor::Translucent(r, g, b, a)),
            _ => None,
        }
    } else {
        None
    }
}

/// Index of the first non-ASCII character of `s` at or after `i` (its length when none).
pub open spec fn first_non_ascii(s: Seq<char>, i: int) -> int
    decreases s.len() - i,
{
    if 0 <= i < s.len() && is_ascii(s[i]) {
        first_non_ascii(s, i + 1)
    } else {
        i
    }
}

/// Whether reading the digits `s` two bytes at a time cuts a character in two before any
/// field has failed to parse, which makes the byte slicing panic: `s` is six or eight bytes
/// long, all fields before its first non-ASCII character parse, and that character does
/// not fill a whole two-byte field.
pub open spec fn hex_fields_cut_char(s: Seq<char>) -> bool {
    let p = first_non_ascii(s, 0);
    &&& (byte_len(s) == 6 || byte_len(s) == 8)
    &&& p < s.len()
    &&& fields_parse_up_to(s, p)
    &&& !(p % 2 == 0 && utf8_len(s[p]) == 2)
}

/// Whether every two-character field of `s` that ends at or before character `p` parses.
pub open spec fn fields_parse_up_to(s: Seq<char>, p: int) -> bool {
    forall|j: int| 0 <= j && j + 2 <= p && j % 2 == 0 ==> #[trigger] field_at(s, j) is Some
}

pub proof fn lemma_first_non_ascii(s: Seq<char>, i: int)
    requires
        0 <= i <= s.len(),
    ensures
        i <= first_non_ascii(s, i) <= s.len(),
        forall|k: int| i <= k < first_non_ascii(s, i) ==> is_ascii(#[trigger] s[k]),
        first_non_ascii(s, i) < s.len() ==> !is_ascii(s[first_non_ascii(s, i)]),
    decreases s.len() - i,
{
    if i < s.len() && is_ascii(s[i]) {
        lemma_first_non_ascii(s, i + 1);
    }
}

fn hex_digit_of(c: char) -> (r: Option<u8>)
    ensures
        match hex_digit(c) {
            Some(d) => r == Some(d as u8) && d < 16,
            None => r is None,
        },
{
    if '0' <= c && c <= '9' {
        Some((c as u32 - '0' as u32) as u8)
    } else if 'a' <= c && c <= 'f' {
        Some((c as u32 - 'a' as u32 + 10) as u8)
    } else if 'A' <= c && c <= 'F' {
        Some((c as u32 - 'A' as u32 + 10) as u8)
    } else {
        None
    }
}

fn hex_field_of(a: char, b: char) -> (r: Option<u8>)
    ensures
        r == hex_field(a, b),
{
    match hex_digit_of(b) {
        Some(y) => match hex_digit_of(a) {
            Some(x) => Some(16 * x + y),
            None => if a == '+' {
                Some(y)
            } else {
                None
            },
        },
        None => None,
    }
}

/// The digits of a colour text (see [`hex_body`]).
fn hex_body_chars(hex: &str) -> (r: Vec<char>)
    ensures
        r@ == hex_body(hex@),
{
    let chars = chars_of(hex);
    let (lo, hi) = trim_bounds(chars.as_slice());
    if lo < hi && chars[lo] == '#' {
        slice_range(chars.as_slice(), lo + 1, hi)
    } else {
        slice_range(chars.as_slice(), lo, hi)
    }
}

/// Index of the first non-ASCII character of `s`.
fn first_non_ascii_index(s: &Vec<char>) -> (p: usize)
    ensures
        p == first_non_ascii(s@, 0),
        p <= s@.len(),
{
    proof {
        lemma_first_non_ascii(s@, 0);
    }
    let mut p: usize = 0;
    while p < s.len() && (s[p] as u32) < 0x80
        invariant
            p <= s@.len(),
            first_non_ascii(s@, p as int) == first_non_ascii(s@, 0),
        decreases s@.len() - p,
    {
        p += 1;
    }
    p
}

/// Whether every field that ends at or before character `p` parses.
fn fields_parse_before(s: &Vec<char>, p: usize) -> (r: bool)
    requires
        p <= s@.len(),
    ensures
        r == fields_parse_up_to(s@, p as int),
{
    let mut j: usize = 0;
    while p >= 2 && j <= p - 2
        invariant
            p <= s@.len(),
            j % 2 == 0,
            j <= p + 1,
            forall|i: int| 0 <= i && i + 2 <= j && i % 2 == 0 ==> #[trigger] field_at(s@, i) is Some,
        decreases p + 2 - j,
    {
        if hex_field_of(s[j], s[j + 1]).is_none() {
            assert(field_at(s@, j as int) is None);
            return false;
        }
        j += 2;
    }
    assert forall|i: int| 0 <= i && i + 2 <= p && i % 2 == 0 implies #[trigger] field_at(s@, i) is Some by {
        assert(i + 2 <= j);
    }
    true
}

/// Whether the digits of a colour text can be read two bytes at a time without cutting a
/// character in two (see [`hex_fields_cut_char`]); [`parse_hex_rgb`] asks for it.
pub fn hex_text_splits_cleanly(hex: &str) -> (r: bool)
    ensures
        r == !hex_fields_cut_char(hex_body(hex@)),
{
    let s = hex_body_chars(hex);
    let p = first_non_ascii_index(&s);
    if p == s.len() {
        return true;
    }
    let n = s.len();
    let six = byte_len_at_most(&s, 0, n, 6) && !byte_len_at_most(&s, 0, n, 5);
    let eight = byte_len_at_most(&s, 0, n, 8) && !byte_len_at_most(&s, 0, n, 7);
    assert(s@.subrange(0, n as int) =~= s@);
    if !six && !eight {
        return true;
    }
    if !fields_parse_before(&s, p) {
        return true;
    }
    p % 2 == 0 && utf8_len_of(s[p]) == 2
}

/// The colour named by a text such as `#1a2b3c` (opaque) or `#1a2b3c80` (with alpha), after
/// trimming whitespace; the `#` is optional. Texts of other lengths, or with a field that
/// is not hexadecimal, name none.
pub fn parse_hex_rgb(hex: &str) -> (r: Option<HexColor>)
    requires
        !hex_fields_cut_char(hex_body(hex@)),
    ensures
        r == parsed_hex(hex@),
{
    let s = hex_body_chars(hex);
    let p = first_non_ascii_index(&s);
    proof {
        lemma_first_non_ascii(s@, 0);
    }
    if p < s.len() {
        assert(!is_ascii(s@[p as int]));
        return None;
    }
    assert(all_ascii(s@));
    if s.len() == 6 {
        let r = hex_field_of(s[0], s[1]);
        let g = hex_field_of(s[2], s[3]);
        let b = hex_field_of(s[4], s[5]);
        match (r, g, b) {
            (Some(r), Some(g), Some(b)) => Some(HexColor::Opaque(r, g, b)),
            _ => None,
        }
    } else if s.len() == 8 {
        let r = hex_field_of(s[0], s[1]);
        let g = hex_field_of(s[2], s[3]);
        let b = hex_field_of(s[4], s[5]);
        let a = hex_field_of(s[6], s[7]);
        match (r, g, b, a) {
            (Some(r), Some(g), Some(b), Some(a)) => Some(HexColor::Translucent(r, g, b, a)),
            _ => None,
        }
    } else {
        None
    }
}

/// The colour an optional seed names: none when the seed is absent.
pub open spec fn parsed_opt(seed: Option<String>) -> Option<HexColor> {
    match seed {
        Some(h) => parsed_hex(h@),
        None => None,
    }
}

/// Whether an optional seed, when present, can be read without cutting a character.
pub open spec fn opt_splits_cleanly(seed: Option<String>) -> bool {
    seed matches Some(h) ==> !hex_fields_cut_char(hex_body(h@))
}

fn parse_opt(seed: &Option<String>) -> (r: Option<HexColor>)
    requires
        opt_splits_cleanly(*seed),
    ensures
        r == parsed_opt(*seed),
{
    match seed {
        Some(h) => parse_hex_rgb(h.as_str()),
        None => None,
    }
}

/// The seed colours from which a theme variant derives its palette, as hexadecimal texts.
pub struct UiThemeSeeds {
    pub neutral: String,
    pub ink: Option<String>,
    pub primary: String,
    pub accent: Option<String>,
    pub success: String,
    pub warning: String,
    pub error: String,
    pub info: String,
    pub interactive: Option<String>,
    pub diff_add: Option<String>,
    pub diff_delete: Option<String>,
}

impl UiThemeSeeds {
    /// The neutral (background) seed colour.
    pub fn neutral_rgb(&self) -> (r: Option<HexColor>)
        requires
            !hex_fields_cut_char(hex_body(self.neutral@)),
        ensures
            r == parsed_hex(self.neutral@),
    {
        parse_hex_rgb(self.neutral.as_str())
    }

    /// The ink (text) seed colour, when the theme has one.
    pub fn ink_rgb(&self) -> (r: Option<HexColor>)
        requires
            opt_splits_cleanly(self.ink),
        ensures
            r == parsed_opt(self.ink),
    {
        parse_opt(&self.ink)
    }

    /// The primary seed colour.
    pub fn primary_rgb(&self) -> (r: Option<HexColor>)
        requires
            !hex_fields_cut_char(hex_body(self.primary@)),
        ensures
            r == parsed_hex(self.primary@),
    {
        parse_hex_rgb(self.primary.as_str())
    }

    /// The accent seed colour, when the theme has one.
    pub fn accent_rgb(&self) -> (r: Option<HexColor>)
        requires
            opt_splits_cleanly(self.accent),
        ensures
            r == parsed_opt(self.accent),
    {
        parse_opt(&self.accent)
    }

    /// The success seed colour.
    pub fn success_rgb(&self) -> (r: Option<HexColor>)
        requires
            !hex_fields_cut_char(hex_body(self.success@)),
        ensures
            r == parsed_hex(self.success@),
    {
        parse_hex_rgb(self.success.as_str())
    }

    /// The warning seed colour.
    pub fn warning_rgb(&self) -> (r: Option<HexColor>)
        requires
            !hex_fields_cut_char(hex_body(self.warning@)),
        ensures
            r == parsed_hex(self.warning@),
    {
        parse_hex_rgb(self.warning.as_str())
    }

    /// The error seed colour.
    pub fn error_rgb(&self) -> (r: Option<HexColor>)
        requires
            !hex_fields_cut_char(hex_body(self.error@)),
        ensures
            r == parsed_hex(self.error@),
    {
        parse_hex_rgb(self.error.as_str())
    }

    /// The info seed colour.
    pub fn info_rgb(&self) -> (r: Option<HexColor>)
        requires
            !hex_fields_cut_char(hex_body(self.info@)),
        ensures
            r == parsed_hex(self.info@),
    {
        parse_hex_rgb(self.info.as_str())
    }

    /// The interactive seed colour, when the theme has one.
    pub fn interactive_rgb(&self) -> (r: Option<HexColor>)
        requires
            opt_splits_cleanly(self.interactive),
        ensures
            r == parsed_opt(self.interactive),
    {
        parse_opt(&self.interactive)
    }

    /// The seed colour of added diff lines, when the theme has one.
    pub fn diff_add_rgb(&self) -> (r: Option<HexColor>)
        requires
            opt_splits_cleanly(self.diff_add),
        ensures
            r == parsed_opt(self.diff_add),
    {
        parse_opt(&self.diff_add)
    }

    /// The seed colour of deleted diff lines, when the theme has one.
    pub fn diff_delete_rgb(&self) -> (r: Option<HexColor>)
        requires
            opt_splits_cleanly(self.diff_delete),
        ensures
            r == parsed_opt(self.diff_delete),
    {
        parse_opt(&self.diff_delete)
    }
}

/// The text that the overrides give for `key`, looking from entry `i` on: the value of the
/// first entry with that key.
pub open spec fn override_text(entries: Seq<(String, String)>, key: Seq<char>, i: int) -> Option<
    Seq<char>,
>
    decreases entries.len() - i,
{
    if i < 0 || i >= entries.len() {
        None
    } else if entries[i].0@ == key {
        Some(entries[i].1@)
    } else {
        override_text(entries, key, i + 1)
    }
}

/// One of the two variants (dark or light) of a theme: its seed colours and the palette
/// entries it sets explicitly, keyed by role name (such as `background-base`).
pub struct UiThemeVariant {
    pub palette: UiThemeSeeds,
    pub overrides: Vec<(String, String)>,
}

/// The colour that variant `v` sets explicitly for the role `key`, if it sets one that parses.
pub open spec fn override_color(v: UiThemeVariant, key: Seq<char>) -> Option<HexColor> {
    match override_text(v.overrides@, key, 0) {
        Some(t) => parsed_hex(t),
        None => None,
    }
}

/// Whether the text that variant `v` sets for the role `key`, if any, can be read without
/// cutting a character.
pub open spec fn override_readable(v: UiThemeVariant, key: Seq<char>) -> bool {
    override_text(v.overrides@, key, 0) matches Some(t) ==> !hex_fields_cut_char(hex_body(t))
}

/// Whether an optional seed can be read without cutting a character (see
/// [`hex_fields_cut_char`]).
pub fn seed_is_readable(seed: &Option<String>) -> (r: bool)
    ensures
        r == opt_splits_cleanly(*seed),
{
    match seed {
        Some(h) => hex_text_splits_cleanly(h.as_str()),
        None => true,
    }
}

impl UiThemeVariant {
    /// Whether the text the variant sets for the role `key`, if any, can be read without
    /// cutting a character (see [`hex_fields_cut_char`]).
    pub fn override_is_readable(&self, key: &str) -> (r: bool)
        ensures
            r == override_readable(*self, key@),
    {
        let k = chars_of(key);
        let mut i: usize = 0;
        while i < self.overrides.len()
            invariant
                i <= self.overrides@.len(),
                k@ == key@,
                override_text(self.overrides@, key@, i as int) == override_text(
                    self.overrides@,
                    key@,
                    0,
                ),
            decreases self.overrides@.len() - i,
        {
            let entry = &self.overrides[i];
            let ek = chars_of(entry.0.as_str());
            if crate::text::chars_eq(ek.as_slice(), k.as_slice()) {
                return hex_text_splits_cleanly(entry.1.as_str());
            }
            i += 1;
        }
        true
    }

    /// The colour the variant sets explicitly for the role `key`, if it sets one that parses.
    pub fn override_rgb(&self, key: &str) -> (r: Option<HexColor>)
        requires
            override_readable(*self, key@),
        ensures
            r == override_color(*self, key@),
    {
        let k = chars_of(key);
        let mut i: usize = 0;
        while i < self.overrides.len()
            invariant
                i <= self.overrides@.len(),
                k@ == key@,
                override_text(self.overrides@, key@, 0) matches Some(v) ==> !hex_fields_cut_char(
                    hex_body(v),
                ),
                override_text(self.overrides@, key@, i as int) == override_text(
                    self.overrides@,
                    key@,
                    0,
                ),
            decreases self.overrides@.len() - i,
        {
            let entry = &self.overrides[i];
            let ek = chars_of(entry.0.as_str());
            if crate::text::chars_eq(ek.as_slice(), k.as_slice()) {
                return parse_hex_rgb(entry.1.as_str());
            }
            i += 1;
        }
        None
    }
}

} // verus!
