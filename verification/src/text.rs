//! Character classes and string scanning helpers shared by the command parser
//! and the mention expander, plus the two case-mapping wrappers.
//!
//! All scanning is done over the character view of a string (`Seq<char>`), so
//! every helper has an exact specification.

use vstd::prelude::*;

verus! {

/// The Unicode `White_Space` characters, the set the message grammar treats
/// as separators.
pub open spec fn is_space_char(c: char) -> bool {
    let n = c as u32;
    n == 9 || n == 10 || n == 11 || n == 12 || n == 13 || n == 32 || n == 0x85 || n == 0xA0
        || n == 0x1680 || (0x2000 <= n && n <= 0x200A) || n == 0x2028 || n == 0x2029 || n == 0x202F
        || n == 0x205F || n == 0x3000
}

pub open spec fn is_digit_char(c: char) -> bool {
    48 <= c as u32 && c as u32 <= 57
}

/// The characters allowed in a custom-emoji name: ASCII letters, digits,
/// `~` and `_`.
pub open spec fn is_emoji_name_char(c: char) -> bool {
    let n = c as u32;
    (48 <= n && n <= 57) || (65 <= n && n <= 90) || (97 <= n && n <= 122) || n == 126 || n == 95
}

pub fn space_char(c: char) -> (r: bool)
    ensures
        r == is_space_char(c),
{
    let n: u32 = c as u32;
    n == 9 || n == 10 || n == 11 || n == 12 || n == 13 || n == 32 || n == 0x85 || n == 0xA0
        || n == 0x1680 || (0x2000 <= n && n <= 0x200A) || n == 0x2028 || n == 0x2029 || n == 0x202F
        || n == 0x205F || n == 0x3000
}

pub fn digit_char(c: char) -> (r: bool)
    ensures
        r == is_digit_char(c),
{
    let n: u32 = c as u32;
    48 <= n && n <= 57
}

pub fn emoji_name_char(c: char) -> (r: bool)
    ensures
        r == is_emoji_name_char(c),
{
    let n: u32 = c as u32;
    (48 <= n && n <= 57) || (65 <= n && n <= 90) || (97 <= n && n <= 122) || n == 126 || n == 95
}

/// End (exclusive) of the run of whitespace characters starting at `i`.
pub open spec fn space_run_end(s: Seq<char>, i: int) -> int
    decreases s.len() - i,
{
    if 0 <= i < s.len() && is_space_char(s[i]) {
        space_run_end(s, i + 1)
    } else {
        i
    }
}

/// End (exclusive) of the run of non-whitespace characters starting at `i`.
pub open spec fn nonspace_run_end(s: Seq<char>, i: int) -> int
    decreases s.len() - i,
{
    if 0 <= i < s.len() && !is_space_char(s[i]) {
        nonspace_run_end(s, i + 1)
    } else {
        i
    }
}

/// The Unicode decimal digits (category `Nd`): the characters a mention
/// token's id may be written with.
pub open spec fn is_mention_digit(c: char) -> bool {
    let n = c as u32;
    (0x30 <= n && n <= 0x39) || (0x660 <= n && n <= 0x669) || (0x6F0 <= n && n <= 0x6F9) || (0x7C0
        <= n && n <= 0x7C9) || (0x966 <= n && n <= 0x96F) || (0x9E6 <= n && n <= 0x9EF) || (0xA66
        <= n && n <= 0xA6F) || (0xAE6 <= n && n <= 0xAEF) || (0xB66 <= n && n <= 0xB6F) || (0xBE6
        <= n && n <= 0xBEF) || (0xC66 <= n && n <= 0xC6F) || (0xCE6 <= n && n <= 0xCEF) || (0xD66
        <= n && n <= 0xD6F) || (0xDE6 <= n && n <= 0xDEF) || (0xE50 <= n && n <= 0xE59) || (0xED0
        <= n && n <= 0xED9) || (0xF20 <= n && n <= 0xF29) || (0x1040 <= n && n <= 0x1049) || (
    0x1090 <= n && n <= 0x1099) || (0x17E0 <= n && n <= 0x17E9) || (0x1810 <= n && n <= 0x1819) || (
    0x1946 <= n && n <= 0x194F) || (0x19D0 <= n && n <= 0x19D9) || (0x1A80 <= n && n <= 0x1A89) || (
    0x1A90 <= n && n <= 0x1A99) || (0x1B50 <= n && n <= 0x1B59) || (0x1BB0 <= n && n <= 0x1BB9) || (
    0x1C40 <= n && n <= 0x1C49) || (0x1C50 <= n && n <= 0x1C59) || (0xA620 <= n && n <= 0xA629) || (
    0xA8D0 <= n && n <= 0xA8D9) || (0xA900 <= n && n <= 0xA909) || (0xA9D0 <= n && n <= 0xA9D9) || (
    0xA9F0 <= n && n <= 0xA9F9) || (0xAA50 <= n && n <= 0xAA59) || (0xABF0 <= n && n <= 0xABF9) || (
    0xFF10 <= n && n <= 0xFF19) || (0x104A0 <= n && n <= 0x104A9) || (0x10D30 <= n && n <= 0x10D39)
        || (0x11066 <= n && n <= 0x1106F) || (0x110F0 <= n && n <= 0x110F9) || (0x11136 <= n && n
        <= 0x1113F) || (0x111D0 <= n && n <= 0x111D9) || (0x112F0 <= n && n <= 0x112F9) || (0x11450
        <= n && n <= 0x11459) || (0x114D0 <= n && n <= 0x114D9) || (0x11650 <= n && n <= 0x11659)
        || (0x116C0 <= n && n <= 0x116C9) || (0x11730 <= n && n <= 0x11739) || (0x118E0 <= n && n
        <= 0x118E9) || (0x11950 <= n && n <= 0x11959) || (0x11C50 <= n && n <= 0x11C59) || (0x11D50
        <= n && n <= 0x11D59) || (0x11DA0 <= n && n <= 0x11DA9) || (0x16A60 <= n && n <= 0x16A69)
        || (0x16AC0 <= n && n <= 0x16AC9) || (0x16B50 <= n && n <= 0x16B59) || (0x1D7CE <= n && n
        <= 0x1D7FF) || (0x1E140 <= n && n <= 0x1E149) || (0x1E2F0 <= n && n <= 0x1E2F9) || (0x1E950
        <= n && n <= 0x1E959) || (0x1FBF0 <= n && n <= 0x1FBF9)
}

pub fn mention_digit(c: char) -> (r: bool)
    ensures
        r == is_mention_digit(c),
{
    let n: u32 = c as u32;
    (0x30 <= n && n <= 0x39) || (0x660 <= n && n <= 0x669) || (0x6F0 <= n && n <= 0x6F9) || (0x7C0
        <= n && n <= 0x7C9) || (0x966 <= n && n <= 0x96F) || (0x9E6 <= n && n <= 0x9EF) || (0xA66
        <= n && n <= 0xA6F) || (0xAE6 <= n && n <= 0xAEF) || (0xB66 <= n && n <= 0xB6F) || (0xBE6
        <= n && n <= 0xBEF) || (0xC66 <= n && n <= 0xC6F) || (0xCE6 <= n && n <= 0xCEF) || (0xD66
        <= n && n <= 0xD6F) || (0xDE6 <= n && n <= 0xDEF) || (0xE50 <= n && n <= 0xE59) || (0xED0
        <= n && n <= 0xED9) || (0xF20 <= n && n <= 0xF29) || (0x1040 <= n && n <= 0x1049) || (
    0x1090 <= n && n <= 0x1099) || (0x17E0 <= n && n <= 0x17E9) || (0x1810 <= n && n <= 0x1819) || (
    0x1946 <= n && n <= 0x194F) || (0x19D0 <= n && n <= 0x19D9) || (0x1A80 <= n && n <= 0x1A89) || (
    0x1A90 <= n && n <= 0x1A99) || (0x1B50 <= n && n <= 0x1B59) || (0x1BB0 <= n && n <= 0x1BB9) || (
    0x1C40 <= n && n <= 0x1C49) || (0x1C50 <= n && n <= 0x1C59) || (0xA620 <= n && n <= 0xA629) || (
    0xA8D0 <= n && n <= 0xA8D9) || (0xA900 <= n && n <= 0xA909) || (0xA9D0 <= n && n <= 0xA9D9) || (
    0xA9F0 <= n && n <= 0xA9F9) || (0xAA50 <= n && n <= 0xAA59) || (0xABF0 <= n && n <= 0xABF9) || (
    0xFF10 <= n && n <= 0xFF19) || (0x104A0 <= n && n <= 0x104A9) || (0x10D30 <= n && n <= 0x10D39)
        || (0x11066 <= n && n <= 0x1106F) || (0x110F0 <= n && n <= 0x110F9) || (0x11136 <= n && n
        <= 0x1113F) || (0x111D0 <= n && n <= 0x111D9) || (0x112F0 <= n && n <= 0x112F9) || (0x11450
        <= n && n <= 0x11459) || (0x114D0 <= n && n <= 0x114D9) || (0x11650 <= n && n <= 0x11659)
        || (0x116C0 <= n && n <= 0x116C9) || (0x11730 <= n && n <= 0x11739) || (0x118E0 <= n && n
        <= 0x118E9) || (0x11950 <= n && n <= 0x11959) || (0x11C50 <= n && n <= 0x11C59) || (0x11D50
        <= n && n <= 0x11D59) || (0x11DA0 <= n && n <= 0x11DA9) || (0x16A60 <= n && n <= 0x16A69)
        || (0x16AC0 <= n && n <= 0x16AC9) || (0x16B50 <= n && n <= 0x16B59) || (0x1D7CE <= n && n
        <= 0x1D7FF) || (0x1E140 <= n && n <= 0x1E149) || (0x1E2F0 <= n && n <= 0x1E2F9) || (0x1E950
        <= n && n <= 0x1E959) || (0x1FBF0 <= n && n <= 0x1FBF9)
}

/// End (exclusive) of the run of Unicode decimal digits starting at `i`.
pub open spec fn mention_digit_run_end(s: Seq<char>, i: int) -> int
    decreases s.len() - i,
{
    if 0 <= i < s.len() && is_mention_digit(s[i]) {
        mention_digit_run_end(s, i + 1)
    } else {
        i
    }
}

/// End (exclusive) of the run of emoji-name characters starting at `i`.
pub open spec fn emoji_name_run_end(s: Seq<char>, i: int) -> int
    decreases s.len() - i,
{
    if 0 <= i < s.len() && is_emoji_name_char(s[i]) {
        emoji_name_run_end(s, i + 1)
    } else {
        i
    }
}

pub proof fn lemma_emoji_name_run_end_bounds(s: Seq<char>, i: int)
    requires
        0 <= i <= s.len(),
    ensures
        i <= emoji_name_run_end(s, i) <= s.len(),
    decreases s.len() - i,
{
    if i < s.len() && is_emoji_name_char(s[i]) {
        lemma_emoji_name_run_end_bounds(s, i + 1);
    }
}

pub proof fn lemma_space_run_end_stops(s: Seq<char>, i: int)
    requires
        0 <= i <= s.len(),
    ensures
        i <= space_run_end(s, i) <= s.len(),
        space_run_end(s, i) < s.len() ==> !is_space_char(s[space_run_end(s, i)]),
    decreases s.len() - i,
{
    if i < s.len() && is_space_char(s[i]) {
        lemma_space_run_end_stops(s, i + 1);
    }
}

pub proof fn lemma_space_run_all_spaces(s: Seq<char>, i: int)
    requires
        0 <= i <= s.len(),
    ensures
        forall|k: int| i <= k < space_run_end(s, i) ==> is_space_char(s[k]),
    decreases s.len() - i,
{
    if i < s.len() && is_space_char(s[i]) {
        lemma_space_run_all_spaces(s, i + 1);
    }
}

pub proof fn lemma_nonspace_run_stops(s: Seq<char>, i: int)
    requires
        0 <= i <= s.len(),
    ensures
        i <= nonspace_run_end(s, i) <= s.len(),
        nonspace_run_end(s, i) < s.len() ==> is_space_char(s[nonspace_run_end(s, i)]),
        forall|k: int| i <= k < nonspace_run_end(s, i) ==> !is_space_char(s[k]),
    decreases s.len() - i,
{
    if i < s.len() && !is_space_char(s[i]) {
        lemma_nonspace_run_stops(s, i + 1);
    }
}

pub proof fn lemma_emoji_name_run_all(s: Seq<char>, i: int)
    requires
        0 <= i <= s.len(),
    ensures
        forall|k: int| i <= k < emoji_name_run_end(s, i) ==> is_emoji_name_char(s[k]),
    decreases s.len() - i,
{
    if i < s.len() && is_emoji_name_char(s[i]) {
        lemma_emoji_name_run_all(s, i + 1);
    }
}

pub proof fn lemma_mention_digit_run_end_bounds(s: Seq<char>, i: int)
    requires
        0 <= i <= s.len(),
    ensures
        i <= mention_digit_run_end(s, i) <= s.len(),
    decreases s.len() - i,
{
    if i < s.len() && is_mention_digit(s[i]) {
        lemma_mention_digit_run_end_bounds(s, i + 1);
    }
}

pub proof fn lemma_mention_digit_run_all(s: Seq<char>, i: int)
    requires
        0 <= i <= s.len(),
    ensures
        forall|k: int| i <= k < mention_digit_run_end(s, i) ==> is_mention_digit(s[k]),
    decreases s.len() - i,
{
    if i < s.len() && is_mention_digit(s[i]) {
        lemma_mention_digit_run_all(s, i + 1);
    }
}

pub proof fn lemma_mention_digit_run_end_from_props(s: Seq<char>, i: int, e: int)
    requires
        0 <= i <= e <= s.len(),
        forall|k: int| i <= k < e ==> is_mention_digit(s[k]),
        e == s.len() || !is_mention_digit(s[e]),
    ensures
        mention_digit_run_end(s, i) == e,
    decreases e - i,
{
    if i < e {
        lemma_mention_digit_run_end_from_props(s, i + 1, e);
    }
}

pub proof fn lemma_emoji_name_run_end_from_props(s: Seq<char>, i: int, e: int)
    requires
        0 <= i <= e <= s.len(),
        forall|k: int| i <= k < e ==> is_emoji_name_char(s[k]),
        e == s.len() || !is_emoji_name_char(s[e]),
    ensures
        emoji_name_run_end(s, i) == e,
    decreases e - i,
{
    if i < e {
        lemma_emoji_name_run_end_from_props(s, i + 1, e);
    }
}

pub proof fn lemma_dec_digits_digits(n: nat)
    ensures
        dec_digits(n).len() >= 1,
        forall|k: int| 0 <= k < dec_digits(n).len() ==> is_digit_char(#[trigger] dec_digits(n)[k]),
    decreases n,
{
    if n >= 10 {
        lemma_dec_digits_digits(n / 10);
    }
}

pub fn space_run_end_at(s: &str, i: usize) -> (j: usize)
    requires
        i <= s@.len(),
    ensures
        j == space_run_end(s@, i as int),
        i <= j <= s@.len(),
{
    let n: usize = s.unicode_len();
    let mut j: usize = i;
    loop
        invariant
            i <= j <= n,
            n == s@.len(),
            space_run_end(s@, i as int) == space_run_end(s@, j as int),
        ensures
            j == space_run_end(s@, i as int),
            i <= j <= s@.len(),
        decreases n - j,
    {
        if j == n {
            break ;
        }
        if !space_char(s.get_char(j)) {
            break ;
        }
        j = j + 1;
    }
    j
}

pub fn nonspace_run_end_at(s: &str, i: usize) -> (j: usize)
    requires
        i <= s@.len(),
    ensures
        j == nonspace_run_end(s@, i as int),
        i <= j <= s@.len(),
{
    let n: usize = s.unicode_len();
    let mut j: usize = i;
    loop
        invariant
            i <= j <= n,
            n == s@.len(),
            nonspace_run_end(s@, i as int) == nonspace_run_end(s@, j as int),
        ensures
            j == nonspace_run_end(s@, i as int),
            i <= j <= s@.len(),
        decreases n - j,
    {
        if j == n {
            break ;
        }
        if space_char(s.get_char(j)) {
            break ;
        }
        j = j + 1;
    }
    j
}

pub fn emoji_name_run_end_at(s: &str, i: usize) -> (j: usize)
    requires
        i <= s@.len(),
    ensures
        j == emoji_name_run_end(s@, i as int),
        i <= j <= s@.len(),
{
    let n: usize = s.unicode_len();
    let mut j: usize = i;
    loop
        invariant
            i <= j <= n,
            n == s@.len(),
            emoji_name_run_end(s@, i as int) == emoji_name_run_end(s@, j as int),
        ensures
            j == emoji_name_run_end(s@, i as int),
            i <= j <= s@.len(),
        decreases n - j,
    {
        if j == n {
            break ;
        }
        if !emoji_name_char(s.get_char(j)) {
            break ;
        }
        j = j + 1;
    }
    j
}

pub fn mention_digit_run_end_at(s: &str, i: usize) -> (j: usize)
    requires
        i <= s@.len(),
    ensures
        j == mention_digit_run_end(s@, i as int),
        i <= j <= s@.len(),
{
    let n: usize = s.unicode_len();
    let mut j: usize = i;
    loop
        invariant
            i <= j <= n,
            n == s@.len(),
            mention_digit_run_end(s@, i as int) == mention_digit_run_end(s@, j as int),
        ensures
            j == mention_digit_run_end(s@, i as int),
            i <= j <= s@.len(),
        decreases n - j,
    {
        if j == n {
            break ;
        }
        if !mention_digit(s.get_char(j)) {
            break ;
        }
        j = j + 1;
    }
    j
}

/// `pat` occurs in `s` starting at position `i`.
pub open spec fn matches_at(s: Seq<char>, i: int, pat: Seq<char>) -> bool {
    0 <= i && i + pat.len() <= s.len() && s.subrange(i, i + pat.len() as int) == pat
}

pub fn check_match_at(s: &str, i: usize, pat: &str) -> (r: bool)
    requires
        i <= s@.len(),
    ensures
        r == matches_at(s@, i as int, pat@),
{
    let n: usize = s.unicode_len();
    let m: usize = pat.unicode_len();
    if m > n - i {
        assert(!matches_at(s@, i as int, pat@));
        return false;
    }
    let mut k: usize = 0;
    loop
        invariant
            0 <= k <= m,
            i + m <= n,
            n == s@.len(),
            m == pat@.len(),
            i <= s@.len(),
            forall|t: int| 0 <= t < k ==> s@[i + t] == pat@[t],
        ensures
            k == m,
            forall|t: int| 0 <= t < m ==> s@[i + t] == pat@[t],
        decreases m - k,
    {
        if k == m {
            break ;
        }
        if s.get_char(i + k) != pat.get_char(k) {
            assert(s@.subrange(i as int, i + m as int)[k as int] != pat@[k as int]);
            assert(!matches_at(s@, i as int, pat@));
            return false;
        }
        k = k + 1;
    }
    assert(s@.subrange(i as int, i + m as int) =~= pat@);
    true
}

/// The character for one decimal digit value.
pub open spec fn digit_glyph(d: int) -> char {
    if d == 0 {
        '0'
    } else if d == 1 {
        '1'
    } else if d == 2 {
        '2'
    } else if d == 3 {
        '3'
    } else if d == 4 {
        '4'
    } else if d == 5 {
        '5'
    } else if d == 6 {
        '6'
    } else if d == 7 {
        '7'
    } else if d == 8 {
        '8'
    } else {
        '9'
    }
}

/// The decimal representation of `n`, without leading zeros.
pub open spec fn dec_digits(n: nat) -> Seq<char>
    decreases n,
{
    if n < 10 {
        seq![digit_glyph(n as int)]
    } else {
        dec_digits(n / 10) + seq![digit_glyph((n % 10) as int)]
    }
}

/// Renders `n` in decimal, as `format!` would.
pub fn u64_to_dec(n: u64) -> (s: String)
    ensures
        s@ == dec_digits(n as nat),
    decreases n,
{
    let glyphs = "0123456789";
    proof {
        reveal_strlit("0123456789");
    }
    let d: usize = (n % 10) as usize;
    let last = glyphs.substring_char(d, d + 1);
    assert(last@ =~= seq![digit_glyph(d as int)]);
    if n < 10 {
        last.to_owned()
    } else {
        let mut s = u64_to_dec(n / 10);
        s.append(last);
        assert(s@ =~= dec_digits(n as nat));
        s
    }
}

/// The numeric value of a digit character.
pub open spec fn digit_val(c: char) -> int {
    c as u32 - 48
}

/// The value of a digit string, most significant digit first.
pub open spec fn dec_value(s: Seq<char>) -> int
    decreases s.len(),
{
    if s.len() == 0 {
        0
    } else {
        dec_value(s.drop_last()) * 10 + digit_val(s.last())
    }
}

/// How an up-to-32-digit mention id is read: its decimal value when every
/// digit is the ASCII kind and the value fits a `u64`, and `0` otherwise —
/// the numeric parse rejects the other decimal digit characters and
/// overflow alike, and the id falls back to `0`.
pub open spec fn mention_id_value(s: Seq<char>) -> u64 {
    if (forall|k: int| 0 <= k < s.len() ==> is_digit_char(#[trigger] s[k])) && dec_value(s)
        <= u64::MAX {
        dec_value(s) as u64
    } else {
        0
    }
}

pub open spec fn pow10(n: nat) -> int
    decreases n,
{
    if n == 0 {
        1
    } else {
        10 * pow10((n - 1) as nat)
    }
}

pub proof fn lemma_pow10_mono(a: nat, b: nat)
    requires
        a <= b,
    ensures
        0 < pow10(a) <= pow10(b),
    decreases b,
{
    if a < b {
        lemma_pow10_mono(a, (b - 1) as nat);
    } else if b > 0 {
        lemma_pow10_mono((a - 1) as nat, (b - 1) as nat);
    }
}

pub proof fn lemma_pow10_32()
    ensures
        pow10(32) == 100_000_000_000_000_000_000_000_000_000_000int,
{
    assert(pow10(32) == 100_000_000_000_000_000_000_000_000_000_000int) by {
        reveal_with_fuel(pow10, 33);
    }
}

/// Reads the digit characters `s[a..b]` as a mention id: their decimal
/// value, or `0` for a digit outside the ASCII kind or a value that does
/// not fit in a `u64`.
pub fn parse_mention_id(s: &str, a: usize, b: usize) -> (r: u64)
    requires
        a <= b <= s@.len(),
        b - a <= 32,
        forall|k: int| a <= k < b ==> is_mention_digit(s@[k]),
    ensures
        r == mention_id_value(s@.subrange(a as int, b as int)),
{
    let ghost digits = s@.subrange(a as int, b as int);
    let mut acc: u128 = 0;
    let mut k: usize = a;
    proof {
        lemma_pow10_32();
        assert(s@.subrange(a as int, a as int) =~= Seq::<char>::empty());
    }
    while k < b
        invariant
            a <= k <= b <= s@.len(),
            b - a <= 32,
            digits == s@.subrange(a as int, b as int),
            forall|t: int| a <= t < k ==> is_digit_char(s@[t]),
            acc == dec_value(s@.subrange(a as int, k as int)),
            acc < pow10((k - a) as nat),
            pow10(32) == 100_000_000_000_000_000_000_000_000_000_000int,
        decreases b - k,
    {
        let c = s.get_char(k);
        if !digit_char(c) {
            proof {
                assert(digits[k - a] == s@[k as int]);
                assert(!is_digit_char(digits[k - a]));
            }
            return 0;
        }
        assert(is_digit_char(c));
        let d: u128 = (c as u32 - 48) as u128;
        proof {
            lemma_pow10_mono(((k - a) + 1) as nat, 32);
            assert(acc * 10 + d < pow10(((k - a) + 1) as nat));
        }
        acc = acc * 10 + d;
        k = k + 1;
        proof {
            let pre = s@.subrange(a as int, (k - 1) as int);
            let cur = s@.subrange(a as int, k as int);
            assert(cur.drop_last() =~= pre);
            assert(cur.last() == c);
        }
    }
    proof {
        assert(s@.subrange(a as int, b as int) == s@.subrange(a as int, k as int));
        assert forall|t: int| 0 <= t < digits.len() implies is_digit_char(
            #[trigger] digits[t],
        ) by {
            assert(digits[t] == s@[a + t]);
        }
    }
    if acc > u64::MAX as u128 {
        0
    } else {
        acc as u64
    }
}

/// How many times `c` occurs in `s`.
pub open spec fn count_char(s: Seq<char>, c: char) -> nat
    decreases s.len(),
{
    if s.len() == 0 {
        0
    } else {
        count_char(s.drop_last(), c) + if s.last() == c {
            1nat
        } else {
            0nat
        }
    }
}

pub proof fn lemma_count_char_bound(s: Seq<char>, c: char)
    ensures
        count_char(s, c) <= s.len(),
    decreases s.len(),
{
    if s.len() > 0 {
        lemma_count_char_bound(s.drop_last(), c);
    }
}

pub proof fn lemma_count_char_concat(a: Seq<char>, b: Seq<char>, c: char)
    ensures
        count_char(a + b, c) == count_char(a, c) + count_char(b, c),
    decreases b.len(),
{
    if b.len() == 0 {
        assert(a + b =~= a);
    } else {
        lemma_count_char_concat(a, b.drop_last(), c);
        assert((a + b).drop_last() =~= a + b.drop_last());
        assert((a + b).last() == b.last());
    }
}

pub proof fn lemma_count_char_zero(s: Seq<char>, c: char)
    requires
        forall|k: int| 0 <= k < s.len() ==> s[k] != c,
    ensures
        count_char(s, c) == 0,
    decreases s.len(),
{
    if s.len() > 0 {
        lemma_count_char_zero(s.drop_last(), c);
    }
}

pub proof fn lemma_count_char_pos(s: Seq<char>, c: char, i: int)
    requires
        0 <= i < s.len(),
        s[i] == c,
    ensures
        count_char(s, c) >= 1,
    decreases s.len(),
{
    if i < s.len() - 1 {
        lemma_count_char_pos(s.drop_last(), c, i);
    }
}

pub fn count_char_in(s: &str, c: char) -> (n: usize)
    ensures
        n == count_char(s@, c),
{
    let len: usize = s.unicode_len();
    let mut n: usize = 0;
    let mut k: usize = 0;
    proof {
        assert(s@.subrange(0, 0) =~= Seq::<char>::empty());
    }
    while k < len
        invariant
            0 <= k <= len,
            len == s@.len(),
            n <= k,
            n == count_char(s@.subrange(0, k as int), c),
        decreases len - k,
    {
        let ch = s.get_char(k);
        proof {
            let pre = s@.subrange(0, k as int);
            let cur = s@.subrange(0, (k + 1) as int);
            assert(cur.drop_last() =~= pre);
            assert(cur.last() == s@[k as int]);
            lemma_count_char_bound(pre, c);
        }
        if ch == c {
            n = n + 1;
        }
        k = k + 1;
    }
    proof {
        assert(s@.subrange(0, len as int) =~= s@);
    }
    n
}

/// Start of the run of whitespace characters that ends (exclusively) at `i`.
pub open spec fn rspace_run_start(s: Seq<char>, i: int) -> int
    decreases i,
{
    if 0 < i <= s.len() && is_space_char(s[i - 1]) {
        rspace_run_start(s, i - 1)
    } else {
        i
    }
}

/// What `str::trim` keeps: the characters between the leading and trailing
/// whitespace runs.
pub open spec fn trim_spec(s: Seq<char>) -> Seq<char> {
    let a = space_run_end(s, 0);
    if a == s.len() {
        Seq::empty()
    } else {
        s.subrange(a, rspace_run_start(s, s.len() as int))
    }
}

/// Removes leading and trailing whitespace.
pub fn trim_str(s: &str) -> (t: String)
    ensures
        t@ == trim_spec(s@),
{
    let n: usize = s.unicode_len();
    let a = space_run_end_at(s, 0);
    if a == n {
        let t = String::new();
        assert(t@ =~= trim_spec(s@));
        return t;
    }
    proof {
        lemma_space_run_end_stops(s@, 0);
    }
    assert(!is_space_char(s@[a as int]));
    let mut e: usize = n;
    loop
        invariant
            a < e <= n,
            n == s@.len(),
            a == space_run_end(s@, 0),
            a < n,
            !is_space_char(s@[a as int]),
            rspace_run_start(s@, n as int) == rspace_run_start(s@, e as int),
        ensures
            a < e <= n,
            e == rspace_run_start(s@, n as int),
        decreases e,
    {
        if !space_char(s.get_char(e - 1)) {
            assert(rspace_run_start(s@, e as int) == e as int);
            break ;
        }
        if e - 1 == a {
            assert(false);
        }
        e = e - 1;
    }
    let t = s.substring_char(a, e).to_owned();
    assert(t@ =~= trim_spec(s@));
    t
}

/// What Unicode uppercasing returns for a string: a function of the
/// characters alone.
pub uninterp spec fn upper_of(s: Seq<char>) -> Seq<char>;

/// What Unicode lowercasing returns for a string: a function of the
/// characters alone.
pub uninterp spec fn lower_of(s: Seq<char>) -> Seq<char>;

/// Relies on `str::to_uppercase`: the result depends on the characters
/// alone.
#[verifier::external_body]
pub fn to_upper(s: &str) -> (r: String)
    ensures
        r@ == upper_of(s@),
{
    s.to_uppercase()
}

/// Relies on `str::to_lowercase`: the result depends on the characters
/// alone.
#[verifier::external_body]
pub fn to_lower(s: &str) -> (r: String)
    ensures
        r@ == lower_of(s@),
{
    s.to_lowercase()
}

/// The two strings hold the same characters.
pub fn str_eq(a: &str, b: &str) -> (r: bool)
    ensures
        r == (a@ == b@),
{
    let n: usize = a.unicode_len();
    let m: usize = b.unicode_len();
    if n != m {
        assert(a@ != b@);
        return false;
    }
    let r = check_match_at(a, 0, b);
    proof {
        if r {
            assert(a@.subrange(0, n as int) =~= a@);
        } else {
            assert(a@.subrange(0, n as int) =~= a@);
        }
    }
    r
}

} // verus!
