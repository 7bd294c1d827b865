//! Character-level building blocks: classes of characters, scanning,
//! trimming, decimal numbers and the few string constructions the bridge
//! needs. Every executable function is tied to a specification over
//! `Seq<char>`.

use vstd::prelude::*;
use vstd::slice::slice_subrange;

verus! {

/// The ASCII decimal digits.
pub open spec fn is_digit(c: char) -> bool {
    '0' <= c <= '9'
}

/// The characters with the Unicode `White_Space` property, which is what
/// trimming and field splitting treat as blank.
pub open spec fn is_space(c: char) -> bool {
    ||| '\u{9}' <= c <= '\u{d}'
    ||| c == ' '
    ||| c == '\u{85}'
    ||| c == '\u{a0}'
    ||| c == '\u{1680}'
    ||| '\u{2000}' <= c <= '\u{200a}'
    ||| c == '\u{2028}'
    ||| c == '\u{2029}'
    ||| c == '\u{202f}'
    ||| c == '\u{205f}'
    ||| c == '\u{3000}'
}

/// Carriage return and line feed, either of which ends a token.
pub open spec fn is_line_break(c: char) -> bool {
    c == '\n' || c == '\r'
}

/// The kinds of character a scan can stop at.
#[derive(Clone, Copy, Debug, PartialEq, Eq, Structural)]
pub enum CharClass {
    LineBreak,
    Colon,
    Space,
}

impl CharClass {
    /// Whether `c` belongs to the class.
    pub open spec fn holds(self, c: char) -> bool {
        match self {
            CharClass::LineBreak => is_line_break(c),
            CharClass::Colon => c == ':',
            CharClass::Space => is_space(c),
        }
    }

    /// Tests `c` for membership in the class.
    pub fn admits(self, c: char) -> (r: bool)
        ensures
            r == self.holds(c),
    {
        match self {
            CharClass::LineBreak => c == '\n' || c == '\r',
            CharClass::Colon => c == ':',
            CharClass::Space => {
                ('\u{9}' <= c && c <= '\u{d}') || c == ' ' || c == '\u{85}' || c == '\u{a0}' || c
                    == '\u{1680}' || ('\u{2000}' <= c && c <= '\u{200a}') || c == '\u{2028}' || c
                    == '\u{2029}' || c == '\u{202f}' || c == '\u{205f}' || c == '\u{3000}'
            },
        }
    }
}

/// Position of the first character of `s` in `class`, or the length of `s`
/// when there is none.
pub open spec fn first_of(s: Seq<char>, class: CharClass) -> int
    decreases s.len(),
{
    if s.len() == 0 || class.holds(s[0]) {
        0
    } else {
        1 + first_of(s.drop_first(), class)
    }
}

/// `first_of` is the one position with nothing of the class before it and
/// either the end of the text or a character of the class at it.
pub proof fn lemma_first_of(s: Seq<char>, class: CharClass, k: int)
    requires
        0 <= k <= s.len(),
        forall|j: int| 0 <= j < k ==> !class.holds(#[trigger] s[j]),
        k == s.len() || class.holds(s[k]),
    ensures
        first_of(s, class) == k,
    decreases s.len(),
{
    if s.len() == 0 || class.holds(s[0]) {
    } else {
        let t = s.drop_first();
        assert forall|j: int| 0 <= j < k - 1 implies !class.holds(#[trigger] t[j]) by {
            assert(t[j] == s[j + 1]);
        }
        lemma_first_of(t, class, k - 1);
    }
}

/// Finds the first character of `s` in `class`.
pub fn find_first(s: &[char], class: CharClass) -> (k: usize)
    ensures
        k == first_of(s@, class),
        k <= s@.len(),
{
    let n = s.len();
    let mut i: usize = 0;
    while i < n && !class.admits(s[i])
        invariant
            n == s@.len(),
            i <= n,
            forall|j: int| 0 <= j < i ==> !class.holds(#[trigger] s@[j]),
        decreases n - i,
    {
        i = i + 1;
    }
    proof {
        lemma_first_of(s@, class, i as int);
    }
    i
}

/// Whether every character of `s` is a decimal digit. The empty text
/// qualifies.
pub open spec fn all_digits(s: Seq<char>) -> bool {
    forall|i: int| 0 <= i < s.len() ==> is_digit(#[trigger] s[i])
}

/// Checks that `s` holds nothing but decimal digits.
pub fn only_digits(s: &[char]) -> (r: bool)
    ensures
        r == all_digits(s@),
{
    let n = s.len();
    let mut i: usize = 0;
    while i < n
        invariant
            n == s@.len(),
            i <= n,
            forall|j: int| 0 <= j < i ==> is_digit(#[trigger] s@[j]),
        decreases n - i,
    {
        let c = s[i];
        if !('0' <= c && c <= '9') {
            return false;
        }
        i = i + 1;
    }
    true
}

/// Number of blank characters at the start of `s`.
pub open spec fn leading_blanks(s: Seq<char>) -> int
    decreases s.len(),
{
    if s.len() > 0 && is_space(s[0]) {
        1 + leading_blanks(s.drop_first())
    } else {
        0
    }
}

/// Number of blank characters at the end of `s`.
pub open spec fn trailing_blanks(s: Seq<char>) -> int
    decreases s.len(),
{
    if s.len() > 0 && is_space(s.last()) {
        1 + trailing_blanks(s.drop_last())
    } else {
        0
    }
}

/// `s` without the blanks at its start.
pub open spec fn strip_start(s: Seq<char>) -> Seq<char> {
    s.skip(leading_blanks(s))
}

/// `s` without the blanks at its end.
pub open spec fn strip_end(s: Seq<char>) -> Seq<char> {
    s.take(s.len() - trailing_blanks(s))
}

/// `s` without the blanks at either end.
pub open spec fn trimmed(s: Seq<char>) -> Seq<char> {
    strip_end(strip_start(s))
}

/// `leading_blanks` is the length of the longest blank prefix.
pub proof fn lemma_leading_blanks(s: Seq<char>, k: int)
    requires
        0 <= k <= s.len(),
        forall|j: int| 0 <= j < k ==> is_space(#[trigger] s[j]),
        k == s.len() || !is_space(s[k]),
    ensures
        leading_blanks(s) == k,
    decreases s.len(),
{
    if s.len() > 0 && is_space(s[0]) {
        let t = s.drop_first();
        assert forall|j: int| 0 <= j < k - 1 implies is_space(#[trigger] t[j]) by {
            assert(t[j] == s[j + 1]);
        }
        lemma_leading_blanks(t, k - 1);
    } else {
        if k > 0 {
            assert(is_space(s[0]));
        }
    }
}

/// `trailing_blanks` is the length of the longest blank suffix.
pub proof fn lemma_trailing_blanks(s: Seq<char>, k: int)
    requires
        0 <= k <= s.len(),
        forall|j: int| s.len() - k <= j < s.len() ==> is_space(#[trigger] s[j]),
        k == s.len() || !is_space(s[s.len() - k - 1]),
    ensures
        trailing_blanks(s) == k,
    decreases s.len(),
{
    if s.len() > 0 && is_space(s.last()) {
        let t = s.drop_last();
        assert forall|j: int| t.len() - (k - 1) <= j < t.len() implies is_space(
            #[trigger] t[j],
        ) by {
            assert(t[j] == s[j]);
        }
        if k - 1 != t.len() {
            assert(t[t.len() - (k - 1) - 1] == s[s.len() - k - 1]);
        }
        lemma_trailing_blanks(t, k - 1);
    } else {
        if k > 0 {
            assert(is_space(s[s.len() - 1]));
        }
    }
}

/// Removes the blanks at both ends of `s`.
pub fn trim(s: &[char]) -> (r: &[char])
    ensures
        r@ == trimmed(s@),
{
    let n = s.len();
    let mut a: usize = 0;
    while a < n && CharClass::Space.admits(s[a])
        invariant
            n == s@.len(),
            a <= n,
            forall|j: int| 0 <= j < a ==> is_space(#[trigger] s@[j]),
        decreases n - a,
    {
        a = a + 1;
    }
    let mut b: usize = n;
    while b > a && CharClass::Space.admits(s[b - 1])
        invariant
            n == s@.len(),
            a <= b <= n,
            forall|j: int| b <= j < n ==> is_space(#[trigger] s@[j]),
        decreases b - a,
    {
        b = b - 1;
    }
    let r = slice_subrange(s, a, b);
    proof {
        lemma_leading_blanks(s@, a as int);
        let t = strip_start(s@);
        assert(t =~= s@.subrange(a as int, n as int));
        assert forall|j: int| t.len() - (n - b) <= j < t.len() implies is_space(
            #[trigger] t[j],
        ) by {
            assert(t[j] == s@[j + a]);
        }
        if n - b != t.len() {
            assert(t[t.len() - (n - b) - 1] == s@[b - 1]);
        }
        lemma_trailing_blanks(t, (n - b) as int);
        assert(r@ =~= trimmed(s@));
    }
    r
}

/// The first blank-delimited field of `s`: what stands between its
/// leading blanks and the next blank. Empty when `s` is blank throughout.
pub open spec fn first_field(s: Seq<char>) -> Seq<char> {
    let t = strip_start(s);
    t.take(first_of(t, CharClass::Space))
}

/// Cuts the first blank-delimited field out of `s`.
pub fn leading_field(s: &[char]) -> (r: &[char])
    ensures
        r@ == first_field(s@),
{
    let n = s.len();
    let mut a: usize = 0;
    while a < n && CharClass::Space.admits(s[a])
        invariant
            n == s@.len(),
            a <= n,
            forall|j: int| 0 <= j < a ==> is_space(#[trigger] s@[j]),
        decreases n - a,
    {
        a = a + 1;
    }
    proof {
        lemma_leading_blanks(s@, a as int);
    }
    let t = slice_subrange(s, a, n);
    assert(t@ =~= strip_start(s@));
    let k = find_first(t, CharClass::Space);
    slice_subrange(t, 0, k)
}

/// Value of a character as a decimal digit.
pub open spec fn digit_value(c: char) -> int {
    c as int - '0' as int
}

/// The number that the decimal digits of `s` write, zero for the empty
/// text.
pub open spec fn decimal_value(s: Seq<char>) -> int
    decreases s.len(),
{
    if s.len() == 0 {
        0
    } else {
        10 * decimal_value(s.drop_last()) + digit_value(s.last())
    }
}

/// Reading of a measurement field: the number its digits write, or zero
/// when the field is empty, holds anything but digits, or writes a number
/// that does not fit in an `i32`.
pub open spec fn measured_value(s: Seq<char>) -> int {
    if s.len() > 0 && all_digits(s) && decimal_value(s) <= i32::MAX {
        decimal_value(s)
    } else {
        0
    }
}

/// A digit string is worth at least as much as any of its prefixes.
pub proof fn lemma_decimal_value_grows(s: Seq<char>, k: int)
    requires
        all_digits(s),
        0 <= k <= s.len(),
    ensures
        0 <= decimal_value(s.take(k)) <= decimal_value(s),
    decreases s.len() - k,
{
    lemma_decimal_value_nonnegative(s.take(k));
    if k < s.len() {
        let longer = s.take(k + 1);
        assert(longer.drop_last() =~= s.take(k));
        assert(longer.last() == s[k]);
        assert(is_digit(s[k]));
        lemma_decimal_value_grows(s, k + 1);
    } else {
        assert(s.take(k) =~= s);
    }
}

/// Digit strings never denote a negative number.
pub proof fn lemma_decimal_value_nonnegative(s: Seq<char>)
    requires
        all_digits(s),
    ensures
        0 <= decimal_value(s),
    decreases s.len(),
{
    if s.len() > 0 {
        assert(is_digit(s.last()));
        assert forall|i: int| 0 <= i < s.drop_last().len() implies is_digit(
            #[trigger] s.drop_last()[i],
        ) by {
            assert(s.drop_last()[i] == s[i]);
        }
        lemma_decimal_value_nonnegative(s.drop_last());
    }
}

/// Reads a measurement from a field.
pub fn parse_measurement(s: &[char]) -> (v: i32)
    ensures
        v == measured_value(s@),
{
    let n = s.len();
    if n == 0 || !only_digits(s) {
        return 0;
    }
    let mut acc: i64 = 0;
    let mut i: usize = 0;
    while i < n
        invariant
            n == s@.len(),
            all_digits(s@),
            i <= n,
            acc == decimal_value(s@.take(i as int)),
            0 <= acc <= i32::MAX,
        decreases n - i,
    {
        let c = s[i];
        assert(is_digit(s@[i as int]));
        let d: i64 = (c as u32 - '0' as u32) as i64;
        let next: i64 = acc * 10 + d;
        proof {
            let longer = s@.take(i + 1);
            assert(longer.drop_last() =~= s@.take(i as int));
            assert(longer.last() == s@[i as int]);
            assert(next == decimal_value(longer));
        }
        if next > 2147483647 {
            proof {
                lemma_decimal_value_grows(s@, i + 1);
            }
            return 0;
        }
        acc = next;
        i = i + 1;
    }
    assert(s@.take(n as int) =~= s@);
    acc as i32
}

/// The code point of `c`, with the upper-case ASCII letters mapped to
/// their lower-case partners.
pub open spec fn ascii_folded(c: char) -> int {
    if 'A' <= c <= 'Z' {
        c as int + 32
    } else {
        c as int
    }
}

/// Equality of texts up to the case of ASCII letters.
pub open spec fn same_ignoring_ascii_case(a: Seq<char>, b: Seq<char>) -> bool {
    &&& a.len() == b.len()
    &&& forall|i: int| 0 <= i < a.len() ==> ascii_folded(#[trigger] a[i]) == ascii_folded(b[i])
}

fn fold_ascii(c: char) -> (v: u32)
    ensures
        v == ascii_folded(c),
{
    if 'A' <= c && c <= 'Z' {
        c as u32 + 32
    } else {
        c as u32
    }
}

/// Compares two texts without regard to the case of ASCII letters.
pub fn eq_ignore_ascii_case(a: &[char], b: &[char]) -> (r: bool)
    ensures
        r == same_ignoring_ascii_case(a@, b@),
{
    let n = a.len();
    if n != b.len() {
        return false;
    }
    let mut i: usize = 0;
    while i < n
        invariant
            n == a@.len(),
            n == b@.len(),
            i <= n,
            forall|j: int| 0 <= j < i ==> ascii_folded(#[trigger] a@[j]) == ascii_folded(b@[j]),
        decreases n - i,
    {
        if fold_ascii(a[i]) != fold_ascii(b[i]) {
            return false;
        }
        i = i + 1;
    }
    true
}

/// The texts of a run of strings, in order.
pub open spec fn texts(v: Seq<String>) -> Seq<Seq<char>> {
    v.map_values(|s: String| s@)
}

/// The text held by an optional string.
pub open spec fn optional_text(s: Option<String>) -> Option<Seq<char>> {
    match s {
        Some(t) => Some(t@),
        None => None,
    }
}

/// The characters of `s`, in order.
pub fn to_chars(s: &str) -> (v: Vec<char>)
    ensures
        v@ == s@,
{
    let mut v: Vec<char> = Vec::new();
    for c in it: s.chars()
        invariant
            v@ == it.seq().take(it.index() as int),
            it.seq() == s@,
    {
        v.push(c);
    }
    v
}

/// `String::push` appends one character to the text.
pub assume_specification[ String::push ](s: &mut String, ch: char)
    ensures
        final(s)@ == old(s)@.push(ch),
;

/// The text made of the characters of `s`.
pub fn to_text(s: &[char]) -> (t: String)
    ensures
        t@ == s@,
{
    let n = s.len();
    let mut t = String::new();
    let mut i: usize = 0;
    while i < n
        invariant
            n == s@.len(),
            i <= n,
            t@ == s@.take(i as int),
        decreases n - i,
    {
        t.push(s[i]);
        assert(s@.take(i + 1) =~= s@.take(i as int).push(s@[i as int]));
        i = i + 1;
    }
    assert(s@.take(n as int) =~= s@);
    t
}

} // verus!
