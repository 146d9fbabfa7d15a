//! Port ranges written as text: `"<start>-<end>"`.
//!
//! Malformed text is never an error. Each side that does not read as a
//! 16-bit unsigned number falls back to its default bound, the two numbers
//! are put in order, and the pair is clamped: the start upward to
//! [`DEFAULT_PORT_STAR`], the end downward to [`DEFAULT_PORT_END`].

use vstd::prelude::*;

verus! {

/// Lowest port of the default range, and the floor of every parsed start.
pub const DEFAULT_PORT_STAR: u16 = 1024;

/// Highest port of the default range, and the ceiling of every parsed end.
pub const DEFAULT_PORT_END: u16 = 49151;

/// The default range as text.
pub const DEFAULT_PORT_RANGE: &'static str = "1024-49151";

/// `c` is one of the ten ASCII digits.
pub open spec fn is_digit(c: char) -> bool {
    '0' <= c && c <= '9'
}

/// The number that the digit `c` stands for.
pub open spec fn digit_value(c: char) -> nat {
    (c as u32 - '0' as u32) as nat
}

/// `digits` consists of ASCII digits only.
pub open spec fn all_digits(digits: Seq<char>) -> bool {
    forall|i: int| 0 <= i < digits.len() ==> is_digit(#[trigger] digits[i])
}

/// The number that `digits` spells in base ten, most significant digit
/// first. The empty sequence spells zero.
pub open spec fn decimal_value(digits: Seq<char>) -> nat
    decreases digits.len(),
{
    if digits.len() == 0 {
        0
    } else {
        10 * decimal_value(digits.drop_last()) + digit_value(digits.last())
    }
}

/// `text` without one leading `+`, if it has one.
pub open spec fn unsigned_part(text: Seq<char>) -> Seq<char> {
    if text.len() > 0 && text[0] == '+' {
        text.drop_first()
    } else {
        text
    }
}

/// The number that `text` denotes as a 16-bit unsigned decimal: an optional
/// `+`, then one or more ASCII digits whose value is at most 65535. Any other
/// text denotes nothing.
pub open spec fn parse_number(text: Seq<char>) -> Option<u16> {
    let digits = unsigned_part(text);
    if digits.len() > 0 && all_digits(digits) && decimal_value(digits) <= u16::MAX {
        Some(decimal_value(digits) as u16)
    } else {
        None
    }
}

/// Position of the first `-` in `text`, or the length of `text` if it holds
/// none.
pub open spec fn dash_position(text: Seq<char>) -> int
    decreases text.len(),
{
    if text.len() == 0 || text[0] == '-' {
        0
    } else {
        1 + dash_position(text.drop_first())
    }
}

/// The pair that a start and an end are normalized to: the smaller of the
/// two raised to at least [`DEFAULT_PORT_STAR`], and the larger lowered to at
/// most [`DEFAULT_PORT_END`]. Neither side is clamped in the other direction.
pub open spec fn clamp_bounds(start: u16, end: u16) -> (u16, u16) {
    let low = if start <= end { start } else { end };
    let high = if start <= end { end } else { start };
    (
        if low < DEFAULT_PORT_STAR { DEFAULT_PORT_STAR } else { low },
        if high > DEFAULT_PORT_END { DEFAULT_PORT_END } else { high },
    )
}

/// The range that `text` denotes.
///
/// Without a `-` it is the default range. Otherwise the text is cut at its
/// first `-`; the part before it is the start and the part after it the end,
/// each replaced by its default bound where it is no number, and the two are
/// normalized by [`clamp_bounds`].
pub open spec fn range_of(text: Seq<char>) -> (u16, u16) {
    let dash = dash_position(text);
    if dash == text.len() {
        (DEFAULT_PORT_STAR, DEFAULT_PORT_END)
    } else {
        let start = parse_number(text.subrange(0, dash));
        let end = parse_number(text.subrange(dash + 1, text.len() as int));
        clamp_bounds(
            if start is Some { start->0 } else { DEFAULT_PORT_STAR },
            if end is Some { end->0 } else { DEFAULT_PORT_END },
        )
    }
}

/// Normalized bounds never reach below the floor or above the ceiling.
pub proof fn lemma_clamp_within_limits(start: u16, end: u16)
    ensures
        clamp_bounds(start, end).0 >= DEFAULT_PORT_STAR,
        clamp_bounds(start, end).1 <= DEFAULT_PORT_END,
{
}

/// The order in which the two numbers are given makes no difference.
pub proof fn lemma_clamp_symmetric(start: u16, end: u16)
    ensures
        clamp_bounds(start, end) == clamp_bounds(end, start),
{
}

/// A pair that is in order and within the limits is left as it is.
pub proof fn lemma_clamp_keeps_valid(start: u16, end: u16)
    requires
        DEFAULT_PORT_STAR <= start <= end <= DEFAULT_PORT_END,
    ensures
        clamp_bounds(start, end) == (start, end),
{
}

/// The start is raised but never lowered, and the end lowered but never
/// raised. So the normalized start is at most the normalized end exactly
/// when the two numbers are not both below the floor and not both above
/// the ceiling; a pair that lies wholly outside the limits comes out
/// inverted.
pub proof fn lemma_clamp_ordered(start: u16, end: u16)
    ensures
        clamp_bounds(start, end).0 <= clamp_bounds(start, end).1 <==> !(start < DEFAULT_PORT_STAR
            && end < DEFAULT_PORT_STAR) && !(start > DEFAULT_PORT_END && end > DEFAULT_PORT_END),
{
}

/// Whatever the text, the start of its range is at least the floor and the
/// end at most the ceiling.
pub proof fn lemma_range_within_limits(text: Seq<char>)
    ensures
        range_of(text).0 >= DEFAULT_PORT_STAR,
        range_of(text).1 <= DEFAULT_PORT_END,
{
}

/// Text without a `-` denotes the default range.
pub proof fn lemma_range_without_dash(text: Seq<char>)
    requires
        !text.contains('-'),
    ensures
        range_of(text) == (DEFAULT_PORT_STAR, DEFAULT_PORT_END),
{
    lemma_dash_position(text);
    if dash_position(text) < text.len() {
        assert(text.contains(text[dash_position(text)]));
    }
}

/// [`dash_position`] is the least index that holds a `-`, and the length
/// where there is none.
pub proof fn lemma_dash_position(text: Seq<char>)
    ensures
        0 <= dash_position(text) <= text.len(),
        forall|i: int| 0 <= i < dash_position(text) ==> text[i] != '-',
        dash_position(text) < text.len() ==> text[dash_position(text)] == '-',
    decreases text.len(),
{
    if text.len() == 0 || text[0] == '-' {
    } else {
        let rest = text.drop_first();
        lemma_dash_position(rest);
        assert forall|i: int| 0 <= i < dash_position(text) implies text[i] != '-' by {
            if i > 0 {
                assert(text[i] == rest[i - 1]);
            }
        }
        let found = dash_position(rest);
        assert(found < rest.len() ==> text[found + 1] == rest[found]);
    }
}

/// An index before which no `-` stands, and which holds one or is the end,
/// is the [`dash_position`].
pub proof fn lemma_dash_position_unique(text: Seq<char>, at: int)
    requires
        0 <= at <= text.len(),
        forall|i: int| 0 <= i < at ==> text[i] != '-',
        at < text.len() ==> text[at] == '-',
    ensures
        dash_position(text) == at,
{
    lemma_dash_position(text);
    let found = dash_position(text);
    if found < at {
        assert(text[found] != '-');
    } else if at < found {
        assert(text[at] != '-');
    }
}

/// A prefix of a run of digits never spells more than the whole run.
pub proof fn lemma_decimal_value_prefix(digits: Seq<char>, n: int)
    requires
        0 <= n <= digits.len(),
        all_digits(digits),
    ensures
        decimal_value(digits.take(n)) <= decimal_value(digits),
    decreases digits.len() - n,
{
    if n == digits.len() {
        assert(digits.take(n) == digits);
    } else {
        lemma_decimal_value_prefix(digits, n + 1);
        let longer = digits.take(n + 1);
        assert(longer.drop_last() == digits.take(n));
        assert(decimal_value(longer) == 10 * decimal_value(digits.take(n)) + digit_value(
            longer.last(),
        ));
    }
}

/// The default range text denotes the default bounds, unchanged.
pub proof fn lemma_default_range()
    ensures
        range_of(DEFAULT_PORT_RANGE@) == (DEFAULT_PORT_STAR, DEFAULT_PORT_END),
{
    reveal_strlit("1024-49151");
    let text = DEFAULT_PORT_RANGE@;
    assert(text =~= seq!['1', '0', '2', '4', '-', '4', '9', '1', '5', '1']);
    lemma_dash_position_unique(text, 4);
    let none = Seq::<char>::empty();
    lemma_decimal_value_push(none, '1');
    lemma_decimal_value_push(none.push('1'), '0');
    lemma_decimal_value_push(none.push('1').push('0'), '2');
    lemma_decimal_value_push(none.push('1').push('0').push('2'), '4');
    assert(text.subrange(0, 4) =~= none.push('1').push('0').push('2').push('4'));
    lemma_decimal_value_push(none, '4');
    lemma_decimal_value_push(none.push('4'), '9');
    lemma_decimal_value_push(none.push('4').push('9'), '1');
    lemma_decimal_value_push(none.push('4').push('9').push('1'), '5');
    lemma_decimal_value_push(none.push('4').push('9').push('1').push('5'), '1');
    assert(text.subrange(5, 10) =~= none.push('4').push('9').push('1').push('5').push('1'));
}

/// One more digit at the end multiplies the value by ten and adds the digit.
pub proof fn lemma_decimal_value_push(digits: Seq<char>, c: char)
    ensures
        decimal_value(digits.push(c)) == 10 * decimal_value(digits) + digit_value(c),
{
    assert(digits.push(c).drop_last() == digits);
}

/// Whether two texts hold the same characters: `==` of `str`, which compares
/// the two slices byte for byte.
#[verifier::external_body]
fn same_text(left: &str, right: &str) -> (same: bool)
    ensures
        same == (left@ == right@),
{
    left == right
}

/// The characters of `text`, in order.
pub fn chars_of(text: &str) -> (chars: Vec<char>)
    ensures
        chars@ == text@,
{
    let mut chars: Vec<char> = Vec::new();
    for c in it: text.chars()
        invariant
            chars@ == it.seq().take(it.index()),
    {
        chars.push(c);
    }
    chars
}

/// Index of the first `-` in `chars`, or its length if it holds none.
pub fn find_dash(chars: &Vec<char>) -> (at: usize)
    ensures
        at == dash_position(chars@),
        at <= chars.len(),
{
    let mut at: usize = 0;
    while at < chars.len() && chars[at] != '-'
        invariant
            at <= chars.len(),
            forall|i: int| 0 <= i < at ==> chars@[i] != '-',
        decreases chars.len() - at,
    {
        at += 1;
    }
    proof {
        lemma_dash_position_unique(chars@, at as int);
    }
    at
}

/// Reads `chars[from..to]` as a 16-bit unsigned decimal number.
pub fn parse_digits(chars: &Vec<char>, from: usize, to: usize) -> (number: Option<u16>)
    requires
        from <= to <= chars.len(),
    ensures
        number == parse_number(chars@.subrange(from as int, to as int)),
{
    let ghost text = chars@.subrange(from as int, to as int);
    let mut at: usize = from;
    if at < to && chars[at] == '+' {
        at += 1;
    }
    let first: usize = at;
    let ghost digits = chars@.subrange(first as int, to as int);
    assert(digits == unsigned_part(text));
    if first == to {
        return None;
    }
    let mut value: u32 = 0;
    while at < to
        invariant
            from <= first <= at <= to <= chars.len(),
            text == chars@.subrange(from as int, to as int),
            digits == chars@.subrange(first as int, to as int),
            digits == unsigned_part(text),
            all_digits(digits.take(at - first)),
            value == decimal_value(digits.take(at - first)),
            value <= u16::MAX,
        decreases to - at,
    {
        let c: char = chars[at];
        if !('0' <= c && c <= '9') {
            assert(!is_digit(digits[at - first]));
            return None;
        }
        let digit: u32 = c as u32 - '0' as u32;
        let ghost shorter = digits.take(at - first);
        let ghost longer = digits.take(at - first + 1);
        proof {
            assert(longer.drop_last() == shorter);
            assert(longer.last() == c);
            assert forall|i: int| 0 <= i < longer.len() implies is_digit(
                #[trigger] longer[i],
            ) by {
                if i < shorter.len() {
                    assert(longer[i] == shorter[i]);
                }
            }
        }
        value = value * 10 + digit;
        at += 1;
        if value > 65535 {
            proof {
                if all_digits(digits) {
                    lemma_decimal_value_prefix(digits, at - first);
                }
            }
            return None;
        }
    }
    assert(digits.take(at - first) == digits);
    Some(value as u16)
}

/// The bounds that a start and an end are normalized to.
pub fn clamp_range(start: u16, end: u16) -> (bounds: (u16, u16))
    ensures
        bounds == clamp_bounds(start, end),
{
    let low: u16 = if start <= end { start } else { end };
    let high: u16 = if start <= end { end } else { start };
    (
        if low < DEFAULT_PORT_STAR { DEFAULT_PORT_STAR } else { low },
        if high > DEFAULT_PORT_END { DEFAULT_PORT_END } else { high },
    )
}

/// Parses a port range written as `"<start>-<end>"`.
///
/// Never fails: text without a `-` gives the default range, and a side that
/// is no number gives that side's default bound.
pub fn parse_range(range: &str) -> (bounds: (u16, u16))
    ensures
        bounds == range_of(range@),
        bounds.0 >= DEFAULT_PORT_STAR,
        bounds.1 <= DEFAULT_PORT_END,
{
    if same_text(range, DEFAULT_PORT_RANGE) {
        proof {
            lemma_default_range();
        }
        return (DEFAULT_PORT_STAR, DEFAULT_PORT_END);
    }
    let chars = chars_of(range);
    let dash = find_dash(&chars);
    if dash == chars.len() {
        return (DEFAULT_PORT_STAR, DEFAULT_PORT_END);
    }
    let start = match parse_digits(&chars, 0, dash) {
        Some(number) => number,
        None => DEFAULT_PORT_STAR,
    };
    let end = match parse_digits(&chars, dash + 1, chars.len()) {
        Some(number) => number,
        None => DEFAULT_PORT_END,
    };
    clamp_range(start, end)
}

} // verus!
