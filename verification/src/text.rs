//! Text helpers: comparison, truncation, stripping and number rendering.

use vstd::prelude::*;
use vstd::string::{StrSliceExecFns, StringExecFns};
use vstd::utf8::{decode_utf8, valid_utf8};

verus! {

/// Whether two strings hold the same characters.
pub fn text_eq(left: &str, right: &str) -> (same: bool)
    ensures
        same == (left@ == right@),
{
    left.to_owned() == right.to_owned()
}

/// Concatenation of two strings.
pub fn join(left: &str, right: &str) -> (joined: String)
    ensures
        joined@ == left@ + right@,
{
    left.to_owned().concat(right)
}

/// The first `limit` characters of `text`, or all of it when it is shorter.
pub open spec fn truncated(text: Seq<char>, limit: nat) -> Seq<char> {
    if text.len() <= limit {
        text
    } else {
        text.take(limit as int)
    }
}

/// Keeps at most `limit` characters.
pub fn truncate_chars(text: &str, limit: usize) -> (short: String)
    ensures
        short@ == truncated(text@, limit as nat),
{
    if text.unicode_len() <= limit {
        text.to_owned()
    } else {
        proof {
            assert(text@.subrange(0, limit as int) =~= text@.take(limit as int));
        }
        text.substring_char(0, limit).to_owned()
    }
}

/// `text` without any leading occurrence of `c`.
pub open spec fn strip_start(text: Seq<char>, c: char) -> Seq<char>
    decreases text.len(),
{
    if text.len() > 0 && text[0] == c {
        strip_start(text.skip(1), c)
    } else {
        text
    }
}

/// `text` without any trailing occurrence of `c`.
pub open spec fn strip_end(text: Seq<char>, c: char) -> Seq<char>
    decreases text.len(),
{
    if text.len() > 0 && text.last() == c {
        strip_end(text.drop_last(), c)
    } else {
        text
    }
}

/// Removes leading `open` and trailing `close` characters.
pub fn strip_brackets(text: &str, open: char, close: char) -> (bare: String)
    ensures
        bare@ == strip_end(strip_start(text@, open), close),
{
    let len: usize = text.unicode_len();
    let mut from: usize = 0;
    assert(text@.skip(0) =~= text@);
    while from < len && text.get_char(from) == open
        invariant
            from <= len,
            len == text@.len(),
            strip_start(text@, open) == strip_start(text@.skip(from as int), open),
        decreases len - from,
    {
        assert(text@.skip(from as int).skip(1) =~= text@.skip(from + 1));
        from = from + 1;
    }
    let mut to: usize = len;
    assert(strip_start(text@, open) == text@.skip(from as int));
    assert(text@.subrange(from as int, to as int) =~= text@.skip(from as int));
    while from < to && text.get_char(to - 1) == close
        invariant
            from <= to <= len,
            len == text@.len(),
            strip_end(text@.skip(from as int), close) == strip_end(
                text@.subrange(from as int, to as int),
                close,
            ),
        decreases to - from,
    {
        assert(text@.subrange(from as int, to as int).drop_last() =~= text@.subrange(
            from as int,
            to - 1,
        ));
        to = to - 1;
    }
    text.substring_char(from, to).to_owned()
}

/// Whether `text` ends with `suffix`.
pub open spec fn has_suffix(text: Seq<char>, suffix: Seq<char>) -> bool {
    suffix.len() <= text.len() && text.skip(text.len() - suffix.len()) == suffix
}

/// Suffix test by characters.
pub fn ends_with(text: &str, suffix: &str) -> (found: bool)
    ensures
        found == has_suffix(text@, suffix@),
{
    let text_len: usize = text.unicode_len();
    let suffix_len: usize = suffix.unicode_len();
    if suffix_len > text_len {
        return false;
    }
    proof {
        assert(text@.subrange(text_len - suffix_len, text_len as int) =~= text@.skip(
            text_len - suffix_len,
        ));
    }
    text_eq(text.substring_char(text_len - suffix_len, text_len), suffix)
}

/// What `str`'s `Debug` renders: the text in quotes, escaped.
pub uninterp spec fn quoted_text(text: Seq<char>) -> Seq<char>;

/// Renders with the `Debug` implementation of `str`. The result is a function of
/// the text.
#[verifier::external_body]
pub(crate) fn quoted(text: &str) -> (rendered: String)
    ensures
        rendered@ == quoted_text(text@),
{
    format!("{:?}", text)
}

/// What `String::from_utf8_lossy` decodes.
pub uninterp spec fn lossy_text(bytes: Seq<u8>) -> Seq<char>;

/// Calls `String::from_utf8_lossy`. The result is a function of the bytes; valid
/// UTF-8 decodes as it stands, other bytes give replacement characters whose
/// number is left unsaid.
#[verifier::external_body]
pub(crate) fn decode_lossy(bytes: &[u8]) -> (text: String)
    ensures
        text@ == lossy_text(bytes@),
        valid_utf8(bytes@) ==> text@ == decode_utf8(bytes@),
{
    String::from_utf8_lossy(bytes).into_owned()
}

/// Decimal digits, most significant first.
pub const DECIMAL_DIGITS: &'static str = "0123456789";

/// Upper-case hexadecimal digits.
pub const HEX_DIGITS: &'static str = "0123456789ABCDEF";

/// The shortest decimal rendering of `value`.
pub open spec fn decimal_text(value: nat) -> Seq<char>
    decreases value,
{
    let digit = DECIMAL_DIGITS@[(value % 10) as int];
    if value < 10 {
        seq![digit]
    } else {
        decimal_text(value / 10).push(digit)
    }
}

/// Renders an unsigned number in decimal.
pub fn decimal(value: u64) -> (text: String)
    ensures
        text@ == decimal_text(value as nat),
    decreases value,
{
    proof {
        reveal_strlit("0123456789");
    }
    let digit: usize = (value % 10) as usize;
    let digit_text = DECIMAL_DIGITS.substring_char(digit, digit + 1);
    if value < 10 {
        assert(digit_text@ =~= decimal_text(value as nat));
        digit_text.to_owned()
    } else {
        let head = decimal(value / 10);
        assert(head@ + digit_text@ =~= decimal_text(value as nat));
        head.concat(digit_text)
    }
}

/// The `width` low hexadecimal digits of `value`, upper case and zero padded.
pub open spec fn hex_text(value: nat, width: nat) -> Seq<char>
    decreases width,
{
    if width == 0 {
        Seq::empty()
    } else {
        hex_text(value / 16, (width - 1) as nat).push(HEX_DIGITS@[(value % 16) as int])
    }
}

/// Renders the `width` low hexadecimal digits of `value`.
pub fn hex(value: u64, width: usize) -> (text: String)
    ensures
        text@ == hex_text(value as nat, width as nat),
    decreases width,
{
    if width == 0 {
        return String::new();
    }
    proof {
        reveal_strlit("0123456789ABCDEF");
    }
    let digit: usize = (value % 16) as usize;
    let digit_text = HEX_DIGITS.substring_char(digit, digit + 1);
    let head = hex(value / 16, width - 1);
    assert(head@ + digit_text@ =~= hex_text(value as nat, width as nat));
    head.concat(digit_text)
}

/// Equal renderings of one width come from numbers that agree in those digits:
/// sixteen digits tell any two 64-bit numbers apart.
pub proof fn law_hex_text_is_injective(left: u64, right: u64)
    requires
        hex_text(left as nat, 16) == hex_text(right as nat, 16),
    ensures
        left == right,
{
    assert(pow16(16) == 0x1_0000_0000_0000_0000) by {
        reveal_with_fuel(pow16, 17);
    }
    lemma_hex_injective(left as nat, right as nat, 16);
}

spec fn pow16(width: nat) -> nat
    decreases width,
{
    if width == 0 {
        1
    } else {
        16 * pow16((width - 1) as nat)
    }
}

proof fn lemma_hex_injective(left: nat, right: nat, width: nat)
    requires
        left < pow16(width),
        right < pow16(width),
        hex_text(left, width) == hex_text(right, width),
    ensures
        left == right,
    decreases width,
{
    if width > 0 {
        reveal_strlit("0123456789ABCDEF");
        let l = hex_text(left, width);
        let r = hex_text(right, width);
        let narrower = (width - 1) as nat;
        assert(l.last() == HEX_DIGITS@[(left % 16) as int]);
        assert(r.last() == HEX_DIGITS@[(right % 16) as int]);
        assert(l.drop_last() =~= hex_text(left / 16, narrower));
        assert(r.drop_last() =~= hex_text(right / 16, narrower));
        lemma_hex_injective(left / 16, right / 16, narrower);
    }
}

/// Cutting a text keeps its beginning: all of a text that is short enough, and
/// exactly `limit` characters of a longer one.
pub proof fn law_cutting_keeps_the_beginning(text: Seq<char>, limit: nat)
    ensures
        truncated(text, limit).len() == if text.len() <= limit {
            text.len()
        } else {
            limit
        },
        forall|i: int|
            0 <= i < truncated(text, limit).len() ==> #[trigger] truncated(text, limit)[i]
                == text[i],
{
}

/// What remains of a text after stripping lies between two positions: only
/// `open` stands before it and only `close` after it, it does not start with the
/// one, and it does not end with the other.
pub proof fn law_stripping_takes_only_the_brackets(text: Seq<char>, open: char, close: char) -> (cut: (
    int,
    int,
))
    ensures
        0 <= cut.0 <= cut.1 <= text.len(),
        strip_end(strip_start(text, open), close) == text.subrange(cut.0, cut.1),
        forall|i: int| 0 <= i < cut.0 ==> #[trigger] text[i] == open,
        forall|i: int| cut.1 <= i < text.len() ==> #[trigger] text[i] == close,
        cut.0 < text.len() ==> text[cut.0] != open,
        cut.0 < cut.1 ==> text[cut.1 - 1] != close,
{
    let from = lemma_strip_start(text, open);
    let rest = text.skip(from);
    let to = lemma_strip_end(rest, close);
    assert(rest.take(to) =~= text.subrange(from, from + to));
    assert forall|i: int| from + to <= i < text.len() implies #[trigger] text[i] == close by {
        assert(rest[i - from] == text[i]);
    }
    (from, from + to)
}

proof fn lemma_strip_start(text: Seq<char>, c: char) -> (from: int)
    ensures
        0 <= from <= text.len(),
        strip_start(text, c) == text.skip(from),
        forall|i: int| 0 <= i < from ==> #[trigger] text[i] == c,
        from < text.len() ==> text[from] != c,
    decreases text.len(),
{
    if text.len() > 0 && text[0] == c {
        let rest = text.skip(1);
        let from = lemma_strip_start(rest, c);
        assert(rest.skip(from) =~= text.skip(from + 1));
        assert forall|i: int| 0 <= i < from + 1 implies #[trigger] text[i] == c by {
            if i > 0 {
                assert(rest[i - 1] == text[i]);
            }
        }
        from + 1
    } else {
        assert(text.skip(0) =~= text);
        0
    }
}

proof fn lemma_strip_end(text: Seq<char>, c: char) -> (to: int)
    ensures
        0 <= to <= text.len(),
        strip_end(text, c) == text.take(to),
        forall|i: int| to <= i < text.len() ==> #[trigger] text[i] == c,
        to > 0 ==> text[to - 1] != c,
    decreases text.len(),
{
    if text.len() > 0 && text.last() == c {
        let rest = text.drop_last();
        let to = lemma_strip_end(rest, c);
        assert(rest.take(to) =~= text.take(to));
        assert forall|i: int| to <= i < text.len() implies #[trigger] text[i] == c by {
            if i < rest.len() {
                assert(rest[i] == text[i]);
            }
        }
        to
    } else {
        assert(text.take(text.len() as int) =~= text);
        text.len() as int
    }
}

/// A text ends with a suffix exactly when something stands before the suffix
/// that makes up the text with it.
pub proof fn law_suffix_completes_the_text(text: Seq<char>, before: Seq<char>, suffix: Seq<char>)
    ensures
        has_suffix(before + suffix, suffix),
        has_suffix(text, suffix) ==> text == text.take(text.len() - suffix.len()) + suffix,
{
    assert((before + suffix).skip(before.len() as int) =~= suffix);
    if has_suffix(text, suffix) {
        let at = text.len() - suffix.len();
        assert(text =~= text.take(at) + text.skip(at));
    }
}

/// The number that a row of decimal digits stands for.
pub open spec fn decimal_value(digits: Seq<char>) -> int
    decreases digits.len(),
{
    if digits.len() == 0 {
        0
    } else {
        10 * decimal_value(digits.drop_last()) + (digits.last() as int - 48)
    }
}

/// A decimal rendering consists of digits, stands for its number, and has no
/// leading zero.
pub proof fn law_decimal_text_stands_for_its_number(value: nat)
    ensures
        decimal_value(decimal_text(value)) == value,
        forall|i: int|
            0 <= i < decimal_text(value).len() ==> '0' <= #[trigger] decimal_text(value)[i] <= '9',
        decimal_text(value).len() > 0,
        decimal_text(value).len() > 1 ==> decimal_text(value)[0] != '0',
        value > 0 ==> decimal_text(value)[0] != '0',
    decreases value,
{
    reveal_strlit("0123456789");
    let digit = DECIMAL_DIGITS@[(value % 10) as int];
    assert(digit as int == 48 + value % 10);
    let shown = decimal_text(value);
    if value < 10 {
        assert(shown =~= seq![digit]);
        assert(shown.drop_last() =~= Seq::empty());
        assert(decimal_value(shown.drop_last()) == 0);
    } else {
        let head = decimal_text(value / 10);
        law_decimal_text_stands_for_its_number(value / 10);
        assert(shown.drop_last() =~= head);
        assert forall|i: int| 0 <= i < shown.len() implies '0' <= #[trigger] shown[i] <= '9' by {
            if i < head.len() {
                assert(shown[i] == head[i]);
            }
        }
        assert(shown[0] == head[0]);
    }
}

/// The number that a row of upper-case hexadecimal digits stands for.
pub open spec fn hex_value(digits: Seq<char>) -> int
    decreases digits.len(),
{
    if digits.len() == 0 {
        0
    } else {
        16 * hex_value(digits.drop_last()) + if digits.last() <= '9' {
            digits.last() as int - 48
        } else {
            digits.last() as int - 55
        }
    }
}

/// Sixteen hexadecimal digits, upper case, stand for their 64-bit number.
pub proof fn law_hex_text_stands_for_its_number(value: u64)
    ensures
        hex_text(value as nat, 16).len() == 16,
        hex_value(hex_text(value as nat, 16)) == value,
        forall|i: int|
            0 <= i < 16 ==> ('0' <= #[trigger] hex_text(value as nat, 16)[i] <= '9' || 'A'
                <= hex_text(value as nat, 16)[i] <= 'F'),
{
    assert(pow16(16) == 0x1_0000_0000_0000_0000) by {
        reveal_with_fuel(pow16, 17);
    }
    lemma_hex_value(value as nat, 16);
}

proof fn lemma_hex_value(value: nat, width: nat)
    requires
        value < pow16(width),
    ensures
        hex_text(value, width).len() == width,
        hex_value(hex_text(value, width)) == value,
        forall|i: int|
            0 <= i < width ==> ('0' <= #[trigger] hex_text(value, width)[i] <= '9' || 'A'
                <= hex_text(value, width)[i] <= 'F'),
    decreases width,
{
    if width > 0 {
        reveal_strlit("0123456789ABCDEF");
        let narrower = (width - 1) as nat;
        let head = hex_text(value / 16, narrower);
        let shown = hex_text(value, width);
        lemma_hex_value(value / 16, narrower);
        assert(shown.drop_last() =~= head);
        assert forall|i: int| 0 <= i < width implies ('0' <= #[trigger] shown[i] <= '9' || 'A'
            <= shown[i] <= 'F') by {
            if i < narrower {
                assert(shown[i] == head[i]);
            }
        }
    }
}

} // verus!
