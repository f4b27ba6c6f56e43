//! Fields of text and the whole numbers written in them.
use vstd::prelude::*;

verus! {

/// Where the field that starts at `from` ends: at the first `sep` at or after
/// `from`, or at the end of `text`.
pub open spec fn field_end(text: Seq<u8>, from: int, sep: u8) -> int
    decreases text.len() - from,
{
    if from >= text.len() {
        text.len() as int
    } else if text[from] == sep {
        from
    } else {
        field_end(text, from + 1, sep)
    }
}

/// The field of `text` that starts at `cursor`, up to the next `sep`; none
/// once the fields are used up.
pub open spec fn field(text: Seq<u8>, cursor: Option<usize>, sep: u8) -> Option<Seq<u8>> {
    match cursor {
        None => None,
        Some(at) => Some(text.subrange(at as int, field_end(text, at as int, sep))),
    }
}

/// Where the field after the one at `cursor` starts: behind the `sep` that
/// ends this one. After the last field there is none.
pub open spec fn after_field(text: Seq<u8>, cursor: Option<usize>, sep: u8) -> Option<usize> {
    match cursor {
        None => None,
        Some(at) => if field_end(text, at as int, sep) < text.len() {
            Some((field_end(text, at as int, sep) + 1) as usize)
        } else {
            None
        },
    }
}

/// A field ends at or after its start, within the text, and holds no `sep`.
pub proof fn lemma_field_end(text: Seq<u8>, from: int, sep: u8)
    requires
        0 <= from <= text.len(),
    ensures
        from <= field_end(text, from, sep) <= text.len(),
        field_end(text, from, sep) < text.len() ==> text[field_end(text, from, sep)] == sep,
        forall|i: int| from <= i < field_end(text, from, sep) ==> text[i] != sep,
    decreases text.len() - from,
{
    if from < text.len() && text[from] != sep {
        lemma_field_end(text, from + 1, sep);
    }
}

/// Finds the end of the field of `text` that starts at `from`.
pub fn find_field_end(text: &[u8], from: usize, sep: u8) -> (end: usize)
    requires
        from <= text@.len(),
    ensures
        end == field_end(text@, from as int, sep),
        from <= end <= text@.len(),
{
    let mut end: usize = from;
    while end < text.len() && text[end] != sep
        invariant
            from <= end <= text@.len(),
            field_end(text@, from as int, sep) == field_end(text@, end as int, sep),
        decreases text@.len() - end,
    {
        end += 1;
    }
    end
}

/// Takes the field at `cursor` and moves `cursor` to the next one.
pub fn next_field<'a>(text: &'a [u8], cursor: &mut Option<usize>, sep: u8) -> (found: Option<
    &'a [u8],
>)
    requires
        *old(cursor) matches Some(at) ==> at <= text@.len(),
    ensures
        match found {
            Some(bytes) => field(text@, *old(cursor), sep) == Some(bytes@),
            None => field(text@, *old(cursor), sep).is_none(),
        },
        *final(cursor) == after_field(text@, *old(cursor), sep),
        *final(cursor) matches Some(at) ==> at <= text@.len(),
{
    match *cursor {
        None => None,
        Some(at) => {
            let end = find_field_end(text, at, sep);
            *cursor = if end < text.len() {
                Some(end + 1)
            } else {
                None
            };
            Some(vstd::slice::slice_subrange(text, at, end))
        },
    }
}

/// The digit that the byte `b` shows.
pub open spec fn is_digit(b: u8) -> bool {
    0x30 <= b <= 0x39
}

/// The number that the decimal digits `digits` write.
pub open spec fn decimal_value(digits: Seq<u8>) -> nat
    decreases digits.len(),
{
    if digits.len() == 0 {
        0
    } else {
        decimal_value(digits.drop_last()) * 10 + (digits.last() - 0x30) as nat
    }
}

/// `digits` is one decimal digit or more.
pub open spec fn is_decimal(digits: Seq<u8>) -> bool {
    digits.len() > 0 && forall|i: int| 0 <= i < digits.len() ==> is_digit(#[trigger] digits[i])
}

/// `text` without a plus sign in front.
pub open spec fn unsigned_part(text: Seq<u8>) -> Seq<u8> {
    if text.len() > 0 && text[0] == 0x2b {
        text.subrange(1, text.len() as int)
    } else {
        text
    }
}

/// The whole number that `text` writes in decimal, with or without a plus
/// sign in front; none where `text` is anything else or the number is too
/// large for a `usize`.
pub open spec fn whole_number(text: Seq<u8>) -> Option<usize> {
    let digits = unsigned_part(text);
    if is_decimal(digits) && decimal_value(digits) <= usize::MAX {
        Some(decimal_value(digits) as usize)
    } else {
        None
    }
}

/// A number is at least as large as the number that its leading digits write.
pub proof fn lemma_decimal_value_grows(digits: Seq<u8>, n: int)
    requires
        0 <= n <= digits.len(),
        forall|i: int| 0 <= i < digits.len() ==> is_digit(#[trigger] digits[i]),
    ensures
        decimal_value(digits.subrange(0, n)) <= decimal_value(digits),
    decreases digits.len() - n,
{
    if n < digits.len() {
        let longer = digits.subrange(0, n + 1);
        assert(longer.drop_last() =~= digits.subrange(0, n));
        lemma_decimal_value_grows(digits, n + 1);
    } else {
        assert(digits.subrange(0, n) =~= digits);
    }
}

/// Reads a whole number written in decimal.
pub fn parse_whole_number(text: &[u8]) -> (number: Option<usize>)
    ensures
        number == whole_number(text@),
{
    let start: usize = if text.len() > 0 && text[0] == 0x2b {
        1
    } else {
        0
    };
    let ghost digits = unsigned_part(text@);
    assert(digits =~= text@.subrange(start as int, text@.len() as int));
    if start == text.len() {
        return None;
    }
    let mut value: usize = 0;
    let mut i: usize = start;
    while i < text.len()
        invariant
            start <= i <= text@.len(),
            digits == text@.subrange(start as int, text@.len() as int),
            digits == unsigned_part(text@),
            forall|k: int| 0 <= k < i - start ==> is_digit(#[trigger] digits[k]),
            value == decimal_value(digits.subrange(0, i - start)),
        decreases text@.len() - i,
    {
        let b: u8 = text[i];
        if b < 0x30 || b > 0x39 {
            assert(!is_digit(digits[i - start]));
            return None;
        }
        let ghost longer = digits.subrange(0, i - start + 1);
        assert(longer.drop_last() =~= digits.subrange(0, i - start));
        assert(longer.last() == b);
        let next = match value.checked_mul(10) {
            None => None,
            Some(tens) => tens.checked_add((b - 0x30) as usize),
        };
        match next {
            None => {
                proof {
                    if is_decimal(digits) {
                        lemma_decimal_value_grows(digits, i - start + 1);
                    }
                }
                return None;
            },
            Some(v) => {
                value = v;
            },
        }
        i += 1;
    }
    assert(digits.subrange(0, i - start) =~= digits);
    Some(value)
}

/// The decimal digits that write `n`, without leading zeros.
pub open spec fn decimal_digits(n: nat) -> Seq<u8>
    decreases n,
{
    if n < 10 {
        seq![(0x30 + n) as u8]
    } else {
        decimal_digits(n / 10).push((0x30 + n % 10) as u8)
    }
}

/// Appends `n`, written in decimal, to `out`.
pub fn push_decimal(out: &mut Vec<u8>, n: usize)
    ensures
        final(out)@ == old(out)@ + decimal_digits(n as nat),
    decreases n,
{
    if n >= 10 {
        push_decimal(out, n / 10);
    }
    out.push(0x30 + (n % 10) as u8);
    assert(out@ =~= old(out)@ + decimal_digits(n as nat));
}

/// What is written in decimal is read back as the same number.
pub proof fn lemma_decimal_round_trip(n: nat)
    ensures
        is_decimal(decimal_digits(n)),
        decimal_value(decimal_digits(n)) == n,
        n <= usize::MAX ==> whole_number(decimal_digits(n)) == Some(n as usize),
    decreases n,
{
    let digits = decimal_digits(n);
    if n < 10 {
        assert(digits.drop_last() =~= Seq::<u8>::empty());
        assert(decimal_value(digits.drop_last()) == 0);
    } else {
        lemma_decimal_round_trip(n / 10);
        assert(digits.drop_last() =~= decimal_digits(n / 10));
    }
    assert(digits[0] != 0x2b);
    assert(unsigned_part(digits) == digits);
}

} // verus!
