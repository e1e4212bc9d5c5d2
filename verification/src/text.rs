//! Text, bytes and decimal numbers.

use vstd::prelude::*;
use vstd::utf8::*;

verus! {

/// The line feed that ends a line.
pub const NEWLINE: u8 = 10;

/// What a read gave: the bytes, or the text of its error.
pub open spec fn read_view(read: Result<Vec<u8>, String>) -> Result<Seq<u8>, Seq<char>> {
    match read {
        Ok(bytes) => Ok(bytes@),
        Err(error) => Err(error@),
    }
}

/// Whether `bytes` are one line, line feed and all, of at most `limit` bytes.
pub open spec fn is_line(bytes: Seq<u8>, limit: int) -> bool {
    0 < bytes.len() <= limit && bytes.last() == NEWLINE
}

/// Encoding a concatenation is concatenating the encodings.
pub proof fn lemma_encode_concat(first: Seq<char>, second: Seq<char>)
    ensures
        encode_utf8(first + second) == encode_utf8(first) + encode_utf8(second),
    decreases first.len(),
{
    if first.len() == 0 {
        assert(first + second =~= second);
    } else {
        lemma_encode_concat(first.drop_first(), second);
        assert((first + second).drop_first() =~= first.drop_first() + second);
        assert(encode_utf8(first + second) =~= encode_utf8(first) + encode_utf8(second));
    }
}

/// A line feed in the encoding of a text comes from a line feed in the text.
pub proof fn lemma_encode_newline(chars: Seq<char>)
    requires
        !chars.contains('\n'),
    ensures
        !encode_utf8(chars).contains(NEWLINE),
    decreases chars.len(),
{
    if chars.len() > 0 {
        let rest = chars.drop_first();
        assert forall|i: int| 0 <= i < rest.len() implies rest[i] != '\n' by {
            assert(rest[i] == chars[i + 1]);
        }
        lemma_encode_newline(rest);
        let scalar: u32 = chars[0] as u32;
        let head = encode_scalar(scalar);
        char_is_scalar(chars[0]);
        char_u32_cast(chars[0], scalar);
        assert(scalar != 10) by {
            assert(chars[0] != '\n');
        }
        assert forall|i: int| 0 <= i < head.len() implies head[i] != NEWLINE by {
            lemma_scalar_bytes(scalar);
        }
        assert forall|i: int| 0 <= i < encode_utf8(chars).len() implies encode_utf8(chars)[i]
            != NEWLINE by {
            if i >= head.len() {
                assert(encode_utf8(chars)[i] == encode_utf8(rest)[i - head.len()]);
            }
        }
    }
}

/// No byte of the encoding of a scalar other than the line feed is the line feed.
proof fn lemma_scalar_bytes(scalar: u32)
    requires
        is_scalar(scalar),
        scalar != 10,
    ensures
        forall|i: int|
            0 <= i < encode_scalar(scalar).len() ==> encode_scalar(scalar)[i] != NEWLINE,
{
    assert(scalar <= 0x7f && scalar != 10 ==> (scalar & 0x7F) as u8 != 10) by (bit_vector);
    assert(0xC0u8 | ((scalar >> 6) & 0x1F) as u8 != 10) by (bit_vector);
    assert(0xE0u8 | ((scalar >> 12) & 0x0F) as u8 != 10) by (bit_vector);
    assert(0xF0u8 | ((scalar >> 18) & 0x7) as u8 != 10) by (bit_vector);
    assert(0x80u8 | (scalar & 0x3F) as u8 != 10) by (bit_vector);
    assert(0x80u8 | ((scalar >> 6) & 0x3F) as u8 != 10) by (bit_vector);
    assert(0x80u8 | ((scalar >> 12) & 0x3F) as u8 != 10) by (bit_vector);
}

/// Whether two byte strings are equal.
pub fn same_bytes(left: &[u8], right: &[u8]) -> (same: bool)
    ensures
        same == (left@ == right@),
{
    if left.len() != right.len() {
        return false;
    }
    let mut i: usize = 0;
    while i < left.len()
        invariant
            left@.len() == right@.len(),
            i <= left@.len(),
            forall|k: int| 0 <= k < i ==> left@[k] == right@[k],
        decreases left@.len() - i,
    {
        if left[i] != right[i] {
            return false;
        }
        i += 1;
    }
    assert(left@ =~= right@);
    true
}

/// The decimal digit `digit`.
pub open spec fn digit(digit: nat) -> Seq<char> {
    if digit == 0 {
        "0"@
    } else if digit == 1 {
        "1"@
    } else if digit == 2 {
        "2"@
    } else if digit == 3 {
        "3"@
    } else if digit == 4 {
        "4"@
    } else if digit == 5 {
        "5"@
    } else if digit == 6 {
        "6"@
    } else if digit == 7 {
        "7"@
    } else if digit == 8 {
        "8"@
    } else {
        "9"@
    }
}

/// `number` in decimal notation, without leading zeros.
pub open spec fn decimal(number: nat) -> Seq<char>
    decreases number,
{
    if number < 10 {
        digit(number)
    } else {
        decimal(number / 10) + digit(number % 10)
    }
}

/// `number` in decimal notation, without leading zeros.
pub fn decimal_text(number: usize) -> (text: String)
    ensures
        text@ == decimal(number as nat),
    decreases number,
{
    let last: &str = match number % 10 {
        0 => "0",
        1 => "1",
        2 => "2",
        3 => "3",
        4 => "4",
        5 => "5",
        6 => "6",
        7 => "7",
        8 => "8",
        _ => "9",
    };
    if number < 10 {
        last.to_owned()
    } else {
        decimal_text(number / 10).concat(last)
    }
}

/// The number that decimal digits stand for.
pub open spec fn value_of(digits: Seq<char>) -> int
    decreases digits.len(),
{
    if digits.len() == 0 {
        0
    } else {
        value_of(digits.drop_last()) * 10 + (digits.last() as int - '0' as int)
    }
}

/// A decimal digit is one character, and stands for its number.
proof fn lemma_digit(number: nat)
    requires
        number < 10,
    ensures
        digit(number).len() == 1,
        digit(number)[0] as int == '0' as int + number,
{
    reveal_strlit("0");
    reveal_strlit("1");
    reveal_strlit("2");
    reveal_strlit("3");
    reveal_strlit("4");
    reveal_strlit("5");
    reveal_strlit("6");
    reveal_strlit("7");
    reveal_strlit("8");
    reveal_strlit("9");
}

/// The decimal notation of a number consists of digits that stand for it, the first of which
/// is no zero, unless the number is.
pub proof fn law_decimal_stands_for_its_number(number: nat)
    ensures
        decimal(number).len() > 0,
        value_of(decimal(number)) == number,
        forall|i: int|
            0 <= i < decimal(number).len() ==> '0' as int <= #[trigger] decimal(number)[i] as int
                <= '9' as int,
        number > 0 ==> decimal(number)[0] != '0',
        number == 0 ==> decimal(number).len() == 1,
    decreases number,
{
    if number < 10 {
        lemma_digit(number);
        assert(decimal(number).drop_last() =~= Seq::empty());
        assert(value_of(decimal(number).drop_last()) == 0);
    } else {
        law_decimal_stands_for_its_number(number / 10);
        lemma_digit(number % 10);
        assert(decimal(number).drop_last() =~= decimal(number / 10));
    }
}

/// What counts as a line is a body with a line feed behind it, not longer than the limit.
pub proof fn law_lines_end_with_a_line_feed(bytes: Seq<u8>, limit: int)
    ensures
        is_line(bytes, limit) <==> bytes.len() <= limit && exists|body: Seq<u8>|
            bytes == #[trigger] body.push(10u8),
{
    if is_line(bytes, limit) {
        assert(bytes == bytes.drop_last().push(10u8));
    }
}

/// What was read is seen as what it holds.
pub proof fn law_reads_are_seen_as_they_are(bytes: Vec<u8>, error: String)
    ensures
        read_view(Ok(bytes)) == Ok::<Seq<u8>, Seq<char>>(bytes@),
        read_view(Err(error)) == Err::<Seq<u8>, Seq<char>>(error@),
{
}

} // verus!
