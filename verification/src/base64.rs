//! Base64, as image blocks carry it.

use vstd::prelude::*;
use vstd::string::*;

use crate::error::{Fault, McpError};

verus! {

/// The symbol that padding counts as, next to the values from 0 to 63.
pub const PADDING: u8 = 64;

/// The bytes that are passed over: space, tab, line feed, form feed, carriage return.
pub open spec fn passed_over(byte: u8) -> bool {
    byte == 0x20 || byte == 0x09 || byte == 0x0a || byte == 0x0c || byte == 0x0d
}

/// The value of a letter of the base64 alphabet.
pub open spec fn letter_value(byte: u8) -> Option<u8> {
    if 0x41 <= byte <= 0x5a {
        Some((byte - 0x41) as u8)
    } else if 0x61 <= byte <= 0x7a {
        Some((byte - 0x61 + 26) as u8)
    } else if 0x30 <= byte <= 0x39 {
        Some((byte - 0x30 + 52) as u8)
    } else if byte == 0x2b {
        Some(62u8)
    } else if byte == 0x2f {
        Some(63u8)
    } else {
        None
    }
}

/// What a byte stands for: the value of a letter, or padding.
pub open spec fn symbol(byte: u8) -> Option<u8> {
    if byte == 0x3d {
        Some(PADDING)
    } else {
        letter_value(byte)
    }
}

/// The bytes that count.
pub open spec fn significant(bytes: Seq<u8>) -> Seq<u8> {
    bytes.filter(|byte: u8| !passed_over(byte))
}

/// The first byte that stands for nothing.
pub open spec fn first_stray(bytes: Seq<u8>) -> Option<u8>
    decreases bytes.len(),
{
    if bytes.len() == 0 {
        None
    } else {
        match first_stray(bytes.drop_last()) {
            Some(byte) => Some(byte),
            None => if symbol(bytes.last()) is None {
                Some(bytes.last())
            } else {
                None
            },
        }
    }
}

/// The bytes that four symbols make: three, less one for a third symbol and one for a fourth
/// symbol that is padding.
pub open spec fn quartet(a: u8, b: u8, c: u8, d: u8) -> Seq<u8> {
    seq![(a << 2) | (b >> 4)] + (if c != PADDING {
        seq![(b << 4) | (c >> 2)]
    } else {
        seq![]
    }) + (if d != PADDING {
        seq![(c << 6) | d]
    } else {
        seq![]
    })
}

/// The bytes that text makes, four by four.
pub open spec fn quartets(bytes: Seq<u8>) -> Seq<u8>
    decreases bytes.len(),
{
    if bytes.len() < 4 {
        seq![]
    } else {
        let n = bytes.len() - 4;
        quartets(bytes.take(n)) + quartet(
            symbol(bytes[n])->0,
            symbol(bytes[n + 1])->0,
            symbol(bytes[n + 2])->0,
            symbol(bytes[n + 3])->0,
        )
    }
}

/// What base64 text decodes to.
pub open spec fn decoded(bytes: Seq<u8>) -> Result<Seq<u8>, Fault<Seq<char>>> {
    let text = significant(bytes);
    match first_stray(text) {
        Some(byte) => Err(Fault::Base64Byte(byte)),
        None => if text.len() % 4 != 0 {
            Err(Fault::Base64Length)
        } else {
            Ok(quartets(text))
        },
    }
}

/// The value of a letter of the base64 alphabet.
pub fn base64_value(byte: u8) -> (value: Option<u8>)
    ensures
        value == letter_value(byte),
{
    if 0x41 <= byte && byte <= 0x5a {
        Some(byte - 0x41)
    } else if 0x61 <= byte && byte <= 0x7a {
        Some(byte - 0x61 + 26)
    } else if 0x30 <= byte && byte <= 0x39 {
        Some(byte - 0x30 + 52)
    } else if byte == 0x2b {
        Some(62)
    } else if byte == 0x2f {
        Some(63)
    } else {
        None
    }
}

/// Decodes base64 text. White space of ASCII is passed over wherever it stands, and padding is
/// taken at any place of a group.
pub fn decode_base64(input: &str) -> (r: Result<Vec<u8>, McpError>)
    ensures
        match r {
            Ok(output) => decoded(input.spec_bytes()) == Ok::<Seq<u8>, Fault<Seq<char>>>(output@),
            Err(error) => decoded(input.spec_bytes()) == Err::<Seq<u8>, Fault<Seq<char>>>(error@),
        },
{
    let bytes: &[u8] = input.as_bytes();
    let mut output: Vec<u8> = Vec::new();
    let mut buffer: [u8; 4] = [0, 0, 0, 0];
    let mut filled: usize = 0;
    let mut i: usize = 0;
    let ghost mut text: Seq<u8> = Seq::empty();
    while i < bytes.len()
        invariant
            bytes@ == input.spec_bytes(),
            i <= bytes@.len(),
            filled < 4,
            text == significant(bytes@.take(i as int)),
            first_stray(text) is None,
            filled == text.len() % 4,
            output@ == quartets(text.take(text.len() - filled)),
            forall|k: int|
                0 <= k < filled ==> Some(#[trigger] buffer@[k]) == symbol(
                    text[text.len() - filled + k],
                ),
        decreases bytes.len() - i,
    {
        let byte: u8 = bytes[i];
        proof {
            assert(bytes@.take(i + 1).drop_last() =~= bytes@.take(i as int));
            reveal(Seq::filter);
        }
        i = i + 1;
        let skipped: bool = byte == 0x20 || byte == 0x09 || byte == 0x0a || byte == 0x0c || byte
            == 0x0d;
        if !skipped {
            let value: u8 = if byte == 0x3d {
                PADDING
            } else {
                match base64_value(byte) {
                    Some(value) => value,
                    None => {
                        proof {
                            assert(text.push(byte).drop_last() =~= text);
                            lemma_stray_stays(bytes@, i as int);
                        }
                        return Err(Fault::Base64Byte(byte));
                    },
                }
            };
            let ghost before = text;
            proof {
                text = text.push(byte);
                assert(text.drop_last() =~= before);
            }
            buffer[filled] = value;
            filled = filled + 1;
            if filled == 4 {
                output.push((buffer[0] << 2) | (buffer[1] >> 4));
                if buffer[2] != PADDING {
                    output.push((buffer[1] << 4) | (buffer[2] >> 2));
                }
                if buffer[3] != PADDING {
                    output.push((buffer[2] << 6) | buffer[3]);
                }
                proof {
                    let n = text.len() - 4;
                    assert(text.take(n) =~= before.take(n));
                    assert(text.take(text.len() as int) =~= text);
                }
                filled = 0;
            } else {
                assert(text.take(text.len() - filled) =~= before.take(
                    before.len() - (filled - 1),
                ));
            }
        }
    }
    assert(bytes@.take(i as int) =~= bytes@);
    assert(text.take(text.len() as int) =~= text);
    if filled != 0 {
        return Err(Fault::Base64Length);
    }
    Ok(output)
}

/// The letter with a value from 0 to 63.
pub open spec fn letter(value: u8) -> u8 {
    if value < 26 {
        (0x41 + value) as u8
    } else if value < 52 {
        (0x61 + value - 26) as u8
    } else if value < 62 {
        (0x30 + value - 52) as u8
    } else if value == 62 {
        0x2b
    } else {
        0x2f
    }
}

/// The four letters for one, two or three bytes; padding fills up.
pub open spec fn encoded_group(data: Seq<u8>) -> Seq<u8> {
    let x = data[0];
    let y = if data.len() > 1 {
        data[1]
    } else {
        0
    };
    let z = if data.len() > 2 {
        data[2]
    } else {
        0
    };
    seq![
        letter(x >> 2),
        letter(((x & 3) << 4) | (y >> 4)),
        if data.len() > 1 {
            letter(((y & 15) << 2) | (z >> 6))
        } else {
            0x3d
        },
        if data.len() > 2 {
            letter(z & 63)
        } else {
            0x3d
        },
    ]
}

/// The base64 text of `data`.
pub open spec fn encoded(data: Seq<u8>) -> Seq<u8>
    decreases data.len(),
{
    if data.len() == 0 {
        seq![]
    } else {
        let n = if data.len() % 3 == 0 {
            data.len() - 3
        } else {
            data.len() - data.len() % 3
        };
        encoded(data.take(n)) + encoded_group(data.skip(n))
    }
}

/// The base64 text of any bytes decodes to these bytes.
pub proof fn law_decode_undoes_encode(data: Seq<u8>)
    ensures
        decoded(encoded(data)) == Ok::<Seq<u8>, Fault<Seq<char>>>(data),
{
    lemma_encoded(data);
    lemma_nothing_passed_over(encoded(data));
    lemma_no_stray(encoded(data));
}

/// White space does not matter: wherever it is put in, the text decodes as it did without.
pub proof fn law_white_space_is_passed_over(before: Seq<u8>, space: Seq<u8>, after: Seq<u8>)
    requires
        forall|i: int| 0 <= i < space.len() ==> passed_over(#[trigger] space[i]),
    ensures
        decoded(before + space + after) == decoded(before + after),
{
    let counts = |byte: u8| !passed_over(byte);
    Seq::filter_distributes_over_add(before, space, counts);
    Seq::filter_distributes_over_add(before + space, after, counts);
    Seq::filter_distributes_over_add(before, after, counts);
    lemma_all_passed_over(space);
    assert(significant(before + space + after) =~= significant(before + after));
}

/// Of white space alone nothing counts.
proof fn lemma_all_passed_over(space: Seq<u8>)
    requires
        forall|i: int| 0 <= i < space.len() ==> passed_over(#[trigger] space[i]),
    ensures
        significant(space) == Seq::<u8>::empty(),
    decreases space.len(),
{
    reveal(Seq::filter);
    if space.len() > 0 {
        let front = space.drop_last();
        assert forall|i: int| 0 <= i < front.len() implies passed_over(#[trigger] front[i]) by {
            assert(front[i] == space[i]);
        }
        lemma_all_passed_over(front);
        assert(passed_over(space[space.len() - 1]));
    }
}

/// A letter has the value that it was chosen for.
proof fn lemma_letter(value: u8)
    requires
        value < 64,
    ensures
        symbol(letter(value)) == Some(value),
        !passed_over(letter(value)),
{
}

/// The letters of a group stand for symbols that make the group's bytes.
proof fn lemma_encoded_group(data: Seq<u8>)
    requires
        1 <= data.len() <= 3,
    ensures
        encoded_group(data).len() == 4,
        forall|i: int|
            0 <= i < 4 ==> symbol(#[trigger] encoded_group(data)[i]) is Some && !passed_over(
                encoded_group(data)[i],
            ),
        quartet(
            symbol(encoded_group(data)[0])->0,
            symbol(encoded_group(data)[1])->0,
            symbol(encoded_group(data)[2])->0,
            symbol(encoded_group(data)[3])->0,
        ) == data,
{
    let x = data[0];
    let y: u8 = if data.len() > 1 {
        data[1]
    } else {
        0
    };
    let z: u8 = if data.len() > 2 {
        data[2]
    } else {
        0
    };
    let a = x >> 2;
    let b = ((x & 3) << 4) | (y >> 4);
    let c = ((y & 15) << 2) | (z >> 6);
    let d = z & 63;
    assert(a < 64 && b < 64 && c < 64 && d < 64) by (bit_vector)
        requires
            a == x >> 2,
            b == ((x & 3) << 4) | (y >> 4),
            c == ((y & 15) << 2) | (z >> 6),
            d == z & 63,
    ;
    assert((a << 2) | (b >> 4) == x && (b << 4) | (c >> 2) == y && (c << 6) | d == z)
        by (bit_vector)
        requires
            a == x >> 2,
            b == ((x & 3) << 4) | (y >> 4),
            c == ((y & 15) << 2) | (z >> 6),
            d == z & 63,
    ;
    lemma_letter(a);
    lemma_letter(b);
    lemma_letter(c);
    lemma_letter(d);
    assert(quartet(
        symbol(encoded_group(data)[0])->0,
        symbol(encoded_group(data)[1])->0,
        symbol(encoded_group(data)[2])->0,
        symbol(encoded_group(data)[3])->0,
    ) =~= data);
}

/// Base64 text comes in groups of four bytes that each stand for a symbol, and makes the bytes
/// that it was written for.
proof fn lemma_encoded(data: Seq<u8>)
    ensures
        encoded(data).len() % 4 == 0,
        quartets(encoded(data)) == data,
        forall|i: int|
            0 <= i < encoded(data).len() ==> symbol(#[trigger] encoded(data)[i]) is Some
                && !passed_over(encoded(data)[i]),
    decreases data.len(),
{
    if data.len() > 0 {
        let n = if data.len() % 3 == 0 {
            data.len() - 3
        } else {
            data.len() - data.len() % 3
        };
        let front = encoded(data.take(n));
        let group = encoded_group(data.skip(n));
        lemma_encoded(data.take(n));
        lemma_encoded_group(data.skip(n));
        assert((front + group).take(front.len() as int) =~= front);
        assert(data.take(n) + data.skip(n) =~= data);
        assert forall|i: int| 0 <= i < encoded(data).len() implies symbol(
            #[trigger] encoded(data)[i],
        ) is Some && !passed_over(encoded(data)[i]) by {
            if i >= front.len() {
                assert(encoded(data)[i] == group[i - front.len()]);
            } else {
                assert(encoded(data)[i] == front[i]);
            }
        }
    } else {
        assert(quartets(encoded(data)) =~= data);
    }
}

/// Text without white space counts as a whole.
proof fn lemma_nothing_passed_over(bytes: Seq<u8>)
    requires
        forall|i: int| 0 <= i < bytes.len() ==> !passed_over(#[trigger] bytes[i]),
    ensures
        significant(bytes) == bytes,
    decreases bytes.len(),
{
    reveal(Seq::filter);
    if bytes.len() > 0 {
        let front = bytes.drop_last();
        assert forall|i: int| 0 <= i < front.len() implies !passed_over(#[trigger] front[i]) by {
            assert(front[i] == bytes[i]);
        }
        lemma_nothing_passed_over(front);
        assert(!passed_over(bytes[bytes.len() - 1]));
        assert(front.push(bytes.last()) =~= bytes);
    }
}

/// Where every byte stands for a symbol, none is stray.
proof fn lemma_no_stray(bytes: Seq<u8>)
    requires
        forall|i: int| 0 <= i < bytes.len() ==> symbol(#[trigger] bytes[i]) is Some,
    ensures
        first_stray(bytes) is None,
    decreases bytes.len(),
{
    if bytes.len() > 0 {
        let front = bytes.drop_last();
        assert forall|i: int| 0 <= i < front.len() implies symbol(#[trigger] front[i]) is Some by {
            assert(front[i] == bytes[i]);
        }
        lemma_no_stray(front);
        assert(symbol(bytes[bytes.len() - 1]) is Some);
    }
}

/// A stray byte among the first `n` bytes is the first stray byte of the whole.
proof fn lemma_stray_stays(bytes: Seq<u8>, n: int)
    requires
        0 <= n <= bytes.len(),
        first_stray(significant(bytes.take(n))) is Some,
    ensures
        first_stray(significant(bytes)) == first_stray(significant(bytes.take(n))),
    decreases bytes.len(),
{
    if n < bytes.len() {
        let front = bytes.drop_last();
        assert(front.take(n) =~= bytes.take(n));
        lemma_stray_stays(front, n);
        reveal(Seq::filter);
        assert(significant(front).push(bytes.last()).drop_last() =~= significant(front));
    } else {
        assert(bytes.take(n) =~= bytes);
    }
}

/// The alphabet: the capital letters stand for 0 to 25, the small ones for 26 to 51, the digits for
/// 52 to 61, plus and slash for 62 and 63, and nothing else stands for a value.
pub proof fn law_alphabet(byte: u8, value: Option<u8>)
    requires
        call_ensures(base64_value, (byte,), value),
    ensures
        'A' as u8 <= byte <= 'Z' as u8 ==> value is Some && value->0 == byte - 'A' as u8,
        'a' as u8 <= byte <= 'z' as u8 ==> value is Some && value->0 == 26 + byte - 'a' as u8,
        '0' as u8 <= byte <= '9' as u8 ==> value is Some && value->0 == 52 + byte - '0' as u8,
        byte == '+' as u8 ==> value == Some(62u8),
        byte == '/' as u8 ==> value == Some(63u8),
        value is Some ==> 'A' as u8 <= byte <= 'Z' as u8 || 'a' as u8 <= byte <= 'z' as u8
            || '0' as u8 <= byte <= '9' as u8 || byte == '+' as u8 || byte == '/' as u8,
{
}

/// The byte is white space of ASCII.
pub open spec fn ascii_space(byte: u8) -> bool {
    byte == ' ' as u8 || byte == '\t' as u8 || byte == '\n' as u8 || byte == 0x0c || byte
        == '\r' as u8
}

/// The byte has no place in base64 text: it is neither white space nor a letter of the alphabet
/// nor padding.
pub open spec fn foreign(byte: u8) -> bool {
    !(ascii_space(byte) || 'A' as u8 <= byte <= 'Z' as u8 || 'a' as u8 <= byte <= 'z' as u8
        || '0' as u8 <= byte <= '9' as u8 || byte == '+' as u8 || byte == '/' as u8 || byte
        == '=' as u8)
}

/// Text of four bytes that each stand for a symbol decodes to what the symbols make.
proof fn lemma_four(bytes: Seq<u8>)
    requires
        bytes.len() == 4,
        forall|i: int| 0 <= i < 4 ==> symbol(#[trigger] bytes[i]) is Some,
    ensures
        decoded(bytes) == Ok::<Seq<u8>, Fault<Seq<char>>>(
            quartet(
                symbol(bytes[0])->0,
                symbol(bytes[1])->0,
                symbol(bytes[2])->0,
                symbol(bytes[3])->0,
            ),
        ),
{
    assert forall|i: int| 0 <= i < bytes.len() implies !passed_over(#[trigger] bytes[i]) by {
        assert(symbol(bytes[i]) is Some);
    }
    lemma_nothing_passed_over(bytes);
    lemma_no_stray(bytes);
    assert(quartets(bytes.take(0)) =~= seq![]);
    assert(quartets(bytes) =~= quartet(
        symbol(bytes[0])->0,
        symbol(bytes[1])->0,
        symbol(bytes[2])->0,
        symbol(bytes[3])->0,
    ));
}

/// Four letters decode to three bytes: written one after the other, the four values of six bits
/// and the three bytes are the same number of twenty-four bits.
pub proof fn law_four_letters_are_three_bytes(
    input: &str,
    r: Result<Vec<u8>, McpError>,
    letters: Seq<u8>,
    a: u8,
    b: u8,
    c: u8,
    d: u8,
)
    requires
        call_ensures(decode_base64, (input,), r),
        input.spec_bytes() == letters,
        letters.len() == 4,
        call_ensures(base64_value, (letters[0],), Some(a)),
        call_ensures(base64_value, (letters[1],), Some(b)),
        call_ensures(base64_value, (letters[2],), Some(c)),
        call_ensures(base64_value, (letters[3],), Some(d)),
    ensures
        r matches Ok(output) && output@.len() == 3 && output@[0] * 65536 + output@[1] * 256
            + output@[2] == a * 262144 + b * 4096 + c * 64 + d,
{
    assert(a < 64 && b < 64 && c < 64 && d < 64);
    lemma_four(letters);
    let x = (a << 2) | (b >> 4);
    let y = (b << 4) | (c >> 2);
    let z = (c << 6) | d;
    assert(x * 65536 + y * 256 + z == a * 262144 + b * 4096 + c * 64 + d) by (bit_vector)
        requires
            a < 64,
            b < 64,
            c < 64,
            d < 64,
            x == (a << 2) | (b >> 4),
            y == (b << 4) | (c >> 2),
            z == (c << 6) | d,
    ;
    assert(r->Ok_0@ =~= seq![x, y, z]);
}

/// Three letters and padding decode to the two bytes that the letters begin with, two letters and
/// padding to the one byte that they begin with; what is left over of the last letter is dropped.
pub proof fn law_padding_shortens_the_last_bytes(
    input: &str,
    r: Result<Vec<u8>, McpError>,
    letters: Seq<u8>,
    a: u8,
    b: u8,
    c: Option<u8>,
)
    requires
        call_ensures(decode_base64, (input,), r),
        input.spec_bytes() == letters,
        letters.len() == 4,
        call_ensures(base64_value, (letters[0],), Some(a)),
        call_ensures(base64_value, (letters[1],), Some(b)),
        call_ensures(base64_value, (letters[2],), c),
        c is None ==> letters[2] == '=' as u8,
        letters[3] == '=' as u8,
    ensures
        match c {
            Some(third) => r matches Ok(output) && output@.len() == 2 && output@[0] * 256
                + output@[1] == a * 1024 + b * 16 + third / 4,
            None => r matches Ok(output) && output@.len() == 1 && output@[0] == a * 4 + b / 16,
        },
{
    assert(a < 64 && b < 64);
    lemma_four(letters);
    let x = (a << 2) | (b >> 4);
    assert(x == a * 4 + b / 16) by (bit_vector)
        requires
            a < 64,
            b < 64,
            x == (a << 2) | (b >> 4),
    ;
    if let Some(third) = c {
        let y = (b << 4) | (third >> 2);
        assert(x * 256 + y == a * 1024 + b * 16 + third / 4) by (bit_vector)
            requires
                a < 64,
                b < 64,
                third < 64,
                x == (a << 2) | (b >> 4),
                y == (b << 4) | (third >> 2),
        ;
        assert(r->Ok_0@ =~= seq![x, y]);
    } else {
        assert(r->Ok_0@ =~= seq![x]);
    }
}

/// Wherever padding stands in a group, it counts as the value 64: the first byte is always made,
/// the second unless the third place is padding, and the third unless the fourth place is.
pub proof fn law_misplaced_padding_counts_as_a_value(
    input: &str,
    r: Result<Vec<u8>, McpError>,
    letters: Seq<u8>,
    values: Seq<u8>,
)
    requires
        call_ensures(decode_base64, (input,), r),
        input.spec_bytes() == letters,
        letters.len() == 4,
        values.len() == 4,
        forall|i: int|
            0 <= i < 4 ==> if letters[i] == '=' as u8 {
                #[trigger] values[i] == 64
            } else {
                call_ensures(base64_value, (letters[i],), Some(values[i]))
            },
    ensures
        ({
            let second = if letters[2] == '=' as u8 {
                seq![]
            } else {
                seq![(values[1] << 4) | (values[2] >> 2)]
            };
            let third = if letters[3] == '=' as u8 {
                seq![]
            } else {
                seq![(values[2] << 6) | values[3]]
            };
            r matches Ok(output) && output@ == seq![(values[0] << 2) | (values[1] >> 4)] + second
                + third
        }),
{
    assert forall|i: int| 0 <= i < 4 implies symbol(#[trigger] letters[i]) == Some(values[i]) by {
        assert(values[i] == values[i]);
    }
    lemma_four(letters);
    assert(symbol(letters[0]) == Some(values[0]) && symbol(letters[1]) == Some(values[1]) && symbol(
        letters[2],
    ) == Some(values[2]) && symbol(letters[3]) == Some(values[3]));
}

/// Text that decodes, followed by text that decodes, decodes to the bytes of the one followed by
/// those of the other.
pub proof fn law_texts_decode_one_after_the_other(
    first: &str,
    second: &str,
    both: &str,
    of_first: Vec<u8>,
    of_second: Vec<u8>,
    of_both: Result<Vec<u8>, McpError>,
)
    requires
        call_ensures(decode_base64, (first,), Ok(of_first)),
        call_ensures(decode_base64, (second,), Ok(of_second)),
        call_ensures(decode_base64, (both,), of_both),
        both.spec_bytes() == first.spec_bytes() + second.spec_bytes(),
    ensures
        of_both matches Ok(output) && output@ == of_first@ + of_second@,
{
    let a = first.spec_bytes();
    let b = second.spec_bytes();
    Seq::filter_distributes_over_add(a, b, |byte: u8| !passed_over(byte));
    assert(significant(a + b) == significant(a) + significant(b));
    lemma_no_stray_in_both(significant(a), significant(b));
    lemma_quartets_add(significant(a), significant(b));
}

/// Two texts without a stray byte have none together.
proof fn lemma_no_stray_in_both(a: Seq<u8>, b: Seq<u8>)
    requires
        first_stray(a) is None,
        first_stray(b) is None,
    ensures
        first_stray(a + b) is None,
    decreases b.len(),
{
    if b.len() == 0 {
        assert(a + b =~= a);
    } else {
        assert((a + b).drop_last() =~= a + b.drop_last());
        assert((a + b).last() == b.last());
        lemma_no_stray_in_both(a, b.drop_last());
    }
}

/// Groups make their bytes one after the other.
proof fn lemma_quartets_add(a: Seq<u8>, b: Seq<u8>)
    requires
        a.len() % 4 == 0,
        b.len() % 4 == 0,
    ensures
        quartets(a + b) == quartets(a) + quartets(b),
    decreases b.len(),
{
    if b.len() == 0 {
        assert(a + b =~= a);
        assert(quartets(a) + quartets(b) =~= quartets(a));
    } else {
        let n = b.len() - 4;
        lemma_quartets_add(a, b.take(n));
        assert((a + b).take(a.len() + n) =~= a + b.take(n));
        assert(quartets(a + b) =~= quartets(a) + quartets(b));
    }
}

/// White space makes no difference: text decodes alike with and without it, wherever it stands.
pub proof fn law_text_decodes_alike_without_white_space(
    with: &str,
    without: &str,
    of_with: Result<Vec<u8>, McpError>,
    of_without: Result<Vec<u8>, McpError>,
    before: Seq<u8>,
    space: Seq<u8>,
    after: Seq<u8>,
)
    requires
        call_ensures(decode_base64, (with,), of_with),
        call_ensures(decode_base64, (without,), of_without),
        with.spec_bytes() == before + space + after,
        without.spec_bytes() == before + after,
        forall|i: int| 0 <= i < space.len() ==> ascii_space(#[trigger] space[i]),
    ensures
        match of_without {
            Ok(output) => of_with matches Ok(other) && other@ == output@,
            Err(fault) => of_with matches Err(other) && other@ == fault@,
        },
{
    assert forall|i: int| 0 <= i < space.len() implies passed_over(#[trigger] space[i]) by {
        assert(ascii_space(space[i]));
    }
    law_white_space_is_passed_over(before, space, after);
}

/// The first byte that has no place in base64 text is reported, wherever it stands.
pub proof fn law_foreign_byte_is_reported(input: &str, r: Result<Vec<u8>, McpError>, at: int)
    requires
        call_ensures(decode_base64, (input,), r),
        0 <= at < input.spec_bytes().len(),
        foreign(input.spec_bytes()[at]),
        forall|i: int| 0 <= i < at ==> !foreign(#[trigger] input.spec_bytes()[i]),
    ensures
        r matches Err(Fault::Base64Byte(byte)) && byte == input.spec_bytes()[at],
{
    let bytes = input.spec_bytes();
    let front = bytes.take(at);
    let through = bytes.take(at + 1);
    assert forall|i: int| 0 <= i < front.len() implies !foreign(#[trigger] front[i]) by {
        assert(front[i] == bytes[i]);
    }
    lemma_nothing_foreign(front);
    reveal(Seq::filter);
    assert(through.drop_last() =~= front);
    assert(through.last() == bytes[at]);
    assert(significant(through) == significant(front).push(bytes[at]));
    assert(significant(through).drop_last() =~= significant(front));
    lemma_stray_stays(bytes, at + 1);
    assert(r is Err);
    assert(r->Err_0@ == Fault::<Seq<char>>::Base64Byte(bytes[at]));
}

/// How many of the bytes are not white space.
pub open spec fn counted(bytes: Seq<u8>) -> nat
    decreases bytes.len(),
{
    if bytes.len() == 0 {
        0
    } else {
        counted(bytes.drop_last()) + if ascii_space(bytes.last()) {
            0nat
        } else {
            1nat
        }
    }
}

/// Text without a byte that has no place in it decodes just if its bytes, white space left out,
/// make whole groups of four; otherwise its length is reported.
pub proof fn law_whole_groups_decode(input: &str, r: Result<Vec<u8>, McpError>)
    requires
        call_ensures(decode_base64, (input,), r),
        forall|i: int|
            0 <= i < input.spec_bytes().len() ==> !foreign(#[trigger] input.spec_bytes()[i]),
    ensures
        counted(input.spec_bytes()) % 4 == 0 ==> r is Ok,
        counted(input.spec_bytes()) % 4 != 0 ==> (r matches Err(Fault::Base64Length)),
{
    lemma_nothing_foreign(input.spec_bytes());
    if r is Err {
        assert(r->Err_0@ is Base64Length);
    }
}

/// Where no byte is out of place, none is stray, and what counts is what is not white space.
proof fn lemma_nothing_foreign(bytes: Seq<u8>)
    requires
        forall|i: int| 0 <= i < bytes.len() ==> !foreign(#[trigger] bytes[i]),
    ensures
        first_stray(significant(bytes)) is None,
        significant(bytes).len() == counted(bytes),
    decreases bytes.len(),
{
    reveal(Seq::filter);
    if bytes.len() > 0 {
        let front = bytes.drop_last();
        assert forall|i: int| 0 <= i < front.len() implies !foreign(#[trigger] front[i]) by {
            assert(front[i] == bytes[i]);
        }
        lemma_nothing_foreign(front);
        assert(!foreign(bytes[bytes.len() - 1]));
        if !passed_over(bytes.last()) {
            assert(significant(front).push(bytes.last()).drop_last() =~= significant(front));
        }
    }
}

} // verus!
