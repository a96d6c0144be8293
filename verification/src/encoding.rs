//! Bytes and ids as text.

use base64::Engine;
use vstd::arithmetic::power::pow;
use vstd::prelude::*;

verus! {

/// The character that stands for six bits.
pub open spec fn base64_symbol(value: nat) -> char {
    if value < 26 {
        (value + 65) as char
    } else if value < 52 {
        (value + 71) as char
    } else if value < 62 {
        (value - 4) as char
    } else if value == 62 {
        '+'
    } else {
        '/'
    }
}

/// A byte of a sequence, zero behind its end.
pub open spec fn byte_or_zero(bytes: Seq<u8>, at: int) -> nat {
    if at < bytes.len() {
        bytes[at] as nat
    } else {
        0
    }
}

/// The six bits at a position of the text: each group of three bytes makes four times six bits.
pub open spec fn base64_bits(bytes: Seq<u8>, at: int) -> nat {
    let first = 3 * (at / 4);
    let word = byte_or_zero(bytes, first) * 65536 + byte_or_zero(bytes, first + 1) * 256 + byte_or_zero(
        bytes,
        first + 2,
    );
    if at % 4 == 0 {
        word / 262144
    } else if at % 4 == 1 {
        word / 4096 % 64
    } else if at % 4 == 2 {
        word / 64 % 64
    } else {
        word % 64
    }
}

/// The byte that has to exist for a position of the text to carry bits.
pub open spec fn base64_needs(at: int) -> int {
    if at % 4 == 0 {
        3 * (at / 4)
    } else {
        3 * (at / 4) + at % 4 - 1
    }
}

/// Bytes in base64 with the standard alphabet, padded to whole groups.
pub open spec fn base64_text(bytes: Seq<u8>) -> Seq<char> {
    Seq::new(
        (bytes.len() + 2) / 3 * 4,
        |at: int|
            if base64_needs(at) < bytes.len() {
                base64_symbol(base64_bits(bytes, at))
            } else {
                '='
            },
    )
}

/// Why base64's decoder refuses a text, in its own words.
pub uninterp spec fn base64_error(text: Seq<char>) -> Seq<char>;

/// The bytes that a base64 text stands for, or the reason why it stands for none.
pub open spec fn base64_decoded(text: Seq<char>) -> Result<Seq<u8>, Seq<char>> {
    if exists|bytes: Seq<u8>| #[trigger] base64_text(bytes) == text {
        Ok(choose|bytes: Seq<u8>| #[trigger] base64_text(bytes) == text)
    } else {
        Err(base64_error(text))
    }
}

/// `base64::engine::general_purpose::STANDARD.decode`: it accepts exactly the padded texts that its
/// encoder writes, and gives the bytes back. What it says of any other text depends on that text
/// alone.
#[verifier::external_body]
fn standard_decode(text: &str) -> (bytes: Result<Vec<u8>, String>)
    ensures
        match bytes {
            Ok(bytes) => base64_text(bytes@) == text@,
            Err(message) => {
                &&& message@ == base64_error(text@)
                &&& forall|other: Seq<u8>| #[trigger] base64_text(other) != text@
            },
        },
{
    base64::engine::general_purpose::STANDARD.decode(text.as_bytes()).map_err(|e| e.to_string())
}

/// `base64::engine::general_purpose::STANDARD.encode`: base64 with the standard alphabet and with
/// padding. The text has to fit into memory.
#[verifier::external_body]
pub(crate) fn base64_encode(bytes: &Vec<u8>) -> (text: String)
    requires
        base64_text(bytes@).len() <= isize::MAX,
    ensures
        text@ == base64_text(bytes@),
{
    base64::engine::general_purpose::STANDARD.encode(bytes)
}

proof fn lemma_symbol(a: nat, b: nat)
    requires
        a < 64,
        b < 64,
    ensures
        base64_symbol(a) != '=',
        base64_symbol(a) == base64_symbol(b) ==> a == b,
{
}

proof fn lemma_word(first: u32, second: u32, third: u32)
    by (bit_vector)
    requires
        first < 256,
        second < 256,
        third < 256,
    ensures
        ({
            let word = first * 65536 + second * 256 + third;
            &&& word / 262144 < 64
            &&& first == word / 262144 * 4 + word / 4096 % 64 / 16
            &&& second == word / 4096 % 64 % 16 * 16 + word / 64 % 64 / 4
            &&& third == word / 64 % 64 % 4 * 64 + word % 64
        }),
{
}

proof fn lemma_bits(bytes: Seq<u8>, group: int)
    requires
        group >= 0,
    ensures
        forall|k: int| 0 <= k < 4 ==> #[trigger] base64_bits(bytes, 4 * group + k) < 64,
        byte_or_zero(bytes, 3 * group) == base64_bits(bytes, 4 * group + 0) * 4 + base64_bits(
            bytes,
            4 * group + 1,
        ) / 16,
        byte_or_zero(bytes, 3 * group + 1) == base64_bits(bytes, 4 * group + 1) % 16 * 16 + base64_bits(
            bytes,
            4 * group + 2,
        ) / 4,
        byte_or_zero(bytes, 3 * group + 2) == base64_bits(bytes, 4 * group + 2) % 4 * 64 + base64_bits(
            bytes,
            4 * group + 3,
        ),
{
    let first = byte_or_zero(bytes, 3 * group);
    let second = byte_or_zero(bytes, 3 * group + 1);
    let third = byte_or_zero(bytes, 3 * group + 2);
    let word = first * 65536 + second * 256 + third;
    lemma_word(first as u32, second as u32, third as u32);
    assert((4 * group + 0) / 4 == group && (4 * group + 0) % 4 == 0);
    assert((4 * group + 1) / 4 == group && (4 * group + 1) % 4 == 1);
    assert((4 * group + 2) / 4 == group && (4 * group + 2) % 4 == 2);
    assert((4 * group + 3) / 4 == group && (4 * group + 3) % 4 == 3);
    assert(base64_bits(bytes, 4 * group + 0) == word / 262144);
    assert(base64_bits(bytes, 4 * group + 1) == word / 4096 % 64);
    assert(base64_bits(bytes, 4 * group + 2) == word / 64 % 64);
    assert(base64_bits(bytes, 4 * group + 3) == word % 64);
}

/// A text in base64 stands for one sequence of bytes only.
pub proof fn base64_text_is_injective(a: Seq<u8>, b: Seq<u8>)
    requires
        base64_text(a) == base64_text(b),
    ensures
        a == b,
{
    let text = base64_text(a);
    assert(text.len() == base64_text(b).len());
    if a.len() != b.len() {
        let (short, long) = if a.len() < b.len() {
            (a, b)
        } else {
            (b, a)
        };
        let group = (short.len() / 3) as int;
        let rest = (short.len() % 3) as int;
        let at = 4 * group + rest + 1;
        assert(rest != 0);
        assert(at / 4 == group && at % 4 == rest + 1);
        assert(base64_needs(at) == short.len());
        assert(text[at] == '=');
        lemma_bits(long, group);
        assert(base64_bits(long, 4 * group + (rest + 1)) < 64);
        lemma_symbol(base64_bits(long, at), 0);
        assert(base64_text(long)[at] == base64_symbol(base64_bits(long, at)));
    }
    assert forall|i: int| 0 <= i < a.len() implies a[i] == b[i] by {
        let group = i / 3;
        lemma_bits(a, group);
        lemma_bits(b, group);
        assert forall|k: int| 0 <= k <= i % 3 + 1 implies #[trigger] base64_bits(a, 4 * group + k)
            == base64_bits(b, 4 * group + k) by {
            let at = 4 * group + k;
            assert(at / 4 == group && at % 4 == k);
            assert(base64_needs(at) <= i);
            assert(base64_text(a)[at] == base64_text(b)[at]);
            lemma_symbol(base64_bits(a, at), base64_bits(b, at));
        }
        assert(base64_bits(a, 4 * group + 0) == base64_bits(b, 4 * group + 0));
        assert(base64_bits(a, 4 * group + 1) == base64_bits(b, 4 * group + 1));
        if i % 3 >= 1 {
            assert(base64_bits(a, 4 * group + 2) == base64_bits(b, 4 * group + 2));
        }
        if i % 3 == 2 {
            assert(base64_bits(a, 4 * group + 3) == base64_bits(b, 4 * group + 3));
        }
        assert(byte_or_zero(a, i) == byte_or_zero(b, i));
    }
    assert(a =~= b);
}

/// What was written in base64 is read back.
pub proof fn base64_reads_back(bytes: Seq<u8>)
    ensures
        base64_decoded(base64_text(bytes)) == Ok::<Seq<u8>, Seq<char>>(bytes),
{
    let found = choose|other: Seq<u8>| #[trigger] base64_text(other) == base64_text(bytes);
    base64_text_is_injective(found, bytes);
}

/// Bytes taken by their values, messages by their characters.
pub open spec fn bytes_view(result: Result<Vec<u8>, String>) -> Result<Seq<u8>, Seq<char>> {
    match result {
        Ok(bytes) => Ok(bytes@),
        Err(message) => Err(message@),
    }
}

/// Reads a base64 text.
pub fn base64_decode(text: &str) -> (bytes: Result<Vec<u8>, String>)
    ensures
        bytes_view(bytes) == base64_decoded(text@),
{
    let bytes = standard_decode(text);
    proof {
        if bytes is Ok {
            base64_reads_back(bytes->Ok_0@);
        }
    }
    bytes
}

/// A hexadecimal digit.
pub open spec fn hex_digit(value: nat) -> char {
    if value < 10 {
        (value + 48) as char
    } else {
        (value + 87) as char
    }
}

/// One of the 32 hexadecimal digits of a number, counted from the left.
pub open spec fn hex_digit_of(id: u128, at: int) -> char {
    hex_digit((id as int / pow(16, (31 - at) as nat) % 16) as nat)
}

/// A UUID as text: its digits in groups of 8, 4, 4, 4 and 12.
pub open spec fn uuid_text(id: u128) -> Seq<char> {
    Seq::new(
        36,
        |at: int|
            if at < 8 {
                hex_digit_of(id, at)
            } else if at == 8 || at == 13 || at == 18 || at == 23 {
                '-'
            } else if at < 13 {
                hex_digit_of(id, at - 1)
            } else if at < 18 {
                hex_digit_of(id, at - 2)
            } else if at < 23 {
                hex_digit_of(id, at - 3)
            } else {
                hex_digit_of(id, at - 4)
            },
    )
}

/// The `Display` of `uuid::Uuid`: lower-case hexadecimal digits in five groups with dashes between.
#[verifier::external_body]
pub(crate) fn write_uuid(id: u128) -> (text: String)
    ensures
        text@ == uuid_text(id),
{
    uuid::Uuid::from_u128(id).to_string()
}

} // verus!
