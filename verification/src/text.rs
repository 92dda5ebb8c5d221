//! Number and hexadecimal text: parsing digits out of bytes, writing digits
//! into strings, and the calls into the `hex` crate.
use vstd::prelude::*;
use vstd::string::StringSliceAdditionalSpecFns;

verus! {

/// The value of an ASCII digit in the given radix (digits, then letters of either case).
pub open spec fn digit_value(b: u8, radix: nat) -> Option<nat> {
    let v: int = if 48 <= b <= 57 {
        b - 48
    } else if 97 <= b <= 122 {
        b - 97 + 10
    } else if 65 <= b <= 90 {
        b - 65 + 10
    } else {
        36
    };
    if v < radix {
        Some(v as nat)
    } else {
        None
    }
}

/// Every byte of `s` is a digit of the radix.
pub open spec fn all_digits(s: Seq<u8>, radix: nat) -> bool {
    forall|i: int| 0 <= i < s.len() ==> (#[trigger] digit_value(s[i], radix)) is Some
}

/// The number that a string of digits writes, most significant digit first.
pub open spec fn digits_value(s: Seq<u8>, radix: nat) -> nat
    decreases s.len(),
{
    if s.len() == 0 {
        0
    } else {
        digits_value(s.drop_last(), radix) * radix + match digit_value(s.last(), radix) {
            Some(d) => d,
            None => 0,
        }
    }
}

/// The digits after an optional leading `+`.
pub open spec fn unsigned_body(s: Seq<u8>) -> Seq<u8> {
    if s.len() > 0 && s[0] == 43 {
        s.drop_first()
    } else {
        s
    }
}

/// How the standard library reads an unsigned 32-bit number from text in a radix:
/// an optional `+`, then at least one digit, and a value that fits.
pub open spec fn spec_parse_u32(s: Seq<u8>, radix: nat) -> Option<u32> {
    let body = unsigned_body(s);
    if body.len() > 0 && all_digits(body, radix) && digits_value(body, radix) <= u32::MAX {
        Some(digits_value(body, radix) as u32)
    } else {
        None
    }
}

proof fn lemma_digits_value_monotonic(s: Seq<u8>, radix: nat, k: int)
    requires
        radix >= 1,
        0 <= k <= s.len(),
        all_digits(s, radix),
    ensures
        digits_value(s.take(k), radix) <= digits_value(s, radix),
    decreases s.len(),
{
    if k < s.len() {
        let t = s.drop_last();
        assert(all_digits(t, radix)) by {
            assert forall|i: int| 0 <= i < t.len() implies (#[trigger] digit_value(t[i], radix)) is Some by {
                assert(digit_value(s[i], radix) is Some);
            }
        }
        assert(t.take(k) =~= s.take(k));
        lemma_digits_value_monotonic(t, radix, k);
        let d = digit_value(s.last(), radix).unwrap();
        assert(digits_value(t, radix) <= digits_value(t, radix) * radix + d) by (nonlinear_arith)
            requires
                radix >= 1,
        ;
    } else {
        assert(s.take(k) =~= s);
    }
}

fn byte_digit(b: u8, radix: u32) -> (r: Option<u32>)
    requires
        2 <= radix <= 36,
    ensures
        match digit_value(b, radix as nat) {
            Some(d) => r == Some(d as u32),
            None => r is None,
        },
{
    let v: u32 = if 48 <= b && b <= 57 {
        (b - 48) as u32
    } else if 97 <= b && b <= 122 {
        (b - 97 + 10) as u32
    } else if 65 <= b && b <= 90 {
        (b - 65 + 10) as u32
    } else {
        36
    };
    if v < radix {
        Some(v)
    } else {
        None
    }
}

/// Reads an unsigned number in `radix` from ASCII bytes, as `u32::from_str_radix` does.
pub fn parse_u32_radix(s: &[u8], radix: u32) -> (r: Option<u32>)
    requires
        2 <= radix <= 36,
    ensures
        r == spec_parse_u32(s@, radix as nat),
{
    let start: usize = if s.len() > 0 && s[0] == 43 { 1 } else { 0 };
    let ghost body = unsigned_body(s@);
    assert(body =~= s@.subrange(start as int, s@.len() as int));
    if start >= s.len() {
        return None;
    }
    let mut acc: u32 = 0;
    let mut i: usize = start;
    while i < s.len()
        invariant
            start <= i <= s@.len(),
            body =~= s@.subrange(start as int, s@.len() as int),
            body == unsigned_body(s@),
            2 <= radix <= 36,
            all_digits(body.take(i - start), radix as nat),
            acc as nat == digits_value(body.take(i - start), radix as nat),
        decreases s@.len() - i,
    {
        let ghost j: int = i - start;
        assert(body.take(j + 1).drop_last() =~= body.take(j));
        match byte_digit(s[i], radix) {
            None => {
                assert(!all_digits(body, radix as nat)) by {
                    assert(body[j] == s@[i as int]);
                    assert(digit_value(body[j], radix as nat) is None);
                }
                return None;
            },
            Some(d) => {
                assert(all_digits(body.take(j + 1), radix as nat)) by {
                    assert forall|k: int| 0 <= k < j + 1 implies (#[trigger] digit_value(
                        body.take(j + 1)[k],
                        radix as nat,
                    )) is Some by {
                        if k < j {
                            assert(body.take(j + 1)[k] == body.take(j)[k]);
                        }
                    }
                }
                assert(acc as u64 * radix as u64 <= 0xffff_ffffu64 * 36) by (nonlinear_arith)
                    requires
                        acc <= 0xffff_ffffu32,
                        radix <= 36,
                ;
                let next: u64 = acc as u64 * radix as u64 + d as u64;
                if next > 0xffff_ffff {
                    proof {
                        if all_digits(body, radix as nat) {
                            lemma_digits_value_monotonic(body, radix as nat, j + 1);
                        }
                    }
                    return None;
                }
                acc = next as u32;
                i = i + 1;
            },
        }
    }
    assert(body.take(body.len() as int) =~= body);
    Some(acc)
}

/// A field of hexadecimal digits only (either case): at least one digit, and a
/// value that fits in 32 bits.
pub open spec fn spec_parse_hex_field(s: Seq<u8>) -> Option<u32> {
    if s.len() > 0 && all_digits(s, 16) && digits_value(s, 16) <= u32::MAX {
        Some(digits_value(s, 16) as u32)
    } else {
        None
    }
}

/// Reads a field of hexadecimal digits from ASCII bytes; a sign is no digit.
pub fn parse_hex(value: &[u8]) -> (r: Option<u32>)
    ensures
        r == spec_parse_hex_field(value@),
{
    if value.len() > 0 && value[0] == 43 {
        assert(digit_value(value@[0], 16) is None);
        return None;
    }
    assert(unsigned_body(value@) == value@);
    parse_u32_radix(value, 16)
}

/// Whether every byte is a hexadecimal digit (either case).
pub fn all_hex_digits(value: &[u8]) -> (r: bool)
    ensures
        r == all_digits(value@, 16),
{
    let mut i: usize = 0;
    while i < value.len()
        invariant
            i <= value@.len(),
            forall|k: int| 0 <= k < i ==> (#[trigger] digit_value(value@[k], 16)) is Some,
        decreases value@.len() - i,
    {
        if byte_digit(value[i], 16).is_none() {
            assert(digit_value(value@[i as int], 16) is None);
            return false;
        }
        i = i + 1;
    }
    true
}

/// Reads a decimal number from text, as `str::parse::<u32>` does.
pub fn parse_decimal(s: &str) -> (r: Option<u32>)
    ensures
        r == spec_parse_u32(s.spec_bytes(), 10),
{
    parse_u32_radix(s.as_bytes(), 10)
}

/// The uppercase hexadecimal digit of a value below sixteen.
pub open spec fn hex_char(v: nat) -> char {
    if v < 10 {
        (48 + v) as char
    } else {
        (55 + v) as char
    }
}

/// The decimal digit of a value below ten.
pub open spec fn decimal_char(v: nat) -> char {
    (48 + v) as char
}

/// The low `width` hexadecimal digits of `n`, zero-padded, most significant first
/// (what `{:0width$X}` writes for a number below `16^width`).
pub open spec fn hex_fixed(n: nat, width: nat) -> Seq<char>
    decreases width,
{
    if width == 0 {
        Seq::empty()
    } else {
        hex_fixed(n / 16, (width - 1) as nat).push(hex_char(n % 16))
    }
}

/// `n` in uppercase hexadecimal without leading zeros (what `{:X}` writes).
pub open spec fn hex_minimal(n: nat) -> Seq<char>
    decreases n,
{
    if n < 16 {
        seq![hex_char(n)]
    } else {
        hex_minimal(n / 16).push(hex_char(n % 16))
    }
}

/// `n` in decimal without leading zeros (what `{}` writes).
pub open spec fn decimal(n: nat) -> Seq<char>
    decreases n,
{
    if n < 10 {
        seq![decimal_char(n)]
    } else {
        decimal(n / 10).push(decimal_char(n % 10))
    }
}

/// Each byte as two uppercase hexadecimal digits, high nibble first.
pub open spec fn upper_hex(data: Seq<u8>) -> Seq<char>
    decreases data.len(),
{
    if data.len() == 0 {
        Seq::empty()
    } else {
        upper_hex(data.drop_last()) + hex_fixed(data.last() as nat, 2)
    }
}

/// `String::push`: appends one character.
#[verifier::external_body]
pub(crate) fn push_char(s: &mut String, c: char)
    ensures
        final(s)@ == old(s)@.push(c),
{
    s.push(c);
}

fn hex_char_exec(v: u32) -> (c: char)
    requires
        v < 16,
    ensures
        c == hex_char(v as nat),
{
    if v < 10 {
        ((48 + v) as u8) as char
    } else {
        ((55 + v) as u8) as char
    }
}

/// Appends the low `width` hexadecimal digits of `n`.
pub fn push_hex_fixed(s: &mut String, n: u32, width: u32)
    ensures
        final(s)@ == old(s)@ + hex_fixed(n as nat, width as nat),
    decreases width,
{
    if width > 0 {
        push_hex_fixed(s, n / 16, width - 1);
        push_char(s, hex_char_exec(n % 16));
    }
    assert(final(s)@ =~= old(s)@ + hex_fixed(n as nat, width as nat));
}

/// Appends `n` in uppercase hexadecimal without leading zeros.
pub fn push_hex_minimal(s: &mut String, n: u32)
    ensures
        final(s)@ == old(s)@ + hex_minimal(n as nat),
    decreases n,
{
    if n >= 16 {
        push_hex_minimal(s, n / 16);
    }
    push_char(s, hex_char_exec(n % 16));
    assert(final(s)@ =~= old(s)@ + hex_minimal(n as nat));
}

/// Appends `n` in decimal without leading zeros.
pub fn push_decimal(s: &mut String, n: u128)
    ensures
        final(s)@ == old(s)@ + decimal(n as nat),
    decreases n,
{
    if n >= 10 {
        push_decimal(s, n / 10);
    }
    push_char(s, (((n % 10) + 48) as u8) as char);
    assert(final(s)@ =~= old(s)@ + decimal(n as nat));
}

/// `hex::encode_upper`: the bytes as uppercase hexadecimal, two digits per byte.
#[verifier::external_body]
pub(crate) fn hex_encode_upper(data: &[u8]) -> (s: String)
    ensures
        s@ == upper_hex(data@),
{
    hex::encode_upper(data)
}

/// Why a hexadecimal text did not decode.
#[derive(Clone, Copy, Debug, PartialEq, Eq, Structural)]
pub enum HexError {
    InvalidHexCharacter { c: char, index: usize },
    OddLength,
    InvalidStringLength,
}

pub open spec fn hex_byte_valid(b: u8) -> bool {
    digit_value(b, 16) is Some
}

/// The first position of a byte that is no hexadecimal digit.
pub open spec fn first_invalid_hex(b: Seq<u8>) -> int {
    choose|i: int|
        0 <= i < b.len() && !hex_byte_valid(b[i]) && forall|j: int|
            0 <= j < i ==> hex_byte_valid(#[trigger] b[j])
}

proof fn lemma_least_invalid_exists(b: Seq<u8>, k: int)
    requires
        0 <= k < b.len(),
        !hex_byte_valid(b[k]),
    ensures
        exists|i: int|
            0 <= i < b.len() && !hex_byte_valid(b[i]) && forall|j: int|
                0 <= j < i ==> hex_byte_valid(#[trigger] b[j]),
    decreases k,
{
    if exists|j: int| 0 <= j < k && !hex_byte_valid(b[j]) {
        let j = choose|j: int| 0 <= j < k && !hex_byte_valid(b[j]);
        lemma_least_invalid_exists(b, j);
    } else {
        assert(forall|j: int| 0 <= j < k ==> hex_byte_valid(#[trigger] b[j]));
    }
}

/// Where some byte is no hexadecimal digit, `first_invalid_hex` is the
/// position of the first such byte.
pub proof fn lemma_first_invalid_hex_is_least(b: Seq<u8>)
    requires
        exists|i: int| 0 <= i < b.len() && !hex_byte_valid(#[trigger] b[i]),
    ensures
        0 <= first_invalid_hex(b) < b.len(),
        !hex_byte_valid(b[first_invalid_hex(b)]),
        forall|j: int| 0 <= j < first_invalid_hex(b) ==> hex_byte_valid(#[trigger] b[j]),
{
    let k = choose|i: int| 0 <= i < b.len() && !hex_byte_valid(#[trigger] b[i]);
    lemma_least_invalid_exists(b, k);
}

/// How `hex::decode` reads bytes: an odd length is refused first, then the first
/// byte that is no hexadecimal digit, else each pair of digits is one byte.
pub open spec fn spec_hex_decode(b: Seq<u8>) -> Result<Seq<u8>, HexError> {
    if b.len() % 2 != 0 {
        Err(HexError::OddLength)
    } else if exists|i: int| 0 <= i < b.len() && !hex_byte_valid(#[trigger] b[i]) {
        let i = first_invalid_hex(b);
        Err(HexError::InvalidHexCharacter { c: b[i] as char, index: i as usize })
    } else {
        Ok(
            Seq::new(
                b.len() / 2,
                |k: int|
                    (digit_value(b[2 * k], 16).unwrap() * 16 + digit_value(b[2 * k + 1], 16).unwrap()) as u8,
            ),
        )
    }
}

pub open spec fn hex_decode_matches(r: Result<Vec<u8>, HexError>, b: Seq<u8>) -> bool {
    match r {
        Ok(v) => spec_hex_decode(b) == Ok::<Seq<u8>, HexError>(v@),
        Err(e) => spec_hex_decode(b) == Err::<Seq<u8>, HexError>(e),
    }
}

/// `hex::decode` on the bytes of a text, with its error turned into [`HexError`] variant by variant.
#[verifier::external_body]
pub(crate) fn hex_decode(s: &str) -> (r: Result<Vec<u8>, HexError>)
    ensures
        hex_decode_matches(r, s.spec_bytes()),
{
    match hex::decode(s) {
        Ok(v) => Ok(v),
        Err(hex::FromHexError::InvalidHexCharacter { c, index }) => Err(
            HexError::InvalidHexCharacter { c, index },
        ),
        Err(hex::FromHexError::OddLength) => Err(HexError::OddLength),
        Err(hex::FromHexError::InvalidStringLength) => Err(HexError::InvalidStringLength),
    }
}

} // verus!

