//! The device identifier: a 128-bit UUID value with canonical lowercase
//! hyphenated text rendering and strict canonical parsing.
//!
//! The canonical text form is 36 ASCII bytes: 32 hex digits in five groups
//! of 8, 4, 4, 4 and 12, separated by hyphens. Rendering always emits
//! lowercase digits; parsing accepts either case but requires the exact
//! canonical shape.

use vstd::arithmetic::div_mod::{lemma_div_denominator, lemma_fundamental_div_mod};
use vstd::arithmetic::power::pow;
use vstd::prelude::*;
use vstd::string::StringSliceAdditionalSpecFns;

use crate::error::Error;

verus! {

/// A unique identifier for a device, generated or retrieved from storage.
///
/// An immutable value object: equality and hashing are structural over the
/// 128 bits, and a value is only created by generating a fresh random UUID
/// or by parsing previously stored text.
#[derive(Debug, Clone, Copy, PartialEq, Eq, Hash, Structural)]
pub struct DevDeviceId {
    /// The identifier's 128 bits, with the textually first hex digit in the
    /// most significant position.
    pub bits: u128,
}

/// The positions of the four hyphens in the canonical 36-byte text form.
pub open spec fn is_hyphen_pos(i: int) -> bool {
    i == 8 || i == 13 || i == 18 || i == 23
}

/// How many of the 32 hex digits stand before text position `i`.
/// At a digit position this is the digit's own index.
pub open spec fn digit_index(i: int) -> int {
    if i <= 8 {
        i
    } else if i <= 13 {
        i - 1
    } else if i <= 18 {
        i - 2
    } else if i <= 23 {
        i - 3
    } else {
        i - 4
    }
}

/// The text position of hex digit `j` (for `0 <= j < 32`).
pub open spec fn digit_pos(j: int) -> int {
    if j < 8 {
        j
    } else if j < 12 {
        j + 1
    } else if j < 16 {
        j + 2
    } else if j < 20 {
        j + 3
    } else {
        j + 4
    }
}

/// ASCII hex digit, in either case.
pub open spec fn is_hex_digit(b: u8) -> bool {
    (48 <= b <= 57) || (97 <= b <= 102) || (65 <= b <= 70)
}

/// The numeric value of an ASCII hex digit.
pub open spec fn hex_value(b: u8) -> int
    recommends
        is_hex_digit(b),
{
    if 48 <= b <= 57 {
        b - 48
    } else if 97 <= b <= 102 {
        b - 87
    } else {
        b - 55
    }
}

/// The lowercase ASCII hex digit for a value below 16.
pub open spec fn hex_char_lower(v: int) -> u8
    recommends
        0 <= v < 16,
{
    if v < 10 {
        (48 + v) as u8
    } else {
        (87 + v) as u8
    }
}

/// Hex digit `j` (most significant first) of the 128-bit value.
pub open spec fn nibble_of(bits: u128, j: int) -> int
    recommends
        0 <= j < 32,
{
    ((bits as int) / pow(16, (31 - j) as nat)) % 16
}

/// The canonical shape: 36 bytes, hyphens exactly at positions 8, 13, 18
/// and 23, hex digits everywhere else.
pub open spec fn uuid_text_valid(s: Seq<u8>) -> bool {
    &&& s.len() == 36
    &&& forall|i: int| 0 <= i < 36 && is_hyphen_pos(i) ==> s[i] == 45u8
    &&& forall|i: int| 0 <= i < 36 && !is_hyphen_pos(i) ==> is_hex_digit(#[trigger] s[i])
}

/// The canonical lowercase hyphenated text form of a 128-bit value.
pub open spec fn render_spec(bits: u128) -> Seq<u8> {
    Seq::new(
        36,
        |i: int|
            if is_hyphen_pos(i) {
                45u8
            } else {
                hex_char_lower(nibble_of(bits, digit_index(i)))
            },
    )
}

/// The 32 hex digit values of a canonically shaped text, most significant
/// first.
pub open spec fn digits_of(s: Seq<u8>) -> Seq<int> {
    Seq::new(32, |j: int| hex_value(s[digit_pos(j)]))
}

/// The number with the given base-16 digits, most significant first.
pub open spec fn value_of_digits(d: Seq<int>) -> int
    decreases d.len(),
{
    if d.len() == 0 {
        0
    } else {
        value_of_digits(d.drop_last()) * 16 + d.last()
    }
}

/// Strict canonical parsing: the 128-bit value of a canonically shaped
/// text, or nothing when the shape is wrong.
pub open spec fn parse_spec(s: Seq<u8>) -> Option<u128> {
    if uuid_text_valid(s) {
        Some(value_of_digits(digits_of(s)) as u128)
    } else {
        None
    }
}

/// Reading a number's base-16 digits back, most significant first, yields
/// the number.
proof fn lemma_value_of_nibbles(b: int, n: nat)
    requires
        0 <= b < pow(16, n),
    ensures
        value_of_digits(Seq::new(n, |j: int| (b / pow(16, (n - 1 - j) as nat)) % 16)) == b,
    decreases n,
{
    let d = Seq::new(n, |j: int| (b / pow(16, (n - 1 - j) as nat)) % 16);
    if n == 0 {
        vstd::arithmetic::power::lemma_pow0(16);
        assert(d.len() == 0);
    } else {
        let b1 = b / 16;
        lemma_pow16_step(n);
        assert(0 <= b1 < pow(16, (n - 1) as nat)) by (nonlinear_arith)
            requires
                0 <= b < 16 * pow(16, (n - 1) as nat),
                b1 == b / 16,
        ;
        lemma_value_of_nibbles(b1, (n - 1) as nat);
        let d1 = Seq::new((n - 1) as nat, |j: int| (b1 / pow(16, (n - 2 - j) as nat)) % 16);
        assert(d.drop_last() =~= d1) by {
            assert forall|j: int| 0 <= j < n - 1 implies d[j] == d1[j] by {
                let e = (n - 2 - j) as nat;
                lemma_pow16_step((n - 1 - j) as nat);
                vstd::arithmetic::power::lemma_pow_positive(16, e);
                lemma_div_denominator(b, 16, pow(16, e));
            }
        }
        assert(d.last() == (b / pow(16, 0)) % 16);
        vstd::arithmetic::power::lemma_pow0(16);
        lemma_fundamental_div_mod(b, 16);
        assert(value_of_digits(d) == value_of_digits(d.drop_last()) * 16 + d.last());
    }
}

/// One unfolding step of the (opaque) power function at base 16.
proof fn lemma_pow16_step(e: nat)
    requires
        e > 0,
    ensures
        pow(16, e) == 16 * pow(16, (e - 1) as nat),
{
    reveal(pow);
}

/// The two powers of 16 that bracket the 128-bit range, as literals.
proof fn lemma_pow16_values()
    ensures
        pow(16, 31) == 0x10000000000000000000000000000000,
        pow(16, 32) == 0x100000000000000000000000000000000,
{
    vstd::arithmetic::power2::lemma2_to64();
    vstd::arithmetic::power2::lemma2_to64_rest();
    vstd::arithmetic::power2::lemma_pow2_adds(64, 60);
    vstd::arithmetic::power2::lemma_pow2_adds(64, 64);
    vstd::arithmetic::power2::lemma_pow2(4);
    vstd::arithmetic::power2::lemma_pow2(124);
    vstd::arithmetic::power2::lemma_pow2(128);
    vstd::arithmetic::power::lemma_pow_multiplies(2, 4, 31);
    vstd::arithmetic::power::lemma_pow_multiplies(2, 4, 32);
}

/// Exec twin of [`is_hex_digit`].
fn check_hex_digit(b: u8) -> (r: bool)
    ensures
        r == is_hex_digit(b),
{
    (b >= 48 && b <= 57) || (b >= 97 && b <= 102) || (b >= 65 && b <= 70)
}

/// Exec twin of [`hex_value`].
fn hex_value_of(b: u8) -> (r: u8)
    requires
        is_hex_digit(b),
    ensures
        r == hex_value(b),
        r < 16,
{
    if b >= 48 && b <= 57 {
        b - 48
    } else if b >= 97 && b <= 102 {
        b - 87
    } else {
        b - 55
    }
}

/// Exec twin of [`hex_char_lower`].
fn hex_char_of(v: u8) -> (r: u8)
    requires
        v < 16,
    ensures
        r == hex_char_lower(v as int),
{
    if v < 10 {
        48 + v
    } else {
        87 + v
    }
}

/// Round-trip law: rendering any identifier's bits and parsing the rendered
/// text yields the same bits back.
pub proof fn lemma_parse_render_roundtrip(bits: u128)
    ensures
        parse_spec(render_spec(bits)) == Some(bits),
{
    let s = render_spec(bits);
    assert forall|j: int| 0 <= j < 32 implies 0 <= #[trigger] nibble_of(bits, j) < 16 by {
        vstd::arithmetic::power::lemma_pow_positive(16, (31 - j) as nat);
    }
    assert(uuid_text_valid(s));
    let d = digits_of(s);
    let dn = Seq::new(32, |j: int| ((bits as int) / pow(16, (32 - 1 - j) as nat)) % 16);
    assert forall|j: int| 0 <= j < 32 implies d[j] == dn[j] by {
        assert(digit_index(digit_pos(j)) == j);
        assert(!is_hyphen_pos(digit_pos(j)));
        assert(s[digit_pos(j)] == hex_char_lower(nibble_of(bits, j)));
        assert(hex_value(hex_char_lower(nibble_of(bits, j))) == nibble_of(bits, j));
    }
    assert(d =~= dn);
    lemma_pow16_values();
    lemma_value_of_nibbles(bits as int, 32);
    assert(value_of_digits(d) == bits as int);
}

/// Round-trip law at the text level: the string that `render` produces is
/// ASCII, its UTF-8 bytes are exactly the rendered bytes, and parsing them
/// yields the identifier back — so `parse(render(x))` recovers `x` for
/// every identifier.
pub proof fn lemma_parse_render_roundtrip_text(bits: u128)
    ensures
        vstd::utf8::is_ascii_chars(render_spec(bits).map_values(|x: u8| x as char)),
        vstd::utf8::encode_utf8(render_spec(bits).map_values(|x: u8| x as char)) == render_spec(
            bits,
        ),
        parse_spec(
            vstd::utf8::encode_utf8(render_spec(bits).map_values(|x: u8| x as char)),
        ) == Some(bits),
{
    lemma_render_ascii(bits);
    let bytes = render_spec(bits);
    let chars = bytes.map_values(|x: u8| x as char);
    assert forall|i: int| 0 <= i < chars.len() implies '\0' <= #[trigger] chars[i]
        <= '\u{7f}' by {
        assert(chars[i] == bytes[i] as char);
        assert(bytes[i] < 128);
    }
    assert(vstd::utf8::is_ascii_chars(chars));
    vstd::utf8::is_ascii_chars_encode_utf8(chars);
    assert forall|i: int| 0 <= i < chars.len() implies vstd::utf8::encode_utf8(chars)[i]
        == bytes[i] by {
        assert(chars[i] as u8 == vstd::utf8::encode_utf8(chars)[i]);
        assert(chars[i] == bytes[i] as char);
    }
    assert(vstd::utf8::encode_utf8(chars) =~= bytes);
    lemma_parse_render_roundtrip(bits);
}

/// Every byte of a rendered identifier is ASCII.
proof fn lemma_render_ascii(bits: u128)
    ensures
        forall|i: int| 0 <= i < render_spec(bits).len() ==> #[trigger] render_spec(bits)[i] < 128,
{
    assert forall|i: int| 0 <= i < render_spec(bits).len() implies #[trigger] render_spec(
        bits,
    )[i] < 128 by {
        if !is_hyphen_pos(i) {
            vstd::arithmetic::power::lemma_pow_positive(16, (31 - digit_index(i)) as nat);
            assert(0 <= nibble_of(bits, digit_index(i)) < 16);
        }
    }
}

/// The message carried by parse failures.
fn bad_uuid_msg() -> (r: String) {
    "not a canonical hyphenated UUID".to_owned()
}

/// Relies on `uuid::Uuid::new_v4`: a freshly generated random UUID has the
/// version-4 nibble and the RFC 4122 variant bits set; nothing else is
/// promised of its 128 bits.
#[verifier::external_body]
fn random_uuid_bits() -> (r: u128)
    ensures
        (r >> 76) & 0xf == 4,
        (r >> 62) & 0x3 == 2,
{
    uuid::Uuid::new_v4().as_u128()
}

/// Relies on `String::from_utf8`: a byte sequence that lies entirely below
/// 0x80 is valid UTF-8 and decodes to the chars with exactly those scalar
/// values.
#[verifier::external_body]
fn ascii_to_string(b: Vec<u8>) -> (r: String)
    requires
        forall|i: int| 0 <= i < b@.len() ==> b@[i] < 128,
    ensures
        r@ == b@.map_values(|x: u8| x as char),
{
    String::from_utf8(b).unwrap()
}

impl DevDeviceId {
    /// Wraps the given 128 bits, taken verbatim.
    pub fn from_bits(bits: u128) -> (r: DevDeviceId)
        ensures
            r.bits == bits,
    {
        DevDeviceId { bits }
    }

    /// The canonical lowercase hyphenated text form, as ASCII bytes.
    pub fn render_bytes(&self) -> (r: Vec<u8>)
        ensures
            r@ == render_spec(self.bits),
    {
        let mut r: Vec<u8> = Vec::new();
        let mut p: u128 = 0x10000000000000000000000000000000u128;
        proof {
            lemma_pow16_values();
        }
        let mut i: usize = 0;
        let mut j: usize = 0;
        while i < 36
            invariant
                i <= 36,
                j == digit_index(i as int),
                r@.len() == i,
                r@ =~= render_spec(self.bits).subrange(0, i as int),
                j < 32 ==> p as int == pow(16, (31 - j) as nat),
            decreases 36 - i,
        {
            if i == 8 || i == 13 || i == 18 || i == 23 {
                r.push(45u8);
            } else {
                assert(j < 32);
                proof {
                    vstd::arithmetic::power::lemma_pow_positive(16, (31 - j) as nat);
                }
                let nib: u128 = (self.bits / p) % 16;
                assert(nib as int == nibble_of(self.bits, j as int));
                r.push(hex_char_of(nib as u8));
                if j < 31 {
                    proof {
                        lemma_pow16_step((31 - j) as nat);
                        assert(p / 16 == pow(16, (30 - j) as nat)) by (nonlinear_arith)
                            requires
                                p == 16 * pow(16, (30 - j) as nat),
                                pow(16, (30 - j) as nat) >= 0,
                        ;
                    }
                    p = p / 16;
                }
                j += 1;
            }
            i += 1;
            proof {
                assert(r@ =~= render_spec(self.bits).subrange(0, i as int));
            }
        }
        proof {
            assert(r@ =~= render_spec(self.bits));
        }
        r
    }

    /// The canonical lowercase hyphenated text form.
    pub fn render(&self) -> (r: String)
        ensures
            r@ == render_spec(self.bits).map_values(|x: u8| x as char),
    {
        proof {
            lemma_render_ascii(self.bits);
        }
        ascii_to_string(self.render_bytes())
    }

    /// Strict canonical parsing of ASCII bytes: succeeds exactly on the
    /// canonical hyphenated shape and returns the identifier it spells.
    pub fn parse_bytes(s: &[u8]) -> (r: Result<DevDeviceId, Error>)
        ensures
            r is Ok <==> parse_spec(s@) is Some,
            r matches Ok(id) ==> parse_spec(s@) == Some(id.bits),
            r matches Err(e) ==> e is BadUuidFormat,
    {
        if s.len() != 36 {
            return Err(Error::BadUuidFormat(bad_uuid_msg()));
        }
        let mut acc: u128 = 0;
        let mut i: usize = 0;
        let mut j: usize = 0;
        proof {
            vstd::arithmetic::power::lemma_pow0(16);
        }
        while i < 36
            invariant
                i <= 36,
                j == digit_index(i as int),
                s@.len() == 36,
                forall|k: int| 0 <= k < i && is_hyphen_pos(k) ==> s@[k] == 45u8,
                forall|k: int| 0 <= k < i && !is_hyphen_pos(k) ==> is_hex_digit(#[trigger] s@[k]),
                acc as int == value_of_digits(
                    Seq::new(j as nat, |q: int| hex_value(s@[digit_pos(q)])),
                ),
                (acc as int) < pow(16, j as nat),
            decreases 36 - i,
        {
            let b = s[i];
            if i == 8 || i == 13 || i == 18 || i == 23 {
                if b != 45 {
                    assert(!uuid_text_valid(s@));
                    return Err(Error::BadUuidFormat(bad_uuid_msg()));
                }
            } else {
                if !check_hex_digit(b) {
                    assert(!uuid_text_valid(s@));
                    return Err(Error::BadUuidFormat(bad_uuid_msg()));
                }
                let v = hex_value_of(b);
                proof {
                    assert(j < 32);
                    assert(digit_pos(j as int) == i as int);
                    let dold = Seq::new(j as nat, |q: int| hex_value(s@[digit_pos(q)]));
                    let dnew = Seq::new((j + 1) as nat, |q: int| hex_value(s@[digit_pos(q)]));
                    assert(dnew.drop_last() =~= dold);
                    assert(value_of_digits(dnew) == value_of_digits(dold) * 16 + v);
                    lemma_pow16_step((j + 1) as nat);
                    assert((acc as int) * 16 + v < 16 * pow(16, j as nat)) by (nonlinear_arith)
                        requires
                            (acc as int) < pow(16, j as nat),
                            v < 16,
                    ;
                    vstd::arithmetic::power::lemma_pow_increases(16, (j + 1) as nat, 32);
                    lemma_pow16_values();
                }
                acc = acc * 16 + (v as u128);
                j += 1;
            }
            i += 1;
        }
        proof {
            assert(uuid_text_valid(s@));
            assert(j == 32);
            assert(digits_of(s@) =~= Seq::new(32, |q: int| hex_value(s@[digit_pos(q)])));
            assert(parse_spec(s@) == Some(acc));
        }
        Ok(DevDeviceId { bits: acc })
    }

    /// Strict canonical parsing of text, as [`Self::parse_bytes`] on the
    /// text's UTF-8 bytes.
    pub fn parse(s: &str) -> (r: Result<DevDeviceId, Error>)
        ensures
            r is Ok <==> parse_spec(s.spec_bytes()) is Some,
            r matches Ok(id) ==> parse_spec(s.spec_bytes()) == Some(id.bits),
            r matches Err(e) ==> e is BadUuidFormat,
    {
        DevDeviceId::parse_bytes(s.as_bytes())
    }

    /// A fresh identifier from a cryptographically sourced random UUID
    /// (version-4 layout). Never fails.
    pub fn generate() -> (r: DevDeviceId)
        ensures
            (r.bits >> 76) & 0xf == 4,
            (r.bits >> 62) & 0x3 == 2,
    {
        DevDeviceId { bits: random_uuid_bits() }
    }
}

} // verus!
