//! Bytes as text, digests and random identifiers.
use sha2::Digest;
use vstd::prelude::*;

verus! {

/// The lower-case hexadecimal digit that stands for `d`.
pub open spec fn hex_digit(d: int) -> char {
    if d < 10 {
        (48 + d) as char
    } else {
        (87 + d) as char
    }
}

/// Whether `c` is a lower-case hexadecimal digit.
pub open spec fn is_hex_digit(c: char) -> bool {
    ('0' <= c <= '9') || ('a' <= c <= 'f')
}

/// Two lower-case hexadecimal digits for each byte, the high half first.
pub open spec fn hex(bytes: Seq<u8>) -> Seq<char> {
    Seq::new(
        bytes.len() * 2,
        |i: int|
            hex_digit(
                if i % 2 == 0 {
                    bytes[i / 2] as int / 16
                } else {
                    bytes[i / 2] as int % 16
                },
            ),
    )
}

/// What `sha2::Sha256::digest` returns for the bytes.
pub uninterp spec fn sha256(bytes: Seq<u8>) -> Seq<u8>;

/// What `String::from_utf8_lossy` makes of the bytes.
pub uninterp spec fn utf8_lossy(bytes: Seq<u8>) -> Seq<char>;

/// Calls `hex::encode`, which spells each byte with two lower-case hexadecimal digits.
#[verifier::external_body]
pub(crate) fn hex_text(bytes: &[u8]) -> (r: String)
    ensures
        r@ == hex(bytes@),
{
    hex::encode(bytes)
}

/// Calls `sha2::Sha256::digest`, whose result has 32 bytes and depends on the bytes alone.
#[verifier::external_body]
pub(crate) fn sha256_digest(bytes: &[u8]) -> (r: Vec<u8>)
    ensures
        r@ == sha256(bytes@),
        r@.len() == 32,
{
    sha2::Sha256::digest(bytes).to_vec()
}

/// The text of the error with which `std::str::from_utf8` refuses the bytes.
pub uninterp spec fn utf8_error(bytes: Seq<u8>) -> Seq<char>;

/// Calls `std::str::from_utf8`, which gives the text that the bytes encode, and fails where they
/// are not UTF-8, with an error whose text depends on the bytes alone.
#[verifier::external_body]
pub(crate) fn utf8_text(bytes: &[u8]) -> (r: Result<String, String>)
    ensures
        match r {
            Ok(text) => vstd::utf8::valid_utf8(bytes@) && text@ == vstd::utf8::decode_utf8(
                bytes@,
            ),
            Err(reason) => !vstd::utf8::valid_utf8(bytes@) && reason@ == utf8_error(bytes@),
        },
{
    std::str::from_utf8(bytes).map(str::to_owned).map_err(|error| error.to_string())
}

/// Calls `String::from_utf8_lossy`. Bytes that are UTF-8 give the text they encode; which other
/// bytes are replaced is left to the name of the result.
#[verifier::external_body]
pub(crate) fn lossy_text(bytes: &[u8]) -> (r: String)
    ensures
        r@ == utf8_lossy(bytes@),
        vstd::utf8::valid_utf8(bytes@) ==> r@ == vstd::utf8::decode_utf8(bytes@),
{
    String::from_utf8_lossy(bytes).into_owned()
}

/// Whether the bytes carry the version and the variant of a random identifier.
pub open spec fn is_random_uuid(bytes: Seq<u8>) -> bool {
    bytes.len() == 16 && 0x40 <= bytes[6] <= 0x4f && 0x80 <= bytes[8] <= 0xbf
}

/// The bytes in hexadecimal, in groups of 4, 2, 2, 2 and 6 bytes set apart by hyphens.
pub open spec fn hyphenated(bytes: Seq<u8>) -> Seq<char> {
    hex(bytes.subrange(0, 4)) + "-"@ + hex(bytes.subrange(4, 6)) + "-"@ + hex(bytes.subrange(6, 8))
        + "-"@ + hex(bytes.subrange(8, 10)) + "-"@ + hex(bytes.subrange(10, 16))
}

/// Calls `uuid::Uuid::new_v4`, whose bytes are random but for version 4 and the RFC variant.
#[verifier::external_body]
pub(crate) fn random_uuid() -> (r: [u8; 16])
    ensures
        is_random_uuid(r@),
{
    *uuid::Uuid::new_v4().as_bytes()
}

/// Calls `Uuid::to_string`: lower-case hexadecimal with the four usual hyphens.
#[verifier::external_body]
pub(crate) fn hyphenated_text(bytes: [u8; 16]) -> (r: String)
    ensures
        r@ == hyphenated(bytes@),
{
    uuid::Uuid::from_bytes(bytes).to_string()
}

/// Calls `Uuid::simple`: lower-case hexadecimal without hyphens.
#[verifier::external_body]
pub(crate) fn simple_text(bytes: [u8; 16]) -> (r: String)
    ensures
        r@ == hex(bytes@),
{
    uuid::Uuid::from_bytes(bytes).simple().to_string()
}

/// Every character of a hexadecimal text is a lower-case hexadecimal digit.
pub proof fn hex_is_hexadecimal(bytes: Seq<u8>)
    ensures
        hex(bytes).len() == bytes.len() * 2,
        forall|i: int| 0 <= i < hex(bytes).len() ==> is_hex_digit(#[trigger] hex(bytes)[i]),
{
    assert forall|i: int| 0 <= i < hex(bytes).len() implies is_hex_digit(
        #[trigger] hex(bytes)[i],
    ) by {
        let b = bytes[i / 2] as int;
        assert(0 <= b / 16 < 16 && 0 <= b % 16 < 16);
    }
}

/// Two hexadecimal texts are equal only where the bytes are.
pub proof fn hex_is_injective(a: Seq<u8>, b: Seq<u8>)
    requires
        hex(a) == hex(b),
    ensures
        a == b,
{
    assert(hex(a).len() == a.len() * 2 && hex(b).len() == b.len() * 2);
    assert(a.len() == b.len());
    assert forall|k: int| 0 <= k < a.len() implies a[k] == b[k] by {
        let x = a[k] as int;
        let y = b[k] as int;
        assert((2 * k) % 2 == 0 && (2 * k) / 2 == k && (2 * k + 1) % 2 == 1 && (2 * k + 1) / 2 == k);
        assert(hex(a)[2 * k] == hex_digit(x / 16));
        assert(hex(b)[2 * k] == hex_digit(y / 16));
        assert(hex(a)[2 * k + 1] == hex_digit(x % 16));
        assert(hex(b)[2 * k + 1] == hex_digit(y % 16));
        assert(x / 16 == y / 16);
        assert(x % 16 == y % 16);
    }
    assert(a =~= b);
}

/// The two digits of a byte stand for it, the first for its sixteens.
pub proof fn hex_digits_stand_for_the_bytes(bytes: Seq<u8>, k: int, high: nat, low: nat)
    requires
        0 <= k < bytes.len(),
        bytes[k] == 16 * high + low,
        low < 16,
    ensures
        hex(bytes).len() == 2 * bytes.len(),
        hex(bytes)[2 * k] == (if high < 10 {
            (48 + high) as char
        } else {
            (87 + high) as char
        }),
        hex(bytes)[2 * k + 1] == (if low < 10 {
            (48 + low) as char
        } else {
            (87 + low) as char
        }),
{
    let b = bytes[k] as int;
    assert(b / 16 == high && b % 16 == low);
    assert((2 * k) % 2 == 0 && (2 * k) / 2 == k && (2 * k + 1) % 2 == 1 && (2 * k + 1) / 2 == k);
}

/// Two identifiers that are spelled alike are the same.
#[verifier::rlimit(40)]
pub proof fn spelled_identifiers_are_distinct(a: Seq<u8>, b: Seq<u8>)
    requires
        a.len() == 16 && b.len() == 16,
        hyphenated(a) == hyphenated(b),
    ensures
        a == b,
{
    reveal_strlit("-");
    let x = hyphenated(a);
    let y = hyphenated(b);
    assert(hex(a.subrange(0, 4)) =~= x.subrange(0, 8));
    assert(hex(b.subrange(0, 4)) =~= y.subrange(0, 8));
    assert(hex(a.subrange(4, 6)) =~= x.subrange(9, 13));
    assert(hex(b.subrange(4, 6)) =~= y.subrange(9, 13));
    assert(hex(a.subrange(6, 8)) =~= x.subrange(14, 18));
    assert(hex(b.subrange(6, 8)) =~= y.subrange(14, 18));
    assert(hex(a.subrange(8, 10)) =~= x.subrange(19, 23));
    assert(hex(b.subrange(8, 10)) =~= y.subrange(19, 23));
    assert(hex(a.subrange(10, 16)) =~= x.subrange(24, 36));
    assert(hex(b.subrange(10, 16)) =~= y.subrange(24, 36));
    hex_is_injective(a.subrange(0, 4), b.subrange(0, 4));
    hex_is_injective(a.subrange(4, 6), b.subrange(4, 6));
    hex_is_injective(a.subrange(6, 8), b.subrange(6, 8));
    hex_is_injective(a.subrange(8, 10), b.subrange(8, 10));
    hex_is_injective(a.subrange(10, 16), b.subrange(10, 16));
    assert forall|k: int| 0 <= k < 16 implies a[k] == b[k] by {
        if k < 4 {
            assert(a[k] == a.subrange(0, 4)[k] && b[k] == b.subrange(0, 4)[k]);
        } else if k < 6 {
            assert(a[k] == a.subrange(4, 6)[k - 4] && b[k] == b.subrange(4, 6)[k - 4]);
        } else if k < 8 {
            assert(a[k] == a.subrange(6, 8)[k - 6] && b[k] == b.subrange(6, 8)[k - 6]);
        } else if k < 10 {
            assert(a[k] == a.subrange(8, 10)[k - 8] && b[k] == b.subrange(8, 10)[k - 8]);
        } else {
            assert(a[k] == a.subrange(10, 16)[k - 10] && b[k] == b.subrange(10, 16)[k - 10]);
        }
    }
    assert(a =~= b);
}

} // verus!
