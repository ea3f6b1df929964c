//! Text renderings of bytes and numbers, and the digest behind offer identifiers.

use bech32::ToBase32;
use vstd::prelude::*;

verus! {

#[verifier::external_type_specification]
#[verifier::external_body]
pub struct ExBech32Error(bech32::Error);

/// The lower-case hexadecimal digit of a value below sixteen.
pub open spec fn hex_digit(nibble: int) -> char {
    "0123456789abcdef"@[nibble]
}

/// Two lower-case hexadecimal digits per byte, high nibble first.
pub open spec fn hex_text(bytes: Seq<u8>) -> Seq<char> {
    Seq::new(
        (2 * bytes.len()) as nat,
        |i: int|
            hex_digit(
                if i % 2 == 0 {
                    bytes[i / 2] as int / 16
                } else {
                    bytes[i / 2] as int % 16
                },
            ),
    )
}

/// The decimal digit of a value below ten.
pub open spec fn decimal_digit(digit: int) -> char {
    "0123456789"@[digit]
}

/// Decimal notation without sign or leading zeros.
pub open spec fn decimal_text(n: nat) -> Seq<char>
    decreases n,
{
    if n < 10 {
        seq![decimal_digit(n as int)]
    } else {
        decimal_text(n / 10).push(decimal_digit((n % 10) as int))
    }
}

/// What `bs58::encode` with the default alphabet renders for a byte string.
pub uninterp spec fn base58_text(bytes: Seq<u8>) -> Seq<char>;

/// The SHA-256 digest of the UTF-8 bytes of a text.
pub uninterp spec fn sha256_digest(text: Seq<char>) -> Seq<u8>;

/// What `bech32::encode` renders, with the bech32m checksum, for a
/// human-readable part and a byte payload regrouped into five-bit words.
pub uninterp spec fn bech32m_text(hrp: Seq<char>, data: Seq<u8>) -> Seq<char>;

/// The human-readable parts that bech32 accepts: one to 83 printable ASCII
/// characters, not mixing upper and lower case.
pub open spec fn hrp_accepted(hrp: Seq<char>) -> bool {
    &&& 1 <= hrp.len() <= 83
    &&& forall|i: int| 0 <= i < hrp.len() ==> 33 <= #[trigger] hrp[i] as u32 <= 126
    &&& !(has_lower_case(hrp) && has_upper_case(hrp))
}

/// Whether a text holds a letter from `a` to `z`.
pub open spec fn has_lower_case(text: Seq<char>) -> bool {
    exists|i: int| 0 <= i < text.len() && 'a' <= #[trigger] text[i] <= 'z'
}

/// Whether a text holds a letter from `A` to `Z`.
pub open spec fn has_upper_case(text: Seq<char>) -> bool {
    exists|i: int| 0 <= i < text.len() && 'A' <= #[trigger] text[i] <= 'Z'
}

/// Calls `hex::encode`, which writes each byte as two characters of
/// `0123456789abcdef`, the high four bits first.
#[verifier::external_body]
pub(crate) fn hex_encode(bytes: &[u8]) -> (text: String)
    ensures
        text@ == hex_text(bytes@),
{
    hex::encode(bytes)
}

/// Calls `u64::to_string`, which writes the number in decimal notation.
#[verifier::external_body]
pub(crate) fn decimal_string(n: u64) -> (text: String)
    ensures
        text@ == decimal_text(n as nat),
{
    n.to_string()
}

/// Calls `bs58::encode(..).into_string()`; the result depends on the bytes alone.
#[verifier::external_body]
pub(crate) fn base58_encode(bytes: &[u8]) -> (text: String)
    ensures
        text@ == base58_text(bytes@),
{
    bs58::encode(bytes).into_string()
}

/// Feeds a text to `clvmr::sha2::Sha256` and returns the finished digest,
/// which depends on the text alone.
#[verifier::external_body]
pub(crate) fn sha256_of_text(text: &str) -> (digest: [u8; 32])
    ensures
        digest@ == sha256_digest(text@),
{
    let mut hasher = clvmr::sha2::Sha256::new();
    hasher.update(text);
    hasher.finalize()
}

/// Calls `bech32::encode` with the bech32m variant on the payload regrouped by
/// `to_base32`. The call fails only when it rejects the human-readable part,
/// and its result depends on the two arguments alone.
#[verifier::external_body]
pub(crate) fn bech32m_encode(hrp: &str, data: &[u8]) -> (r: Result<String, bech32::Error>)
    ensures
        hrp_accepted(hrp@) ==> r is Ok,
        r matches Ok(text) ==> text@ == bech32m_text(hrp@, data@),
{
    bech32::encode(hrp, data.to_base32(), bech32::Variant::Bech32m)
}

} // verus!
