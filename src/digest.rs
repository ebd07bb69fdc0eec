//! The outside computations the store relies on: SHA-256, hex encoding,
//! zstd compression and line diffs.

use vstd::prelude::*;

verus! {

/// std's `io::Error`, the error of zstd's stream functions; carried to a
/// message, never inspected.
#[verifier::external_type_specification]
#[verifier::external_body]
pub struct ExIoError(std::io::Error);

/// The SHA-256 digest of a byte sequence.
pub uninterp spec fn sha256_of(b: Seq<u8>) -> Seq<u8>;

/// What zstd's `encode_all` produces for `b` at compression level `level`.
pub uninterp spec fn zstd_encoded(b: Seq<u8>, level: int) -> Seq<u8>;

/// What zstd's `decode_all` produces for the compressed bytes `c`.
pub uninterp spec fn zstd_decoded(c: Seq<u8>) -> Seq<u8>;

/// Whether zstd's `decode_all` accepts the compressed bytes `c`.
pub uninterp spec fn zstd_decodes(c: Seq<u8>) -> bool;

/// The per-line changes of a line diff from `old` to `new`, in order.
pub uninterp spec fn line_diff(old: Seq<char>, new: Seq<char>) -> Seq<LineTag>;

/// The text of `b` read as UTF-8, invalid sequences replaced.
pub uninterp spec fn lossy_text(b: Seq<u8>) -> Seq<char>;

/// One line of a line diff.
#[derive(Debug, Clone, Copy, PartialEq, Eq, Structural)]
pub enum LineTag {
    Equal,
    Delete,
    Insert,
}

/// Lowercase hex digit of a value below 16.
pub open spec fn hex_digit(d: u8) -> char {
    if d < 10 {
        (('0' as u8) + d) as char
    } else {
        (('a' as u8) + (d - 10)) as char
    }
}

/// Two lowercase hex digits per byte, high nibble first.
pub open spec fn hex_of(b: Seq<u8>) -> Seq<char> {
    Seq::new(
        2 * b.len(),
        |i: int|
            if i % 2 == 0 {
                hex_digit(b[i / 2] / 16)
            } else {
                hex_digit(b[i / 2] % 16)
            },
    )
}

/// Relies on sha2's `Sha256::digest`: a 32-byte digest of the input.
#[verifier::external_body]
pub(crate) fn sha256_digest(b: &[u8]) -> (r: Vec<u8>)
    ensures
        r@ == sha256_of(b@),
        r@.len() == 32,
{
    <sha2::Sha256 as sha2::Digest>::digest(b).to_vec()
}

/// Relies on hex's `encode`: two lowercase hex digits per byte.
#[verifier::external_body]
pub(crate) fn hex_encode(b: &[u8]) -> (r: String)
    ensures
        r@ == hex_of(b@),
{
    hex::encode(b)
}

/// Relies on zstd's `stream::encode_all` over an in-memory source; zstd
/// is lossless, so its frames decode back to the input.
#[verifier::external_body]
pub(crate) fn zstd_encode(b: &[u8], level: i32) -> (r: Result<Vec<u8>, std::io::Error>)
    ensures
        r is Ok ==> r->Ok_0@ == zstd_encoded(b@, level as int),
        r is Ok ==> zstd_decodes(r->Ok_0@) && zstd_decoded(r->Ok_0@) == b@,
{
    zstd::stream::encode_all(b, level)
}

/// Relies on zstd's `stream::decode_all` over an in-memory source.
#[verifier::external_body]
pub(crate) fn zstd_decode(c: &[u8]) -> (r: Result<Vec<u8>, std::io::Error>)
    ensures
        r is Ok <==> zstd_decodes(c@),
        r is Ok ==> r->Ok_0@ == zstd_decoded(c@),
{
    zstd::stream::decode_all(c)
}

/// Relies on std's `String::from_utf8_lossy`: valid UTF-8 comes back unchanged.
#[verifier::external_body]
pub(crate) fn utf8_lossy(b: &[u8]) -> (r: String)
    ensures
        r@ == lossy_text(b@),
        vstd::utf8::valid_utf8(b@) ==> r@ == vstd::utf8::decode_utf8(b@),
{
    String::from_utf8_lossy(b).into_owned()
}

/// Relies on similar's `TextDiff::from_lines` and its `iter_all_changes`:
/// the tag of each line change, in order.
#[verifier::external_body]
pub(crate) fn diff_line_tags(old: &str, new: &str) -> (r: Vec<LineTag>)
    ensures
        r@ == line_diff(old@, new@),
{
    let diff = similar::TextDiff::from_lines(old, new);
    diff.iter_all_changes().map(|c| match c.tag() {
        similar::ChangeTag::Equal => LineTag::Equal,
        similar::ChangeTag::Delete => LineTag::Delete,
        similar::ChangeTag::Insert => LineTag::Insert,
    }).collect()
}

/// Lowercase hex SHA-256 digest of a byte sequence.
pub open spec fn sha256_hex(b: Seq<u8>) -> Seq<char> {
    hex_of(sha256_of(b))
}

/// Hashes `b` with SHA-256 and writes the digest in lowercase hex.
pub fn sha256_hex_of(b: &[u8]) -> (r: String)
    ensures
        r@ == sha256_hex(b@),
        r@.len() == 64,
{
    let d = sha256_digest(b);
    hex_encode(d.as_slice())
}

} // verus!
