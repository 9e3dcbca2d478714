//! Whether a download is what the manifest promised.
use sha2::Digest;
use vstd::prelude::*;

use crate::text::{ascii_lower, ascii_lowered, same_ignoring_case};

use super::error::{UResult, UpdateError};

verus! {

/// The SHA-256 hasher of the `sha2` crate.
#[verifier::external_type_specification]
#[verifier::external_body]
pub struct ExSha256(sha2::Sha256);

/// The bytes that a hasher has taken in.
pub uninterp spec fn absorbed(hasher: sha2::Sha256) -> Seq<u8>;

/// The SHA-256 digest of a byte sequence.
pub uninterp spec fn sha256(bytes: Seq<u8>) -> Seq<u8>;

/// A hasher that has taken in nothing.
///
/// Calls `Sha256::new` of the `sha2` crate, by the trait `Digest`.
#[verifier::external_body]
fn new_hasher() -> (r: sha2::Sha256)
    ensures
        absorbed(r) == Seq::<u8>::empty(),
{
    sha2::Sha256::new()
}

/// Takes in more bytes, after those before.
///
/// Calls `Sha256::update` of the `sha2` crate, by the trait `Digest`. It counts
/// blocks, so it is not given 2^61 bytes or more.
#[verifier::external_body]
fn feed_hasher(hasher: &mut sha2::Sha256, bytes: &[u8])
    requires
        absorbed(*old(hasher)).len() + bytes@.len() < 0x2000_0000_0000_0000,
    ensures
        absorbed(*final(hasher)) == absorbed(*old(hasher)) + bytes@,
{
    hasher.update(bytes)
}

/// The digest of all that was taken in, 32 bytes that depend on those bytes and
/// their order alone.
///
/// Calls `Sha256::finalize` of the `sha2` crate, by the trait `Digest`. It counts
/// bits in 64 bits, so it is not asked about 2^61 bytes or more.
#[verifier::external_body]
fn finish_hasher(hasher: sha2::Sha256) -> (r: Vec<u8>)
    requires
        absorbed(hasher).len() < 0x2000_0000_0000_0000,
    ensures
        r@ == sha256(absorbed(hasher)),
        r@.len() == 32,
{
    hasher.finalize().to_vec()
}

/// The lower-case hexadecimal digit of a number below sixteen.
pub open spec fn hex_digit(n: int) -> char {
    if n < 10 {
        (48 + n) as char
    } else {
        (87 + n) as char
    }
}

/// Bytes in lower-case hexadecimal, two digits each.
pub open spec fn hex_of(bytes: Seq<u8>) -> Seq<char> {
    Seq::new(
        2 * bytes.len(),
        |i: int|
            hex_digit(
                if i % 2 == 0 {
                    bytes[i / 2] as int / 16
                } else {
                    bytes[i / 2] as int % 16
                },
            ),
    )
}

/// Bytes in lower-case hexadecimal.
///
/// Calls `hex::encode` of the `hex` crate, which writes each byte as two
/// lower-case digits, the higher half first.
#[verifier::external_body]
fn hex_text(bytes: &[u8]) -> (r: String)
    ensures
        r@ == hex_of(bytes@),
{
    hex::encode(bytes)
}

/// Whether `expected` is the text of a digest, in hexadecimal of either case.
pub open spec fn digest_is(digest: Seq<u8>, expected: Seq<char>) -> bool {
    ascii_lowered(hex_of(digest)) == ascii_lowered(expected)
}

/// What a download is found to be: the text `r` of its digest, or a complaint.
pub open spec fn judged(digest: Seq<u8>, expected: Seq<char>, r: UResult<String>) -> bool {
    let actual = hex_of(digest);
    if digest_is(digest, expected) {
        r matches Ok(s) && s@ == actual
    } else {
        r matches Err(UpdateError::HashMismatch { expected: e, got }) && e@ == expected && got@
            == actual
    }
}

/// Whether a digest is the one that was promised, in hexadecimal of either case.
pub fn verify_digest(digest: &[u8], expected: &str) -> (r: UResult<String>)
    ensures
        judged(digest@, expected@, r),
{
    let actual = hex_text(digest);
    if same_ignoring_case(actual.as_str(), expected) {
        Ok(actual)
    } else {
        Err(UpdateError::HashMismatch { expected: expected.to_string(), got: actual })
    }
}

/// How many bytes a download may have.
pub const MOST_BYTES: u64 = 0x1fff_ffff_ffff_ffff;

/// A download as it comes in.
pub struct Checksum {
    hasher: sha2::Sha256,
    downloaded: u64,
}

impl View for Checksum {
    type V = Seq<u8>;

    /// What came in so far.
    closed spec fn view(&self) -> Seq<u8> {
        absorbed(self.hasher)
    }
}

impl Checksum {
    #[verifier::type_invariant]
    spec fn counted(self) -> bool {
        absorbed(self.hasher).len() == self.downloaded && self.downloaded <= MOST_BYTES
    }

    /// A download of which nothing came in yet.
    pub fn new() -> (r: Self)
        ensures
            r@ == Seq::<u8>::empty(),
    {
        Checksum { hasher: new_hasher(), downloaded: 0 }
    }

    /// How many bytes came in.
    pub fn downloaded(&self) -> (r: u64)
        ensures
            r == self@.len(),
            r <= MOST_BYTES,
    {
        proof {
            use_type_invariant(self);
        }
        self.downloaded
    }

    /// Takes in the next piece.
    pub fn absorb(self, chunk: &[u8]) -> (r: Self)
        requires
            self@.len() + chunk@.len() <= MOST_BYTES,
        ensures
            r@ == self@ + chunk@,
    {
        proof {
            use_type_invariant(&self);
        }
        let downloaded: u64 = self.downloaded + chunk.len() as u64;
        let mut hasher = self.hasher;
        feed_hasher(&mut hasher, chunk);
        Checksum { hasher, downloaded }
    }

    /// The digest of all that came in.
    pub fn digest(self) -> (r: Vec<u8>)
        ensures
            r@ == sha256(self@),
            r@.len() == 32,
    {
        proof {
            use_type_invariant(&self);
        }
        finish_hasher(self.hasher)
    }
}

/// A digest is accepted in upper case as in lower case, and no digest is
/// accepted for another.
pub proof fn law_only_the_promised_digest(a: Seq<u8>, b: Seq<u8>, expected: Seq<char>)
    requires
        digest_is(a, expected),
    ensures
        digest_is(b, expected) <==> a == b,
{
    if ascii_lowered(hex_of(b)) == ascii_lowered(hex_of(a)) {
        let x = ascii_lowered(hex_of(a));
        let y = ascii_lowered(hex_of(b));
        assert(hex_of(a).len() == x.len() && hex_of(b).len() == y.len());
        assert forall|i: int| 0 <= i < a.len() implies a[i] == b[i] by {
            assert(x[2 * i] == y[2 * i]);
            assert(x[2 * i + 1] == y[2 * i + 1]);
            lemma_hex_digits_differ(a[i] as int / 16, b[i] as int / 16);
            lemma_hex_digits_differ(a[i] as int % 16, b[i] as int % 16);
            assert((2 * i) / 2 == i && (2 * i + 1) / 2 == i && (2 * i) % 2 == 0 && (2 * i + 1) % 2
                == 1);
        }
        assert(a =~= b);
    }
}

proof fn lemma_hex_digits_differ(m: int, n: int)
    requires
        0 <= m < 16,
        0 <= n < 16,
    ensures
        ascii_lower(hex_digit(m)) == ascii_lower(hex_digit(n)) ==> m == n,
{
}

/// The number below sixteen that a hexadecimal digit of either case stands for.
pub open spec fn nibble(c: char) -> int {
    if '0' <= c <= '9' {
        c as int - 48
    } else if 'a' <= c <= 'f' {
        c as int - 87
    } else if 'A' <= c <= 'F' {
        c as int - 55
    } else {
        -1
    }
}

/// A text is that of a digest exactly if it has two hexadecimal digits for each byte,
/// the higher half first, in either case.
pub proof fn law_text_of_a_digest(digest: Seq<u8>, expected: Seq<char>)
    ensures
        digest_is(digest, expected) <==> expected.len() == 2 * digest.len() && forall|i: int|
            0 <= i < digest.len() ==> #[trigger] spells(digest[i], expected, i),
{
    let x = ascii_lowered(hex_of(digest));
    let y = ascii_lowered(expected);
    assert(x.len() == 2 * digest.len() && y.len() == expected.len());
    if digest_is(digest, expected) {
        assert forall|i: int| 0 <= i < digest.len() implies #[trigger] spells(
            digest[i],
            expected,
            i,
        ) by {
            assert(x[2 * i] == y[2 * i] && x[2 * i + 1] == y[2 * i + 1]);
            assert((2 * i) / 2 == i && (2 * i + 1) / 2 == i && (2 * i) % 2 == 0 && (2 * i + 1) % 2
                == 1);
        }
    }
    if expected.len() == 2 * digest.len() && forall|i: int|
        0 <= i < digest.len() ==> #[trigger] spells(digest[i], expected, i) {
        assert forall|j: int| 0 <= j < x.len() implies x[j] == y[j] by {
            let i = j / 2;
            assert(spells(digest[i], expected, i));
            assert(j == 2 * i || j == 2 * i + 1);
        }
        assert(x =~= y);
    }
}

/// Whether the byte `b` stands at the place `i` of a text.
pub open spec fn spells(b: u8, text: Seq<char>, i: int) -> bool {
    nibble(text[2 * i]) == b as int / 16 && nibble(text[2 * i + 1]) == b as int % 16
}

/// A download passes exactly if its digest is the promised one; otherwise both are
/// told, the one it has in lower case.
pub proof fn law_verdict_on_a_download(digest: Seq<u8>, expected: Seq<char>, r: UResult<String>)
    requires
        judged(digest, expected, r),
    ensures
        r is Ok <==> digest_is(digest, expected),
        r matches Ok(s) ==> s@ == hex_of(digest),
        r matches Err(e) ==> e matches UpdateError::HashMismatch { expected: x, got } && x@
            == expected && got@ == hex_of(digest),
{
}

} // verus!
