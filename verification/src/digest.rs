//! SHA-256 digests and their text form.

use vstd::prelude::*;
use crate::number::{hex, hex_digest};
use crate::text::same_text;

verus! {

/// Most bytes that a digest is taken of: SHA-256 counts the bits of its input in 64 bits.
pub const MAX_DIGEST_BYTES: u64 = 0x1fff_ffff_ffff_ffff;

/// A bound on content, lowered to what a digest can be taken of.
pub open spec fn digestible(bytes: u64) -> u64 {
    if bytes <= MAX_DIGEST_BYTES {
        bytes
    } else {
        MAX_DIGEST_BYTES
    }
}

/// A bound on content, lowered to what a digest can be taken of.
pub fn digest_bound(bytes: u64) -> (bound: u64)
    ensures
        bound == digestible(bytes),
{
    if bytes <= MAX_DIGEST_BYTES {
        bytes
    } else {
        MAX_DIGEST_BYTES
    }
}

/// A running `sha2::Sha256`. That type is an instance of a generic wrapper, so it is held here as
/// a whole; what it has been fed is `absorbed`.
#[verifier::external_body]
pub struct Hasher {
    state: sha2::Sha256,
}

/// The bytes fed to a hasher so far.
pub uninterp spec fn absorbed(hasher: Hasher) -> Seq<u8>;

/// The SHA-256 digest of a byte sequence.
pub uninterp spec fn sha256(bytes: Seq<u8>) -> Seq<u8>;

/// `sha2::Sha256::new` starts a hasher that has been fed nothing.
#[verifier::external_body]
fn start() -> (hasher: Hasher)
    ensures
        absorbed(hasher) == Seq::<u8>::empty(),
{
    Hasher { state: sha2::Digest::new() }
}

/// `sha2::Digest::update` feeds bytes after those fed before.
#[verifier::external_body]
fn feed(hasher: &mut Hasher, bytes: &[u8])
    requires
        absorbed(*old(hasher)).len() + bytes@.len() <= MAX_DIGEST_BYTES,
    ensures
        absorbed(*final(hasher)) == absorbed(*old(hasher)) + bytes@,
{
    sha2::Digest::update(&mut hasher.state, bytes)
}

/// `sha2::Digest::finalize` gives the 32-byte digest of everything fed. It multiplies the number of
/// bytes by eight, which more bytes than allowed here would overflow.
#[verifier::external_body]
fn finish(hasher: Hasher) -> (digest: Vec<u8>)
    requires
        absorbed(hasher).len() <= MAX_DIGEST_BYTES,
    ensures
        digest@ == sha256(absorbed(hasher)),
        digest@.len() == 32,
{
    sha2::Digest::finalize(hasher.state).to_vec()
}

/// The size and digest of content that arrives in pieces.
pub struct ContentDigest {
    hasher: Hasher,
    size: u64,
}

impl ContentDigest {
    #[verifier::type_invariant]
    spec fn well_formed(self) -> bool {
        self.size == absorbed(self.hasher).len() && self.size <= MAX_DIGEST_BYTES
    }

    /// The content so far.
    pub closed spec fn content(self) -> Seq<u8> {
        absorbed(self.hasher)
    }

    /// Starts with no content.
    pub fn new() -> (digest: Self)
        ensures
            digest.content() == Seq::<u8>::empty(),
    {
        ContentDigest { hasher: start(), size: 0 }
    }

    /// Appends a piece, or leaves the content alone where no digest could be taken of it any more.
    pub fn push(&mut self, bytes: &[u8]) -> (counted: bool)
        ensures
            counted == (old(self).content().len() + bytes@.len() <= MAX_DIGEST_BYTES),
            final(self).content() == if counted {
                old(self).content() + bytes@
            } else {
                old(self).content()
            },
    {
        proof {
            use_type_invariant(&*self);
        }
        if bytes.len() as u64 > MAX_DIGEST_BYTES - self.size {
            return false;
        }
        let size: u64 = self.size + bytes.len() as u64;
        let mut next = ContentDigest::new();
        std::mem::swap(&mut next, self);
        let ContentDigest { mut hasher, .. } = next;
        feed(&mut hasher, bytes);
        *self = ContentDigest { hasher, size };
        true
    }

    /// Bytes so far.
    pub fn size(&self) -> (size: u64)
        ensures
            size == self.content().len(),
    {
        proof {
            use_type_invariant(self);
        }
        self.size
    }

    /// The lower-case hexadecimal digest of the content.
    pub fn digest_text(self) -> (text: String)
        ensures
            text@ == hex(sha256(self.content())),
            text@.len() == 64,
    {
        proof {
            use_type_invariant(&self);
        }
        let digest = finish(self.hasher);
        hex_digest(digest.as_slice())
    }
}

/// Whether content is exactly what an inventory or a manifest promises of it.
pub open spec fn content_matches(content: Seq<u8>, size: u64, digest: Seq<char>) -> bool {
    content.len() == size && hex(sha256(content)) == digest
}

/// Checks complete content against a size and a digest.
pub fn check_content(content: ContentDigest, size: u64, digest: &str) -> (r: bool)
    ensures
        r == content_matches(content.content(), size, digest@),
{
    let same_size = content.size() == size;
    let text = content.digest_text();
    same_text(text.as_str(), digest) && same_size
}

/// Content passes by its bytes alone: what passes has exactly the promised length and digest, and
/// what has both passes.
pub proof fn content_passes_by_length_and_digest(content: Seq<u8>, size: u64, digest: Seq<char>)
    ensures
        content_matches(content, size, digest) ==> content.len() == size && digest == hex(
            sha256(content),
        ),
        content.len() <= u64::MAX ==> content_matches(
            content,
            content.len() as u64,
            hex(sha256(content)),
        ),
        content.len() != size ==> !content_matches(content, size, digest),
        digest != hex(sha256(content)) ==> !content_matches(content, size, digest),
{
}

/// A bound stays as it is unless no digest could be taken of so much: of eight times as many bits,
/// 64 bits hold the number.
pub proof fn digestible_content_is_counted_in_bits(bytes: u64)
    ensures
        8 * digestible(bytes) <= u64::MAX,
        8 * bytes <= u64::MAX ==> digestible(bytes) == bytes,
        8 * bytes > u64::MAX ==> 8 * (digestible(bytes) + 1) > u64::MAX,
{
}

}
