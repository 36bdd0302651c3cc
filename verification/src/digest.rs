//! Content hashes as the catalog records them, and how they are computed.

use vstd::prelude::*;

verus! {

/// The content hash of a demo: sixteen bytes.
pub type Digest = [u8; 16];

/// The MD5 digest of a sequence of bytes: what `md5::Context::finalize` gives
/// for a context that has consumed them, in however many pieces.
pub uninterp spec fn md5_digest(bytes: Seq<u8>) -> Seq<u8>;

/// The bytes that an `md5::Context` has consumed since it was made.
pub uninterp spec fn consumed(context: md5::Context) -> Seq<u8>;

/// `md5::Context`, the state of a digest under way. Of what it holds only
/// the bytes that it has consumed are spoken of, by [`consumed`].
#[verifier::external_type_specification]
#[verifier::external_body]
pub struct ExContext(md5::Context);

/// `md5::Context::new`: a context that has consumed nothing.
#[verifier::external_body]
fn context_new() -> (context: md5::Context)
    ensures
        consumed(context) == Seq::<u8>::empty(),
{
    md5::Context::new()
}

/// `md5::Context::consume`: the data is appended to what was consumed before.
#[verifier::external_body]
fn context_consume(context: &mut md5::Context, data: &[u8])
    ensures
        consumed(*final(context)) == consumed(*old(context)) + data@,
{
    context.consume(data)
}

/// `md5::Context::finalize`: the digest of all that was consumed. It is the
/// digest that `md5::compute` gives for the same bytes in one piece.
#[verifier::external_body]
fn context_finalize(context: md5::Context) -> (digest: Digest)
    ensures
        digest@ == md5_digest(consumed(context)),
{
    context.finalize().0
}

/// Computes a digest over content that arrives in pieces, so that a large
/// file never has to be held in memory as a whole.
pub struct Hasher {
    context: md5::Context,
}

impl View for Hasher {
    type V = Seq<u8>;

    /// The bytes fed so far, in order.
    closed spec fn view(&self) -> Seq<u8> {
        consumed(self.context)
    }
}

impl Hasher {
    /// A hasher that has seen no bytes.
    pub fn new() -> (hasher: Self)
        ensures
            hasher@ == Seq::<u8>::empty(),
    {
        Hasher { context: context_new() }
    }

    /// Feeds the next piece of the content.
    pub fn update(&mut self, chunk: &[u8])
        ensures
            final(self)@ == old(self)@ + chunk@,
    {
        context_consume(&mut self.context, chunk);
    }

    /// The digest of everything fed.
    pub fn finish(self) -> (digest: Digest)
        ensures
            digest@ == md5_digest(self@),
    {
        context_finalize(self.context)
    }
}

/// The pieces of a content, joined in order.
pub open spec fn joined(chunks: Seq<Vec<u8>>) -> Seq<u8>
    decreases chunks.len(),
{
    if chunks.len() == 0 {
        Seq::empty()
    } else {
        joined(chunks.drop_last()) + chunks.last()@
    }
}

/// The digest of a content given in pieces: that of the pieces joined.
pub fn digest_chunks(chunks: &Vec<Vec<u8>>) -> (digest: Digest)
    ensures
        digest@ == md5_digest(joined(chunks@)),
{
    let mut hasher = Hasher::new();
    let mut i: usize = 0;
    while i < chunks.len()
        invariant
            i <= chunks.len(),
            hasher@ == joined(chunks@.take(i as int)),
        decreases chunks.len() - i,
    {
        hasher.update(chunks[i].as_slice());
        proof {
            let next = chunks@.take(i + 1);
            assert(next.drop_last() =~= chunks@.take(i as int));
            assert(next.last() == chunks@[i as int]);
        }
        i += 1;
    }
    proof {
        assert(chunks@.take(i as int) =~= chunks@);
    }
    hasher.finish()
}

/// The digest of a content held in one piece.
pub fn digest_of(content: &[u8]) -> (digest: Digest)
    ensures
        digest@ == md5_digest(content@),
{
    let mut hasher = Hasher::new();
    hasher.update(content);
    assert(Seq::<u8>::empty() + content@ =~= content@);
    hasher.finish()
}

/// A digest that may be missing, as mathematics sees it.
pub open spec fn digest_view(digest: Option<Digest>) -> Option<Seq<u8>> {
    match digest {
        Some(bytes) => Some(bytes@),
        None => None,
    }
}

/// Whether two digests hold the same sixteen bytes.
pub fn same_digest(a: &Digest, b: &Digest) -> (equal: bool)
    ensures
        equal == (a@ == b@),
{
    let mut i: usize = 0;
    while i < 16
        invariant
            i <= 16,
            forall|k: int| 0 <= k < i ==> a@[k] == b@[k],
        decreases 16 - i,
    {
        if a[i] != b[i] {
            return false;
        }
        i += 1;
    }
    assert(a@ =~= b@);
    true
}

} // verus!
