use vstd::prelude::*;
use xitca_http::http::Extensions;
use vstd::string::StringSliceAdditionalSpecFns;
use crate::dispatcher::{decimal, push_all, push_decimal};

verus! {

/// The body stream of a request, taken whole out of it.
pub struct Body<B>(pub B);

/// A bound on a collected body's size. `LIMIT` bytes at most when it is
/// above zero; no bound when it is zero.
pub struct Limit<const LIMIT: usize>;

/// A collected body grew past its bound.
#[derive(Clone, Copy, Debug, PartialEq, Eq, Structural)]
pub struct BodyOverFlow {
    pub limit: usize,
    pub len: usize,
}

impl BodyOverFlow {
    /// The bound that was passed.
    pub fn limit(&self) -> (r: usize)
        ensures
            r == self.limit,
    {
        self.limit
    }

    /// The report in words: the bound and the size reached, as ASCII text.
    pub fn message(&self) -> (r: Vec<u8>)
        ensures
            r@ == overflow_message(self.limit, self.len),
    {
        let mut r: Vec<u8> = Vec::new();
        push_all(&mut r, "body size over flow. limit: ".as_bytes());
        push_decimal(&mut r, self.limit as u64);
        push_all(&mut r, ", actual_len: ".as_bytes());
        push_decimal(&mut r, self.len as u64);
        r
    }

    /// The size reached when the bound was passed.
    pub fn len(&self) -> (r: usize)
        ensures
            r == self.len,
    {
        self.len
    }
}

/// Text reporting that a body of `len` bytes passed the bound `limit`.
pub open spec fn overflow_message(limit: usize, len: usize) -> Seq<u8> {
    "body size over flow. limit: ".spec_bytes() + decimal(limit as nat) + ", actual_len: ".spec_bytes()
        + decimal(len as nat)
}

/// The concatenation of a body's chunks.
pub open spec fn flat(chunks: Seq<Seq<u8>>) -> Seq<u8>
    decreases chunks.len(),
{
    if chunks.len() == 0 {
        Seq::empty()
    } else {
        flat(chunks.drop_last()) + chunks.last()
    }
}

/// The bytes of a body's chunks, each chunk by its view.
pub open spec fn chunk_views(chunks: Seq<Vec<u8>>) -> Seq<Seq<u8>> {
    chunks.map_values(|c: Vec<u8>| c@)
}

/// Size of the body after its first `k` chunks.
pub open spec fn prefix_len(chunks: Seq<Seq<u8>>, k: int) -> int {
    flat(chunks.take(k)).len() as int
}

/// Whether the bound `limit` is passed.
pub open spec fn over(limit: usize, len: int) -> bool {
    limit > 0 && len > limit
}

/// `e` reports the first chunk after which the body passes `limit`: the
/// bound and the size reached there.
pub open spec fn first_overflow(cs: Seq<Seq<u8>>, limit: usize, e: BodyOverFlow) -> bool {
    exists|k: int|
        0 <= k < cs.len() && over(limit, #[trigger] prefix_len(cs, k + 1)) && (forall|j: int|
            0 <= j < k ==> !over(limit, #[trigger] prefix_len(cs, j + 1))) && e == (BodyOverFlow {
            limit,
            len: prefix_len(cs, k + 1) as usize,
        })
}

/// The bound that applies to a body. A declared content length lowers the
/// configured bound where it is lower and above zero; no declared length
/// can lift the bound, nor remove it by being zero. A configured bound of
/// zero means no bound and stays so.
pub open spec fn limit_spec(content_length: Option<usize>, limit: usize) -> usize {
    match content_length {
        Some(n) => if 0 < n && n < limit {
            n
        } else {
            limit
        },
        None => limit,
    }
}

/// The bound that applies to a body, from its declared content length and
/// the configured bound.
pub fn effective_limit(content_length: Option<usize>, limit: usize) -> (r: usize)
    ensures
        r == limit_spec(content_length, limit),
        limit > 0 ==> 0 < r <= limit,
        limit == 0 ==> r == 0,
{
    match content_length {
        Some(n) => if 0 < n && n < limit {
            n
        } else {
            limit
        },
        None => limit,
    }
}

/// Appends a chunk to a body being collected, and fails once the body is
/// larger than a bound above zero.
pub fn extend_limited(buf: &mut Vec<u8>, chunk: &[u8], limit: usize) -> (r: Result<(), BodyOverFlow>)
    requires
        old(buf)@.len() + chunk@.len() <= usize::MAX,
    ensures
        final(buf)@ == old(buf)@ + chunk@,
        r is Ok <==> !over(limit, final(buf)@.len() as int),
        r is Err ==> r == Err::<(), BodyOverFlow>(BodyOverFlow { limit, len: final(buf)@.len() as usize }),
{
    let mut i: usize = 0;
    let ghost start = buf@;
    while i < chunk.len()
        invariant
            i <= chunk.len(),
            buf@ == start + chunk@.subrange(0, i as int),
        decreases chunk.len() - i,
    {
        buf.push(chunk[i]);
        i = i + 1;
        assert(buf@ =~= start + chunk@.subrange(0, i as int));
    }
    assert(chunk@.subrange(0, chunk.len() as int) =~= chunk@);
    if limit > 0 && buf.len() > limit {
        return Err(BodyOverFlow { limit, len: buf.len() });
    }
    Ok(())
}

proof fn lemma_flat_take(chunks: Seq<Seq<u8>>, k: int)
    requires
        0 <= k < chunks.len(),
    ensures
        flat(chunks.take(k + 1)) == flat(chunks.take(k)) + chunks[k],
{
    assert(chunks.take(k + 1).drop_last() =~= chunks.take(k));
}

proof fn lemma_prefix_monotone(chunks: Seq<Seq<u8>>, j: int, k: int)
    requires
        0 <= j <= k <= chunks.len(),
    ensures
        prefix_len(chunks, j) <= prefix_len(chunks, k),
    decreases k - j,
{
    if j < k {
        lemma_prefix_monotone(chunks, j, k - 1);
        lemma_flat_take(chunks, k - 1);
    }
}

/// Collects a body from its chunks in order. With a bound above zero, fails
/// at the first chunk after which the body is larger than the bound,
/// reporting the size reached there.
pub fn collect_limited(chunks: &Vec<Vec<u8>>, limit: usize) -> (r: Result<Vec<u8>, BodyOverFlow>)
    requires
        flat(chunk_views(chunks@)).len() <= usize::MAX,
    ensures
        r is Ok <==> !over(limit, flat(chunk_views(chunks@)).len() as int),
        r is Ok ==> r->Ok_0@ == flat(chunk_views(chunks@)),
        r is Err ==> first_overflow(chunk_views(chunks@), limit, r->Err_0),
{
    let ghost cs = chunk_views(chunks@);
    let mut buf: Vec<u8> = Vec::new();
    let mut i: usize = 0;
    proof {
        assert(cs.take(0) =~= Seq::<Seq<u8>>::empty());
        lemma_prefix_monotone(cs, 0, cs.len() as int);
        assert(cs.take(cs.len() as int) =~= cs);
    }
    while i < chunks.len()
        invariant
            i <= chunks.len(),
            cs == chunk_views(chunks@),
            cs.len() == chunks@.len(),
            buf@ == flat(cs.take(i as int)),
            flat(cs).len() <= usize::MAX,
            cs.take(cs.len() as int) == cs,
            forall|j: int| 0 <= j < i ==> !over(limit, #[trigger] prefix_len(cs, j + 1)),
        decreases chunks.len() - i,
    {
        proof {
            lemma_flat_take(cs, i as int);
            lemma_prefix_monotone(cs, i + 1, cs.len() as int);
            assert(cs[i as int] == chunks@[i as int]@);
        }
        let res = extend_limited(&mut buf, chunks[i].as_slice(), limit);
        match res {
            Err(e) => {
                proof {
                    assert(prefix_len(cs, i + 1) == buf@.len());
                }
                return Err(e);
            },
            Ok(()) => {},
        }
        proof {
            assert(prefix_len(cs, i + 1) == buf@.len());
        }
        i = i + 1;
    }
    proof {
        if cs.len() > 0 {
            assert(!over(limit, prefix_len(cs, (cs.len() - 1) + 1)));
        }
    }
    Ok(buf)
}

impl<const LIMIT: usize> Limit<LIMIT> {
    /// Collects a body under this bound, lowered to the declared content
    /// length where that is given, above zero and lower. With a bound above
    /// zero a collected body never exceeds it.
    pub fn collect(chunks: &Vec<Vec<u8>>, content_length: Option<usize>) -> (r: Result<Vec<u8>, BodyOverFlow>)
        requires
            flat(chunk_views(chunks@)).len() <= usize::MAX,
        ensures
            ({
                let limit = limit_spec(content_length, LIMIT);
                &&& r is Ok <==> !over(limit, flat(chunk_views(chunks@)).len() as int)
                &&& r is Ok ==> r->Ok_0@ == flat(chunk_views(chunks@))
                &&& r is Err ==> first_overflow(chunk_views(chunks@), limit, r->Err_0)
                &&& (LIMIT > 0 && r is Ok) ==> r->Ok_0@.len() <= LIMIT
            }),
    {
        let limit = effective_limit(content_length, LIMIT);
        collect_limited(chunks, limit)
    }
}

/// A shared reference to a value stored in a request's extensions.
pub struct ExtensionRef<'a, T>(pub &'a T);

impl<'a, T> ExtensionRef<'a, T> {
    /// The referenced value.
    pub fn get(&self) -> (r: &'a T)
        ensures
            r == self.0,
    {
        self.0
    }
}

impl<'a, T> core::ops::Deref for ExtensionRef<'a, T> {
    type Target = T;

    fn deref(&self) -> (r: &T)
        ensures
            r == self.0,
    {
        self.0
    }
}

/// http's typed map of request extensions, carried by reference.
#[verifier::external_type_specification]
#[verifier::external_body]
pub struct ExExtensions(Extensions);

/// A shared reference to all extensions of a request.
pub struct ExtensionsRef<'a>(pub &'a Extensions);

impl<'a> ExtensionsRef<'a> {
    /// The referenced extensions.
    pub fn get(&self) -> (r: &'a Extensions)
        ensures
            r == self.0,
    {
        self.0
    }
}

} // verus!
