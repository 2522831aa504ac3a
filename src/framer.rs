use vstd::prelude::*;

use bytes::BytesMut;

use crate::util::{crlf_at, find_cr_lf, first_crlf, has_crlf};

verus! {

#[verifier::external_type_specification]
#[verifier::external_body]
pub struct ExBytesMut(BytesMut);

/// The bytes a buffer holds.
pub uninterp spec fn bytes_held(b: BytesMut) -> Seq<u8>;

/// Relies on bytes' `BytesMut::new`: an empty buffer.
#[verifier::external_body]
fn empty_buffer() -> (r: BytesMut)
    ensures
        bytes_held(r) == Seq::<u8>::empty(),
{
    BytesMut::new()
}

/// Relies on bytes' `BytesMut::extend_from_slice`: appends the slice.
#[verifier::external_body]
fn append_bytes(b: &mut BytesMut, extend: &[u8])
    ensures
        bytes_held(*final(b)) == bytes_held(*old(b)) + extend@,
{
    b.extend_from_slice(extend)
}

/// Relies on bytes' `BytesMut` as `AsRef<[u8]>`: the bytes held, as a slice.
#[verifier::external_body]
fn buffer_slice(b: &BytesMut) -> (r: &[u8])
    ensures
        r@ == bytes_held(*b),
{
    b.as_ref()
}

/// Relies on bytes' `BytesMut::split_to`: takes the first `at` bytes out of
/// the buffer; it panics where `at` exceeds the length.
#[verifier::external_body]
fn split_front(b: &mut BytesMut, at: usize) -> (r: Vec<u8>)
    requires
        at <= bytes_held(*old(b)).len(),
    ensures
        r@ == bytes_held(*old(b)).take(at as int),
        bytes_held(*final(b)) == bytes_held(*old(b)).skip(at as int),
{
    b.split_to(at).to_vec()
}

/// Index of the first CRLF of `b`, which holds one.
pub open spec fn crlf_index(b: Seq<u8>) -> int {
    choose|i: int| first_crlf(b, i)
}

/// A payload: it ends with CRLF and holds no CRLF before that.
pub open spec fn is_frame(f: Seq<u8>) -> bool {
    &&& f.len() >= 2
    &&& crlf_at(f, f.len() - 2)
    &&& forall|j: int| 0 <= j < f.len() - 2 ==> !crlf_at(f, j)
}

/// The payloads that `b` splits into, in order.
pub open spec fn frames(b: Seq<u8>) -> Seq<Seq<u8>>
    decreases b.len(),
{
    if has_crlf(b) {
        let i = crlf_index(b);
        if 0 <= i && i + 2 <= b.len() {
            seq![b.take(i + 2)] + frames(b.skip(i + 2))
        } else {
            Seq::empty()
        }
    } else {
        Seq::empty()
    }
}

/// What is left of `b` after its payloads.
pub open spec fn unframed(b: Seq<u8>) -> Seq<u8>
    decreases b.len(),
{
    if has_crlf(b) {
        let i = crlf_index(b);
        if 0 <= i && i + 2 <= b.len() {
            unframed(b.skip(i + 2))
        } else {
            b
        }
    } else {
        b
    }
}

/// The concatenation of `fs`.
pub open spec fn flatten(fs: Seq<Seq<u8>>) -> Seq<u8>
    decreases fs.len(),
{
    if fs.len() == 0 {
        Seq::empty()
    } else {
        fs[0] + flatten(fs.drop_first())
    }
}

proof fn lemma_first_crlf_unique(b: Seq<u8>, i: int)
    requires
        first_crlf(b, i),
    ensures
        has_crlf(b),
        crlf_index(b) == i,
{
    let k = crlf_index(b);
    assert(first_crlf(b, k));
    if k < i {
        assert(!crlf_at(b, k));
    } else if i < k {
        assert(!crlf_at(b, i));
    }
}

/// The payloads of a byte sequence, concatenated, give it back up to its
/// last CRLF; what follows holds no CRLF; and each payload ends with CRLF
/// and holds no other.
pub proof fn lemma_frames_cover(b: Seq<u8>)
    ensures
        flatten(frames(b)) + unframed(b) == b,
        !has_crlf(unframed(b)),
        forall|k: int| 0 <= k < frames(b).len() ==> is_frame(#[trigger] frames(b)[k]),
    decreases b.len(),
{
    if has_crlf(b) {
        let w = choose|w: int| crlf_at(b, w);
        let i = crlf_index(b);
        assert(exists|i: int| first_crlf(b, i)) by {
            lemma_some_first_crlf(b, w);
        }
        assert(first_crlf(b, i));
        let f = b.take(i + 2);
        let rest = b.skip(i + 2);
        lemma_frames_cover(rest);
        assert(frames(b).drop_first() =~= frames(rest));
        assert(f + rest =~= b);
        assert(f + (flatten(frames(rest)) + unframed(rest)) == flatten(frames(b)) + unframed(b));
        assert(crlf_at(f, f.len() - 2));
        assert forall|j: int| 0 <= j < f.len() - 2 implies !crlf_at(f, j) by {
            assert(!crlf_at(b, j));
        }
        assert forall|k: int| 0 <= k < frames(b).len() implies is_frame(#[trigger] frames(b)[k]) by {
            if k > 0 {
                assert(frames(b)[k] == frames(rest)[k - 1]);
            }
        }
    }
}

proof fn lemma_some_first_crlf(b: Seq<u8>, w: int)
    requires
        crlf_at(b, w),
    ensures
        exists|i: int| first_crlf(b, i),
    decreases w,
{
    if exists|j: int| 0 <= j < w && crlf_at(b, j) {
        let j = choose|j: int| 0 <= j < w && crlf_at(b, j);
        lemma_some_first_crlf(b, j);
    } else {
        assert(first_crlf(b, w));
    }
}

/// Payloads already taken out do not depend on what arrives after them:
/// the payloads of whole payloads followed by more bytes are those payloads
/// followed by the payloads of the rest. So however the stream is cut into
/// chunks, pulling yields the same payloads.
pub proof fn lemma_frames_concat(fs: Seq<Seq<u8>>, rest: Seq<u8>)
    requires
        forall|k: int| 0 <= k < fs.len() ==> is_frame(#[trigger] fs[k]),
    ensures
        frames(flatten(fs) + rest) == fs + frames(rest),
    decreases fs.len(),
{
    if fs.len() == 0 {
        assert(flatten(fs) + rest =~= rest);
        assert(fs + frames(rest) =~= frames(rest));
    } else {
        let f = fs[0];
        let tail = fs.drop_first();
        assert forall|k: int| 0 <= k < tail.len() implies is_frame(#[trigger] tail[k]) by {
            assert(tail[k] == fs[k + 1]);
        }
        lemma_frames_concat(tail, rest);
        let b = flatten(fs) + rest;
        assert(b =~= f + (flatten(tail) + rest));
        assert(is_frame(f));
        let i = f.len() - 2;
        assert(crlf_at(b, i));
        assert forall|j: int| 0 <= j < i implies !crlf_at(b, j) by {
            assert(!crlf_at(f, j));
            assert(b[j] == f[j] && b[j + 1] == f[j + 1]);
        }
        lemma_first_crlf_unique(b, i);
        assert(b.take(i + 2) =~= f);
        assert(b.skip(i + 2) =~= flatten(tail) + rest);
        assert(fs =~= seq![f] + tail);
        assert(fs + frames(rest) =~= seq![f] + (tail + frames(rest)));
    }
}

proof fn lemma_flatten_push(fs: Seq<Seq<u8>>, f: Seq<u8>)
    ensures
        flatten(fs.push(f)) == flatten(fs) + f,
    decreases fs.len(),
{
    if fs.len() == 0 {
        assert(fs.push(f).drop_first() =~= Seq::<Seq<u8>>::empty());
        assert(flatten(Seq::<Seq<u8>>::empty()) == Seq::<u8>::empty());
        assert(fs.push(f)[0] == f);
        assert(flatten(fs.push(f)) =~= f);
    } else {
        assert(fs.push(f).drop_first() =~= fs.drop_first().push(f));
        lemma_flatten_push(fs.drop_first(), f);
        assert(flatten(fs.push(f)) =~= flatten(fs) + f);
    }
}

/// Splits a byte stream, fed in chunks of any size, into CRLF-terminated
/// payloads.
pub struct Framer {
    partial_payload: BytesMut,
    received: Ghost<Seq<u8>>,
    emitted: Ghost<Seq<Seq<u8>>>,
}

impl Framer {
    /// The bytes received that do not yet form a payload.
    pub closed spec fn buffered(&self) -> Seq<u8> {
        bytes_held(self.partial_payload)
    }

    /// Every byte received so far, in order.
    pub closed spec fn received(&self) -> Seq<u8> {
        self.received@
    }

    /// Every payload handed out so far, in order.
    pub closed spec fn emitted(&self) -> Seq<Seq<u8>> {
        self.emitted@
    }

    /// The payloads handed out, followed by the buffer, are the bytes
    /// received; each payload ends with CRLF and holds no other.
    pub closed spec fn wf(&self) -> bool {
        &&& self.received() == flatten(self.emitted()) + self.buffered()
        &&& forall|k: int| 0 <= k < self.emitted().len() ==> is_frame(#[trigger] self.emitted()[k])
    }

    /// However the received bytes were cut into chunks, the payloads handed
    /// out and those still in the buffer are the payloads of the bytes
    /// received, and the payloads handed out are these bytes up to a CRLF.
    pub proof fn lemma_payloads_of_received(&self)
        requires
            self.wf(),
        ensures
            frames(self.received()) == self.emitted() + frames(self.buffered()),
            forall|k: int| 0 <= k < self.emitted().len() ==> is_frame(#[trigger] self.emitted()[k]),
            self.received() == flatten(self.emitted()) + self.buffered(),
    {
        lemma_frames_concat(self.emitted(), self.buffered());
    }

    pub fn new() -> (r: Framer)
        ensures
            r.wf(),
            r.buffered() == Seq::<u8>::empty(),
            r.received() == Seq::<u8>::empty(),
            r.emitted() == Seq::<Seq<u8>>::empty(),
    {
        let r = Framer { partial_payload: empty_buffer(), received: Ghost(Seq::empty()), emitted: Ghost(Seq::empty()) };
        assert(flatten(r.emitted()) + r.buffered() =~= Seq::<u8>::empty());
        r
    }

    /// Appends a chunk received from the transport.
    pub fn push_chunk(&mut self, chunk: &[u8])
        requires
            old(self).wf(),
        ensures
            final(self).wf(),
            final(self).buffered() == old(self).buffered() + chunk@,
            final(self).received() == old(self).received() + chunk@,
            final(self).emitted() == old(self).emitted(),
    {
        append_bytes(&mut self.partial_payload, chunk);
        self.received = Ghost(self.received@ + chunk@);
        assert(self.received() =~= flatten(self.emitted()) + self.buffered());
    }

    /// Takes out the first payload, up to and including its CRLF; `None`
    /// while the buffer holds no CRLF, and then the buffer stays as it is.
    pub fn next_payload(&mut self) -> (r: Option<Vec<u8>>)
        requires
            old(self).wf(),
        ensures
            final(self).wf(),
            final(self).received() == old(self).received(),
            match r {
                Some(p) => {
                    &&& has_crlf(old(self).buffered())
                    &&& frames(old(self).buffered()).len() > 0
                    &&& p@ == frames(old(self).buffered())[0]
                    &&& is_frame(p@)
                    &&& old(self).buffered() == p@ + final(self).buffered()
                    &&& frames(old(self).buffered()) == seq![p@] + frames(final(self).buffered())
                    &&& final(self).emitted() == old(self).emitted().push(p@)
                },
                None => {
                    &&& !has_crlf(old(self).buffered())
                    &&& frames(old(self).buffered()) == Seq::<Seq<u8>>::empty()
                    &&& final(self).buffered() == old(self).buffered()
                    &&& final(self).emitted() == old(self).emitted()
                },
            },
    {
        let buf = buffer_slice(&self.partial_payload);
        // The slice's length is a usize, which bounds the split point below.
        let _len = buf.len();
        let found = find_cr_lf(buf);
        match found {
            Some(i) => {
                let ghost b = self.buffered();
                let ghost e = self.emitted();
                proof {
                    lemma_first_crlf_unique(b, i as int);
                    lemma_frames_cover(b);
                }
                let payload = split_front(&mut self.partial_payload, i + 2);
                assert(b =~= payload@ + self.buffered());
                self.emitted = Ghost(self.emitted@.push(payload@));
                proof {
                    assert(frames(b)[0] == payload@);
                    lemma_flatten_push(e, payload@);
                    assert(self.received() =~= flatten(self.emitted()) + self.buffered());
                    assert forall|k: int| 0 <= k < self.emitted().len() implies is_frame(#[trigger] self.emitted()[k]) by {
                        if k < e.len() {
                            assert(self.emitted()[k] == e[k]);
                        }
                    }
                }
                Some(payload)
            },
            None => None,
        }
    }
}

} // verus!
