//! Classifying an unlabelled byte stream from a bounded prefix, and handing the
//! whole stream on unchanged.
//!
//! The caller reads into a [`PrefixBuffer`] until it is done (full, or the
//! source ended), classifies the buffered bytes, then forwards the buffered bytes
//! followed, unless the source ended, by whatever the source still holds.
use vstd::prelude::*;
use vstd::utf8::valid_utf8;

use crate::text::{chars_of, opt_chars};

verus! {

/// How many bytes are buffered at most before classifying: 1 MiB.
pub const PREFIX_BUDGET: usize = 1048576;

/// Extension for bytes that are neither a known format nor UTF-8 text.
pub const UNKNOWN_EXT: &'static str = "bin";

/// Extension for UTF-8 text that matches no known format.
pub const TEXT_EXT: &'static str = "txt";

/// The extension that the `infer` signature table gives for a buffer.
pub uninterp spec fn inferred_ext(bytes: Seq<u8>) -> Option<Seq<char>>;

pub open spec fn text_ext() -> Seq<char> {
    seq!['t', 'x', 't']
}

pub open spec fn unknown_ext() -> Seq<char> {
    seq!['b', 'i', 'n']
}

/// The extension chosen from what the signature table found and whether the
/// bytes are UTF-8.
pub open spec fn ext_from(inferred: Option<Seq<char>>, is_utf8: bool) -> Seq<char> {
    match inferred {
        Some(e) => e,
        None => if is_utf8 { text_ext() } else { unknown_ext() },
    }
}

/// The extension under which a buffer is classified.
pub open spec fn ext_for(bytes: Seq<u8>) -> Seq<char> {
    ext_from(inferred_ext(bytes), valid_utf8(bytes))
}

/// Relies on `infer::get` and `infer::Type::extension`: the canonical extension of
/// the first signature that matches the buffer, if any.
#[verifier::external_body]
fn infer_extension(bytes: &[u8]) -> (r: Option<String>)
    ensures
        opt_chars(r) == inferred_ext(bytes@),
{
    infer::get(bytes).map(|t| t.extension().to_string())
}

/// Relies on `std::str::from_utf8`: it succeeds exactly on valid UTF-8.
#[verifier::external_body]
fn is_utf8(bytes: &[u8]) -> (r: bool)
    ensures
        r == valid_utf8(bytes@),
{
    std::str::from_utf8(bytes).is_ok()
}

/// The extension for a buffer, given what the signature table found in it and
/// whether it is UTF-8.
pub fn ext_from_findings(inferred: Option<String>, utf8: bool) -> (r: String)
    ensures
        r@ == ext_from(opt_chars(inferred), utf8),
{
    match inferred {
        Some(e) => e,
        None => {
            if utf8 {
                proof {
                    reveal_strlit("txt");
                }
                let r = String::from_str(TEXT_EXT);
                assert(r@ =~= text_ext());
                r
            } else {
                proof {
                    reveal_strlit("bin");
                }
                let r = String::from_str(UNKNOWN_EXT);
                assert(r@ =~= unknown_ext());
                r
            }
        },
    }
}

/// The extension for a buffer: the format the signature table recognizes,
/// else `txt` for UTF-8 text, else `bin`.
pub fn guess_ext_from_bytes(bytes: &[u8]) -> (r: String)
    ensures
        r@ == ext_for(bytes@),
{
    let inferred = infer_extension(bytes);
    let utf8 = is_utf8(bytes);
    ext_from_findings(inferred, utf8)
}

/// What a prefix buffer holds: the bytes read so far, whether the source has
/// ended, and how many bytes it may hold.
pub struct PrefixView {
    pub bytes: Seq<u8>,
    pub ended: bool,
    pub budget: nat,
}

pub open spec fn empty_prefix(budget: nat) -> PrefixView {
    PrefixView { bytes: Seq::empty(), ended: false, budget }
}

/// No more reading is needed: the source ended or the budget is used up.
pub open spec fn prefix_done(v: PrefixView) -> bool {
    v.ended || v.bytes.len() >= v.budget
}

/// A read of `chunk` may be handed to the buffer: it is still reading and the
/// chunk fits in what is left of the budget. An empty chunk reports the end.
pub open spec fn accepts(v: PrefixView, chunk: Seq<u8>) -> bool {
    !prefix_done(v) && v.bytes.len() + chunk.len() <= v.budget
}

pub open spec fn offer_spec(v: PrefixView, chunk: Seq<u8>) -> PrefixView {
    if chunk.len() == 0 {
        PrefixView { ended: true, ..v }
    } else {
        PrefixView { bytes: v.bytes + chunk, ..v }
    }
}

/// Each chunk is accepted by the state that the ones before it left.
pub open spec fn feedable(v: PrefixView, chunks: Seq<Seq<u8>>) -> bool
    decreases chunks.len(),
{
    chunks.len() == 0 || (accepts(v, chunks[0]) && feedable(offer_spec(v, chunks[0]), chunks.drop_first()))
}

pub open spec fn feed(v: PrefixView, chunks: Seq<Seq<u8>>) -> PrefixView
    decreases chunks.len(),
{
    if chunks.len() == 0 {
        v
    } else {
        feed(offer_spec(v, chunks[0]), chunks.drop_first())
    }
}

pub open spec fn flatten(chunks: Seq<Seq<u8>>) -> Seq<u8>
    decreases chunks.len(),
{
    if chunks.len() == 0 {
        Seq::empty()
    } else {
        chunks[0] + flatten(chunks.drop_first())
    }
}

/// The stream handed on: the buffered bytes, then, unless the source ended
/// while buffering, the rest of the source.
pub open spec fn reconstructed(v: PrefixView, rest: Seq<u8>) -> Seq<u8> {
    if v.ended {
        v.bytes
    } else {
        v.bytes + rest
    }
}

/// The first bytes of a stream, read up to a fixed budget.
pub struct PrefixBuffer {
    buf: Vec<u8>,
    budget: usize,
    ended: bool,
}

impl PrefixBuffer {
    pub closed spec fn view(&self) -> PrefixView {
        PrefixView { bytes: self.buf@, ended: self.ended, budget: self.budget as nat }
    }

    /// The buffer never holds more than its budget.
    pub closed spec fn wf(&self) -> bool {
        self.buf@.len() <= self.budget
    }

    /// An empty buffer with the default budget of 1 MiB.
    pub fn new() -> (r: PrefixBuffer)
        ensures
            r.wf(),
            r@ == empty_prefix(PREFIX_BUDGET as nat),
    {
        Self::with_budget(PREFIX_BUDGET)
    }

    /// An empty buffer that holds at most `budget` bytes.
    pub fn with_budget(budget: usize) -> (r: PrefixBuffer)
        ensures
            r.wf(),
            r@ == empty_prefix(budget as nat),
    {
        let r = PrefixBuffer { buf: Vec::new(), budget, ended: false };
        assert(r@.bytes =~= Seq::<u8>::empty());
        r
    }

    /// How many more bytes the next read may deliver.
    pub fn room(&self) -> (r: usize)
        requires
            self.wf(),
        ensures
            r == self@.budget - self@.bytes.len(),
    {
        self.budget - self.buf.len()
    }

    /// Whether reading should stop.
    pub fn is_done(&self) -> (r: bool)
        requires
            self.wf(),
        ensures
            r == prefix_done(self@),
    {
        self.ended || self.buf.len() >= self.budget
    }

    /// Takes the result of one read: its bytes, or an empty chunk when the
    /// source has ended.
    pub fn offer(&mut self, chunk: &[u8])
        requires
            old(self).wf(),
            accepts(old(self)@, chunk@),
        ensures
            final(self).wf(),
            final(self)@ == offer_spec(old(self)@, chunk@),
    {
        if chunk.len() == 0 {
            self.ended = true;
            return;
        }
        let ghost before = self.buf@;
        let mut i: usize = 0;
        while i < chunk.len()
            invariant
                i <= chunk@.len(),
                self.buf@ == before + chunk@.subrange(0, i as int),
                self.budget == old(self).budget,
                self.ended == old(self).ended,
            decreases chunk.len() - i,
        {
            self.buf.push(chunk[i]);
            assert(chunk@.subrange(0, i + 1) =~= chunk@.subrange(0, i as int).push(chunk@[i as int]));
            i = i + 1;
        }
        assert(chunk@.subrange(0, chunk@.len() as int) =~= chunk@);
    }

    /// Whether the source ended while buffering, so nothing follows the prefix.
    pub fn reached_end(&self) -> (r: bool)
        ensures
            r == self@.ended,
    {
        self.ended
    }

    /// The buffered bytes.
    pub fn prefix(&self) -> (r: &Vec<u8>)
        ensures
            r@ == self@.bytes,
    {
        &self.buf
    }

    /// Gives up the buffered bytes.
    pub fn into_prefix(self) -> (r: Vec<u8>)
        ensures
            r@ == self@.bytes,
    {
        self.buf
    }

    /// The extension under which the buffered bytes are classified.
    pub fn classify(&self) -> (r: String)
        ensures
            r@ == ext_for(self@.bytes),
    {
        guess_ext_from_bytes(self.buf.as_slice())
    }
}

proof fn lemma_feed(v: PrefixView, chunks: Seq<Seq<u8>>)
    requires
        v.bytes.len() <= v.budget,
        feedable(v, chunks),
    ensures
        feed(v, chunks).bytes == v.bytes + flatten(chunks),
        feed(v, chunks).bytes.len() <= v.budget,
        feed(v, chunks).budget == v.budget,
        feed(v, chunks).ended == (v.ended || exists|i: int| 0 <= i < chunks.len() && chunks[i].len() == 0),
    decreases chunks.len(),
{
    if chunks.len() == 0 {
        assert(v.bytes + flatten(chunks) =~= v.bytes);
    } else {
        let w = offer_spec(v, chunks[0]);
        let tail = chunks.drop_first();
        lemma_feed(w, tail);
        assert(v.bytes + flatten(chunks) =~= w.bytes + flatten(tail));
        if feed(v, chunks).ended && !v.ended && chunks[0].len() != 0 {
            let j = choose|j: int| 0 <= j < tail.len() && tail[j].len() == 0;
            assert(chunks[j + 1] == tail[j]);
        }
        if exists|i: int| 0 <= i < chunks.len() && chunks[i].len() == 0 {
            let i = choose|i: int| 0 <= i < chunks.len() && chunks[i].len() == 0;
            if i > 0 {
                assert(tail[i - 1] == chunks[i]);
            }
        }
    }
}

/// Whatever reads are handed to a buffer, it never holds more than its budget,
/// it holds exactly the bytes read, and the stream handed on is the source in
/// full and in order: the bytes read, then everything after them.
pub proof fn lemma_stream_reproduced(budget: nat, chunks: Seq<Seq<u8>>, rest: Seq<u8>)
    requires
        feedable(empty_prefix(budget), chunks),
    ensures
        feed(empty_prefix(budget), chunks).bytes.len() <= budget,
        feed(empty_prefix(budget), chunks).bytes == flatten(chunks),
        !feed(empty_prefix(budget), chunks).ended ==> reconstructed(feed(empty_prefix(budget), chunks), rest)
            == flatten(chunks) + rest,
{
    lemma_feed(empty_prefix(budget), chunks);
    assert(empty_prefix(budget).bytes + flatten(chunks) =~= flatten(chunks));
}

/// A source that ends before the budget is used up is read to its end: the
/// stream handed on is exactly the source, of the same length, and it is
/// classified on all of its bytes.
pub proof fn lemma_short_input_whole(budget: nat, chunks: Seq<Seq<u8>>, rest: Seq<u8>)
    requires
        feedable(empty_prefix(budget), chunks),
        chunks.len() > 0,
        chunks.last().len() == 0,
    ensures
        flatten(chunks).len() < budget,
        feed(empty_prefix(budget), chunks).ended,
        reconstructed(feed(empty_prefix(budget), chunks), rest) == flatten(chunks),
        reconstructed(feed(empty_prefix(budget), chunks), rest).len() == flatten(chunks).len(),
        ext_for(feed(empty_prefix(budget), chunks).bytes) == ext_for(flatten(chunks)),
        inferred_ext(flatten(chunks)) is None && valid_utf8(flatten(chunks))
            ==> ext_for(feed(empty_prefix(budget), chunks).bytes) == text_ext(),
{
    let v = empty_prefix(budget);
    lemma_feed(v, chunks);
    assert(v.bytes + flatten(chunks) =~= flatten(chunks));
    assert(chunks[chunks.len() - 1].len() == 0);
    lemma_last_accepted(v, chunks);
    lemma_flatten_push(chunks.drop_last(), chunks.last());
    assert(chunks.drop_last().push(chunks.last()) =~= chunks);
    assert(flatten(chunks.drop_last()) + chunks.last() =~= flatten(chunks.drop_last()));
}

proof fn lemma_flatten_push(chunks: Seq<Seq<u8>>, c: Seq<u8>)
    ensures
        flatten(chunks.push(c)) == flatten(chunks) + c,
    decreases chunks.len(),
{
    if chunks.len() == 0 {
        let one = chunks.push(c);
        assert(one.drop_first() =~= Seq::<Seq<u8>>::empty());
        assert(one[0] == c);
        assert(flatten(one.drop_first()) == Seq::<u8>::empty());
        assert(flatten(one) == one[0] + flatten(one.drop_first()));
        assert(flatten(one) =~= c);
        assert(flatten(chunks) + c =~= c);
    } else {
        lemma_flatten_push(chunks.drop_first(), c);
        assert(chunks.push(c).drop_first() =~= chunks.drop_first().push(c));
        assert(flatten(chunks.push(c)) =~= chunks[0] + (flatten(chunks.drop_first()) + c));
    }
}

proof fn lemma_last_accepted(v: PrefixView, chunks: Seq<Seq<u8>>)
    requires
        v.bytes.len() <= v.budget,
        feedable(v, chunks),
        chunks.len() > 0,
    ensures
        v.bytes.len() + flatten(chunks.drop_last()).len() < v.budget,
    decreases chunks.len(),
{
    if chunks.len() == 1 {
        assert(flatten(chunks.drop_last()) =~= Seq::<u8>::empty());
    } else {
        let w = offer_spec(v, chunks[0]);
        let tail = chunks.drop_first();
        lemma_last_accepted(w, tail);
        assert(tail.drop_last() =~= chunks.drop_last().drop_first());
        assert(flatten(chunks.drop_last()) == chunks[0] + flatten(chunks.drop_last().drop_first()));
    }
}

} // verus!
