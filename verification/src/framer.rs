//! Framing of the byte stream: one record per line.
//!
//! Each direction of a connection carries records that end with a line feed.
//! The framer takes the bytes as they arrive, in chunks of any size, and
//! hands out the records that are complete; what follows the last line feed
//! waits for the next chunk. Records are UTF-8 text.

use vstd::prelude::*;
use vstd::utf8::{decode_utf8, encode_utf8, valid_utf8};

verus! {

/// The byte that ends a record.
pub const LINE_FEED: u8 = 10;

/// The records completed by `chunk`, arriving after the unfinished record
/// `pending`, and the unfinished record that is left.
pub open spec fn feed(pending: Seq<u8>, chunk: Seq<u8>) -> (Seq<Seq<u8>>, Seq<u8>)
    decreases chunk.len(),
{
    if chunk.len() == 0 {
        (Seq::empty(), pending)
    } else {
        let (done, open) = feed(pending, chunk.drop_last());
        if chunk.last() == LINE_FEED {
            (done.push(open), Seq::empty())
        } else {
            (done, open.push(chunk.last()))
        }
    }
}

/// The stream that carries `records`, each ended by a line feed, and then
/// `rest`.
pub open spec fn stream_of(records: Seq<Seq<u8>>, rest: Seq<u8>) -> Seq<u8>
    decreases records.len(),
{
    if records.len() == 0 {
        rest
    } else {
        stream_of(records.drop_last(), records.last().push(LINE_FEED) + rest)
    }
}

/// The views of a list of records.
pub open spec fn contents(records: Seq<Vec<u8>>) -> Seq<Seq<u8>> {
    Seq::new(records.len(), |i: int| records[i]@)
}

/// Splitting loses and invents nothing: the records that a chunk completes,
/// each with its line feed, followed by what is left unfinished, are the
/// unfinished bytes from before followed by the chunk. No record holds a
/// line feed, and neither does what is left if what came before held none.
pub proof fn law_feed_keeps_the_stream(pending: Seq<u8>, chunk: Seq<u8>)
    ensures
        stream_of(feed(pending, chunk).0, feed(pending, chunk).1) == pending + chunk,
        !pending.contains(LINE_FEED) ==> !feed(pending, chunk).1.contains(LINE_FEED),
        !pending.contains(LINE_FEED) ==> forall|i: int|
            0 <= i < feed(pending, chunk).0.len() ==> !(#[trigger] feed(
                pending,
                chunk,
            ).0[i]).contains(LINE_FEED),
    decreases chunk.len(),
{
    if chunk.len() > 0 {
        let front = chunk.drop_last();
        let (done, open) = feed(pending, front);
        law_feed_keeps_the_stream(pending, front);
        lemma_stream_push(done, open, seq![chunk.last()]);
        assert(open + seq![chunk.last()] =~= open.push(chunk.last()));
        if chunk.last() == LINE_FEED {
            assert(done.push(open).drop_last() =~= done);
        }
    }
}

/// Bytes appended to the unfinished record are appended to the stream.
proof fn lemma_stream_push(records: Seq<Seq<u8>>, rest: Seq<u8>, more: Seq<u8>)
    ensures
        stream_of(records, rest + more) == stream_of(records, rest) + more,
    decreases records.len(),
{
    if records.len() > 0 {
        let head = records.last().push(LINE_FEED);
        lemma_stream_push(records.drop_last(), head + rest, more);
        assert(head + (rest + more) =~= (head + rest) + more);
    }
}

/// It does not matter how the stream is cut into chunks: feeding two chunks
/// one after the other completes the same records, in the same order, and
/// leaves the same bytes unfinished as feeding them as one.
pub proof fn law_chunking_is_irrelevant(pending: Seq<u8>, first: Seq<u8>, second: Seq<u8>)
    ensures
        feed(pending, first + second).0 == feed(pending, first).0 + feed(
            feed(pending, first).1,
            second,
        ).0,
        feed(pending, first + second).1 == feed(feed(pending, first).1, second).1,
    decreases second.len(),
{
    if second.len() > 0 {
        law_chunking_is_irrelevant(pending, first, second.drop_last());
        assert((first + second).drop_last() =~= first + second.drop_last());
    }
}

/// A record followed by its line feed, fed to a framer that holds nothing,
/// comes out as that one record.
pub proof fn law_one_line_one_record(record: Seq<u8>)
    requires
        !record.contains(LINE_FEED),
    ensures
        feed(Seq::empty(), record.push(LINE_FEED)) == (seq![record], Seq::<u8>::empty()),
{
    lemma_feed_without_line_feed(Seq::empty(), record);
    assert(record.push(LINE_FEED).drop_last() =~= record);
}

/// Bytes without a line feed complete nothing.
proof fn lemma_feed_without_line_feed(pending: Seq<u8>, chunk: Seq<u8>)
    requires
        !chunk.contains(LINE_FEED),
    ensures
        feed(pending, chunk) == (Seq::<Seq<u8>>::empty(), pending + chunk),
    decreases chunk.len(),
{
    if chunk.len() > 0 {
        lemma_feed_without_line_feed(pending, chunk.drop_last());
    }
}

/// The receiving end of one direction of a connection.
pub struct LineFramer {
    pending: Vec<u8>,
}

impl View for LineFramer {
    type V = Seq<u8>;

    /// The bytes received since the last line feed.
    closed spec fn view(&self) -> Seq<u8> {
        self.pending@
    }
}

impl LineFramer {
    /// A framer that has received nothing.
    pub fn new() -> (framer: LineFramer)
        ensures
            framer@ == Seq::<u8>::empty(),
    {
        LineFramer { pending: Vec::new() }
    }

    /// The number of bytes of the unfinished record.
    pub fn pending_len(&self) -> (len: usize)
        ensures
            len == self@.len(),
    {
        self.pending.len()
    }

    /// Takes the next bytes of the stream and returns the records they
    /// complete, in order, without their line feeds.
    pub fn push(&mut self, chunk: &[u8]) -> (records: Vec<Vec<u8>>)
        ensures
            contents(records@) == feed(old(self)@, chunk@).0,
            final(self)@ == feed(old(self)@, chunk@).1,
    {
        let mut records: Vec<Vec<u8>> = Vec::new();
        let mut at: usize = 0;
        while at < chunk.len()
            invariant
                at <= chunk@.len(),
                contents(records@) == feed(old(self)@, chunk@.subrange(0, at as int)).0,
                self@ == feed(old(self)@, chunk@.subrange(0, at as int)).1,
            decreases chunk@.len() - at,
        {
            let byte: u8 = chunk[at];
            assert(chunk@.subrange(0, at + 1).drop_last() =~= chunk@.subrange(0, at as int));
            if byte == LINE_FEED {
                let mut record: Vec<u8> = Vec::new();
                std::mem::swap(&mut self.pending, &mut record);
                records.push(record);
            } else {
                self.pending.push(byte);
            }
            at = at + 1;
        }
        assert(chunk@.subrange(0, at as int) =~= chunk@);
        records
    }
}

/// The bytes that carry `text` as one record: its UTF-8 encoding and a line
/// feed.
pub fn encode_line(text: &str) -> (bytes: Vec<u8>)
    ensures
        bytes@ == encode_utf8(text@).push(LINE_FEED),
{
    let mut bytes = text.as_bytes_vec();
    bytes.push(LINE_FEED);
    bytes
}

/// The text of a record, or nothing when the record is not UTF-8.
pub fn decode_record(record: Vec<u8>) -> (text: Option<String>)
    ensures
        match text {
            Some(line) => valid_utf8(record@) && line@ == decode_utf8(record@),
            None => !valid_utf8(record@),
        },
{
    from_utf8(record)
}

/// Calls `String::from_utf8` of the standard library, which checks that the
/// bytes are UTF-8 and, if they are, keeps them as the text they encode;
/// otherwise it returns an error, which is dropped here.
#[verifier::external_body]
fn from_utf8(bytes: Vec<u8>) -> (text: Option<String>)
    ensures
        match text {
            Some(line) => valid_utf8(bytes@) && line@ == decode_utf8(bytes@),
            None => !valid_utf8(bytes@),
        },
{
    match String::from_utf8(bytes) {
        Ok(line) => Some(line),
        Err(_) => None,
    }
}

} // verus!
