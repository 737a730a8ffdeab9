//! Binary streaming framing for the pipeline dispatch path.
//!
//! Each wire event is one JSON header line terminated by `\n`, optionally
//! followed by exactly `payload_length` bytes of binary payload:
//!
//! ```text
//! {"type":"audio_chunk","data":{"session_id":"...","timestamp_ms":120},"payload_length":640}\n
//! <640 bytes of int16 PCM>
//! ```
//!
//! - The header is a single-line JSON object; readers are line-delimited.
//! - `payload_length` is omitted when zero; otherwise the binary block after
//!   the newline is exactly that many bytes, no inner framing.
//! - A reader refuses a `payload_length` above 16 MB.
//!
//! This module holds the framing rules on bytes. Turning a header into JSON
//! text and back, and moving bytes over a transport, is the caller's part.
use vstd::prelude::*;

verus! {

#[verifier::external_type_specification]
#[verifier::external_body]
pub struct ExJsonValue(serde_json::Value);

/// `serde_json::Value`'s derived `Clone`: a duplicate of the value. Nothing
/// is stated of the duplicate; it lets events be cloned.
pub assume_specification[ <serde_json::Value as Clone>::clone ](v: &serde_json::Value) -> (res:
    serde_json::Value);

/// One wire-format message: a typed event tag, an opaque JSON `data` blob
/// (the event's typed body), and an optional binary payload.
#[derive(Debug, Clone)]
pub struct Event {
    pub event_type: String,
    pub data: serde_json::Value,
    pub payload: Vec<u8>,
}

impl Event {
    /// An event with no binary payload.
    pub fn new(event_type: &str, data: serde_json::Value) -> (res: Event)
        ensures
            res.event_type@ == event_type@,
            res.data == data,
            res.payload@ == Seq::<u8>::empty(),
    {
        Event { event_type: String::from_str(event_type), data, payload: Vec::new() }
    }

    /// An event carrying a binary payload.
    pub fn with_payload(event_type: &str, data: serde_json::Value, payload: Vec<u8>) -> (res:
        Event)
        ensures
            res.event_type@ == event_type@,
            res.data == data,
            res.payload@ == payload@,
    {
        Event { event_type: String::from_str(event_type), data, payload }
    }
}

/// The header fields of one frame: the type tag, the `data` blob, and the
/// length of the payload that follows the header line.
#[derive(Debug, Clone)]
pub struct WireHeader {
    pub event_type: String,
    pub data: serde_json::Value,
    pub payload_length: usize,
}

/// The header a writer frames `payload` under: the tag and data as given,
/// and `payload_length` the payload's exact length. Writing an event and
/// writing the same tag, data and payload raw frame them under the same
/// header.
pub fn header_for(event_type: &str, data: serde_json::Value, payload: &[u8]) -> (res: WireHeader)
    ensures
        res.event_type@ == event_type@,
        res.data == data,
        res.payload_length == payload@.len(),
{
    WireHeader { event_type: String::from_str(event_type), data, payload_length: payload.len() }
}

/// The largest payload a reader accepts (16 MB): a bogus header cannot make
/// it allocate more.
pub const MAX_PAYLOAD: usize = 16 * 1024 * 1024;

/// The newline byte that ends a header line.
pub open spec fn newline() -> u8 {
    10u8
}

/// Why a frame was refused.
#[derive(Debug, Clone, Copy, PartialEq, Eq)]
pub enum WireError {
    /// The header announced a payload above [`MAX_PAYLOAD`].
    PayloadTooLarge(usize),
}

/// A header line as written: the JSON text and its terminating newline.
pub open spec fn terminated(header: Seq<u8>) -> Seq<u8> {
    header.push(newline())
}

/// A whole frame: the terminated header, then the payload bytes.
pub open spec fn frame(header: Seq<u8>, payload: Seq<u8>) -> Seq<u8> {
    terminated(header) + payload
}

/// The first line of a byte stream as a line reader returns it: up to and
/// including the first newline, or everything when there is none.
pub open spec fn first_line(s: Seq<u8>) -> Seq<u8>
    decreases s.len(),
{
    if s.len() == 0 {
        s
    } else if s[0] == newline() {
        seq![newline()]
    } else {
        seq![s[0]] + first_line(s.drop_first())
    }
}

/// The line without its trailing newlines.
pub open spec fn trim_line_end(line: Seq<u8>) -> Seq<u8>
    decreases line.len(),
{
    if line.len() > 0 && line.last() == newline() {
        trim_line_end(line.drop_last())
    } else {
        line
    }
}

/// The JSON text of a header line read from the wire: the line without its
/// trailing newlines. Returns its length; the text is that prefix.
pub fn header_text_len(line: &[u8]) -> (res: usize)
    ensures
        res <= line@.len(),
        line@.take(res as int) == trim_line_end(line@),
        res == 0 || line@[res - 1] != 10u8,
        forall|i: int| res <= i < line@.len() ==> #[trigger] line@[i] == 10u8,
{
    let mut n = line.len();
    assert(line@.take(n as int) =~= line@);
    while n > 0 && line[n - 1] == 10u8
        invariant
            n <= line@.len(),
            trim_line_end(line@.take(n as int)) == trim_line_end(line@),
            forall|i: int| n <= i < line@.len() ==> #[trigger] line@[i] == 10u8,
        decreases n,
    {
        assert(line@.take(n as int).drop_last() =~= line@.take(n - 1));
        n = n - 1;
    }
    assert(line@.take(line@.len() as int) =~= line@);
    n
}

/// Whether a header may announce `payload_length` bytes: at most
/// [`MAX_PAYLOAD`]. The `Ok` value is the number of bytes to read next.
pub fn check_payload_length(payload_length: usize) -> (res: Result<usize, WireError>)
    ensures
        payload_length <= MAX_PAYLOAD ==> res == Ok::<usize, WireError>(payload_length),
        payload_length > MAX_PAYLOAD ==> res == Err::<usize, WireError>(
            WireError::PayloadTooLarge(payload_length),
        ),
        res is Ok <==> payload_length <= 16 * 1024 * 1024,
{
    if payload_length > MAX_PAYLOAD {
        Err(WireError::PayloadTooLarge(payload_length))
    } else {
        Ok(payload_length)
    }
}

/// The header JSON text followed by the newline that ends the line.
pub fn terminate_header(header: Vec<u8>) -> (res: Vec<u8>)
    ensures
        res@ == terminated(header@),
        res@ == header@.push(10u8),
{
    let mut out = header;
    out.push(10u8);
    out
}

/// True for a zero payload length: the header omits the field then.
pub fn is_zero_usize(n: &usize) -> (res: bool)
    ensures
        res == (*n == 0),
{
    *n == 0
}

proof fn lemma_first_line_of_terminated(h: Seq<u8>, rest: Seq<u8>)
    requires
        !h.contains(newline()),
    ensures
        first_line(terminated(h) + rest) == terminated(h),
    decreases h.len(),
{
    let s = terminated(h) + rest;
    if h.len() == 0 {
        assert(s[0] == newline());
    } else {
        assert(s[0] == h[0]);
        assert(!h.drop_first().contains(newline())) by {
            if h.drop_first().contains(newline()) {
                let k = choose|k: int| 0 <= k < h.drop_first().len() && h.drop_first()[k] == newline();
                assert(h[k + 1] == newline());
            }
        }
        if h[0] == newline() {
            assert(h.contains(newline()));
        }
        lemma_first_line_of_terminated(h.drop_first(), rest);
        assert(s.drop_first() =~= terminated(h.drop_first()) + rest);
        assert(seq![h[0]] + terminated(h.drop_first()) =~= terminated(h));
    }
}

proof fn lemma_first_line_shape(s: Seq<u8>)
    ensures
        s =~= first_line(s) + s.skip(first_line(s).len() as int),
        first_line(s).len() <= s.len(),
        forall|k: int|
            0 <= k < first_line(s).len() - 1 ==> #[trigger] first_line(s)[k] != newline(),
        s.contains(newline()) ==> first_line(s).len() > 0 && first_line(s).last() == newline(),
        !s.contains(newline()) ==> first_line(s) == s,
    decreases s.len(),
{
    if s.len() > 0 && s[0] != newline() {
        let t = s.drop_first();
        lemma_first_line_shape(t);
        let l = first_line(s);
        assert(l == seq![s[0]] + first_line(t));
        assert(s.skip(l.len() as int) =~= t.skip(first_line(t).len() as int));
        assert(s =~= seq![s[0]] + t);
        assert(s =~= l + s.skip(l.len() as int));
        if s.contains(newline()) {
            let k = choose|k: int| 0 <= k < s.len() && s[k] == newline();
            assert(t[k - 1] == newline());
            assert(t.contains(newline()));
        }
        if t.contains(newline()) {
            let k = choose|k: int| 0 <= k < t.len() && t[k] == newline();
            assert(s[k + 1] == newline());
        }
        assert forall|k: int| 0 <= k < l.len() - 1 implies #[trigger] l[k] != newline() by {
            if k > 0 {
                assert(l[k] == first_line(t)[k - 1]);
            }
        }
    } else if s.len() > 0 {
        assert(s.contains(newline()));
        assert(first_line(s) =~= seq![newline()]);
        assert(s =~= first_line(s) + s.skip(1));
    } else {
        assert(s =~= first_line(s) + s.skip(0));
    }
}

/// A header line occupies exactly its line, whatever it holds: a line reader
/// takes the stream up to and including its first newline (or all of it when
/// there is none), the line holds no other newline, and the rest of the
/// stream is left untouched. So a header that fails to decode consumes only
/// its own line, and the frame after it reads as if the bad line had not
/// been there.
pub proof fn lemma_header_line_consumes_only_its_line(bad: Seq<u8>, rest: Seq<u8>)
    requires
        !bad.contains(newline()),
    ensures
        first_line(terminated(bad) + rest) == terminated(bad),
        (terminated(bad) + rest).skip(terminated(bad).len() as int) == rest,
        forall|s: Seq<u8>|
            #![trigger first_line(s)]
            s =~= first_line(s) + s.skip(first_line(s).len() as int) && (s.contains(newline())
                ==> first_line(s).last() == newline()) && forall|k: int|
                0 <= k < first_line(s).len() - 1 ==> first_line(s)[k] != newline(),
{
    lemma_first_line_of_terminated(bad, rest);
    assert((terminated(bad) + rest).skip(terminated(bad).len() as int) =~= rest);
    assert forall|s: Seq<u8>|
        #![trigger first_line(s)]
        s =~= first_line(s) + s.skip(first_line(s).len() as int) && (s.contains(newline())
            ==> first_line(s).last() == newline()) && forall|k: int|
            0 <= k < first_line(s).len() - 1 ==> first_line(s)[k] != newline() by {
        lemma_first_line_shape(s);
    }
}

/// What a read gives back of a write: a frame written for a header without
/// a newline, followed by any further bytes, reads back as exactly that
/// header line (whose trimmed text is the header), then exactly the payload,
/// and leaves the further bytes untouched for the next frame. A payload the
/// writer may send is one the reader accepts.
pub proof fn lemma_frame_roundtrip(header: Seq<u8>, payload: Seq<u8>, rest: Seq<u8>)
    requires
        !header.contains(newline()),
        payload.len() <= MAX_PAYLOAD,
    ensures
        ({
            let s = frame(header, payload) + rest;
            let line = first_line(s);
            &&& line == terminated(header)
            &&& trim_line_end(line) == header
            &&& s.skip(line.len() as int).take(payload.len() as int) == payload
            &&& s.skip((line.len() + payload.len()) as int) == rest
        }),
{
    let s = frame(header, payload) + rest;
    assert(s =~= terminated(header) + (payload + rest));
    lemma_first_line_of_terminated(header, payload + rest);
    assert(terminated(header).drop_last() =~= header);
    if header.len() > 0 && header.last() == newline() {
        assert(header.contains(newline()));
    }
    assert(trim_line_end(header) == header);
    assert(trim_line_end(terminated(header)) == header);
    assert(first_line(s) == terminated(header));
    assert(first_line(s).len() == header.len() + 1);
    assert(s.skip((header.len() + 1) as int) =~= payload + rest);
    assert((payload + rest).take(payload.len() as int) =~= payload);
    assert(s.skip((header.len() + 1 + payload.len()) as int) =~= rest);
}

} // verus!
