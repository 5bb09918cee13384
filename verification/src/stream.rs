//! The copilot's streamed reply: raw chunks split into JSON objects, and the
//! parsed pieces assembled into one copilot message.
use vstd::prelude::*;
use vstd::utf8::{decode_utf8, valid_utf8};
use crate::clock::max_duration_nanos;
use crate::copilot::{CopilotMessage, copilot_name};
use crate::text::{lacks, push_char};

verus! {

broadcast use {vstd::string::group_string_axioms, Seq::lemma_flatten_push};

/// Decodes bytes with std's `str::from_utf8`, which succeeds exactly on
/// valid UTF-8 and then yields the characters the bytes encode.
#[verifier::external_body]
fn utf8_text(bytes: &[u8]) -> (r: Option<&str>)
    ensures
        r is Some == valid_utf8(bytes@),
        r matches Some(s) ==> s@ == decode_utf8(bytes@),
{
    std::str::from_utf8(bytes).ok()
}

/// The texts of a list of strings.
pub open spec fn texts(v: Seq<String>) -> Seq<Seq<char>> {
    v.map_values(|s: String| s@)
}

/// `pieces` is `s` split after every `c` (std's `split_inclusive(c)`): the
/// pieces join up to `s`, none is empty, each but the last ends with `c`,
/// and `c` stands nowhere else in a piece than at its end.
pub open spec fn split_after(s: Seq<char>, c: char, pieces: Seq<Seq<char>>) -> bool {
    &&& pieces.flatten() == s
    &&& forall|i: int| 0 <= i < pieces.len() ==> (#[trigger] pieces[i]).len() > 0
    &&& forall|i: int| 0 <= i < pieces.len() - 1 ==> (#[trigger] pieces[i]).last() == c
    &&& forall|i: int| 0 <= i < pieces.len() ==> lacks((#[trigger] pieces[i]).drop_last(), c)
}

/// Splits a chunk of the copilot's reply after every `}`, so that each
/// piece holds at most one JSON object; `None` where the chunk is not valid
/// UTF-8.
pub fn split_stream_chunk(chunk: &[u8]) -> (r: Option<Vec<String>>)
    ensures
        r is Some == valid_utf8(chunk@),
        r matches Some(pieces) ==> split_after(decode_utf8(chunk@), '}', texts(pieces@)),
{
    let text = match utf8_text(chunk) {
        Some(t) => t,
        None => {
            return None;
        },
    };
    let ghost s = text@;
    let n = text.unicode_len();
    let mut out: Vec<String> = Vec::new();
    let mut cur = String::new();
    let mut idx: usize = 0;
    for x in it: text.chars()
        invariant
            n == s.len(),
            s == text@,
            idx == it.index(),
            it.seq() == s,
            texts(out@).flatten() + cur@ == s.take(idx as int),
            forall|i: int| 0 <= i < out@.len() ==> (#[trigger] out@[i])@.len() > 0,
            forall|i: int| 0 <= i < out@.len() ==> (#[trigger] out@[i])@.last() == '}',
            forall|i: int| 0 <= i < out@.len() ==> lacks((#[trigger] out@[i])@.drop_last(), '}'),
            lacks(cur@, '}'),
    {
        let ghost old_out = out@;
        let ghost old_cur = cur@;
        assert(s.take(idx + 1) =~= s.take(idx as int).push(x));
        push_char(&mut cur, x);
        if x == '}' {
            assert(cur@.drop_last() =~= old_cur);
            out.push(cur);
            cur = String::new();
            assert(texts(out@) =~= texts(old_out).push(old_cur.push(x)));
            assert(texts(out@).flatten() + cur@ =~= s.take(idx + 1));
        } else {
            assert(texts(out@).flatten() + cur@ =~= s.take(idx + 1));
        }
        idx = idx + 1;
    }
    assert(s.take(n as int) =~= s);
    if cur.unicode_len() > 0 {
        let ghost old_out = out@;
        let ghost old_cur = cur@;
        out.push(cur);
        assert(texts(out@) =~= texts(old_out).push(old_cur));
        assert(old_cur.drop_last() =~= old_cur.take(old_cur.len() - 1));
    } else {
        assert(cur@ =~= Seq::<char>::empty());
        assert(texts(out@).flatten() + cur@ =~= texts(out@).flatten());
    }
    let ghost t = texts(out@);
    assert forall|i: int| 0 <= i < t.len() implies (#[trigger] t[i]).len() > 0 by {}
    Some(out)
}

/// One parsed piece of the copilot's streamed reply.
#[derive(Debug)]
pub struct CopilotChunk {
    action: String,
    output: String,
}

/// What a piece of the reply holds.
pub struct CopilotChunkView {
    pub action: Seq<char>,
    pub output: Seq<char>,
}

impl View for CopilotChunk {
    type V = CopilotChunkView;

    closed spec fn view(&self) -> CopilotChunkView {
        CopilotChunkView { action: self.action@, output: self.output@ }
    }
}

impl CopilotChunk {
    pub fn new(action: String, output: String) -> (r: Self)
        ensures
            r@ == (CopilotChunkView { action: action@, output: output@ }),
    {
        CopilotChunk { action, output }
    }
}

/// The outputs of the pieces, joined in order.
pub open spec fn joined_output(chunks: Seq<CopilotChunkView>) -> Seq<char>
    decreases chunks.len(),
{
    if chunks.len() == 0 {
        Seq::empty()
    } else {
        joined_output(chunks.drop_last()) + chunks.last().output
    }
}

/// The outputs of the pieces, in order.
pub open spec fn outputs(chunks: Seq<CopilotChunkView>) -> Seq<Seq<char>> {
    chunks.map_values(|c: CopilotChunkView| c.output)
}

/// The reply's text is every piece's output, joined in order with nothing
/// left out or added: the flattening of the outputs, as long as all of them
/// together.
pub proof fn lemma_joined_output_is_all_outputs(chunks: Seq<CopilotChunkView>)
    ensures
        joined_output(chunks) == outputs(chunks).flatten(),
        joined_output(chunks).len() == outputs(chunks).flatten().len(),
    decreases chunks.len(),
{
    broadcast use Seq::lemma_flatten_push;

    if chunks.len() > 0 {
        lemma_joined_output_is_all_outputs(chunks.drop_last());
        assert(outputs(chunks) =~= outputs(chunks.drop_last()).push(chunks.last().output));
    } else {
        assert(outputs(chunks) =~= Seq::<Seq<char>>::empty());
    }
}

/// The action of the reply: that of its last piece, or nothing when there
/// is no piece.
pub open spec fn final_action(chunks: Seq<CopilotChunkView>) -> Seq<char> {
    if chunks.len() == 0 {
        Seq::empty()
    } else {
        chunks.last().action
    }
}

impl CopilotMessage {
    /// The copilot message that a streamed reply amounts to: the action of
    /// its last piece and the outputs of all pieces joined in order, with a
    /// fresh identifier and the current time.
    pub fn from_chunks(chunks: &Vec<CopilotChunk>) -> (r: CopilotMessage)
        ensures
            r@.action == final_action(chunks@.map_values(|c: CopilotChunk| c@)),
            r@.output == joined_output(chunks@.map_values(|c: CopilotChunk| c@)),
            r@.output == outputs(chunks@.map_values(|c: CopilotChunk| c@)).flatten(),
            r@.sender == copilot_name(),
            crate::ids::is_random_uuid(r@.message_id),
            -max_duration_nanos() <= r@.timestamp <= max_duration_nanos(),
    {
        let ghost all = chunks@.map_values(|c: CopilotChunk| c@);
        let n = chunks.len();
        let mut output = String::new();
        let mut i: usize = 0;
        assert(all.take(0) =~= Seq::<CopilotChunkView>::empty());
        while i < n
            invariant
                n == chunks@.len(),
                all == chunks@.map_values(|c: CopilotChunk| c@),
                i <= n,
                output@ == joined_output(all.take(i as int)),
            decreases n - i,
        {
            assert(all.take(i + 1).drop_last() =~= all.take(i as int));
            output.append(chunks[i].output.as_str());
            i = i + 1;
        }
        assert(all.take(n as int) =~= all);
        proof {
            lemma_joined_output_is_all_outputs(all);
        }
        let action = if n == 0 {
            String::new()
        } else {
            chunks[n - 1].action.clone()
        };
        CopilotMessage::new(action, output)
    }
}

/// The relaying of one streamed reply of the copilot: the pieces parsed so
/// far, and whether relaying has stopped.
#[derive(Debug)]
pub struct ReplyRelay {
    chunks: Vec<CopilotChunk>,
    stopped: bool,
}

/// What a relay holds.
pub struct ReplyRelayView {
    pub chunks: Seq<CopilotChunkView>,
    pub stopped: bool,
}

impl View for ReplyRelay {
    type V = ReplyRelayView;

    closed spec fn view(&self) -> ReplyRelayView {
        ReplyRelayView { chunks: self.chunks@.map_values(|c: CopilotChunk| c@), stopped: self.stopped }
    }
}

impl ReplyRelay {
    /// A relay that has parsed nothing and goes on.
    pub fn new() -> (r: Self)
        ensures
            r@.chunks == Seq::<CopilotChunkView>::empty(),
            !r@.stopped,
    {
        let r = ReplyRelay { chunks: Vec::new(), stopped: false };
        assert(r@.chunks =~= Seq::<CopilotChunkView>::empty());
        r
    }

    /// Whether relaying has stopped.
    pub fn is_stopped(&self) -> (r: bool)
        ensures
            r == self@.stopped,
    {
        self.stopped
    }
}

/// The reply broadcast when a chunk of the copilot's reply is not UTF-8.
pub fn invalid_chunk_reply() -> (r: String)
    ensures
        r@ == "{\"error\":\"Copilot chunk is not UTF-8\"}"@,
{
    "{\"error\":\"Copilot chunk is not UTF-8\"}".to_owned()
}

/// The next chunk of the reply: its pieces, to be broadcast and parsed one
/// by one. `None`, and relaying stops, where relaying has stopped already
/// or the chunk is not UTF-8.
pub fn relay_chunk(relay: &mut ReplyRelay, chunk: &[u8]) -> (r: Option<Vec<String>>)
    ensures
        r is None <==> (!valid_utf8(chunk@) || old(relay)@.stopped),
        final(relay)@.chunks == old(relay)@.chunks,
        final(relay)@.stopped == (r is None),
        r matches Some(pieces) ==> split_after(decode_utf8(chunk@), '}', texts(pieces@)),
{
    if relay.stopped {
        return None;
    }
    match split_stream_chunk(chunk) {
        Some(pieces) => Some(pieces),
        None => {
            relay.stopped = true;
            None
        },
    }
}

/// The outcome of parsing one piece of the reply: a piece that parsed joins
/// the reply and relaying goes on; at a piece that did not, relaying stops
/// and parses no further. Nothing is taken once relaying has stopped.
pub fn relay_piece(relay: &mut ReplyRelay, parsed: Option<CopilotChunk>) -> (go_on: bool)
    ensures
        go_on == (parsed is Some && !old(relay)@.stopped),
        go_on ==> final(relay)@.chunks == old(relay)@.chunks.push(parsed->0@) && !final(relay)@.stopped,
        !go_on ==> final(relay)@.stopped && final(relay)@.chunks == old(relay)@.chunks,
{
    if relay.stopped {
        return false;
    }
    match parsed {
        Some(c) => {
            let ghost v = c@;
            relay.chunks.push(c);
            assert(relay@.chunks =~= old(relay)@.chunks.push(v));
            true
        },
        None => {
            relay.stopped = true;
            false
        },
    }
}

/// Whether a failed read of the reply is reported: it is while relaying
/// goes on, and the read is then passed over.
pub fn relay_read_failed(relay: &ReplyRelay) -> (report: bool)
    ensures
        report == !relay@.stopped,
{
    !relay.stopped
}

/// The end of the reply: the copilot message it amounts to, built from the
/// pieces parsed before relaying stopped.
pub fn relay_finish(relay: ReplyRelay) -> (r: CopilotMessage)
    ensures
        r@.output == joined_output(relay@.chunks),
        r@.output == outputs(relay@.chunks).flatten(),
        r@.action == final_action(relay@.chunks),
        r@.sender == copilot_name(),
        crate::ids::is_random_uuid(r@.message_id),
        -max_duration_nanos() <= r@.timestamp <= max_duration_nanos(),
{
    CopilotMessage::from_chunks(&relay.chunks)
}

/// Whether the copilot's reply is followed by a notification: it is once
/// the reply's broadcast went through.
pub fn notify_after_copilot_reply(broadcast_ok: bool) -> (r: bool)
    ensures
        r == broadcast_ok,
{
    broadcast_ok
}

} // verus!
