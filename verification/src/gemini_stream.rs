//! Reading a streamed Gemini answer: server-sent events are cut out of the
//! text as it arrives, and each event is turned into what it means for
//! the answer.

use crate::gemini_format::{low_32, response_parts_of};
use crate::json::{at_key, at_pos, count_of, json_views, member_of, text_of, Json, JsonSpec};
use crate::model::{StreamEvent, Usage};
use crate::text::{
    chars_of, find_first, first_index, has_prefix_at, push_all, same_text, slice_of, string_of,
};
use vstd::prelude::*;
use vstd::string::StrSliceExecFns;

verus! {

/// The mathematical value of a [`StreamEvent`].
pub ghost enum StreamEventSpec {
    Delta(Seq<char>),
    Done(Usage),
    Error(Seq<char>),
}

impl View for StreamEvent {
    type V = StreamEventSpec;

    open spec fn view(&self) -> StreamEventSpec {
        match self {
            StreamEvent::Delta(t) => StreamEventSpec::Delta(t@),
            StreamEvent::Done(u) => StreamEventSpec::Done(*u),
            StreamEvent::Error(e) => StreamEventSpec::Error(e@),
        }
    }
}

/// The views of a sequence of events.
pub open spec fn event_views(events: Seq<StreamEvent>) -> Seq<StreamEventSpec> {
    Seq::new(events.len(), |i: int| events[i]@)
}

/// The character sequences of a sequence of strings.
pub open spec fn text_views(v: Seq<String>) -> Seq<Seq<char>> {
    Seq::new(v.len(), |i: int| v[i]@)
}

/// Index of the first blank line, that is of the first of two newlines in
/// a row; where there is none, an index less than two from the end.
pub open spec fn first_blank(s: Seq<char>) -> int
    decreases s.len(),
{
    if s.len() < 2 {
        s.len() as int
    } else if s[0] == '\n' && s[1] == '\n' {
        0
    } else {
        1 + first_blank(s.drop_first())
    }
}

/// The blocks of `s` that a blank line ends, in order, without the blank
/// lines.
pub open spec fn complete_blocks(s: Seq<char>) -> Seq<Seq<char>>
    decreases s.len(),
{
    let k = first_blank(s);
    if 0 <= k && k + 2 <= s.len() {
        seq![s.take(k)] + complete_blocks(s.skip(k + 2))
    } else {
        Seq::empty()
    }
}

/// What is left of `s` behind its last complete block.
pub open spec fn remainder(s: Seq<char>) -> Seq<char>
    decreases s.len(),
{
    let k = first_blank(s);
    if 0 <= k && k + 2 <= s.len() {
        remainder(s.skip(k + 2))
    } else {
        s
    }
}

/// Position of the first blank line in `v[from..]`, relative to `from`.
fn find_blank(v: &[char], from: usize) -> (k: usize)
    requires
        from <= v.len(),
    ensures
        k == first_blank(v@.skip(from as int)),
        from + k <= v.len(),
{
    let mut i: usize = from;
    proof {
        assert(v@.skip(from as int).skip(0) == v@.skip(from as int));
    }
    while v.len() - i >= 2 && !(v[i] == '\n' && v[i + 1] == '\n')
        invariant
            from <= i <= v.len(),
            first_blank(v@.skip(from as int)) == (i - from) + first_blank(v@.skip(i as int)),
        decreases v.len() - i,
    {
        proof {
            assert(v@.skip(i as int).drop_first() == v@.skip(i + 1));
            assert(v@.skip(i as int)[0] == v@[i as int]);
            assert(v@.skip(i as int)[1] == v@[i + 1]);
        }
        i += 1;
    }
    proof {
        let t = v@.skip(i as int);
        if t.len() >= 2 {
            assert(t[0] == v@[i as int]);
            assert(t[1] == v@[i + 1]);
        } else {
            assert(first_blank(t) == t.len());
        }
    }
    if v.len() - i >= 2 {
        i - from
    } else {
        v.len() - from
    }
}

/// Takes the complete blocks out of the text that has arrived: what was
/// left from before, followed by the new chunk. Returns the blocks, in
/// order, and what is left behind the last of them.
pub fn split_blocks(pending: &str, chunk: &str) -> (out: (Vec<String>, String))
    ensures
        text_views(out.0@) == complete_blocks(pending@ + chunk@),
        out.1@ == remainder(pending@ + chunk@),
{
    let mut all = chars_of(pending);
    push_all(&mut all, &chars_of(chunk));
    let mut blocks: Vec<String> = Vec::new();
    let mut pos: usize = 0;
    proof {
        assert(all@.skip(0) == all@);
        assert(text_views(blocks@) + complete_blocks(all@) =~= complete_blocks(all@));
    }
    loop
        invariant
            pos <= all.len(),
            all@ == pending@ + chunk@,
            text_views(blocks@) + complete_blocks(all@.skip(pos as int)) == complete_blocks(all@),
            remainder(all@.skip(pos as int)) == remainder(all@),
        ensures
            first_blank(all@.skip(pos as int)) + 2 > all.len() - pos,
        decreases all.len() - pos,
    {
        let k = find_blank(&all, pos);
        if all.len() - pos - k < 2 {
            break;
        }
        let ghost s = all@.skip(pos as int);
        let ghost before = text_views(blocks@);
        blocks.push(string_of(&slice_of(&all, pos, pos + k)));
        proof {
            assert(s.take(k as int) == all@.subrange(pos as int, pos + k));
            assert(s.skip(k + 2) == all@.skip(pos + k + 2));
            assert(text_views(blocks@) =~= before.push(s.take(k as int)));
            let rest = complete_blocks(s.skip(k + 2));
            assert(complete_blocks(s) == seq![s.take(k as int)] + rest);
            assert(before.push(s.take(k as int)) + rest =~= before + (seq![s.take(k as int)]
                + rest));
        }
        pos = pos + k + 2;
    }
    proof {
        let s = all@.skip(pos as int);
        assert(complete_blocks(s) =~= Seq::<Seq<char>>::empty());
        assert(text_views(blocks@) + Seq::<Seq<char>>::empty() =~= text_views(blocks@));
        assert(all@.subrange(pos as int, all.len() as int) == s);
    }
    let rest = string_of(&slice_of(&all, pos, all.len()));
    (blocks, rest)
}

/// A line without the carriage return at its end, if it has one.
pub open spec fn strip_cr(line: Seq<char>) -> Seq<char> {
    if line.len() > 0 && line.last() == '\r' {
        line.drop_last()
    } else {
        line
    }
}

/// The lines of a text. A line ends with a newline, or with a carriage
/// return and a newline; the last line need not end at all, and then keeps
/// a carriage return at its end.
pub open spec fn lines_of(s: Seq<char>) -> Seq<Seq<char>>
    decreases s.len(),
{
    if s.len() == 0 {
        Seq::empty()
    } else {
        let k = first_index(s, '\n');
        if 0 <= k < s.len() {
            seq![strip_cr(s.take(k))] + lines_of(s.skip(k + 1))
        } else {
            seq![s]
        }
    }
}

/// What a line carries, if it is a data line: what follows `data: `.
pub open spec fn payload_of(line: Seq<char>) -> Option<Seq<char>> {
    if "data: "@.is_prefix_of(line) {
        Some(line.skip("data: "@.len() as int))
    } else {
        None
    }
}

/// What the data lines among `lines` carry, in order.
pub open spec fn payloads_of(lines: Seq<Seq<char>>) -> Seq<Seq<char>>
    decreases lines.len(),
{
    if lines.len() == 0 {
        Seq::empty()
    } else {
        match payload_of(lines[0]) {
            Some(p) => seq![p] + payloads_of(lines.drop_first()),
            None => payloads_of(lines.drop_first()),
        }
    }
}

/// What the data lines of a block carry, in order.
pub fn data_payloads(block: &str) -> (out: Vec<String>)
    ensures
        text_views(out@) == payloads_of(lines_of(block@)),
{
    let v = chars_of(block);
    let prefix = chars_of("data: ");
    let mut out: Vec<String> = Vec::new();
    let mut pos: usize = 0;
    proof {
        assert(v@.skip(0) == v@);
        assert(text_views(out@) + payloads_of(lines_of(v@)) =~= payloads_of(lines_of(v@)));
    }
    while pos < v.len()
        invariant
            pos <= v.len(),
            prefix@ == "data: "@,
            text_views(out@) + payloads_of(lines_of(v@.skip(pos as int))) == payloads_of(
                lines_of(v@),
            ),
        decreases v.len() - pos,
    {
        let ghost s = v@.skip(pos as int);
        let ghost before = text_views(out@);
        proof {
            assert(v@.subrange(pos as int, v.len() as int) == s);
            crate::text::lemma_first_index(s, '\n');
        }
        let k = find_first(&v, pos, v.len(), '\n');
        let ended = pos + k < v.len();
        let mut end: usize = pos + k;
        if ended && end > pos && v[end - 1] == '\r' {
            end = end - 1;
        }
        let line = slice_of(&v, pos, end);
        proof {
            let whole = s.take(k as int);
            assert(whole == v@.subrange(pos as int, pos + k));
            if ended {
                assert(line@ == strip_cr(whole)) by {
                    if whole.len() > 0 {
                        assert(whole.last() == v@[pos + k - 1]);
                        assert(whole.drop_last() =~= v@.subrange(pos as int, pos + k - 1));
                    }
                }
                assert(s.skip(k + 1) == v@.skip(pos + k + 1));
                assert(lines_of(s) == seq![line@] + lines_of(s.skip(k + 1)));
                assert((seq![line@] + lines_of(s.skip(k + 1))).drop_first() =~= lines_of(
                    s.skip(k + 1),
                ));
            } else {
                assert(line@ == s);
                assert(lines_of(s) == seq![s]);
                assert(seq![s].drop_first() =~= Seq::<Seq<char>>::empty());
                assert(v@.skip(v.len() as int).len() == 0);
            }
            assert(line@.skip(0) == line@);
        }
        if has_prefix_at(&line, 0, &prefix) {
            proof {
                assert(line@.subrange(0, prefix@.len() as int).len() == prefix@.len());
                assert(line@.skip(prefix@.len() as int) == line@.subrange(
                    prefix@.len() as int,
                    line@.len() as int,
                ));
            }
            let payload = slice_of(&line, prefix.len(), line.len());
            out.push(string_of(&payload));
            proof {
                let tail = payloads_of(lines_of(s).drop_first());
                assert(text_views(out@) =~= before.push(payload@));
                assert(before.push(payload@) + tail =~= before + (seq![payload@] + tail));
            }
        }
        pos = if ended {
            pos + k + 1
        } else {
            v.len()
        };
    }
    proof {
        assert(v@.skip(pos as int).len() == 0);
        assert(text_views(out@) + Seq::<Seq<char>>::empty() =~= text_views(out@));
    }
    out
}

/// A token count after an event: the one the event reports under `key`
/// of its usage metadata, cut to 32 bits, or the count from before.
pub open spec fn count_after(evt: JsonSpec, key: Seq<char>, before: u32) -> u32 {
    match member_of(evt, "usageMetadata"@) {
        Some(usage) => match count_of(at_key(usage, key)) {
            Some(n) => (n % 0x1_0000_0000) as u32,
            None => before,
        },
        None => before,
    }
}

/// The usage after an event.
pub open spec fn usage_after(evt: JsonSpec, before: Usage) -> Usage {
    Usage {
        input_tokens: count_after(evt, "promptTokenCount"@, before.input_tokens),
        output_tokens: count_after(evt, "candidatesTokenCount"@, before.output_tokens),
    }
}

/// The text that the parts carry, one delta for each part that holds a
/// string under `text` that is not empty.
pub open spec fn deltas_of(parts: Seq<JsonSpec>) -> Seq<StreamEventSpec>
    decreases parts.len(),
{
    if parts.len() == 0 {
        Seq::empty()
    } else {
        let head = deltas_of(parts.drop_last());
        match text_of(at_key(parts.last(), "text"@)) {
            Some(t) => if t.len() > 0 {
                head.push(StreamEventSpec::Delta(t))
            } else {
                head
            },
            None => head,
        }
    }
}

/// Whether an event says that the answer is complete: its first candidate
/// finished by `STOP` or by `MAX_TOKENS`.
pub open spec fn finishes(evt: JsonSpec) -> bool {
    let reason = text_of(at_key(at_pos(at_key(evt, "candidates"@), 0), "finishReason"@));
    reason == Some("STOP"@) || reason == Some("MAX_TOKENS"@)
}

/// What one event means for the answer.
#[derive(Debug, Clone)]
pub struct StreamStep {
    /// The events to hand on, in order.
    pub events: Vec<StreamEvent>,
    /// The usage as known from now on.
    pub usage: Usage,
    /// Whether the answer is complete, so that nothing more is to be read.
    pub finished: bool,
}

/// Takes one event of the stream: the usage is brought up to date, the
/// text of the first candidate's parts is handed on as deltas, and when
/// the event ends the answer, `Done` follows with the usage.
pub fn on_event(evt: &Json, usage: Usage) -> (step: StreamStep)
    ensures
        step.usage == usage_after(evt@, usage),
        step.finished == finishes(evt@),
        event_views(step.events@) == if finishes(evt@) {
            deltas_of(response_parts_of(evt@)).push(
                StreamEventSpec::Done(usage_after(evt@, usage)),
            )
        } else {
            deltas_of(response_parts_of(evt@))
        },
{
    let mut now = usage;
    if let Some(reported) = evt.get("usageMetadata") {
        if let Some(n) = reported.at("promptTokenCount").as_u64() {
            now.input_tokens = low_32(n);
        }
        if let Some(n) = reported.at("candidatesTokenCount").as_u64() {
            now.output_tokens = low_32(n);
        }
    }
    let parts = crate::gemini_format::response_parts(evt);
    let mut events: Vec<StreamEvent> = Vec::new();
    let ghost all = json_views(parts@);
    let mut i: usize = 0;
    proof {
        assert(all.take(0).len() == 0);
        assert(event_views(events@) =~= deltas_of(all.take(0)));
    }
    while i < parts.len()
        invariant
            i <= parts@.len(),
            all == json_views(parts@),
            event_views(events@) == deltas_of(all.take(i as int)),
        decreases parts@.len() - i,
    {
        proof {
            let next = all.take(i + 1);
            assert(next.drop_last() == all.take(i as int));
            assert(next.last() == parts@[i as int]@);
        }
        let value = parts[i].at("text");
        if let Some(t) = value.as_str() {
            if t.unicode_len() > 0 {
                let ghost before = event_views(events@);
                events.push(StreamEvent::Delta(t.to_owned()));
                assert(event_views(events@) =~= before.push(StreamEventSpec::Delta(t@)));
            }
        }
        i += 1;
    }
    assert(all.take(parts@.len() as int) == all);
    let first = match evt.at("candidates").item(0) {
        Some(c) => c.copy(),
        None => Json::Null,
    };
    let reason = first.at("finishReason");
    let finished = match reason.as_str() {
        Some(r) => same_text(r, "STOP") || same_text(r, "MAX_TOKENS"),
        None => false,
    };
    if finished {
        let ghost before = event_views(events@);
        events.push(StreamEvent::Done(now));
        assert(event_views(events@) =~= before.push(StreamEventSpec::Done(now)));
    }
    StreamStep { events, usage: now, finished }
}

/// The event that ends an answer whose stream ran out without saying that
/// the answer is complete.
pub fn on_end(usage: Usage) -> (event: StreamEvent)
    ensures
        event@ == StreamEventSpec::Done(usage),
{
    StreamEvent::Done(usage)
}

} // verus!
