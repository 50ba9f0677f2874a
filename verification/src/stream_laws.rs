//! What a client sees of a streamed completion, token by token.

use vstd::prelude::*;

use crate::counters::ApiErrorCategory;
use crate::errors::{Error, OomPhase};
use crate::json::json_fields;
use crate::stream::{
    events_of, handle_streaming_token, has_call, index_behind, segment_events, EventModel,
    GenerationToken, StreamEvent, StreamModel, StreamState, Usage,
};
use crate::tool_parser::{segments_of, text_segment, Segment, SegmentModel, ToolCallStreamParser};

verus! {

/// How many of the first `n` events are tool calls.
pub open spec fn calls_before(events: Seq<StreamEvent>, n: int) -> nat
    decreases n,
{
    if n <= 0 {
        0
    } else {
        calls_before(events, n - 1) + if events[n - 1] is ToolCall {
            1nat
        } else {
            0nat
        }
    }
}

/// Whether an event shows a segment as it is: its text, or its call.
pub open spec fn shows(event: StreamEvent, segment: Segment) -> bool {
    match (event, segment) {
        (StreamEvent::Content(a), Segment::Text(b)) => a@ == b@,
        (StreamEvent::ToolCall { call, .. }, Segment::Call(c)) => call.name@ == c.name@
            && json_fields(call.arguments) == json_fields(c.arguments),
        _ => false,
    }
}

/// Whether an event is neither the end of an answer nor what comes behind it.
pub open spec fn is_part(event: StreamEvent) -> bool {
    event is Content || event is Reasoning || event is ToolCall
}

spec fn model_calls(segments: Seq<SegmentModel>, n: int) -> nat
    decreases n,
{
    if n <= 0 {
        0
    } else {
        model_calls(segments, n - 1) + if segments[n - 1] is Call {
            1nat
        } else {
            0nat
        }
    }
}

proof fn lemma_model_calls_prefix(segments: Seq<SegmentModel>, m: int, n: int)
    requires
        0 <= n <= m <= segments.len(),
    ensures
        model_calls(segments.take(m), n) == model_calls(segments, n),
    decreases n,
{
    if n > 0 {
        lemma_model_calls_prefix(segments, m, n - 1);
    }
}

proof fn lemma_index(segments: Seq<SegmentModel>, index: u64)
    requires
        index + segments.len() <= u64::MAX,
    ensures
        index_behind(segments, index) == index + model_calls(segments, segments.len() as int),
        model_calls(segments, segments.len() as int) <= segments.len(),
    decreases segments.len(),
{
    if segments.len() > 0 {
        let d = segments.drop_last();
        lemma_index(d, index);
        assert(d =~= segments.take(segments.len() - 1));
        lemma_model_calls_prefix(segments, segments.len() - 1, segments.len() - 1);
    }
}

proof fn lemma_segment_events(segments: Seq<SegmentModel>, index: u64, i: int)
    requires
        0 <= i < segments.len(),
    ensures
        segment_events(segments, index).len() == segments.len(),
        segment_events(segments, index)[i] == (match segments[i] {
            SegmentModel::Text(s) => EventModel::Content(s),
            SegmentModel::Call { name, arguments } => EventModel::ToolCall {
                index: index_behind(segments.take(i), index),
                name,
                arguments,
            },
        }),
    decreases segments.len(),
{
    let d = segments.drop_last();
    assert(segments.take(segments.len() - 1) =~= d);
    lemma_segment_events_len(d, index);
    if i < d.len() {
        lemma_segment_events(d, index, i);
        assert(d.take(i) =~= segments.take(i));
    }
}

proof fn lemma_segment_events_len(segments: Seq<SegmentModel>, index: u64)
    ensures
        segment_events(segments, index).len() == segments.len(),
    decreases segments.len(),
{
    if segments.len() > 0 {
        lemma_segment_events_len(segments.drop_last(), index);
    }
}

proof fn lemma_has_call(segments: Seq<SegmentModel>, n: int)
    requires
        0 <= n <= segments.len(),
    ensures
        model_calls(segments, n) > 0 ==> exists|i: int|
            0 <= i < n && #[trigger] segments[i] is Call,
        (exists|i: int| 0 <= i < n && #[trigger] segments[i] is Call) ==> model_calls(segments, n)
            > 0,
    decreases n,
{
    if n > 0 {
        lemma_has_call(segments, n - 1);
        if model_calls(segments, n) > 0 {
            if segments[n - 1] is Call {
                assert(0 <= n - 1 < n && segments[n - 1] is Call);
            } else {
                let i = choose|i: int| 0 <= i < n - 1 && #[trigger] segments[i] is Call;
                assert(0 <= i < n && segments[i] is Call);
            }
        }
        if exists|i: int| 0 <= i < n && #[trigger] segments[i] is Call {
            let i = choose|i: int| 0 <= i < n && #[trigger] segments[i] is Call;
            if i < n - 1 {
                assert(0 <= i < n - 1 && segments[i] is Call);
            }
        }
    }
}

/// Where the segments' events begin: behind the reasoning.
spec fn lead(tok: GenerationToken) -> int {
    if tok.is_thinking && tok.piece@.len() > 0 {
        1
    } else {
        0
    }
}

/// How many events come behind those of the segments.
spec fn trail(m: StreamModel, tok: GenerationToken) -> int {
    if !tok.done {
        0
    } else if m.include_usage {
        2
    } else {
        1
    }
}

proof fn lemma_shape(m: StreamModel, tok: GenerationToken)
    ensures
        ({
            let segments = m.parsed(tok).0;
            let all = m.token_events(tok);
            &&& all.len() == lead(tok) + segments.len() + trail(m, tok)
            &&& forall|i: int|
                0 <= i < segments.len() ==> #[trigger] all[lead(tok) + i] == segment_events(
                    segments,
                    m.next_tool_index,
                )[i]
            &&& lead(tok) == 1 ==> all[0] == EventModel::Reasoning(tok.piece@)
            &&& tok.done ==> all[lead(tok) + segments.len()] == EventModel::Finish(
                m.after_token(tok).finish(tok.finish_reason),
            )
            &&& tok.done && m.include_usage ==> all.last() == EventModel::Usage(m.usage())
        }),
{
    let segments = m.parsed(tok).0;
    lemma_segment_events_len(segments, m.next_tool_index);
}

/// The event at a place, and what it stands for.
proof fn lemma_event(events: Seq<StreamEvent>, i: int)
    requires
        0 <= i < events.len(),
    ensures
        events_of(events)[i] == events[i]@,
{
}

proof fn lemma_count(m: StreamModel, tok: GenerationToken, events: Seq<StreamEvent>, n: int)
    requires
        events_of(events) == m.token_events(tok),
        0 <= n <= m.parsed(tok).0.len(),
    ensures
        calls_before(events, lead(tok) + n) == model_calls(m.parsed(tok).0, n),
    decreases n,
{
    let segments = m.parsed(tok).0;
    lemma_shape(m, tok);
    if n > 0 {
        lemma_count(m, tok, events, n - 1);
        lemma_segment_events(segments, m.next_tool_index, n - 1);
        lemma_event(events, lead(tok) + n - 1);
        assert(m.token_events(tok)[lead(tok) + (n - 1)] == segment_events(
            segments,
            m.next_tool_index,
        )[n - 1]);
    } else if lead(tok) == 1 {
        reveal_with_fuel(calls_before, 2);
        lemma_event(events, 0);
    }
}

proof fn lemma_count_all(m: StreamModel, tok: GenerationToken, events: Seq<StreamEvent>)
    requires
        events_of(events) == m.token_events(tok),
    ensures
        calls_before(events, events.len() as int) == model_calls(
            m.parsed(tok).0,
            m.parsed(tok).0.len() as int,
        ),
{
    let segments = m.parsed(tok).0;
    lemma_shape(m, tok);
    lemma_count(m, tok, events, segments.len() as int);
    reveal_with_fuel(calls_before, 3);
    assert(events.len() == events_of(events).len());
    if tok.done {
        lemma_event(events, lead(tok) + segments.len());
        if m.include_usage {
            lemma_event(events, events.len() - 1);
        }
    }
}

/// The tool calls of an answer are numbered in turn: each has the number that the answer
/// had reached before the token, plus the tool calls before it in the token. Behind the
/// token the answer has reached as many more, so no two calls of an answer share a number.
pub proof fn tool_calls_are_numbered_in_turn(
    s: &mut StreamState,
    tok: GenerationToken,
    r: Vec<StreamEvent>,
    i: int,
    j: int,
)
    requires
        old(s).next_tool_index + r@.len() <= u64::MAX,
        call_ensures(handle_streaming_token, (Ok(tok), s), r),
    ensures
        0 <= i < r@.len() && r@[i] is ToolCall ==> r@[i]->index == old(s).next_tool_index
            + calls_before(r@, i),
        0 <= i < j < r@.len() && r@[i] is ToolCall && r@[j] is ToolCall ==> r@[i]->index
            < r@[j]->index,
        0 <= i < r@.len() && r@[i] is ToolCall ==> old(s).next_tool_index <= r@[i]->index
            < final(s).next_tool_index,
        final(s).next_tool_index == old(s).next_tool_index + calls_before(r@, r@.len() as int),
        final(s).any_tool_calls == (old(s).any_tool_calls || calls_before(r@, r@.len() as int) > 0),
{
    let m = old(s)@;
    let segments = m.parsed(tok).0;
    let events = r@;
    lemma_shape(m, tok);
    assert(events.len() == events_of(events).len());
    lemma_count_all(m, tok, events);
    lemma_index(segments, m.next_tool_index);
    lemma_has_call(segments, segments.len() as int);
    if 0 <= i < events.len() && events[i] is ToolCall {
        lemma_numbered(m, tok, events, i);
        lemma_calls_grow(events, i + 1, events.len() as int);
    }
    if 0 <= i < j < events.len() && events[i] is ToolCall && events[j] is ToolCall {
        lemma_numbered(m, tok, events, j);
        lemma_calls_grow(events, i + 1, j);
    }
}

proof fn lemma_calls_grow(events: Seq<StreamEvent>, m: int, n: int)
    requires
        0 <= m <= n,
    ensures
        calls_before(events, m) <= calls_before(events, n),
    decreases n,
{
    if m < n {
        lemma_calls_grow(events, m, n - 1);
    }
}

proof fn lemma_numbered(m: StreamModel, tok: GenerationToken, events: Seq<StreamEvent>, i: int)
    requires
        events_of(events) == m.token_events(tok),
        m.next_tool_index + events.len() <= u64::MAX,
        0 <= i < events.len(),
        events[i] is ToolCall,
    ensures
        events[i]->index == m.next_tool_index + calls_before(events, i),
{
    let segments = m.parsed(tok).0;
    lemma_shape(m, tok);
    lemma_event(events, i);
    let n = i - lead(tok);
    if n >= segments.len() {
        lemma_event(events, lead(tok) + segments.len());
        lemma_event(events, events.len() - 1);
    }
    assert(0 <= n < segments.len());
    lemma_segment_events(segments, m.next_tool_index, n);
    assert(m.token_events(tok)[lead(tok) + n] == segment_events(segments, m.next_tool_index)[n]);
    lemma_index(segments.take(n), m.next_tool_index);
    lemma_model_calls_prefix(segments, n, n);
    lemma_count(m, tok, events, n);
}

/// An answer ends with its last token and no earlier: with one event for the end, and one
/// for the usage if the client asked for it. It ends for tool calls if one was sent with
/// this token or an earlier one, and otherwise for the engine's reason.
pub proof fn an_answer_ends_with_its_last_token(
    s: &mut StreamState,
    tok: GenerationToken,
    r: Vec<StreamEvent>,
    i: int,
)
    requires
        old(s).prompt_tokens + old(s).completion_tokens < u32::MAX,
        call_ensures(handle_streaming_token, (Ok(tok), s), r),
    ensures
        !tok.done && 0 <= i < r@.len() ==> is_part(r@[i]),
        tok.done ==> ({
            let at = r@.len() - if old(s).include_usage {
                2int
            } else {
                1int
            };
            &&& at >= 0
            &&& r@[at] is Finish
            &&& 0 <= i < at ==> is_part(r@[i])
            &&& final(s).any_tool_calls ==> r@[at]->Finish_0 is Some && r@[at]->Finish_0->0@
                == "tool_calls"@
            &&& !final(s).any_tool_calls ==> match tok.finish_reason {
                None => r@[at]->Finish_0 is None,
                Some(reason) => r@[at]->Finish_0 is Some && r@[at]->Finish_0->0@ == reason@,
            }
            &&& old(s).include_usage ==> r@.last() is Usage && ({
                let u = r@.last()->Usage_0;
                &&& u.prompt_tokens == old(s).prompt_tokens
                &&& u.completion_tokens == old(s).completion_tokens + 1
                &&& u.total_tokens == old(s).prompt_tokens + old(s).completion_tokens + 1
            })
        }),
{
    let m = old(s)@;
    let segments = m.parsed(tok).0;
    let events = r@;
    lemma_shape(m, tok);
    assert(events.len() == events_of(events).len());
    if 0 <= i < lead(tok) + segments.len() {
        lemma_event(events, i);
        let n = i - lead(tok);
        if n >= 0 {
            lemma_segment_events(segments, m.next_tool_index, n);
            assert(m.token_events(tok)[lead(tok) + n] == segment_events(
                segments,
                m.next_tool_index,
            )[n]);
        }
    }
    if tok.done {
        lemma_event(events, lead(tok) + segments.len());
        lemma_event(events, events.len() - 1);
    }
}

/// Every token counts as one of the answer. The server's counters change with the last one
/// only: by the prompt, by all tokens of the answer, and by one completed request.
pub proof fn tokens_are_counted(
    s: &mut StreamState,
    tok: GenerationToken,
    r: Vec<StreamEvent>,
    c: ApiErrorCategory,
)
    requires
        old(s).prompt_tokens + old(s).completion_tokens < u32::MAX,
        old(s).lifetime_tokens_in + old(s).prompt_tokens <= u64::MAX,
        old(s).lifetime_tokens_out + old(s).completion_tokens < u64::MAX,
        old(s).lifetime_requests_completed < u64::MAX,
        call_ensures(handle_streaming_token, (Ok(tok), s), r),
    ensures
        final(s).completion_tokens == old(s).completion_tokens + 1,
        final(s).prompt_tokens == old(s).prompt_tokens,
        final(s).include_usage == old(s).include_usage,
        final(s).lifetime_requests_failed == old(s).lifetime_requests_failed,
        final(s).error_counts == old(s).error_counts,
        tok.done ==> {
            &&& final(s).lifetime_tokens_in == old(s).lifetime_tokens_in + old(s).prompt_tokens
            &&& final(s).lifetime_tokens_out == old(s).lifetime_tokens_out + old(s).completion_tokens + 1
            &&& final(s).lifetime_requests_completed == old(s).lifetime_requests_completed + 1
        },
        !tok.done ==> {
            &&& final(s).lifetime_tokens_in == old(s).lifetime_tokens_in
            &&& final(s).lifetime_tokens_out == old(s).lifetime_tokens_out
            &&& final(s).lifetime_requests_completed == old(s).lifetime_requests_completed
        },
{
}

/// Where no tool calls are looked for, a token is shown as it is: its piece as reasoning or
/// as content, and nothing for an empty piece.
pub proof fn a_plain_token_is_shown_as_it_is(
    s: &mut StreamState,
    tok: GenerationToken,
    r: Vec<StreamEvent>,
)
    requires
        old(s).parser is None,
        call_ensures(handle_streaming_token, (Ok(tok), s), r),
    ensures
        final(s).parser is None,
        tok.piece@.len() > 0 ==> r@.len() > 0,
        tok.piece@.len() > 0 && tok.is_thinking ==> r@[0] is Reasoning && r@[0]->Reasoning_0@
            == tok.piece@,
        tok.piece@.len() > 0 && !tok.is_thinking ==> r@[0] is Content && r@[0]->Content_0@
            == tok.piece@,
        !tok.done ==> r@.len() == if tok.piece@.len() > 0 {
            1nat
        } else {
            0nat
        },
        tok.done ==> r@.len() == (if tok.piece@.len() > 0 {
            1nat
        } else {
            0nat
        }) + if old(s).include_usage {
            2nat
        } else {
            1nat
        },
        final(s).next_tool_index == old(s).next_tool_index,
        final(s).any_tool_calls == old(s).any_tool_calls,
{
    let m = old(s)@;
    let segments = m.parsed(tok).0;
    let events = r@;
    lemma_shape(m, tok);
    assert(events.len() == events_of(events).len());
    lemma_segment_events_len(segments, m.next_tool_index);
    assert(segments.len() == if tok.piece@.len() > 0 && !tok.is_thinking {
        1int
    } else {
        0int
    });
    if segments.len() == 1 {
        lemma_segment_events(segments, m.next_tool_index, 0);
        assert(m.token_events(tok)[lead(tok) + 0] == segment_events(
            segments,
            m.next_tool_index,
        )[0]);
        reveal_with_fuel(index_behind, 2);
        assert(!has_call(segments)) by {
            assert(segments[0] is Text);
        }
    } else {
        assert(!has_call(segments));
    }
    if events.len() > 0 {
        lemma_event(events, 0);
    }
}

/// Where tool calls are looked for, a token of the answer shows what a parser with the same
/// text held back finds in its piece, segment by segment and in turn, and holds the same
/// text back then. With the last token what is held back is shown too.
pub proof fn a_stream_shows_what_its_parser_finds(
    s: &mut StreamState,
    tok: GenerationToken,
    r: Vec<StreamEvent>,
    p: &mut ToolCallStreamParser,
    piece: &str,
    segments: Vec<Segment>,
    i: int,
)
    requires
        old(s).parser is Some,
        old(s).parser->0@ == old(p)@,
        !tok.is_thinking,
        tok.piece@.len() > 0,
        call_ensures(handle_streaming_token, (Ok(tok), s), r),
        call_ensures(ToolCallStreamParser::feed, (p, piece), segments),
        piece@ == tok.piece@,
    ensures
        final(s).parser is Some,
        0 <= i < segments@.len() ==> i < r@.len() && shows(r@[i], segments@[i]),
        !tok.done ==> r@.len() == segments@.len() && final(s).parser->0@ == final(p)@,
        tok.done ==> {
            &&& final(s).parser->0@.len() == 0
            &&& final(p)@.len() > 0 ==> {
                &&& segments@.len() < r@.len()
                &&& r@[segments@.len() as int] is Content
                &&& r@[segments@.len() as int]->Content_0@ == final(p)@
                &&& r@[segments@.len() + 1int] is Finish
            }
            &&& final(p)@.len() == 0 ==> segments@.len() < r@.len()
                && r@[segments@.len() as int] is Finish
        },
{
    let m = old(s)@;
    let parsed = m.parsed(tok).0;
    let found = segments_of(segments@);
    let events = r@;
    lemma_shape(m, tok);
    assert(events.len() == events_of(events).len());
    assert(found.len() == segments@.len());
    assert(m.fed(tok).0 == found);
    if 0 <= i < found.len() {
        assert(parsed[i] == found[i]);
        lemma_segment_events(parsed, m.next_tool_index, i);
        assert(m.token_events(tok)[lead(tok) + i] == segment_events(parsed, m.next_tool_index)[i]);
        lemma_event(events, i);
        assert(found[i] == segments@[i]@);
    }
    if tok.done {
        lemma_event(events, parsed.len() as int);
        if final(p)@.len() > 0 {
            let n = found.len() as int;
            assert(parsed[n] == text_segment(final(p)@)[0]);
            lemma_segment_events(parsed, m.next_tool_index, n);
            assert(m.token_events(tok)[lead(tok) + n] == segment_events(
                parsed,
                m.next_tool_index,
            )[n]);
            lemma_event(events, n);
        }
    }
}

/// Reasoning is shown as such and is not looked at for tool calls: what is held back of the
/// answer stays held back, until the last token.
pub proof fn reasoning_is_no_part_of_the_answer(
    s: &mut StreamState,
    tok: GenerationToken,
    r: Vec<StreamEvent>,
)
    requires
        tok.is_thinking,
        call_ensures(handle_streaming_token, (Ok(tok), s), r),
    ensures
        tok.piece@.len() > 0 ==> r@.len() > 0 && r@[0] is Reasoning && r@[0]->Reasoning_0@
            == tok.piece@,
        !tok.done ==> r@.len() == (if tok.piece@.len() > 0 {
            1nat
        } else {
            0nat
        }),
        !tok.done && old(s).parser is Some ==> final(s).parser is Some && final(s).parser->0@
            == old(s).parser->0@,
        final(s).next_tool_index == old(s).next_tool_index,
        final(s).any_tool_calls == old(s).any_tool_calls,
        tok.done && old(s).parser is Some ==> {
            let at = if tok.piece@.len() > 0 {
                1int
            } else {
                0int
            };
            &&& final(s).parser is Some && final(s).parser->0@.len() == 0
            &&& old(s).parser->0@.len() > 0 ==> r@.len() > at && r@[at] is Content
                && r@[at]->Content_0@ == old(s).parser->0@
        },
{
    let m = old(s)@;
    let segments = m.parsed(tok).0;
    let events = r@;
    lemma_shape(m, tok);
    assert(events.len() == events_of(events).len());
    assert(segments.len() <= 1);
    if segments.len() == 1 {
        assert(segments[0] is Text);
        lemma_segment_events(segments, m.next_tool_index, 0);
        assert(m.token_events(tok)[lead(tok) + 0] == segment_events(
            segments,
            m.next_tool_index,
        )[0]);
        lemma_event(events, lead(tok));
        reveal_with_fuel(index_behind, 2);
    }
    if events.len() > 0 {
        lemma_event(events, 0);
    }
}

/// A token without a piece shows nothing of the answer but what was held back, and this
/// only with the last token.
pub proof fn an_empty_token_shows_no_text(
    s: &mut StreamState,
    tok: GenerationToken,
    r: Vec<StreamEvent>,
)
    requires
        tok.piece@.len() == 0,
        call_ensures(handle_streaming_token, (Ok(tok), s), r),
    ensures
        !tok.done ==> r@.len() == 0,
        !tok.done && old(s).parser is Some ==> final(s).parser is Some && final(s).parser->0@
            == old(s).parser->0@,
        tok.done && old(s).parser is Some && old(s).parser->0@.len() > 0 ==> r@.len() > 0
            && r@[0] is Content && r@[0]->Content_0@ == old(s).parser->0@,
{
    let m = old(s)@;
    let segments = m.parsed(tok).0;
    let events = r@;
    lemma_shape(m, tok);
    assert(events.len() == events_of(events).len());
    if segments.len() == 1 {
        lemma_segment_events(segments, m.next_tool_index, 0);
        assert(m.token_events(tok)[lead(tok) + 0] == segment_events(
            segments,
            m.next_tool_index,
        )[0]);
        lemma_event(events, 0);
    }
}

/// Whether a counter has gone up by one where it is due, and not at all elsewhere, as long
/// as it has not reached its largest value.
pub open spec fn counts_one(before: u64, after: u64, due: bool) -> bool {
    before < u64::MAX ==> after == before + if due {
        1int
    } else {
        0int
    }
}

/// An engine error ends the stream with one event, which tells the client its kind. It is
/// counted as one failed request and once under its category, and nothing else changes.
pub proof fn an_error_ends_the_stream(s: &mut StreamState, e: Error, r: Vec<StreamEvent>)
    requires
        old(s).lifetime_requests_failed < u64::MAX,
        call_ensures(handle_streaming_token, (Err(e), s), r),
    ensures
        r@.len() == 1,
        r@[0] is Error,
        e is SmokeProbe ==> r@[0]->kind@ == "internal_error"@,
        e is Oom && e->phase == OomPhase::LoadWeights ==> r@[0]->kind@ == "oom_during_load"@,
        e is Oom && e->phase == OomPhase::LoadKvCache ==> r@[0]->kind@ == "oom_kv_cache"@,
        e is Oom && e->phase == OomPhase::Generation ==> r@[0]->kind@ == "oom_mid_stream"@,
        !(e is SmokeProbe) && !(e is Oom) ==> r@[0]->kind@ == "service_unavailable"@,
        e matches Error::Model(t) ==> r@[0]->message@ == t@,
        e matches Error::SmokeProbe(t) ==> r@[0]->message@ == t@,
        e matches Error::Mlx(t) ==> r@[0]->message@ == t@,
        e matches Error::Other(t) ==> r@[0]->message@ == t@,
        e is Oom ==> r@[0]->message@ == e->msg@,
        final(s).lifetime_requests_failed == old(s).lifetime_requests_failed + 1,
        final(s).lifetime_requests_completed == old(s).lifetime_requests_completed,
        final(s).completion_tokens == old(s).completion_tokens,
        final(s).lifetime_tokens_in == old(s).lifetime_tokens_in,
        final(s).lifetime_tokens_out == old(s).lifetime_tokens_out,
        final(s).next_tool_index == old(s).next_tool_index,
        final(s).any_tool_calls == old(s).any_tool_calls,
        final(s).parser == old(s).parser || (final(s).parser is Some && old(s).parser is Some
            && final(s).parser->0@ == old(s).parser->0@),
        counts_one(
            old(s).error_counts.internal,
            final(s).error_counts.internal,
            e is SmokeProbe,
        ),
        counts_one(
            old(s).error_counts.oom_load,
            final(s).error_counts.oom_load,
            e is Oom && e->phase == OomPhase::LoadWeights,
        ),
        counts_one(
            old(s).error_counts.oom_kv_cache,
            final(s).error_counts.oom_kv_cache,
            e is Oom && e->phase == OomPhase::LoadKvCache,
        ),
        counts_one(
            old(s).error_counts.oom_mid_stream,
            final(s).error_counts.oom_mid_stream,
            e is Oom && e->phase == OomPhase::Generation,
        ),
        counts_one(
            old(s).error_counts.upstream,
            final(s).error_counts.upstream,
            !(e is SmokeProbe) && !(e is Oom),
        ),
        final(s).error_counts.bad_request == old(s).error_counts.bad_request,
        final(s).error_counts.context_overflow == old(s).error_counts.context_overflow,
        final(s).error_counts.not_found == old(s).error_counts.not_found,
        final(s).error_counts.timeout == old(s).error_counts.timeout,
        final(s).error_counts.rate_limit == old(s).error_counts.rate_limit,
        final(s).error_counts.admission_sla_503 == old(s).error_counts.admission_sla_503,
{
    assert(events_of(r@).len() == r@.len());
    lemma_event(r@, 0);
    let b = final(s)@.error_counts;
    assert(b.count(ApiErrorCategory::Internal) == b.internal);
    assert(b.count(ApiErrorCategory::OomLoad) == b.oom_load);
    assert(b.count(ApiErrorCategory::OomKvCache) == b.oom_kv_cache);
    assert(b.count(ApiErrorCategory::OomMidStream) == b.oom_mid_stream);
    assert(b.count(ApiErrorCategory::Upstream) == b.upstream);
    assert(b.count(ApiErrorCategory::BadRequest) == b.bad_request);
    assert(b.count(ApiErrorCategory::ContextOverflow) == b.context_overflow);
    assert(b.count(ApiErrorCategory::NotFound) == b.not_found);
    assert(b.count(ApiErrorCategory::Timeout) == b.timeout);
    assert(b.count(ApiErrorCategory::RateLimit) == b.rate_limit);
    assert(b.count(ApiErrorCategory::AdmissionSla503) == b.admission_sla_503);
}

/// A new completion looks for no tool calls, has sent none and has counted nothing.
pub proof fn a_new_stream_has_counted_nothing(prompt_tokens: u32, include_usage: bool, r: StreamState)
    requires
        call_ensures(StreamState::new, (prompt_tokens, include_usage), r),
    ensures
        r.parser is None,
        r.next_tool_index == 0,
        !r.any_tool_calls,
        r.prompt_tokens == prompt_tokens,
        r.completion_tokens == 0,
        r.include_usage == include_usage,
        r.lifetime_tokens_in == 0,
        r.lifetime_tokens_out == 0,
        r.lifetime_requests_completed == 0,
        r.lifetime_requests_failed == 0,
{
}

/// Over two tokens of an answer no two tool calls share a number: those of the later token
/// are numbered from where the earlier one left off.
pub proof fn numbers_go_on_with_the_next_token(
    s: &mut StreamState,
    t: &mut StreamState,
    a: GenerationToken,
    b: GenerationToken,
    r: Vec<StreamEvent>,
    q: Vec<StreamEvent>,
    i: int,
    j: int,
)
    requires
        old(s).next_tool_index + r@.len() + q@.len() <= u64::MAX,
        call_ensures(handle_streaming_token, (Ok(a), s), r),
        *final(s) == *old(t),
        call_ensures(handle_streaming_token, (Ok(b), t), q),
        0 <= i < r@.len(),
        r@[i] is ToolCall,
        0 <= j < q@.len(),
        q@[j] is ToolCall,
    ensures
        r@[i]->index < q@[j]->index,
{
    tool_calls_are_numbered_in_turn(s, a, r, i, i);
    lemma_calls_bounded(r@, r@.len() as int);
    tool_calls_are_numbered_in_turn(t, b, q, j, j);
}

proof fn lemma_calls_bounded(events: Seq<StreamEvent>, n: int)
    requires
        0 <= n,
    ensures
        calls_before(events, n) <= n,
    decreases n,
{
    if n > 0 {
        lemma_calls_bounded(events, n - 1);
    }
}

} // verus!
