//! A streamed chat completion: from the engine's tokens to the events that the
//! client gets.

use vstd::prelude::*;
use vstd::string::*;

use crate::counters::{bumped, ApiErrorCategory, ApiErrorCounters};
use crate::errors::{engine_error_category, engine_error_type, Error};
use crate::json::{json_fields, JsonModel};
use crate::tool_parser::{
    ids_ok, segments_of, split_text, text_segment, Segment, SegmentModel, ToolCallStreamParser,
};
use crate::tools::{is_call_id, select_finish_reason, ParsedToolCall};

verus! {

/// A token that the engine generated.
#[derive(Debug)]
pub struct GenerationToken {
    pub token_id: u32,
    pub piece: String,
    /// Whether the token is the last one.
    pub done: bool,
    pub finish_reason: Option<String>,
    /// Whether the token belongs to the model's reasoning.
    pub is_thinking: bool,
}

/// The tokens that a request used.
#[derive(Debug, Clone, Copy, PartialEq, Eq, Structural)]
pub struct Usage {
    pub prompt_tokens: u32,
    pub completion_tokens: u32,
    pub total_tokens: u32,
}

/// An event of a streamed completion. The marker at its end is not one of them:
/// the caller adds it.
#[derive(Debug)]
pub enum StreamEvent {
    /// A piece of the answer.
    Content(String),
    /// A piece of the reasoning.
    Reasoning(String),
    /// A tool call, with its position among those of the answer.
    ToolCall { index: u64, call: ParsedToolCall },
    /// The end of the answer.
    Finish(Option<String>),
    /// The tokens that the request used.
    Usage(Usage),
    /// The stream ended in an error.
    Error { kind: &'static str, message: String },
}

/// What an event stands for. The id of a tool call is left out: it is random.
pub enum EventModel {
    Content(Seq<char>),
    Reasoning(Seq<char>),
    ToolCall { index: u64, name: Seq<char>, arguments: Map<Seq<char>, JsonModel> },
    Finish(Option<Seq<char>>),
    Usage(Usage),
    Error { kind: Seq<char>, message: Seq<char> },
}

impl View for StreamEvent {
    type V = EventModel;

    open spec fn view(&self) -> EventModel {
        match self {
            StreamEvent::Content(s) => EventModel::Content(s@),
            StreamEvent::Reasoning(s) => EventModel::Reasoning(s@),
            StreamEvent::ToolCall { index, call } => EventModel::ToolCall {
                index: *index,
                name: call.name@,
                arguments: json_fields(call.arguments),
            },
            StreamEvent::Finish(r) => EventModel::Finish(
                match r {
                    Some(s) => Some(s@),
                    None => None,
                },
            ),
            StreamEvent::Usage(u) => EventModel::Usage(*u),
            StreamEvent::Error { kind, message } => EventModel::Error {
                kind: kind@,
                message: message@,
            },
        }
    }
}

/// The state of a streamed completion, with the server's lifetime counters.
#[derive(Debug)]
pub struct StreamState {
    /// Finds tool calls in the answer, where the request offers tools.
    pub parser: Option<ToolCallStreamParser>,
    /// The position of the next tool call.
    pub next_tool_index: u64,
    /// Whether a tool call was sent.
    pub any_tool_calls: bool,
    pub prompt_tokens: u32,
    pub completion_tokens: u32,
    /// Whether the client asked for the tokens that the request used.
    pub include_usage: bool,
    pub lifetime_tokens_in: u64,
    pub lifetime_tokens_out: u64,
    pub lifetime_requests_completed: u64,
    pub lifetime_requests_failed: u64,
    pub error_counts: ApiErrorCounters,
}

/// What a [`StreamState`] stands for. `held_back` is the text that may still be part
/// of a tool call, where such calls are looked for.
pub struct StreamModel {
    pub held_back: Option<Seq<char>>,
    pub next_tool_index: u64,
    pub any_tool_calls: bool,
    pub prompt_tokens: u32,
    pub completion_tokens: u32,
    pub include_usage: bool,
    pub lifetime_tokens_in: u64,
    pub lifetime_tokens_out: u64,
    pub lifetime_requests_completed: u64,
    pub lifetime_requests_failed: u64,
    pub error_counts: ApiErrorCounters,
}

impl View for StreamState {
    type V = StreamModel;

    open spec fn view(&self) -> StreamModel {
        StreamModel {
            held_back: match self.parser {
                Some(p) => Some(p@),
                None => None,
            },
            next_tool_index: self.next_tool_index,
            any_tool_calls: self.any_tool_calls,
            prompt_tokens: self.prompt_tokens,
            completion_tokens: self.completion_tokens,
            include_usage: self.include_usage,
            lifetime_tokens_in: self.lifetime_tokens_in,
            lifetime_tokens_out: self.lifetime_tokens_out,
            lifetime_requests_completed: self.lifetime_requests_completed,
            lifetime_requests_failed: self.lifetime_requests_failed,
            error_counts: self.error_counts,
        }
    }
}

/// A sum that wraps around behind the largest value.
pub open spec fn wrapped_sum(a: u64, b: u64) -> u64 {
    if a + b > u64::MAX {
        (a + b - 0x1_0000_0000_0000_0000) as u64
    } else {
        (a + b) as u64
    }
}

impl StreamState {
    /// The state of a completion that has not begun and looks for no tool calls,
    /// with all counters at zero.
    pub fn new(prompt_tokens: u32, include_usage: bool) -> (r: StreamState)
        ensures
            r.parser is None,
            r.next_tool_index == 0,
            !r.any_tool_calls,
            r.prompt_tokens == prompt_tokens,
            r.completion_tokens == 0,
            r.include_usage == include_usage,
            r.lifetime_tokens_in == 0 && r.lifetime_tokens_out == 0,
            r.lifetime_requests_completed == 0 && r.lifetime_requests_failed == 0,
            forall|c: ApiErrorCategory| #[trigger] r.error_counts.count(c) == 0,
    {
        StreamState {
            parser: None,
            next_tool_index: 0,
            any_tool_calls: false,
            prompt_tokens,
            completion_tokens: 0,
            include_usage,
            lifetime_tokens_in: 0,
            lifetime_tokens_out: 0,
            lifetime_requests_completed: 0,
            lifetime_requests_failed: 0,
            error_counts: ApiErrorCounters::new(),
        }
    }
}

/// The position of the tool call behind those among the segments.
pub open spec fn index_behind(segments: Seq<SegmentModel>, index: u64) -> u64
    decreases segments.len(),
{
    if segments.len() == 0 {
        index
    } else {
        let before = index_behind(segments.drop_last(), index);
        match segments.last() {
            SegmentModel::Text(_) => before,
            SegmentModel::Call { .. } => bumped(before),
        }
    }
}

/// The events of segments, in turn. Calls are numbered from `index` on.
pub open spec fn segment_events(segments: Seq<SegmentModel>, index: u64) -> Seq<EventModel>
    decreases segments.len(),
{
    if segments.len() == 0 {
        Seq::empty()
    } else {
        segment_events(segments.drop_last(), index).push(
            match segments.last() {
                SegmentModel::Text(s) => EventModel::Content(s),
                SegmentModel::Call { name, arguments } => EventModel::ToolCall {
                    index: index_behind(segments.drop_last(), index),
                    name,
                    arguments,
                },
            },
        )
    }
}

/// Whether there is a call among the segments.
pub open spec fn has_call(segments: Seq<SegmentModel>) -> bool {
    exists|i: int| 0 <= i < segments.len() && #[trigger] segments[i] is Call
}

impl StreamModel {
    /// The tokens used once one more is counted.
    pub open spec fn usage(self) -> Usage {
        Usage {
            prompt_tokens: self.prompt_tokens,
            completion_tokens: (self.completion_tokens + 1) as u32,
            total_tokens: (self.prompt_tokens + self.completion_tokens + 1) as u32,
        }
    }

    /// The segments that the piece of a token completes, and the text that is held
    /// back then. Reasoning is not looked at. Where no tool calls are looked for,
    /// the piece is a segment as it is.
    pub open spec fn fed(self, tok: GenerationToken) -> (Seq<SegmentModel>, Option<Seq<char>>) {
        if tok.is_thinking || tok.piece@.len() == 0 {
            (Seq::empty(), self.held_back)
        } else {
            match self.held_back {
                None => (text_segment(tok.piece@), None),
                Some(held) => (split_text(held + tok.piece@).0, Some(split_text(held + tok.piece@).1)),
            }
        }
    }

    /// The segments of a token, and the text that is held back behind it. With the
    /// last token nothing is held back any more.
    pub open spec fn parsed(self, tok: GenerationToken) -> (Seq<SegmentModel>, Option<Seq<char>>) {
        let (segments, held) = self.fed(tok);
        if tok.done && held is Some {
            (segments + text_segment(held->0), Some(Seq::empty()))
        } else {
            (segments, held)
        }
    }

    /// The state after a token. Every token counts, the last one too. The lifetime
    /// counters change with the last one only.
    pub open spec fn after_token(self, tok: GenerationToken) -> StreamModel {
        let completion = (self.completion_tokens + 1) as u32;
        let segments = self.parsed(tok).0;
        let counted = StreamModel {
            held_back: self.parsed(tok).1,
            next_tool_index: index_behind(segments, self.next_tool_index),
            any_tool_calls: self.any_tool_calls || has_call(segments),
            completion_tokens: completion,
            ..self
        };
        if tok.done {
            StreamModel {
                lifetime_tokens_in: wrapped_sum(self.lifetime_tokens_in, self.prompt_tokens as u64),
                lifetime_tokens_out: wrapped_sum(self.lifetime_tokens_out, completion as u64),
                lifetime_requests_completed: bumped(self.lifetime_requests_completed),
                ..counted
            }
        } else {
            counted
        }
    }

    /// The events of a token: its reasoning, or the text and the tool calls that it
    /// completes; for the last token then the end of the answer, and the usage if
    /// the client asked for it.
    pub open spec fn token_events(self, tok: GenerationToken) -> Seq<EventModel> {
        let reasoning: Seq<EventModel> = if tok.is_thinking && tok.piece@.len() > 0 {
            seq![EventModel::Reasoning(tok.piece@)]
        } else {
            Seq::empty()
        };
        let end: Seq<EventModel> = if !tok.done {
            Seq::empty()
        } else if self.include_usage {
            seq![
                EventModel::Finish(self.after_token(tok).finish(tok.finish_reason)),
                EventModel::Usage(self.usage()),
            ]
        } else {
            seq![EventModel::Finish(self.after_token(tok).finish(tok.finish_reason))]
        };
        reasoning + segment_events(self.parsed(tok).0, self.next_tool_index) + end
    }

    /// The reason with which the answer ends.
    pub open spec fn finish(self, terminal: Option<String>) -> Option<Seq<char>> {
        if self.any_tool_calls {
            Some("tool_calls"@)
        } else {
            match terminal {
                Some(s) => Some(s@),
                None => None,
            }
        }
    }
}

/// What events stand for, in turn.
pub open spec fn events_of(v: Seq<StreamEvent>) -> Seq<EventModel> {
    v.map_values(|e: StreamEvent| e@)
}

/// Whether every tool call among the events has an id of the form that all get.
pub open spec fn call_ids_ok(v: Seq<StreamEvent>) -> bool {
    forall|i: int|
        0 <= i < v.len() ==> ((#[trigger] v[i]) matches StreamEvent::ToolCall { call, .. }
            ==> is_call_id(call.id@))
}

proof fn lemma_has_call_push(segments: Seq<SegmentModel>, s: SegmentModel)
    ensures
        has_call(segments.push(s)) == (has_call(segments) || s is Call),
{
    let t = segments.push(s);
    if has_call(segments) {
        let i = choose|i: int| 0 <= i < segments.len() && #[trigger] segments[i] is Call;
        assert(t[i] is Call);
    }
    if s is Call {
        assert(t[segments.len() as int] is Call);
    }
    if has_call(t) && !(s is Call) {
        let i = choose|i: int| 0 <= i < t.len() && #[trigger] t[i] is Call;
        assert(segments[i] is Call);
    }
}

/// The segments that a token completes.
fn take_segments(state: &mut StreamState, piece: String, done: bool, is_thinking: bool) -> (r: Vec<
    Segment,
>)
    ensures
        ids_ok(r@),
        forall|tok: GenerationToken|
            tok.piece@ == piece@ && tok.done == done && tok.is_thinking == is_thinking ==> {
                &&& segments_of(r@) == (#[trigger] old(state)@.parsed(tok)).0
                &&& final(state)@ == (StreamModel {
                    held_back: old(state)@.parsed(tok).1,
                    ..old(state)@
                })
            },
{
    let mut segments: Vec<Segment> = Vec::new();
    let mut parser: Option<ToolCallStreamParser> = None;
    std::mem::swap(&mut parser, &mut state.parser);
    match parser {
        Some(p) => {
            let mut p: ToolCallStreamParser = p;
            if !is_thinking && !piece.as_str().is_empty() {
                segments = p.feed(piece.as_str());
            }
            let ghost fed = segments_of(segments@);
            assert(is_thinking || piece@.len() == 0 ==> fed =~= Seq::<SegmentModel>::empty());
            if done {
                let ghost held = p@;
                let mut rest: Vec<Segment> = p.drain();
                segments.append(&mut rest);
                assert(segments_of(segments@) =~= fed + text_segment(held));
            }
            state.parser = Some(p);
        },
        None => {
            if !is_thinking && !piece.as_str().is_empty() {
                segments.push(Segment::Text(piece));
            }
            assert(segments_of(segments@) =~= if is_thinking {
                Seq::<SegmentModel>::empty()
            } else {
                text_segment(piece@)
            });
        },
    }
    segments
}

/// Puts the events of segments behind others, and counts the tool calls.
fn push_segments(state: &mut StreamState, segments: Vec<Segment>, events: &mut Vec<StreamEvent>)
    requires
        ids_ok(segments@),
        call_ids_ok(old(events)@),
    ensures
        call_ids_ok(final(events)@),
        events_of(final(events)@) == events_of(old(events)@) + segment_events(
            segments_of(segments@),
            old(state).next_tool_index,
        ),
        final(state)@ == (StreamModel {
            next_tool_index: index_behind(segments_of(segments@), old(state).next_tool_index),
            any_tool_calls: old(state).any_tool_calls || has_call(segments_of(segments@)),
            ..old(state)@
        }),
{
    let ghost all = segments@;
    let ghost first = state.next_tool_index;
    let mut rest: Vec<Segment> = segments;
    let ghost mut n: int = 0;
    proof {
        assert(segments_of(all.take(0)) =~= Seq::<SegmentModel>::empty());
        assert(all.skip(0) =~= all);
        assert(events_of(events@) =~= events_of(old(events)@) + segment_events(
            segments_of(all.take(0)),
            first,
        ));
    }
    while rest.len() > 0
        invariant
            0 <= n <= all.len(),
            rest@ == all.skip(n),
            ids_ok(all),
            call_ids_ok(events@),
            first == old(state).next_tool_index,
            events_of(events@) == events_of(old(events)@) + segment_events(
                segments_of(all.take(n)),
                first,
            ),
            state@ == (StreamModel {
                next_tool_index: index_behind(segments_of(all.take(n)), first),
                any_tool_calls: old(state).any_tool_calls || has_call(segments_of(all.take(n))),
                ..old(state)@
            }),
        decreases rest.len(),
    {
        let ghost shown = events_of(events@);
        let ghost before = segments_of(all.take(n));
        let s: Segment = rest.remove(0);
        proof {
            assert(s == all[n]);
            assert(s.id_ok());
            assert(rest@ =~= all.skip(n + 1));
            assert(segments_of(all.take(n + 1)) =~= before.push(s@));
            assert(before.push(s@).drop_last() =~= before);
            lemma_has_call_push(before, s@);
        }
        match s {
            Segment::Text(text) => {
                events.push(StreamEvent::Content(text));
                assert(events_of(events@) =~= shown.push(EventModel::Content(text@)));
            },
            Segment::Call(call) => {
                let index: u64 = state.next_tool_index;
                state.next_tool_index = index.wrapping_add(1);
                state.any_tool_calls = true;
                events.push(StreamEvent::ToolCall { index, call });
                assert(events_of(events@) =~= shown.push(
                    EventModel::ToolCall {
                        index,
                        name: call.name@,
                        arguments: json_fields(call.arguments),
                    },
                ));
            },
        }
        proof {
            n = n + 1;
            assert(events_of(events@) =~= events_of(old(events)@) + segment_events(
                segments_of(all.take(n)),
                first,
            ));
        }
    }
    assert(all.take(n) =~= all);
}

/// Turns what the engine produced into the events for the client. An error ends
/// the stream with one event and is counted under its category.
pub fn handle_streaming_token(item: Result<GenerationToken, Error>, state: &mut StreamState) -> (r:
    Vec<StreamEvent>)
    requires
        item is Ok ==> old(state).prompt_tokens + old(state).completion_tokens < u32::MAX,
    ensures
        call_ids_ok(r@),
        match item {
            Ok(tok) => {
                &&& events_of(r@) == old(state)@.token_events(tok)
                &&& final(state)@ == old(state)@.after_token(tok)
            },
            Err(e) => {
                &&& events_of(r@) == seq![
                    EventModel::Error { kind: e@.category().kind_text(), message: e@.text() },
                ]
                &&& final(state)@.lifetime_requests_failed == bumped(
                    old(state)@.lifetime_requests_failed,
                )
                &&& forall|c: ApiErrorCategory| #[trigger]
                    final(state)@.error_counts.count(c) == (if c == e@.category() {
                        bumped(old(state)@.error_counts.count(c))
                    } else {
                        old(state)@.error_counts.count(c)
                    })
                &&& final(state)@ == (StreamModel {
                    lifetime_requests_failed: final(state)@.lifetime_requests_failed,
                    error_counts: final(state)@.error_counts,
                    ..old(state)@
                })
            },
        },
{
    let mut events: Vec<StreamEvent> = Vec::new();
    match item {
        Err(e) => {
            state.error_counts.increment(engine_error_category(&e));
            state.lifetime_requests_failed = state.lifetime_requests_failed.wrapping_add(1);
            events.push(StreamEvent::Error { kind: engine_error_type(&e), message: e.message() });
            assert(events_of(events@) =~= seq![
                EventModel::Error { kind: e@.category().kind_text(), message: e@.text() },
            ]);
        },
        Ok(tok) => {
            let ghost given = tok;
            let GenerationToken { token_id: _, piece, done, finish_reason, is_thinking } = tok;
            state.completion_tokens = state.completion_tokens + 1;
            let ghost counted = state@;
            assert(counted.parsed(given) == old(state)@.parsed(given));
            if is_thinking && !piece.as_str().is_empty() {
                events.push(StreamEvent::Reasoning(piece.clone()));
            }
            let ghost reasoning = events_of(events@);
            assert(reasoning =~= if is_thinking && given.piece@.len() > 0 {
                seq![EventModel::Reasoning(given.piece@)]
            } else {
                Seq::<EventModel>::empty()
            });
            let segments: Vec<Segment> = take_segments(state, piece, done, is_thinking);
            push_segments(state, segments, &mut events);
            assert(events_of(events@) =~= reasoning + segment_events(
                old(state)@.parsed(given).0,
                old(state)@.next_tool_index,
            ));
            let ghost shown = events_of(events@);
            if done {
                state.lifetime_tokens_in =
                state.lifetime_tokens_in.wrapping_add(state.prompt_tokens as u64);
                state.lifetime_tokens_out =
                state.lifetime_tokens_out.wrapping_add(state.completion_tokens as u64);
                state.lifetime_requests_completed =
                state.lifetime_requests_completed.wrapping_add(1);
                let reason: Option<String> = select_finish_reason(
                    state.any_tool_calls,
                    finish_reason,
                );
                events.push(StreamEvent::Finish(reason));
                let ghost end = EventModel::Finish(
                    old(state)@.after_token(given).finish(given.finish_reason),
                );
                assert(events@.last()@ == end);
                assert(events_of(events@) =~= shown.push(end));
                if state.include_usage {
                    events.push(
                        StreamEvent::Usage(
                            Usage {
                                prompt_tokens: state.prompt_tokens,
                                completion_tokens: state.completion_tokens,
                                total_tokens: state.prompt_tokens + state.completion_tokens,
                            },
                        ),
                    );
                }
            }
            assert(events_of(events@) =~= old(state)@.token_events(given));
        },
    }
    events
}

/// The usage that a stream reports adds up, and counts one token more than were
/// counted before.
pub proof fn usage_adds_up(s: StreamModel, tok: GenerationToken)
    requires
        s.prompt_tokens + s.completion_tokens < u32::MAX,
    ensures
        s.usage().total_tokens == s.usage().prompt_tokens + s.usage().completion_tokens,
        s.usage().completion_tokens == s.after_token(tok).completion_tokens,
{
}

/// A stream that meets no error changes no error counter and no counter of failed
/// requests.
pub proof fn success_counts_no_error(s: StreamModel, tok: GenerationToken)
    ensures
        s.after_token(tok).error_counts == s.error_counts,
        s.after_token(tok).lifetime_requests_failed == s.lifetime_requests_failed,
{
}

/// Once a tool call was sent, the answer ends for tool calls, whatever reason the
/// engine gives with a later token.
pub proof fn tool_calls_decide_the_finish(
    s: StreamModel,
    tok: GenerationToken,
    terminal: Option<String>,
)
    requires
        s.any_tool_calls || has_call(s.parsed(tok).0),
    ensures
        s.after_token(tok).any_tool_calls,
        s.after_token(tok).finish(terminal) == Some("tool_calls"@),
{
}

/// The last token leaves no text held back.
pub proof fn nothing_stays_held_back(s: StreamModel, tok: GenerationToken)
    requires
        tok.done,
    ensures
        s.after_token(tok).held_back matches Some(held) ==> held.len() == 0,
{
}

} // verus!
