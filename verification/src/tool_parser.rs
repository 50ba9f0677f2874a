//! Tool calls in a stream of text: what passes through to the client, and which
//! calls the model made.
//!
//! A call stands between `<tool_call>` and `</tool_call>`. The tags may be cut
//! anywhere by the pieces in which the text comes, so text that may still turn out
//! to be part of a call is held back.

use serde_json::Value;
use vstd::prelude::*;
use vstd::string::*;

use crate::json::{json_fields, no_fields, no_members, put_field, text_value, JsonModel};
use crate::text::{chars_of, string_of};
use crate::tools::{fresh_call_id, is_call_id, ParsedToolCall};

verus! {

/// How a model writes its tool calls.
#[derive(Debug, Clone, Copy, PartialEq, Eq, Structural)]
pub enum ToolCallFormat {
    /// `<function=name>` with a `<parameter=key>` element per argument.
    Qwen3XmlFunction,
}

/// A part of a model's output.
#[derive(Debug)]
pub enum Segment {
    Text(String),
    Call(ParsedToolCall),
}

/// What a [`Segment`] stands for. The id of a call is left out: it is random.
pub enum SegmentModel {
    Text(Seq<char>),
    Call { name: Seq<char>, arguments: Map<Seq<char>, JsonModel> },
}

impl View for Segment {
    type V = SegmentModel;

    open spec fn view(&self) -> SegmentModel {
        match self {
            Segment::Text(s) => SegmentModel::Text(s@),
            Segment::Call(c) => SegmentModel::Call {
                name: c.name@,
                arguments: json_fields(c.arguments),
            },
        }
    }
}

impl Segment {
    /// Whether a call has an id of the form that every call gets.
    pub open spec fn id_ok(self) -> bool {
        self matches Segment::Call(c) ==> is_call_id(c.id@)
    }
}

/// What segments stand for, in turn.
pub open spec fn segments_of(v: Seq<Segment>) -> Seq<SegmentModel> {
    v.map_values(|s: Segment| s@)
}

/// Whether every call among the segments has its id.
pub open spec fn ids_ok(v: Seq<Segment>) -> bool {
    forall|i: int| 0 <= i < v.len() ==> (#[trigger] v[i]).id_ok()
}

/// Whether the pattern stands at index `i` of the text.
pub open spec fn stands_at(text: Seq<char>, pattern: Seq<char>, i: int) -> bool {
    0 <= i && i + pattern.len() <= text.len() && text.subrange(i, i + pattern.len()) == pattern
}

/// The first index at or behind `i` where the pattern stands.
pub open spec fn find_from(text: Seq<char>, pattern: Seq<char>, i: int) -> Option<int>
    decreases text.len() - i,
{
    if i < 0 || i >= text.len() {
        None
    } else if stands_at(text, pattern, i) {
        Some(i)
    } else {
        find_from(text, pattern, i + 1)
    }
}

pub(crate) proof fn lemma_find_from(text: Seq<char>, pattern: Seq<char>, i: int)
    ensures
        find_from(text, pattern, i) matches Some(k) ==> i <= k && stands_at(text, pattern, k),
    decreases text.len() - i,
{
    if 0 <= i < text.len() && !stands_at(text, pattern, i) {
        lemma_find_from(text, pattern, i + 1);
    }
}

fn matches_at(text: &Vec<char>, pattern: &Vec<char>, i: usize) -> (r: bool)
    requires
        i <= text.len(),
    ensures
        r == stands_at(text@, pattern@, i as int),
{
    if text.len() - i < pattern.len() {
        return false;
    }
    let mut k: usize = 0;
    while k < pattern.len()
        invariant
            k <= pattern.len(),
            i + pattern.len() <= text.len(),
            forall|j: int| 0 <= j < k ==> text@[i + j] == pattern@[j],
        decreases pattern.len() - k,
    {
        if text[i + k] != pattern[k] {
            assert(text@.subrange(i as int, i + pattern@.len())[k as int] == text@[i + k]);
            return false;
        }
        k += 1;
    }
    assert(text@.subrange(i as int, i + pattern@.len()) =~= pattern@);
    true
}

fn find(text: &Vec<char>, pattern: &str, from: usize) -> (r: Option<usize>)
    requires
        from <= text.len(),
    ensures
        match r {
            Some(k) => {
                &&& find_from(text@, pattern@, from as int) == Some(k as int)
                &&& from <= k
                &&& k + pattern@.len() <= text.len()
            },
            None => find_from(text@, pattern@, from as int) is None,
        },
{
    let p: Vec<char> = chars_of(pattern);
    let mut i: usize = from;
    while i < text.len()
        invariant
            from <= i <= text.len(),
            p@ == pattern@,
            find_from(text@, pattern@, from as int) == find_from(text@, pattern@, i as int),
        decreases text.len() - i,
    {
        if matches_at(text, &p, i) {
            return Some(i);
        }
        i += 1;
    }
    None
}

fn part(text: &Vec<char>, from: usize, to: usize) -> (r: Vec<char>)
    requires
        from <= to <= text.len(),
    ensures
        r@ == text@.subrange(from as int, to as int),
{
    let mut out: Vec<char> = Vec::new();
    let mut i: usize = from;
    while i < to
        invariant
            from <= i <= to <= text.len(),
            out@ == text@.subrange(from as int, i as int),
        decreases to - i,
    {
        out.push(text[i]);
        i += 1;
        assert(text@.subrange(from as int, i as int) =~= text@.subrange(
            from as int,
            i - 1,
        ).push(text@[i - 1]));
    }
    out
}

/// The value of a parameter: without one line break at its beginning and one at
/// its end.
pub open spec fn parameter_value(s: Seq<char>) -> Seq<char> {
    let from = if s.len() > 0 && s[0] == '\n' {
        1int
    } else {
        0int
    };
    let to = if s.len() > from && s.last() == '\n' {
        s.len() - 1
    } else {
        s.len() as int
    };
    s.subrange(from, to)
}

/// The arguments that parameter elements set, in turn; `None` where one is not
/// closed. Text between the elements is passed over.
pub open spec fn parameters(text: Seq<char>, so_far: Map<Seq<char>, JsonModel>) -> Option<
    Map<Seq<char>, JsonModel>,
>
    decreases text.len(),
{
    match find_from(text, "<parameter="@, 0) {
        None => Some(so_far),
        Some(p) => match find_from(text, ">"@, p + 11) {
            None => None,
            Some(q) => match find_from(text, "</parameter>"@, q + 1) {
                None => None,
                Some(r) => if p < 0 || q < p || r < q || r + 12 > text.len() {
                    None
                } else {
                    parameters(
                        text.skip(r + 12),
                        so_far.insert(
                            text.subrange(p + 11, q),
                            JsonModel::Text(parameter_value(text.subrange(q + 1, r))),
                        ),
                    )
                },
            },
        },
    }
}

/// The name and the arguments of the call that a block holds: the first function
/// element, if it has a name and is closed.
pub open spec fn block_call(body: Seq<char>) -> Option<(Seq<char>, Map<Seq<char>, JsonModel>)> {
    match find_from(body, "<function="@, 0) {
        None => None,
        Some(a) => match find_from(body, ">"@, a + 10) {
            None => None,
            Some(b) => match find_from(body, "</function>"@, b + 1) {
                None => None,
                Some(c) => if b == a + 10 {
                    None
                } else {
                    match parameters(body.subrange(b + 1, c), no_members()) {
                        None => None,
                        Some(arguments) => Some(
                            (body.subrange(a + 10, b), arguments),
                        ),
                    }
                },
            },
        },
    }
}

fn read_parameters(text: Vec<char>) -> (r: Option<serde_json::Map<String, Value>>)
    ensures
        match r {
            Some(m) => parameters(text@, no_members()) == Some(json_fields(m)),
            None => parameters(text@, no_members()) is None,
        },
{
    let mut out: serde_json::Map<String, Value> = no_fields();
    let mut rest: Vec<char> = text;
    proof {
        reveal_strlit("<parameter=");
        reveal_strlit(">");
        reveal_strlit("</parameter>");
    }
    loop
        invariant
            "<parameter="@.len() == 11,
            ">"@.len() == 1,
            "</parameter>"@.len() == 12,
            parameters(rest@, json_fields(out)) == parameters(text@, no_members()),
        decreases rest.len(),
    {
        let p: usize = match find(&rest, "<parameter=", 0) {
            Some(p) => p,
            None => {
                return Some(out);
            },
        };
        let q: usize = match find(&rest, ">", p + 11) {
            Some(q) => q,
            None => {
                return None;
            },
        };
        let close: usize = match find(&rest, "</parameter>", q + 1) {
            Some(r) => r,
            None => {
                return None;
            },
        };
        let key: String = string_of(&part(&rest, p + 11, q));
        let raw: Vec<char> = part(&rest, q + 1, close);
        let from: usize = if raw.len() > 0 && raw[0] == '\n' {
            1
        } else {
            0
        };
        let to: usize = if raw.len() > from && raw[raw.len() - 1] == '\n' {
            raw.len() - 1
        } else {
            raw.len()
        };
        let value: String = string_of(&part(&raw, from, to));
        put_field(&mut out, key.as_str(), text_value(value.as_str()));
        let len: usize = rest.len();
        let tail: Vec<char> = part(&rest, close + 12, len);
        assert(tail@ =~= rest@.skip(close + 12));
        rest = tail;
    }
}

fn read_block(body: Vec<char>) -> (r: Option<ParsedToolCall>)
    ensures
        match r {
            Some(c) => is_call_id(c.id@) && block_call(body@) == Some(
                (c.name@, json_fields(c.arguments)),
            ),
            None => block_call(body@) is None,
        },
{
    proof {
        reveal_strlit("<function=");
        reveal_strlit(">");
    }
    let a: usize = match find(&body, "<function=", 0) {
        Some(a) => a,
        None => {
            return None;
        },
    };
    let b: usize = match find(&body, ">", a + 10) {
        Some(b) => b,
        None => {
            return None;
        },
    };
    let c: usize = match find(&body, "</function>", b + 1) {
        Some(c) => c,
        None => {
            return None;
        },
    };
    if b == a + 10 {
        return None;
    }
    let name: String = string_of(&part(&body, a + 10, b));
    match read_parameters(part(&body, b + 1, c)) {
        Some(arguments) => Some(ParsedToolCall { id: fresh_call_id(), name, arguments }),
        None => None,
    }
}

/// The segment of a text; none where it is empty.
pub open spec fn text_segment(text: Seq<char>) -> Seq<SegmentModel> {
    if text.len() == 0 {
        Seq::empty()
    } else {
        seq![SegmentModel::Text(text)]
    }
}

/// The segment of a block: the call it holds. A block without one passes through as
/// the text that it is.
pub open spec fn block_segment(body: Seq<char>) -> SegmentModel {
    match block_call(body) {
        Some((name, arguments)) => SegmentModel::Call { name, arguments },
        None => SegmentModel::Text("<tool_call>"@ + body + "</tool_call>"@),
    }
}

/// How many characters at the end of a text may be the beginning of a block's tag,
/// at most `k`.
pub open spec fn held_back(text: Seq<char>, k: int) -> int
    decreases k,
{
    if k <= 0 {
        0
    } else if k <= text.len() && text.skip(text.len() - k) == "<tool_call>"@.take(k) {
        k
    } else {
        held_back(text, k - 1)
    }
}

/// The segments of a text, and the end of it that is held back because it may be
/// part of a call.
pub open spec fn split_text(text: Seq<char>) -> (Seq<SegmentModel>, Seq<char>)
    decreases text.len(),
{
    match find_from(text, "<tool_call>"@, 0) {
        None => {
            let cut = text.len() - held_back(text, 10);
            (text_segment(text.take(cut)), text.skip(cut))
        },
        Some(i) => match find_from(text, "</tool_call>"@, i + 11) {
            None => (text_segment(text.take(i)), text.skip(i)),
            Some(j) => if i < 0 || j < i || j + 12 > text.len() {
                (text_segment(text), Seq::empty())
            } else {
                let rest = split_text(text.skip(j + 12));
                (
                    text_segment(text.take(i)).push(block_segment(text.subrange(i + 11, j)))
                        + rest.0,
                    rest.1,
                )
            },
        },
    }
}

/// Finds tool calls in a stream.
#[derive(Debug)]
pub struct ToolCallStreamParser {
    format: ToolCallFormat,
    pending: Vec<char>,
}

impl View for ToolCallStreamParser {
    type V = Seq<char>;

    /// The text that is held back.
    closed spec fn view(&self) -> Seq<char> {
        self.pending@
    }
}

fn push_text(out: &mut Vec<Segment>, text: &Vec<char>)
    requires
        ids_ok(old(out)@),
    ensures
        ids_ok(final(out)@),
        segments_of(final(out)@) == segments_of(old(out)@) + text_segment(text@),
{
    if text.len() > 0 {
        out.push(Segment::Text(string_of(text)));
    }
    assert(segments_of(out@) =~= segments_of(old(out)@) + text_segment(text@));
}

fn held(text: &Vec<char>) -> (r: usize)
    ensures
        r == held_back(text@, 10),
        r <= text.len(),
{
    let tag: Vec<char> = chars_of("<tool_call>");
    proof {
        reveal_strlit("<tool_call>");
    }
    let mut k: usize = 10;
    while k > 0
        invariant
            k <= 10,
            tag@ == "<tool_call>"@,
            tag@.len() == 11,
            held_back(text@, 10) == held_back(text@, k as int),
        decreases k,
    {
        if k <= text.len() {
            let head: Vec<char> = part(&tag, 0, k);
            assert(head@ =~= tag@.take(k as int));
            let at: usize = text.len() - k;
            assert(text@.subrange(at as int, at + k) =~= text@.skip(text@.len() - k));
            if matches_at(text, &head, at) {
                return k;
            }
        }
        k -= 1;
    }
    0
}

impl ToolCallStreamParser {
    /// A parser that holds nothing back.
    pub fn new(format: ToolCallFormat) -> (r: ToolCallStreamParser)
        ensures
            r@ == Seq::<char>::empty(),
    {
        ToolCallStreamParser { format, pending: Vec::new() }
    }

    /// Takes in a piece of text and hands out the segments that are complete.
    pub fn feed(&mut self, piece: &str) -> (r: Vec<Segment>)
        ensures
            segments_of(r@) == split_text(old(self)@ + piece@).0,
            final(self)@ == split_text(old(self)@ + piece@).1,
            ids_ok(r@),
    {
        let ghost all = self@ + piece@;
        let ToolCallFormat::Qwen3XmlFunction = self.format;
        let mut text: Vec<char> = Vec::new();
        std::mem::swap(&mut text, &mut self.pending);
        let mut more: Vec<char> = chars_of(piece);
        text.append(&mut more);
        assert(text@ =~= all);
        proof {
            reveal_strlit("<tool_call>");
            reveal_strlit("</tool_call>");
        }
        let mut out: Vec<Segment> = Vec::new();
        assert(segments_of(out@) + split_text(text@).0 =~= split_text(all).0);
        loop
            invariant
                "<tool_call>"@.len() == 11,
                "</tool_call>"@.len() == 12,
                all == old(self)@ + piece@,
                ids_ok(out@),
                segments_of(out@) + split_text(text@).0 == split_text(all).0,
                split_text(text@).1 == split_text(all).1,
            decreases text.len(),
        {
            let ghost before = segments_of(out@);
            let len: usize = text.len();
            let i: usize = match find(&text, "<tool_call>", 0) {
                Some(i) => i,
                None => {
                    let cut: usize = len - held(&text);
                    let shown: Vec<char> = part(&text, 0, cut);
                    assert(shown@ =~= text@.take(cut as int));
                    push_text(&mut out, &shown);
                    self.pending = part(&text, cut, len);
                    assert(self@ =~= text@.skip(cut as int));
                    return out;
                },
            };
            let shown: Vec<char> = part(&text, 0, i);
            assert(shown@ =~= text@.take(i as int));
            push_text(&mut out, &shown);
            let j: usize = match find(&text, "</tool_call>", i + 11) {
                Some(j) => j,
                None => {
                    self.pending = part(&text, i, len);
                    assert(self@ =~= text@.skip(i as int));
                    return out;
                },
            };
            let ghost body = text@.subrange(i + 11, j as int);
            let block: Segment = match read_block(part(&text, i + 11, j)) {
                Some(call) => Segment::Call(call),
                None => {
                    let raw: Vec<char> = part(&text, i, j + 12);
                    assert(raw@ =~= "<tool_call>"@ + body + "</tool_call>"@) by {
                        lemma_find_from(text@, "<tool_call>"@, 0);
                        lemma_find_from(text@, "</tool_call>"@, i + 11);
                        assert(text@.subrange(i as int, i + 11) == "<tool_call>"@);
                        assert(text@.subrange(j as int, j + 12) == "</tool_call>"@);
                        assert(raw@ =~= text@.subrange(i as int, i + 11) + body + text@.subrange(
                            j as int,
                            j + 12,
                        ));
                    }
                    Segment::Text(string_of(&raw))
                },
            };
            out.push(block);
            let tail: Vec<char> = part(&text, j + 12, len);
            proof {
                assert(tail@ =~= text@.skip(j + 12));
                assert(segments_of(out@) =~= (before + text_segment(text@.take(i as int))).push(
                    block_segment(body),
                ));
                assert(segments_of(out@) + split_text(tail@).0 =~= before + split_text(text@).0);
            }
            text = tail;
        }
    }

    /// Hands out what is held back as text, at the end of the stream.
    pub fn drain(&mut self) -> (r: Vec<Segment>)
        ensures
            segments_of(r@) == text_segment(old(self)@),
            ids_ok(r@),
            final(self)@ == Seq::<char>::empty(),
    {
        let mut out: Vec<Segment> = Vec::new();
        push_text(&mut out, &self.pending);
        self.pending = Vec::new();
        assert(segments_of(out@) =~= text_segment(old(self)@));
        out
    }
}

/// A text cut into segments of one character each.
pub open spec fn text_atoms(text: Seq<char>) -> Seq<SegmentModel>
    decreases text.len(),
{
    if text.len() == 0 {
        Seq::empty()
    } else {
        text_atoms(text.drop_last()).push(SegmentModel::Text(seq![text.last()]))
    }
}

/// Segments with their texts cut into single characters, so that it does not show
/// how they were cut before.
pub open spec fn atoms(segments: Seq<SegmentModel>) -> Seq<SegmentModel>
    decreases segments.len(),
{
    if segments.len() == 0 {
        Seq::empty()
    } else {
        atoms(segments.drop_last()) + match segments.last() {
            SegmentModel::Text(text) => text_atoms(text),
            SegmentModel::Call { name, arguments } => seq![SegmentModel::Call { name, arguments }],
        }
    }
}

proof fn lemma_atoms_add(a: Seq<SegmentModel>, b: Seq<SegmentModel>)
    ensures
        atoms(a + b) == atoms(a) + atoms(b),
    decreases b.len(),
{
    if b.len() == 0 {
        assert(a + b =~= a);
        assert(atoms(a) + atoms(b) =~= atoms(a));
    } else {
        lemma_atoms_add(a, b.drop_last());
        assert((a + b).drop_last() =~= a + b.drop_last());
        assert((a + b).last() == b.last());
        assert(atoms(a + b) =~= atoms(a) + atoms(b));
    }
}

proof fn lemma_text_segment_atoms(text: Seq<char>)
    ensures
        atoms(text_segment(text)) == text_atoms(text),
{
    let s = text_segment(text);
    if text.len() > 0 {
        assert(s.len() == 1 && s.last() == SegmentModel::Text(text));
        assert(s.drop_last().len() == 0);
        assert(atoms(s.drop_last()) == Seq::<SegmentModel>::empty());
        assert(atoms(s) == Seq::<SegmentModel>::empty() + text_atoms(text));
    }
    assert(atoms(s) =~= text_atoms(text));
}

proof fn lemma_text_atoms_add(a: Seq<char>, b: Seq<char>)
    ensures
        text_atoms(a + b) == text_atoms(a) + text_atoms(b),
    decreases b.len(),
{
    if b.len() == 0 {
        assert(a + b =~= a);
        assert(text_atoms(a) + text_atoms(b) =~= text_atoms(a));
    } else {
        lemma_text_atoms_add(a, b.drop_last());
        assert((a + b).drop_last() =~= a + b.drop_last());
        assert((a + b).last() == b.last());
        assert(text_atoms(a + b) =~= text_atoms(a) + text_atoms(b));
    }
}

/// Where the pattern does not stand between two indices, a search may begin at the
/// later one.
pub(crate) proof fn lemma_search_later(text: Seq<char>, pattern: Seq<char>, from: int, to: int)
    requires
        0 <= from <= to <= text.len(),
        forall|k: int| from <= k < to ==> !#[trigger] stands_at(text, pattern, k),
    ensures
        find_from(text, pattern, from) == find_from(text, pattern, to),
    decreases to - from,
{
    if from < to {
        assert(!stands_at(text, pattern, from));
        lemma_search_later(text, pattern, from + 1, to);
    }
}

/// Before what a search finds the pattern does not stand, and where it finds nothing
/// the pattern does not stand at all.
proof fn lemma_find_is_first(text: Seq<char>, pattern: Seq<char>, from: int, k: int)
    requires
        0 <= from <= k < text.len(),
        find_from(text, pattern, from) matches Some(i) ==> k < i,
    ensures
        !stands_at(text, pattern, k),
    decreases text.len() - from,
{
    if from < k {
        if !stands_at(text, pattern, from) {
            lemma_find_is_first(text, pattern, from + 1, k);
        }
    }
}

proof fn lemma_stands_in_tail(text: Seq<char>, pattern: Seq<char>, c: int, k: int)
    requires
        0 <= c <= text.len(),
        0 <= k,
    ensures
        stands_at(text.skip(c), pattern, k) == stands_at(text, pattern, c + k),
{
    if k + pattern.len() <= text.len() - c {
        assert(text.skip(c).subrange(k, k + pattern.len()) =~= text.subrange(
            c + k,
            c + k + pattern.len(),
        ));
    }
}

proof fn lemma_find_in_tail(text: Seq<char>, pattern: Seq<char>, c: int, from: int)
    requires
        0 <= c <= text.len(),
        0 <= from,
    ensures
        find_from(text.skip(c), pattern, from) == (match find_from(text, pattern, c + from) {
            Some(k) => Some(k - c),
            None => None,
        }),
    decreases text.len() - c - from,
{
    if from < text.len() - c {
        lemma_stands_in_tail(text, pattern, c, from);
        lemma_find_in_tail(text, pattern, c, from + 1);
    }
}

pub(crate) proof fn lemma_held_back(text: Seq<char>, k: int)
    requires
        0 <= k,
    ensures
        0 <= held_back(text, k) <= k,
        held_back(text, k) <= text.len(),
        held_back(text, k) > 0 ==> text.skip(text.len() - held_back(text, k))
            == "<tool_call>"@.take(held_back(text, k)),
        forall|h: int|
            held_back(text, k) < h <= k && h <= text.len() ==> #[trigger] text.skip(text.len() - h)
                != "<tool_call>"@.take(h),
    decreases k,
{
    if k > 0 && !(k <= text.len() && text.skip(text.len() - k) == "<tool_call>"@.take(k)) {
        lemma_held_back(text, k - 1);
    }
}

/// Whether no block begins among the first `c` characters, as far as the text shows.
spec fn free_before(text: Seq<char>, c: int) -> bool {
    &&& 0 <= c <= text.len()
    &&& forall|k: int| 0 <= k < c ==> !#[trigger] stands_at(text, "<tool_call>"@, k)
    &&& find_from(text, "<tool_call>"@, 0) is None ==> held_back(text, 10) <= text.len() - c
}

/// Text before which no block begins passes through.
proof fn lemma_split_behind(text: Seq<char>, c: int)
    requires
        free_before(text, c),
    ensures
        atoms(split_text(text).0) == text_atoms(text.take(c)) + atoms(split_text(text.skip(c)).0),
        split_text(text).1 == split_text(text.skip(c)).1,
{
    reveal_strlit("<tool_call>");
    reveal_strlit("</tool_call>");
    let open = "<tool_call>"@;
    let close = "</tool_call>"@;
    let tail = text.skip(c);
    lemma_search_later(text, open, 0, c);
    lemma_find_in_tail(text, open, c, 0);
    match find_from(text, open, 0) {
        None => {
            let h = held_back(text, 10);
            lemma_held_back(text, 10);
            lemma_held_back(tail, 10);
            let g = held_back(tail, 10);
            if g > 0 {
                assert(tail.skip(tail.len() - g) =~= text.skip(text.len() - g));
            }
            if h > 0 {
                assert(tail.skip(tail.len() - h) =~= text.skip(text.len() - h));
            }
            assert(h == g);
            let cut = text.len() - h;
            lemma_text_segment_atoms(text.take(cut));
            lemma_text_segment_atoms(tail.take(cut - c));
            assert(text.take(cut) =~= text.take(c) + tail.take(cut - c));
            lemma_text_atoms_add(text.take(c), tail.take(cut - c));
            assert(text.skip(cut) =~= tail.skip(cut - c));
        },
        Some(i) => {
            lemma_find_from(text, open, c);
            lemma_find_in_tail(text, close, c, i - c + 11);
            lemma_find_from(text, close, i + 11);
            lemma_text_segment_atoms(text.take(i));
            lemma_text_segment_atoms(tail.take(i - c));
            assert(text.take(i) =~= text.take(c) + tail.take(i - c));
            lemma_text_atoms_add(text.take(c), tail.take(i - c));
            match find_from(text, close, i + 11) {
                None => {
                    assert(text.skip(i) =~= tail.skip(i - c));
                },
                Some(j) => {
                    let block = block_segment(text.subrange(i + 11, j));
                    let rest = split_text(text.skip(j + 12));
                    assert(tail.skip(j - c + 12) =~= text.skip(j + 12));
                    assert(tail.subrange(i - c + 11, j - c) =~= text.subrange(i + 11, j));
                    assert(text_segment(text.take(i)).push(block) + rest.0 =~= text_segment(
                        text.take(i),
                    ) + (seq![block] + rest.0));
                    assert(text_segment(tail.take(i - c)).push(block) + rest.0 =~= text_segment(
                        tail.take(i - c),
                    ) + (seq![block] + rest.0));
                    lemma_atoms_add(text_segment(text.take(i)), seq![block] + rest.0);
                    lemma_atoms_add(text_segment(tail.take(i - c)), seq![block] + rest.0);
                },
            }
        },
    }
    assert(atoms(split_text(text).0) =~= text_atoms(text.take(c)) + atoms(split_text(tail).0));
}

proof fn lemma_stands_in_head(a: Seq<char>, b: Seq<char>, pattern: Seq<char>, k: int)
    requires
        0 <= k,
        k + pattern.len() <= a.len(),
    ensures
        stands_at(a + b, pattern, k) == stands_at(a, pattern, k),
{
    assert((a + b).subrange(k, k + pattern.len()) =~= a.subrange(k, k + pattern.len()));
}

/// What a search finds in a text it finds in a longer one too.
proof fn lemma_find_in_head(a: Seq<char>, b: Seq<char>, pattern: Seq<char>, from: int)
    requires
        0 <= from,
        pattern.len() > 0,
        find_from(a, pattern, from) is Some,
    ensures
        find_from(a + b, pattern, from) == find_from(a, pattern, from),
{
    let i = find_from(a, pattern, from)->0;
    lemma_find_from(a, pattern, from);
    lemma_stands_in_head(a, b, pattern, i);
    assert forall|k: int| from <= k < i implies !#[trigger] stands_at(a + b, pattern, k) by {
        lemma_find_is_first(a, pattern, from, k);
        lemma_stands_in_head(a, b, pattern, k);
    }
    lemma_search_later(a + b, pattern, from, i);
}

/// The pieces in which a text comes do not matter: fed in two pieces it gives the
/// same characters and calls in the same order, and leaves the same text held back,
/// as fed at once.
pub proof fn pieces_do_not_matter(a: Seq<char>, b: Seq<char>)
    ensures
        ({
            let first = split_text(a);
            let second = split_text(first.1 + b);
            let whole = split_text(a + b);
            &&& atoms(first.0) + atoms(second.0) == atoms(whole.0)
            &&& second.1 == whole.1
        }),
    decreases a.len(),
{
    reveal_strlit("<tool_call>");
    reveal_strlit("</tool_call>");
    let open = "<tool_call>"@;
    let close = "</tool_call>"@;
    let t = a + b;
    let first = split_text(a);
    lemma_find_from(a, open, 0);
    match find_from(a, open, 0) {
        None => {
            let h = held_back(a, 10);
            let c = a.len() - h;
            lemma_held_back(a, 10);
            lemma_held_back(t, 10);
            assert forall|k: int| 0 <= k < c implies !#[trigger] stands_at(t, open, k) by {
                if k + 11 <= a.len() {
                    lemma_stands_in_head(a, b, open, k);
                    lemma_find_is_first(a, open, 0, k);
                } else if stands_at(t, open, k) {
                    let m = a.len() - k;
                    assert(a.skip(a.len() - m) =~= open.take(m)) by {
                        assert forall|x: int| 0 <= x < m implies a.skip(k)[x] == open[x] by {
                            assert(t.subrange(k, k + 11)[x] == a[k + x]);
                        }
                    }
                }
            }
            let g = held_back(t, 10);
            if g > t.len() - c {
                let k = t.len() - g;
                let m = a.len() - k;
                assert(a.skip(a.len() - m) =~= open.take(m)) by {
                    assert forall|x: int| 0 <= x < m implies a.skip(k)[x] == open[x] by {
                        assert(t.skip(k)[x] == a[k + x]);
                        assert(open.take(g)[x] == open[x]);
                    }
                }
            }
            lemma_split_behind(t, c);
            lemma_text_segment_atoms(a.take(c));
            assert(t.take(c) =~= a.take(c));
            assert(t.skip(c) =~= first.1 + b);
        },
        Some(i) => {
            lemma_find_in_head(a, b, open, 0);
            lemma_find_from(a, close, i + 11);
            match find_from(a, close, i + 11) {
                None => {
                    assert forall|k: int| 0 <= k < i implies !#[trigger] stands_at(t, open, k) by {
                        lemma_find_is_first(t, open, 0, k);
                    }
                    lemma_split_behind(t, i);
                    lemma_text_segment_atoms(a.take(i));
                    assert(t.take(i) =~= a.take(i));
                    assert(t.skip(i) =~= first.1 + b);
                },
                Some(j) => {
                    lemma_find_in_head(a, b, close, i + 11);
                    let x = a.skip(j + 12);
                    pieces_do_not_matter(x, b);
                    assert(t.skip(j + 12) =~= x + b);
                    assert(t.take(i) =~= a.take(i));
                    assert(t.subrange(i + 11, j) =~= a.subrange(i + 11, j));
                    let head = text_segment(a.take(i)).push(block_segment(a.subrange(i + 11, j)));
                    lemma_atoms_add(head, split_text(x).0);
                    lemma_atoms_add(head, split_text(x + b).0);
                    assert(atoms(first.0) + atoms(split_text(first.1 + b).0) =~= atoms(
                        split_text(t).0,
                    ));
                },
            }
        },
    }
}

} // verus!
