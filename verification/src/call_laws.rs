//! Tool calls are read as they are written, wherever they stand in a model's output.

use vstd::prelude::*;
use vstd::string::*;

use crate::json::{json_fields, JsonModel};
use crate::tool_parser::{
    atoms, block_call, block_segment, find_from, held_back, lemma_find_from, lemma_held_back,
    lemma_search_later, parameter_value, parameters, pieces_do_not_matter, segments_of, split_text,
    stands_at, text_segment, Segment, ToolCallStreamParser,
};

verus! {

/// Whether a pattern stands somewhere in a text.
pub open spec fn occurs(text: Seq<char>, pattern: Seq<char>) -> bool {
    exists|k: int|
        #![trigger text.subrange(k, k + pattern.len())]
        0 <= k && k + pattern.len() <= text.len() && text.subrange(k, k + pattern.len()) == pattern
}

/// A line break.
pub open spec fn nl() -> Seq<char> {
    seq!['\n']
}

/// A line break, or nothing.
pub open spec fn nl_if(there: bool) -> Seq<char> {
    if there {
        nl()
    } else {
        Seq::empty()
    }
}

/// An argument of a call as a model writes it: what stands before it, its key, and its value
/// with a line break before and behind it, or without.
pub struct Argument {
    pub before: Seq<char>,
    pub key: Seq<char>,
    pub break_before: bool,
    pub value: Seq<char>,
    pub break_behind: bool,
}

impl Argument {
    /// What stands between the tags of the argument.
    pub open spec fn inner(self) -> Seq<char> {
        nl_if(self.break_before) + self.value + nl_if(self.break_behind)
    }
}

/// The arguments of a call as a model writes them, one behind the other.
pub open spec fn arguments_text(args: Seq<Argument>) -> Seq<char>
    decreases args.len(),
{
    if args.len() == 0 {
        Seq::empty()
    } else {
        args[0].before + "<parameter="@ + args[0].key + ">"@ + args[0].inner() + "</parameter>"@
            + arguments_text(args.skip(1))
    }
}

/// A call as a model writes it: a function with a name, its arguments, and what stands
/// around them.
pub open spec fn call_text(
    before: Seq<char>,
    name: Seq<char>,
    args: Seq<Argument>,
    rest: Seq<char>,
    behind: Seq<char>,
) -> Seq<char> {
    before + "<function="@ + name + ">"@ + (arguments_text(args) + rest) + "</function>"@ + behind
}

/// Whether a name can be written in a tag: it does not end the tag, and holds no end of a
/// block that the end of the tag would complete.
pub open spec fn is_name(name: Seq<char>) -> bool {
    &&& forall|i: int| 0 <= i < name.len() ==> #[trigger] name[i] != '>'
    &&& !occurs(name + ">"@, "</tool_call>"@)
    &&& !occurs(name + ">"@, "</function>"@)
}

/// Whether a text holds no end of a function and no end of a block.
pub open spec fn ends_nothing(text: Seq<char>) -> bool {
    !occurs(text, "</function>"@) && !occurs(text, "</tool_call>"@)
}

/// Whether an argument can be written: its key is a name, its value holds no end tag, and
/// what stands before it is no argument. A value that is written without a line break does
/// not have one there itself.
pub open spec fn is_written(a: Argument) -> bool {
    &&& is_name(a.key)
    &&& !occurs(a.inner(), "</parameter>"@)
    &&& ends_nothing(a.inner())
    &&& !occurs(a.before, "<parameter="@)
    &&& ends_nothing(a.before)
    &&& !a.break_before ==> a.inner().len() == 0 || a.inner()[0] != '\n'
    &&& !a.break_behind ==> a.value.len() == 0 || a.value.last() != '\n'
}

/// Whether arguments can be written.
pub open spec fn writable(args: Seq<Argument>) -> bool {
    forall|i: int| 0 <= i < args.len() ==> is_written(#[trigger] args[i])
}

/// Whether arguments are those that were written: every key with the value that was written
/// for it last, as a text, and no other.
pub open spec fn are_written(arguments: Map<Seq<char>, JsonModel>, args: Seq<Argument>) -> bool {
    &&& forall|key: Seq<char>| #[trigger]
        arguments.contains_key(key) <==> exists|i: int|
            0 <= i < args.len() && (#[trigger] args[i]).key == key
    &&& forall|i: int|
        0 <= i < args.len() && (forall|j: int|
            i < j < args.len() ==> (#[trigger] args[j]).key != args[i].key)
            ==> arguments[(#[trigger] args[i]).key] == JsonModel::Text(args[i].value)
}

/// Whether a pattern begins like a tag, and neither begins again nor ends early.
spec fn is_tag(pattern: Seq<char>) -> bool {
    &&& pattern.len() > 0
    &&& pattern[0] == '<'
    &&& forall|i: int| 0 < i < pattern.len() ==> #[trigger] pattern[i] != '<'
    &&& forall|i: int| 0 <= i < pattern.len() - 1 ==> #[trigger] pattern[i] != '>'
}

proof fn lemma_tags()
    ensures
        is_tag("<tool_call>"@),
        is_tag("</tool_call>"@),
        is_tag("<function="@),
        is_tag("</function>"@),
        is_tag("<parameter="@),
        is_tag("</parameter>"@),
        "<tool_call>"@.len() == 11,
        "</tool_call>"@.len() == 12,
        "<function="@.len() == 10,
        "</function>"@.len() == 11,
        "<parameter="@.len() == 11,
        "</parameter>"@.len() == 12,
        ">"@.len() == 1,
        ">"@[0] == '>',
        "<function="@[1] == 'f',
        "<parameter="@[1] == 'p',
        "</tool_call>"@[1] == '/',
        "</function>"@[1] == '/',
        "</parameter>"@[1] == '/',
        "</tool_call>"@[2] == 't',
        "</parameter>"@[2] == 'p',
        "</function>"@[2] == 'f',
        "</function>"@[10] == '>',
        "</parameter>"@[11] == '>',
{
    reveal_strlit("<tool_call>");
    reveal_strlit("</tool_call>");
    reveal_strlit("<function=");
    reveal_strlit("</function>");
    reveal_strlit("<parameter=");
    reveal_strlit("</parameter>");
    reveal_strlit(">");
}

proof fn lemma_occurs(text: Seq<char>, pattern: Seq<char>, k: int)
    requires
        stands_at(text, pattern, k),
    ensures
        occurs(text, pattern),
{
    assert(text.subrange(k, k + pattern.len()) == pattern);
}

proof fn lemma_stands(text: Seq<char>, pattern: Seq<char>, k: int, i: int)
    requires
        stands_at(text, pattern, k),
        0 <= i < pattern.len(),
    ensures
        text[k + i] == pattern[i],
{
    assert(text.subrange(k, k + pattern.len())[i] == text[k + i]);
}

proof fn lemma_find_at(text: Seq<char>, pattern: Seq<char>, from: int, k: int)
    requires
        0 <= from <= k,
        pattern.len() > 0,
        stands_at(text, pattern, k),
        forall|j: int| from <= j < k ==> !#[trigger] stands_at(text, pattern, j),
    ensures
        find_from(text, pattern, from) == Some(k),
{
    lemma_search_later(text, pattern, from, k);
}

proof fn lemma_find_none(text: Seq<char>, pattern: Seq<char>, from: int)
    requires
        0 <= from,
        forall|j: int| from <= j < text.len() ==> !#[trigger] stands_at(text, pattern, j),
    ensures
        find_from(text, pattern, from) is None,
    decreases text.len() - from,
{
    if from < text.len() {
        lemma_find_none(text, pattern, from + 1);
    }
}

/// The pattern is found where it stands behind a part of the text that does not hold it.
proof fn lemma_find_tag(
    text: Seq<char>,
    head: Seq<char>,
    mid: Seq<char>,
    pattern: Seq<char>,
    rest: Seq<char>,
)
    requires
        text == head + mid + pattern + rest,
        is_tag(pattern),
        !occurs(mid, pattern),
    ensures
        find_from(text, pattern, head.len() as int) == Some((head.len() + mid.len()) as int),
        stands_at(text, pattern, (head.len() + mid.len()) as int),
{
    let at = (head.len() + mid.len()) as int;
    assert(text.subrange(at, at + pattern.len()) =~= pattern);
    assert forall|j: int| head.len() <= j < at implies !#[trigger] stands_at(text, pattern, j) by {
        if stands_at(text, pattern, j) {
            if j + pattern.len() <= at {
                assert(mid.subrange(j - head.len(), j - head.len() + pattern.len())
                    =~= text.subrange(j, j + pattern.len()));
                assert(occurs(mid, pattern));
            } else {
                lemma_stands(text, pattern, j, at - j);
                assert(text[at] == pattern[0]);
            }
        }
    }
    lemma_find_at(text, pattern, head.len() as int, at);
}

/// A tag ends where its name does.
proof fn lemma_find_end(text: Seq<char>, head: Seq<char>, name: Seq<char>, rest: Seq<char>)
    requires
        text == head + name + ">"@ + rest,
        forall|i: int| 0 <= i < name.len() ==> #[trigger] name[i] != '>',
    ensures
        find_from(text, ">"@, head.len() as int) == Some((head.len() + name.len()) as int),
{
    lemma_tags();
    let at = (head.len() + name.len()) as int;
    assert(text.subrange(at, at + 1) =~= ">"@);
    assert forall|j: int| head.len() <= j < at implies !#[trigger] stands_at(text, ">"@, j) by {
        if stands_at(text, ">"@, j) {
            lemma_stands(text, ">"@, j, 0);
            assert(text[j] == name[j - head.len()]);
        }
    }
    lemma_find_at(text, ">"@, head.len() as int, at);
}

/// Where neither of two parts holds a tag, they do not hold it together, if a tag begins with
/// the second or one ends with the first.
proof fn lemma_joint(x: Seq<char>, y: Seq<char>, pattern: Seq<char>)
    requires
        is_tag(pattern),
        !occurs(x, pattern),
        !occurs(y, pattern),
        y.len() == 0 || y[0] == '<' || x.len() == 0 || x.last() == '>',
    ensures
        !occurs(x + y, pattern),
{
    let text = x + y;
    if occurs(text, pattern) {
        let k = choose|k: int|
            #![trigger text.subrange(k, k + pattern.len())]
            0 <= k && k + pattern.len() <= text.len() && text.subrange(k, k + pattern.len())
                == pattern;
        if k + pattern.len() <= x.len() {
            assert(x.subrange(k, k + pattern.len()) =~= text.subrange(k, k + pattern.len()));
        } else if k >= x.len() {
            let n = k - x.len();
            assert(y.subrange(n, n + pattern.len()) =~= text.subrange(k, k + pattern.len()));
        } else {
            assert(stands_at(text, pattern, k));
            if y[0] == '<' {
                lemma_stands(text, pattern, k, x.len() - k);
                assert(text[x.len() as int] == '<');
            } else {
                lemma_stands(text, pattern, k, x.len() - 1 - k);
                assert(text[x.len() - 1] == '>');
            }
        }
    }
}

/// A text that is shorter than a pattern does not hold it.
proof fn lemma_short(text: Seq<char>, pattern: Seq<char>)
    requires
        text.len() < pattern.len(),
    ensures
        !occurs(text, pattern),
{
}

/// A tag with a name in it does not hold an end tag that the name and its end do not.
proof fn lemma_named_tag(tag: Seq<char>, name: Seq<char>, pattern: Seq<char>)
    requires
        is_tag(tag),
        is_tag(pattern),
        tag.len() > 1,
        pattern.len() > 1,
        tag[1] != pattern[1],
        !occurs(name + ">"@, pattern),
    ensures
        !occurs(tag + name + ">"@, pattern),
{
    let text = tag + name + ">"@;
    if occurs(text, pattern) {
        let k = choose|k: int|
            #![trigger text.subrange(k, k + pattern.len())]
            0 <= k && k + pattern.len() <= text.len() && text.subrange(k, k + pattern.len())
                == pattern;
        assert(stands_at(text, pattern, k));
        lemma_stands(text, pattern, k, 0);
        lemma_stands(text, pattern, k, 1);
        if k < tag.len() {
            assert(text[k] == tag[k]);
            assert(k == 0);
            assert(text[1] == tag[1]);
        } else {
            let n = k - tag.len();
            assert((name + ">"@).subrange(n, n + pattern.len()) =~= text.subrange(
                k,
                k + pattern.len(),
            ));
        }
    }
}

/// The end of an argument is no other end.
proof fn lemma_other_end(pattern: Seq<char>)
    requires
        pattern == "</tool_call>"@ || pattern == "</function>"@,
    ensures
        !occurs("</parameter>"@, pattern),
{
    lemma_tags();
    let text = "</parameter>"@;
    if occurs(text, pattern) {
        let k = choose|k: int|
            #![trigger text.subrange(k, k + pattern.len())]
            0 <= k && k + pattern.len() <= text.len() && text.subrange(k, k + pattern.len())
                == pattern;
        assert(stands_at(text, pattern, k));
        lemma_stands(text, pattern, k, 0);
        assert(k == 0);
        lemma_stands(text, pattern, k, 2);
    }
}

proof fn lemma_skip(args: Seq<Argument>)
    requires
        writable(args),
        args.len() > 0,
    ensures
        writable(args.skip(1)),
        is_written(args[0]),
{
    let rest = args.skip(1);
    assert forall|i: int| 0 <= i < rest.len() implies is_written(#[trigger] rest[i]) by {
        assert(rest[i] == args[i + 1]);
    }
}

/// Written arguments, and a text behind them, hold no end of a block and no end of a
/// function.
proof fn lemma_arguments_hold_no_end(args: Seq<Argument>, rest: Seq<char>, pattern: Seq<char>)
    requires
        writable(args),
        pattern == "</tool_call>"@ || pattern == "</function>"@,
        !occurs(rest, pattern),
    ensures
        !occurs(arguments_text(args) + rest, pattern),
    decreases args.len(),
{
    lemma_tags();
    if args.len() == 0 {
        assert(arguments_text(args) + rest =~= rest);
    } else {
        lemma_skip(args);
        let a = args[0];
        let tail = arguments_text(args.skip(1)) + rest;
        let tag = "<parameter="@ + a.key + ">"@;
        let end = "</parameter>"@;
        lemma_arguments_hold_no_end(args.skip(1), rest, pattern);
        lemma_named_tag("<parameter="@, a.key, pattern);
        lemma_other_end(pattern);
        assert(end.last() == '>');
        lemma_joint(end, tail, pattern);
        assert((end + tail)[0] == '<');
        lemma_joint(a.inner(), end + tail, pattern);
        assert(tag.last() == '>');
        lemma_joint(tag, a.inner() + (end + tail), pattern);
        assert((tag + (a.inner() + (end + tail)))[0] == '<');
        lemma_joint(a.before, tag + (a.inner() + (end + tail)), pattern);
        assert(arguments_text(args) + rest =~= a.before + (tag + (a.inner() + (end + tail))));
    }
}

/// What reading written arguments adds to those that were read before.
spec fn put_args(args: Seq<Argument>, so_far: Map<Seq<char>, JsonModel>) -> Map<
    Seq<char>,
    JsonModel,
>
    decreases args.len(),
{
    if args.len() == 0 {
        so_far
    } else {
        put_args(args.skip(1), so_far.insert(args[0].key, JsonModel::Text(args[0].value)))
    }
}

/// Whether a key was written.
spec fn has_key(args: Seq<Argument>, key: Seq<char>) -> bool {
    exists|i: int| 0 <= i < args.len() && (#[trigger] args[i]).key == key
}

proof fn lemma_has_key(args: Seq<Argument>, key: Seq<char>)
    requires
        args.len() > 0,
    ensures
        has_key(args, key) == (args[0].key == key || has_key(args.skip(1), key)),
{
    let rest = args.skip(1);
    if has_key(args, key) {
        let i = choose|i: int| 0 <= i < args.len() && (#[trigger] args[i]).key == key;
        if i > 0 {
            assert(rest[i - 1].key == key);
        }
    }
    if has_key(rest, key) {
        let i = choose|i: int| 0 <= i < rest.len() && (#[trigger] rest[i]).key == key;
        assert(args[i + 1].key == key);
    }
}

proof fn lemma_put_keys(args: Seq<Argument>, so_far: Map<Seq<char>, JsonModel>, key: Seq<char>)
    ensures
        put_args(args, so_far).contains_key(key) == (so_far.contains_key(key) || has_key(
            args,
            key,
        )),
        !has_key(args, key) ==> put_args(args, so_far)[key] == so_far[key],
    decreases args.len(),
{
    if args.len() > 0 {
        lemma_has_key(args, key);
        lemma_put_keys(
            args.skip(1),
            so_far.insert(args[0].key, JsonModel::Text(args[0].value)),
            key,
        );
    }
}

proof fn lemma_put_last(args: Seq<Argument>, so_far: Map<Seq<char>, JsonModel>, i: int)
    requires
        0 <= i < args.len(),
        forall|j: int| i < j < args.len() ==> (#[trigger] args[j]).key != args[i].key,
    ensures
        put_args(args, so_far)[args[i].key] == JsonModel::Text(args[i].value),
    decreases args.len(),
{
    let rest = args.skip(1);
    let next = so_far.insert(args[0].key, JsonModel::Text(args[0].value));
    if i > 0 {
        assert forall|j: int| i - 1 < j < rest.len() implies (#[trigger] rest[j]).key != rest[i
            - 1].key by {
            assert(args[j + 1].key != args[i].key);
        }
        lemma_put_last(rest, next, i - 1);
    } else {
        if has_key(rest, args[0].key) {
            let k = choose|k: int| 0 <= k < rest.len() && (#[trigger] rest[k]).key == args[0].key;
            assert(args[k + 1].key == args[0].key);
        }
        lemma_put_keys(rest, next, args[0].key);
    }
}

/// A value is read whole, without the line breaks around it.
proof fn lemma_value(a: Argument)
    requires
        is_written(a),
    ensures
        parameter_value(a.inner()) == a.value,
{
    let s = a.inner();
    let from = if a.break_before {
        1int
    } else {
        0int
    };
    let to = s.len() - if a.break_behind {
        1int
    } else {
        0int
    };
    if a.break_before {
        assert(s[0] == '\n');
    }
    if a.break_behind {
        assert(s.last() == '\n');
    } else if s.len() > from {
        assert(s.last() == a.value.last());
    }
    assert(s.subrange(from, to) =~= a.value);
}

/// The first argument of a text is read, and then those behind it.
proof fn lemma_first_read(a: Argument, tail: Seq<char>, so_far: Map<Seq<char>, JsonModel>)
    requires
        is_written(a),
    ensures
        parameters(
            a.before + "<parameter="@ + a.key + ">"@ + a.inner() + "</parameter>"@ + tail,
            so_far,
        ) == parameters(tail, so_far.insert(a.key, JsonModel::Text(a.value))),
{
    lemma_tags();
    let open = "<parameter="@;
    let close = "</parameter>"@;
    let none = Seq::<char>::empty();
    let inner = a.inner();
    let text = a.before + open + a.key + ">"@ + inner + close + tail;
    assert(text =~= none + a.before + open + (a.key + ">"@ + inner + close + tail));
    lemma_find_tag(text, none, a.before, open, a.key + ">"@ + inner + close + tail);
    assert(text =~= (a.before + open) + a.key + ">"@ + (inner + close + tail));
    lemma_find_end(text, a.before + open, a.key, inner + close + tail);
    assert(text =~= (a.before + open + a.key + ">"@) + inner + close + tail);
    lemma_find_tag(text, a.before + open + a.key + ">"@, inner, close, tail);
    let p = a.before.len() as int;
    let q = p + 11 + a.key.len();
    let r = q + 1 + inner.len();
    assert(text.subrange(p + 11, q) =~= a.key);
    assert(text.subrange(q + 1, r) =~= inner);
    assert(text.skip(r + 12) =~= tail);
    lemma_value(a);
}

proof fn lemma_arguments_read(
    args: Seq<Argument>,
    rest: Seq<char>,
    so_far: Map<Seq<char>, JsonModel>,
)
    requires
        writable(args),
    ensures
        parameters(arguments_text(args) + rest, so_far) == parameters(
            rest,
            put_args(args, so_far),
        ),
    decreases args.len(),
{
    if args.len() == 0 {
        assert(arguments_text(args) + rest =~= rest);
    } else {
        lemma_skip(args);
        let a = args[0];
        let tail = arguments_text(args.skip(1)) + rest;
        assert(arguments_text(args) + rest =~= a.before + "<parameter="@ + a.key + ">"@ + a.inner()
            + "</parameter>"@ + tail);
        lemma_first_read(a, tail, so_far);
        lemma_arguments_read(
            args.skip(1),
            rest,
            so_far.insert(a.key, JsonModel::Text(a.value)),
        );
    }
}

/// What can stand around the arguments of a call, beside a name.
pub open spec fn fits(
    before: Seq<char>,
    name: Seq<char>,
    args: Seq<Argument>,
    rest: Seq<char>,
    behind: Seq<char>,
) -> bool {
    &&& !occurs(before, "<function="@)
    &&& !occurs(before, "</tool_call>"@)
    &&& is_name(name)
    &&& writable(args)
    &&& ends_nothing(rest)
    &&& !occurs(behind, "</tool_call>"@)
}

proof fn lemma_call_reads(
    before: Seq<char>,
    name: Seq<char>,
    args: Seq<Argument>,
    rest: Seq<char>,
    behind: Seq<char>,
)
    requires
        fits(before, name, args, rest, behind),
    ensures
        block_call(call_text(before, name, args, rest, behind)) == (match parameters(
            rest,
            put_args(args, crate::json::no_members()),
        ) {
            None => None,
            Some(arguments) => if name.len() == 0 {
                None
            } else {
                Some((name, arguments))
            },
        }),
        !occurs(call_text(before, name, args, rest, behind), "</tool_call>"@),
{
    lemma_tags();
    let body = call_text(before, name, args, rest, behind);
    let open = "<function="@;
    let close = "</function>"@;
    let end = "</tool_call>"@;
    let none = Seq::<char>::empty();
    let inner = arguments_text(args) + rest;
    assert(body =~= none + before + open + (name + ">"@ + inner + close + behind));
    lemma_find_tag(body, none, before, open, name + ">"@ + inner + close + behind);
    assert(body =~= (before + open) + name + ">"@ + (inner + close + behind));
    lemma_find_end(body, before + open, name, inner + close + behind);
    assert(body =~= (before + open + name + ">"@) + inner + close + behind);
    lemma_arguments_hold_no_end(args, rest, close);
    lemma_find_tag(body, before + open + name + ">"@, inner, close, behind);
    let a = before.len() as int;
    let b = a + 10 + name.len();
    let c = b + 1 + inner.len();
    assert(body.subrange(a + 10, b) =~= name);
    assert(body.subrange(b + 1, c) =~= inner);
    lemma_arguments_read(args, rest, crate::json::no_members());
    lemma_arguments_hold_no_end(args, rest, end);
    lemma_named_tag(open, name, end);
    lemma_short(close, end);
    let tag = open + name + ">"@;
    assert(close.last() == '>');
    lemma_joint(close, behind, end);
    assert((close + behind)[0] == '<');
    lemma_joint(inner, close + behind, end);
    assert(tag.last() == '>');
    lemma_joint(tag, inner + (close + behind), end);
    assert((tag + (inner + (close + behind)))[0] == '<');
    lemma_joint(before, tag + (inner + (close + behind)), end);
    assert(body =~= before + (tag + (inner + (close + behind))));
}

/// A block splits the text: what stands before it, the block, and what comes behind.
proof fn lemma_block(lead: Seq<char>, body: Seq<char>, tail: Seq<char>)
    requires
        !occurs(lead, "<tool_call>"@),
        !occurs(body, "</tool_call>"@),
    ensures
        split_text(lead + "<tool_call>"@ + body + "</tool_call>"@ + tail).0 == text_segment(
            lead,
        ).push(block_segment(body)) + split_text(tail).0,
        split_text(lead + "<tool_call>"@ + body + "</tool_call>"@ + tail).1 == split_text(tail).1,
{
    lemma_tags();
    let open = "<tool_call>"@;
    let close = "</tool_call>"@;
    let text = lead + open + body + close + tail;
    assert(text =~= Seq::<char>::empty() + lead + open + (body + close + tail));
    lemma_find_tag(text, Seq::empty(), lead, open, body + close + tail);
    assert(text =~= (lead + open) + body + close + tail);
    lemma_find_tag(text, lead + open, body, close, tail);
    let i = lead.len() as int;
    let j = i + 11 + body.len();
    assert(text.take(i) =~= lead);
    assert(text.subrange(i + 11, j) =~= body);
    assert(text.skip(j + 12) =~= tail);
}

/// Where the segments behind a text begin.
pub open spec fn behind(lead: Seq<char>) -> int {
    if lead.len() > 0 {
        1
    } else {
        0
    }
}

/// Whether the segments begin with the text, as it is; an empty one has no segment.
pub open spec fn begins_with(segments: Seq<Segment>, lead: Seq<char>) -> bool {
    lead.len() > 0 ==> segments.len() > 0 && segments[0] is Text && segments[0]->Text_0@ == lead
}

/// A block parts the text, whatever is in it: what stands before it comes out as text before
/// it, and behind it comes what the rest of the text would give by itself.
pub proof fn a_block_parts_the_text(
    p: &mut ToolCallStreamParser,
    piece: &str,
    r: Vec<Segment>,
    q: &mut ToolCallStreamParser,
    tail: &str,
    rest: Vec<Segment>,
    lead: Seq<char>,
    body: Seq<char>,
    i: int,
)
    requires
        !occurs(lead, "<tool_call>"@),
        !occurs(body, "</tool_call>"@),
        old(p)@ + piece@ == lead + "<tool_call>"@ + body + "</tool_call>"@ + tail@,
        old(q)@.len() == 0,
        call_ensures(ToolCallStreamParser::feed, (p, piece), r),
        call_ensures(ToolCallStreamParser::feed, (q, tail), rest),
    ensures
        begins_with(r@, lead),
        r@.len() == behind(lead) + 1 + rest@.len(),
        0 <= i < rest@.len() ==> r@[behind(lead) + 1 + i]@ == rest@[i]@,
        final(p)@ == final(q)@,
{
    lemma_block(lead, body, tail@);
    assert(old(q)@ + tail@ =~= tail@);
    let m = segments_of(r@);
    let n = segments_of(rest@);
    let at = behind(lead);
    assert(m.len() == r@.len() && n.len() == rest@.len());
    assert(text_segment(lead).len() == at);
    if at == 1 {
        assert(m[0] == text_segment(lead)[0]);
        assert(m[0] == r@[0]@);
    }
    if 0 <= i < n.len() {
        assert(m[at + 1 + i] == n[i]);
        assert(m[at + 1 + i] == r@[at + 1 + i]@);
        assert(n[i] == rest@[i]@);
    }
}

proof fn lemma_block_at(
    r: Seq<Segment>,
    all: Seq<char>,
    lead: Seq<char>,
    body: Seq<char>,
    tail: Seq<char>,
)
    requires
        !occurs(lead, "<tool_call>"@),
        !occurs(body, "</tool_call>"@),
        all == lead + "<tool_call>"@ + body + "</tool_call>"@ + tail,
        segments_of(r) == split_text(all).0,
    ensures
        r.len() > behind(lead),
        r[behind(lead)]@ == block_segment(body),
{
    lemma_block(lead, body, tail);
    let m = segments_of(r);
    assert(m.len() == r.len());
    assert(text_segment(lead).len() == behind(lead));
    assert(m[behind(lead)] == block_segment(body));
    assert(m[behind(lead)] == r[behind(lead)]@);
}

/// A call is read as it was written, wherever it stands: with its name, and every key with
/// its whole value, the spaces and line breaks in it too.
pub proof fn a_call_is_read_as_written(
    p: &mut ToolCallStreamParser,
    piece: &str,
    r: Vec<Segment>,
    lead: Seq<char>,
    before: Seq<char>,
    name: Seq<char>,
    args: Seq<Argument>,
    rest: Seq<char>,
    after: Seq<char>,
    tail: Seq<char>,
)
    requires
        !occurs(lead, "<tool_call>"@),
        name.len() > 0,
        fits(before, name, args, rest, after),
        !occurs(rest, "<parameter="@),
        old(p)@ + piece@ == lead + "<tool_call>"@ + call_text(before, name, args, rest, after)
            + "</tool_call>"@ + tail,
        call_ensures(ToolCallStreamParser::feed, (p, piece), r),
    ensures
        r@.len() > behind(lead),
        r@[behind(lead)] is Call,
        r@[behind(lead)]->Call_0.name@ == name,
        are_written(json_fields(r@[behind(lead)]->Call_0.arguments), args),
{
    let none = crate::json::no_members();
    let body = call_text(before, name, args, rest, after);
    let written = put_args(args, none);
    lemma_call_reads(before, name, args, rest, after);
    lemma_find_from(rest, "<parameter="@, 0);
    if find_from(rest, "<parameter="@, 0) is Some {
        lemma_occurs(rest, "<parameter="@, find_from(rest, "<parameter="@, 0)->0);
    }
    assert(parameters(rest, written) == Some(written));
    lemma_block_at(r@, old(p)@ + piece@, lead, body, tail);
    assert forall|key: Seq<char>| #[trigger]
        written.contains_key(key) <==> exists|i: int|
            0 <= i < args.len() && (#[trigger] args[i]).key == key by {
        lemma_put_keys(args, none, key);
    }
    assert forall|i: int|
        0 <= i < args.len() && (forall|j: int|
            i < j < args.len() ==> (#[trigger] args[j]).key != args[i].key) implies written[(
    #[trigger] args[i]).key] == JsonModel::Text(args[i].value) by {
        lemma_put_last(args, none, i);
    }
}

/// A block that names no function, or whose function is not closed, comes out as the text
/// that it is, tags and all.
pub proof fn a_block_without_a_call_is_text(
    p: &mut ToolCallStreamParser,
    piece: &str,
    r: Vec<Segment>,
    lead: Seq<char>,
    body: Seq<char>,
    tail: Seq<char>,
)
    requires
        !occurs(lead, "<tool_call>"@),
        !occurs(body, "</tool_call>"@),
        !occurs(body, "<function="@) || !occurs(body, "</function>"@),
        old(p)@ + piece@ == lead + "<tool_call>"@ + body + "</tool_call>"@ + tail,
        call_ensures(ToolCallStreamParser::feed, (p, piece), r),
    ensures
        r@.len() > behind(lead),
        r@[behind(lead)] is Text,
        r@[behind(lead)]->Text_0@ == "<tool_call>"@ + body + "</tool_call>"@,
{
    lemma_tags();
    let open = "<function="@;
    let close = "</function>"@;
    lemma_find_from(body, open, 0);
    if find_from(body, open, 0) is Some {
        let a = find_from(body, open, 0)->0;
        lemma_occurs(body, open, a);
        lemma_find_from(body, ">"@, a + 10);
        if find_from(body, ">"@, a + 10) is Some {
            let b = find_from(body, ">"@, a + 10)->0;
            lemma_find_from(body, close, b + 1);
            if find_from(body, close, b + 1) is Some {
                lemma_occurs(body, close, find_from(body, close, b + 1)->0);
            }
        }
    }
    lemma_block_at(r@, old(p)@ + piece@, lead, body, tail);
}

/// A block whose function has no name, or an argument that is not closed, comes out as the
/// text that it is, even where other arguments before it are in order.
pub proof fn a_broken_call_is_text(
    p: &mut ToolCallStreamParser,
    piece: &str,
    r: Vec<Segment>,
    lead: Seq<char>,
    before: Seq<char>,
    name: Seq<char>,
    args: Seq<Argument>,
    rest: Seq<char>,
    after: Seq<char>,
    tail: Seq<char>,
)
    requires
        !occurs(lead, "<tool_call>"@),
        fits(before, name, args, rest, after),
        name.len() == 0 || (occurs(rest, "<parameter="@) && !occurs(rest, "</parameter>"@)),
        old(p)@ + piece@ == lead + "<tool_call>"@ + call_text(before, name, args, rest, after)
            + "</tool_call>"@ + tail,
        call_ensures(ToolCallStreamParser::feed, (p, piece), r),
    ensures
        r@.len() > behind(lead),
        r@[behind(lead)] is Text,
        r@[behind(lead)]->Text_0@ == "<tool_call>"@ + call_text(before, name, args, rest, after)
            + "</tool_call>"@,
{
    lemma_tags();
    let body = call_text(before, name, args, rest, after);
    let written = put_args(args, crate::json::no_members());
    lemma_call_reads(before, name, args, rest, after);
    if name.len() > 0 {
        let tag = "<parameter="@;
        let end = "</parameter>"@;
        let k = choose|k: int|
            #![trigger rest.subrange(k, k + tag.len())]
            0 <= k && k + tag.len() <= rest.len() && rest.subrange(k, k + tag.len()) == tag;
        assert(stands_at(rest, tag, k));
        lemma_found(rest, tag, 0, k);
        let x = find_from(rest, tag, 0)->0;
        lemma_find_from(rest, tag, 0);
        lemma_find_from(rest, ">"@, x + 11);
        if find_from(rest, ">"@, x + 11) is Some {
            let y = find_from(rest, ">"@, x + 11)->0;
            lemma_find_from(rest, end, y + 1);
            if find_from(rest, end, y + 1) is Some {
                lemma_occurs(rest, end, find_from(rest, end, y + 1)->0);
            }
        }
        assert(parameters(rest, written) is None);
    }
    lemma_block_at(r@, old(p)@ + piece@, lead, body, tail);
}

proof fn lemma_found(text: Seq<char>, pattern: Seq<char>, from: int, k: int)
    requires
        0 <= from <= k,
        pattern.len() > 0,
        stands_at(text, pattern, k),
    ensures
        find_from(text, pattern, from) is Some,
    decreases k - from,
{
    if from < k && !stands_at(text, pattern, from) {
        lemma_found(text, pattern, from + 1, k);
    }
}

/// Text without a block passes through as it comes. Only the end of it that may be the
/// beginning of a block's tag is held back, and no less of it than may be.
pub proof fn text_without_a_block_passes(
    p: &mut ToolCallStreamParser,
    piece: &str,
    r: Vec<Segment>,
    h: int,
)
    requires
        !occurs(old(p)@ + piece@, "<tool_call>"@),
        call_ensures(ToolCallStreamParser::feed, (p, piece), r),
    ensures
        final(p)@.len() <= 10,
        final(p)@ == "<tool_call>"@.take(final(p)@.len() as int),
        ({
            let all = old(p)@ + piece@;
            &&& final(p)@.len() <= all.len()
            &&& r@.len() == behind(all.take(all.len() - final(p)@.len()))
            &&& begins_with(r@, all.take(all.len() - final(p)@.len()))
            &&& all == all.take(all.len() - final(p)@.len()) + final(p)@
            &&& final(p)@.len() < h <= 10 && h <= all.len() ==> all.skip(all.len() - h)
                != "<tool_call>"@.take(h)
        }),
{
    lemma_tags();
    let all = old(p)@ + piece@;
    let open = "<tool_call>"@;
    lemma_find_from(all, open, 0);
    if find_from(all, open, 0) is Some {
        lemma_occurs(all, open, find_from(all, open, 0)->0);
    }
    lemma_held_back(all, 10);
    let k = held_back(all, 10);
    let cut = all.len() - k;
    assert(final(p)@ == all.skip(cut));
    if k == 0 {
        assert(final(p)@ =~= open.take(0));
    }
    assert(all =~= all.take(cut) + all.skip(cut));
    let m = segments_of(r@);
    assert(m == text_segment(all.take(cut)));
    assert(m.len() == r@.len());
    if m.len() > 0 {
        assert(m[0] == r@[0]@);
    }
}

/// A block that is not closed yet is held back whole, and what stands before it passes
/// through.
pub proof fn an_open_block_is_held_back(
    p: &mut ToolCallStreamParser,
    piece: &str,
    r: Vec<Segment>,
    lead: Seq<char>,
    body: Seq<char>,
)
    requires
        !occurs(lead, "<tool_call>"@),
        !occurs(body, "</tool_call>"@),
        old(p)@ + piece@ == lead + "<tool_call>"@ + body,
        call_ensures(ToolCallStreamParser::feed, (p, piece), r),
    ensures
        r@.len() == behind(lead),
        begins_with(r@, lead),
        final(p)@ == "<tool_call>"@ + body,
{
    lemma_tags();
    let open = "<tool_call>"@;
    let close = "</tool_call>"@;
    let all = old(p)@ + piece@;
    assert(all =~= Seq::<char>::empty() + lead + open + body);
    lemma_find_tag(all, Seq::empty(), lead, open, body);
    let i = lead.len() as int;
    assert forall|j: int| i + 11 <= j < all.len() implies !#[trigger] stands_at(all, close, j) by {
        if stands_at(all, close, j) {
            let n = j - i - 11;
            assert(body.subrange(n, n + close.len()) =~= all.subrange(j, j + close.len()));
            assert(occurs(body, close));
        }
    }
    lemma_find_none(all, close, i + 11);
    assert(all.take(i) =~= lead);
    assert(all.skip(i) =~= open + body);
    let m = segments_of(r@);
    assert(m.len() == r@.len());
    if m.len() > 0 {
        assert(m[0] == r@[0]@);
    }
}

/// At the end of the stream what is held back comes out as text, and nothing else.
pub proof fn the_end_lets_go(p: &mut ToolCallStreamParser, r: Vec<Segment>)
    requires
        call_ensures(ToolCallStreamParser::drain, (p,), r),
    ensures
        final(p)@.len() == 0,
        r@.len() == behind(old(p)@),
        begins_with(r@, old(p)@),
{
    let m = segments_of(r@);
    assert(m.len() == r@.len());
    if m.len() > 0 {
        assert(m[0] == r@[0]@);
    }
}

/// It does not matter how a text is cut: fed in two pieces it gives the same characters and
/// calls in the same order as fed at once, and leaves the same text held back.
pub proof fn cuts_do_not_matter(
    p: &mut ToolCallStreamParser,
    a: &str,
    first: Vec<Segment>,
    p2: &mut ToolCallStreamParser,
    b: &str,
    second: Vec<Segment>,
    q: &mut ToolCallStreamParser,
    ab: &str,
    whole: Vec<Segment>,
)
    requires
        call_ensures(ToolCallStreamParser::feed, (p, a), first),
        final(p)@ == old(p2)@,
        call_ensures(ToolCallStreamParser::feed, (p2, b), second),
        old(q)@ == old(p)@,
        ab@ == a@ + b@,
        call_ensures(ToolCallStreamParser::feed, (q, ab), whole),
    ensures
        atoms(segments_of(first@)) + atoms(segments_of(second@)) == atoms(segments_of(whole@)),
        final(p2)@ == final(q)@,
{
    pieces_do_not_matter(old(p)@ + a@, b@);
    assert(old(q)@ + ab@ =~= (old(p)@ + a@) + b@);
}

} // verus!
