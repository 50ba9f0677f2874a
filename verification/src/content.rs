//! The content of a chat message: a text, or parts of several kinds.

use serde_json::Value;
use vstd::prelude::*;
use vstd::string::*;

use crate::json::{json_of, member, text_of, JsonModel};
use crate::text::str_eq;

verus! {

/// The content of a chat message.
#[derive(Debug)]
pub enum MessageContent {
    Text(String),
    Parts(Vec<Value>),
}

/// Whether a part is of the kind.
pub open spec fn is_kind(part: JsonModel, kind: Seq<char>) -> bool {
    part.member("type"@) == Some(JsonModel::Text(kind))
}

fn has_kind(part: &Value, kind: &str) -> (r: bool)
    ensures
        r == is_kind(json_of(*part), kind@),
{
    match member(part, "type") {
        Some(k) => match text_of(k) {
            Some(s) => str_eq(s, kind),
            None => false,
        },
        None => false,
    }
}

/// The text of a field.
pub open spec fn text_member(part: JsonModel, key: Seq<char>) -> Option<Seq<char>> {
    match part.member(key) {
        Some(j) => j.text(),
        None => None,
    }
}

fn member_text<'a>(part: &'a Value, key: &str) -> (r: Option<&'a str>)
    ensures
        match r {
            Some(s) => text_member(json_of(*part), key@) == Some(s@),
            None => text_member(json_of(*part), key@) is None,
        },
{
    match member(part, key) {
        Some(v) => text_of(v),
        None => None,
    }
}

/// The text that a part adds to the message: that of a text part, else none.
pub open spec fn part_text(part: JsonModel) -> Seq<char> {
    if is_kind(part, "text"@) && text_member(part, "text"@) is Some {
        text_member(part, "text"@)->0
    } else {
        Seq::empty()
    }
}

/// The text of the parts, one behind the other.
pub open spec fn parts_text(parts: Seq<Value>) -> Seq<char>
    decreases parts.len(),
{
    if parts.len() == 0 {
        Seq::empty()
    } else {
        parts_text(parts.drop_last()) + part_text(json_of(parts.last()))
    }
}

impl MessageContent {
    /// The text of the message. Parts that are not text are left out.
    pub fn as_text(&self) -> (r: String)
        ensures
            r@ == (match self {
                MessageContent::Text(s) => s@,
                MessageContent::Parts(parts) => parts_text(parts@),
            }),
    {
        match self {
            MessageContent::Text(s) => s.clone(),
            MessageContent::Parts(parts) => {
                let mut out: String = String::new();
                let mut i: usize = 0;
                assert(parts@.take(0) =~= Seq::<Value>::empty());
                while i < parts.len()
                    invariant
                        i <= parts.len(),
                        out@ == parts_text(parts@.take(i as int)),
                    decreases parts.len() - i,
                {
                    assert(parts@.take(i + 1).drop_last() =~= parts@.take(i as int));
                    let ghost before = out@;
                    if has_kind(&parts[i], "text") {
                        if let Some(s) = member_text(&parts[i], "text") {
                            out.append(s);
                        }
                    }
                    assert(out@ =~= before + part_text(json_of(parts@[i as int])));
                    i += 1;
                }
                assert(parts@.take(i as int) =~= parts@);
                out
            },
        }
    }
}

/// The image that a part names: a URL in an object, or a URL by itself.
pub open spec fn part_image(part: JsonModel) -> Option<Seq<char>> {
    if is_kind(part, "image_url"@) {
        match part.member("image_url"@) {
            Some(j) => text_member(j, "url"@),
            None => None,
        }
    } else if is_kind(part, "input_image"@) {
        text_member(part, "image_url"@)
    } else {
        None
    }
}

/// The audio data that a part holds.
pub open spec fn part_audio(part: JsonModel) -> Option<Seq<char>> {
    if is_kind(part, "input_audio"@) {
        match part.member("input_audio"@) {
            Some(j) => text_member(j, "data"@),
            None => None,
        }
    } else {
        None
    }
}

/// The images that the parts name, in turn.
pub open spec fn images(parts: Seq<Value>) -> Seq<Seq<char>>
    decreases parts.len(),
{
    if parts.len() == 0 {
        Seq::empty()
    } else {
        match part_image(json_of(parts.last())) {
            Some(s) => images(parts.drop_last()).push(s),
            None => images(parts.drop_last()),
        }
    }
}

/// The audio data that the parts hold, in turn.
pub open spec fn audios(parts: Seq<Value>) -> Seq<Seq<char>>
    decreases parts.len(),
{
    if parts.len() == 0 {
        Seq::empty()
    } else {
        match part_audio(json_of(parts.last())) {
            Some(s) => audios(parts.drop_last()).push(s),
            None => audios(parts.drop_last()),
        }
    }
}

/// The texts of a list of strings.
pub open spec fn texts(v: Seq<String>) -> Seq<Seq<char>> {
    v.map_values(|s: String| s@)
}

/// The images that the parts name.
pub fn extract_image_parts(parts: &Vec<Value>) -> (r: Vec<String>)
    ensures
        texts(r@) == images(parts@),
{
    let mut out: Vec<String> = Vec::new();
    let mut i: usize = 0;
    assert(parts@.take(0) =~= Seq::<Value>::empty());
    assert(texts(out@) =~= images(parts@.take(0)));
    while i < parts.len()
        invariant
            i <= parts.len(),
            texts(out@) == images(parts@.take(i as int)),
        decreases parts.len() - i,
    {
        assert(parts@.take(i + 1).drop_last() =~= parts@.take(i as int));
        proof {
            reveal_strlit("image_url");
            reveal_strlit("input_image");
        }
        let found: Option<&str> = if has_kind(&parts[i], "image_url") {
            match member(&parts[i], "image_url") {
                Some(v) => member_text(v, "url"),
                None => None,
            }
        } else if has_kind(&parts[i], "input_image") {
            member_text(&parts[i], "image_url")
        } else {
            None
        };
        let ghost before = out@;
        if let Some(s) = found {
            out.push(s.to_owned());
            assert(texts(out@) =~= texts(before).push(s@));
        }
        i += 1;
    }
    assert(parts@.take(i as int) =~= parts@);
    out
}

/// The audio data that the parts hold.
pub fn extract_audio_parts(parts: &Vec<Value>) -> (r: Vec<String>)
    ensures
        texts(r@) == audios(parts@),
{
    let mut out: Vec<String> = Vec::new();
    let mut i: usize = 0;
    assert(parts@.take(0) =~= Seq::<Value>::empty());
    assert(texts(out@) =~= audios(parts@.take(0)));
    while i < parts.len()
        invariant
            i <= parts.len(),
            texts(out@) == audios(parts@.take(i as int)),
        decreases parts.len() - i,
    {
        assert(parts@.take(i + 1).drop_last() =~= parts@.take(i as int));
        let found: Option<&str> = if has_kind(&parts[i], "input_audio") {
            match member(&parts[i], "input_audio") {
                Some(v) => member_text(v, "data"),
                None => None,
            }
        } else {
            None
        };
        let ghost before = out@;
        if let Some(s) = found {
            out.push(s.to_owned());
            assert(texts(out@) =~= texts(before).push(s@));
        }
        i += 1;
    }
    assert(parts@.take(i as int) =~= parts@);
    out
}

/// Whether a part says that it is of the kind.
pub open spec fn says_kind(part: JsonModel, kind: Seq<char>) -> bool {
    &&& part is Object
    &&& part->Object_0.contains_key("type"@)
    &&& part->Object_0["type"@] == JsonModel::Text(kind)
}

/// Whether a part has the text in a field.
pub open spec fn has_text(part: JsonModel, key: Seq<char>, text: Seq<char>) -> bool {
    &&& part is Object
    &&& part->Object_0.contains_key(key)
    &&& part->Object_0[key] == JsonModel::Text(text)
}

/// Whether a part has the text in a field of a field.
pub open spec fn has_inner_text(
    part: JsonModel,
    key: Seq<char>,
    inner: Seq<char>,
    text: Seq<char>,
) -> bool {
    &&& part is Object
    &&& part->Object_0.contains_key(key)
    &&& has_text(part->Object_0[key], inner, text)
}

/// Whether a part is a text part with this text.
pub open spec fn is_text_part(part: JsonModel, text: Seq<char>) -> bool {
    says_kind(part, "text"@) && has_text(part, "text"@, text)
}

/// Whether a part names this image, in either of the two ways.
pub open spec fn is_image_part(part: JsonModel, url: Seq<char>) -> bool {
    ||| says_kind(part, "image_url"@) && has_inner_text(part, "image_url"@, "url"@, url)
    ||| says_kind(part, "input_image"@) && has_text(part, "image_url"@, url)
}

/// Whether a part holds this audio data.
pub open spec fn is_audio_part(part: JsonModel, data: Seq<char>) -> bool {
    says_kind(part, "input_audio"@) && has_inner_text(part, "input_audio"@, "data"@, data)
}

/// Whether a list is that of all the texts of two others, in turn.
pub open spec fn joins(ab: Seq<String>, a: Seq<String>, b: Seq<String>) -> bool {
    &&& ab.len() == a.len() + b.len()
    &&& forall|i: int| 0 <= i < a.len() ==> (#[trigger] ab[i])@ == a[i]@
    &&& forall|i: int| a.len() <= i < ab.len() ==> (#[trigger] ab[i])@ == b[i - a.len()]@
}

proof fn lemma_parts_text_add(a: Seq<Value>, b: Seq<Value>)
    ensures
        parts_text(a + b) == parts_text(a) + parts_text(b),
    decreases b.len(),
{
    if b.len() == 0 {
        assert(a + b =~= a);
        assert(parts_text(a) + parts_text(b) =~= parts_text(a));
    } else {
        lemma_parts_text_add(a, b.drop_last());
        assert((a + b).drop_last() =~= a + b.drop_last());
        assert(parts_text(a + b) =~= parts_text(a) + parts_text(b));
    }
}

proof fn lemma_images_add(a: Seq<Value>, b: Seq<Value>)
    ensures
        images(a + b) == images(a) + images(b),
    decreases b.len(),
{
    if b.len() == 0 {
        assert(a + b =~= a);
        assert(images(a) + images(b) =~= images(a));
    } else {
        lemma_images_add(a, b.drop_last());
        assert((a + b).drop_last() =~= a + b.drop_last());
        assert(images(a + b) =~= images(a) + images(b));
    }
}

proof fn lemma_audios_add(a: Seq<Value>, b: Seq<Value>)
    ensures
        audios(a + b) == audios(a) + audios(b),
    decreases b.len(),
{
    if b.len() == 0 {
        assert(a + b =~= a);
        assert(audios(a) + audios(b) =~= audios(a));
    } else {
        lemma_audios_add(a, b.drop_last());
        assert((a + b).drop_last() =~= a + b.drop_last());
        assert(audios(a + b) =~= audios(a) + audios(b));
    }
}

proof fn lemma_joins(ab: Seq<String>, a: Seq<String>, b: Seq<String>)
    requires
        texts(ab) == texts(a) + texts(b),
    ensures
        joins(ab, a, b),
{
    assert(texts(ab).len() == ab.len() && texts(a).len() == a.len() && texts(b).len() == b.len());
    assert forall|i: int| 0 <= i < a.len() implies (#[trigger] ab[i])@ == a[i]@ by {
        assert(texts(ab)[i] == ab[i]@ && texts(a)[i] == a[i]@);
    }
    assert forall|i: int| a.len() <= i < ab.len() implies (#[trigger] ab[i])@ == b[i
        - a.len()]@ by {
        assert(texts(ab)[i] == ab[i]@ && texts(b)[i - a.len()] == b[i - a.len()]@);
    }
}

/// The text of a message is that of its parts, one behind the other: two messages that
/// follow each other have the texts of both.
pub proof fn the_texts_of_parts_add_up(
    a: Vec<Value>,
    b: Vec<Value>,
    ab: Vec<Value>,
    ra: String,
    rb: String,
    rab: String,
)
    requires
        ab@ == a@ + b@,
        call_ensures(MessageContent::as_text, (&MessageContent::Parts(a),), ra),
        call_ensures(MessageContent::as_text, (&MessageContent::Parts(b),), rb),
        call_ensures(MessageContent::as_text, (&MessageContent::Parts(ab),), rab),
    ensures
        rab@ == ra@ + rb@,
{
    lemma_parts_text_add(a@, b@);
}

/// A text is its own text. A single part has its text where it is a text part, and any other
/// part has none.
pub proof fn a_part_has_its_own_text(
    s: String,
    rs: String,
    parts: Vec<Value>,
    r: String,
    text: Seq<char>,
)
    requires
        call_ensures(MessageContent::as_text, (&MessageContent::Text(s),), rs),
        call_ensures(MessageContent::as_text, (&MessageContent::Parts(parts),), r),
    ensures
        rs@ == s@,
        parts@.len() == 0 ==> r@.len() == 0,
        parts@.len() == 1 && is_text_part(json_of(parts@[0]), text) ==> r@ == text,
        parts@.len() == 1 && r@.len() > 0 ==> is_text_part(json_of(parts@[0]), r@),
{
    reveal_with_fuel(parts_text, 2);
    if parts@.len() == 1 {
        assert(parts@.drop_last().len() == 0);
        assert(r@ =~= part_text(json_of(parts@[0])));
    }
}

/// The images of parts that follow each other are those of both, in turn.
pub proof fn the_images_of_parts_add_up(
    a: &Vec<Value>,
    b: &Vec<Value>,
    ab: &Vec<Value>,
    ra: Vec<String>,
    rb: Vec<String>,
    rab: Vec<String>,
)
    requires
        ab@ == a@ + b@,
        call_ensures(extract_image_parts, (a,), ra),
        call_ensures(extract_image_parts, (b,), rb),
        call_ensures(extract_image_parts, (ab,), rab),
    ensures
        joins(rab@, ra@, rb@),
{
    lemma_images_add(a@, b@);
    lemma_joins(rab@, ra@, rb@);
}

/// A part that names an image gives that image, and any other part none.
pub proof fn a_part_gives_its_own_image(parts: &Vec<Value>, r: Vec<String>, url: Seq<char>)
    requires
        call_ensures(extract_image_parts, (parts,), r),
    ensures
        parts@.len() == 0 ==> r@.len() == 0,
        parts@.len() == 1 && is_image_part(json_of(parts@[0]), url) ==> r@.len() == 1 && r@[0]@
            == url,
        parts@.len() == 1 && r@.len() > 0 ==> r@.len() == 1 && is_image_part(
            json_of(parts@[0]),
            r@[0]@,
        ),
{
    reveal_with_fuel(images, 2);
    reveal_strlit("image_url");
    reveal_strlit("input_image");
    assert("image_url"@.len() == 9 && "input_image"@.len() == 11);
    assert(texts(r@).len() == r@.len());
    if parts@.len() == 1 {
        assert(parts@.drop_last().len() == 0);
        if r@.len() > 0 {
            assert(texts(r@)[0] == r@[0]@);
        }
        if is_image_part(json_of(parts@[0]), url) {
            assert(part_image(json_of(parts@[0])) == Some(url));
            assert(texts(r@)[0] == r@[0]@);
        }
    }
}

/// The audio data of parts that follow each other are those of both, in turn.
pub proof fn the_audio_of_parts_adds_up(
    a: &Vec<Value>,
    b: &Vec<Value>,
    ab: &Vec<Value>,
    ra: Vec<String>,
    rb: Vec<String>,
    rab: Vec<String>,
)
    requires
        ab@ == a@ + b@,
        call_ensures(extract_audio_parts, (a,), ra),
        call_ensures(extract_audio_parts, (b,), rb),
        call_ensures(extract_audio_parts, (ab,), rab),
    ensures
        joins(rab@, ra@, rb@),
{
    lemma_audios_add(a@, b@);
    lemma_joins(rab@, ra@, rb@);
}

/// A part that holds audio data gives that data, and any other part none.
pub proof fn a_part_gives_its_own_audio(parts: &Vec<Value>, r: Vec<String>, data: Seq<char>)
    requires
        call_ensures(extract_audio_parts, (parts,), r),
    ensures
        parts@.len() == 0 ==> r@.len() == 0,
        parts@.len() == 1 && is_audio_part(json_of(parts@[0]), data) ==> r@.len() == 1 && r@[0]@
            == data,
        parts@.len() == 1 && r@.len() > 0 ==> r@.len() == 1 && is_audio_part(
            json_of(parts@[0]),
            r@[0]@,
        ),
{
    reveal_with_fuel(audios, 2);
    assert(texts(r@).len() == r@.len());
    if parts@.len() == 1 {
        assert(parts@.drop_last().len() == 0);
        if r@.len() > 0 {
            assert(texts(r@)[0] == r@[0]@);
        }
        if is_audio_part(json_of(parts@[0]), data) {
            assert(part_audio(json_of(parts@[0])) == Some(data));
            assert(texts(r@)[0] == r@[0]@);
        }
    }
}

} // verus!
