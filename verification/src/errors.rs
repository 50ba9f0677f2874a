//! Engine errors and how they are answered over HTTP.

use serde_json::Value;
use vstd::prelude::*;
use vstd::string::*;

use crate::counters::ApiErrorCategory;
use crate::json::{
    json_of, no_fields, no_members, object_value, opt_uint_value, put_field, text_value,
    uint_or_null, JsonModel,
};
use crate::text::{decimal, decimal_text, join3};

verus! {

/// What the engine was doing when memory ran out.
#[derive(Debug, Clone, Copy, PartialEq, Eq, Structural)]
pub enum OomPhase {
    LoadWeights,
    LoadKvCache,
    Generation,
}

/// An error of the engine or of the model lifecycle.
#[derive(Debug)]
pub enum Error {
    /// A model is unknown or its snapshot cannot be used.
    Model(String),
    /// The smoke probe failed, or did not run.
    SmokeProbe(String),
    /// Memory ran out.
    Oom {
        phase: OomPhase,
        requested_bytes: Option<u64>,
        peak_alloc_mb: Option<u64>,
        msg: String,
    },
    /// The requested context is above what the checkpoint can address. Only a
    /// changed flag can mend this.
    ContextCeilingExceeded {
        requested: usize,
        positional_max: usize,
        trained_max: usize,
        lift: String,
    },
    /// The device layer failed.
    Mlx(String),
    /// Anything else.
    Other(String),
}

/// What an [`Error`] stands for.
pub enum ErrorModel {
    Model(Seq<char>),
    SmokeProbe(Seq<char>),
    Oom {
        phase: OomPhase,
        requested_bytes: Option<u64>,
        peak_alloc_mb: Option<u64>,
        msg: Seq<char>,
    },
    ContextCeilingExceeded {
        requested: usize,
        positional_max: usize,
        trained_max: usize,
        lift: Seq<char>,
    },
    Mlx(Seq<char>),
    Other(Seq<char>),
}

impl View for Error {
    type V = ErrorModel;

    open spec fn view(&self) -> ErrorModel {
        match self {
            Error::Model(s) => ErrorModel::Model(s@),
            Error::SmokeProbe(s) => ErrorModel::SmokeProbe(s@),
            Error::Oom { phase, requested_bytes, peak_alloc_mb, msg } => ErrorModel::Oom {
                phase: *phase,
                requested_bytes: *requested_bytes,
                peak_alloc_mb: *peak_alloc_mb,
                msg: msg@,
            },
            Error::ContextCeilingExceeded {
                requested,
                positional_max,
                trained_max,
                lift,
            } => ErrorModel::ContextCeilingExceeded {
                requested: *requested,
                positional_max: *positional_max,
                trained_max: *trained_max,
                lift: lift@,
            },
            Error::Mlx(s) => ErrorModel::Mlx(s@),
            Error::Other(s) => ErrorModel::Other(s@),
        }
    }
}

impl ErrorModel {
    /// The words in which the error is shown.
    pub open spec fn text(self) -> Seq<char> {
        match self {
            ErrorModel::Model(s) => s,
            ErrorModel::SmokeProbe(s) => s,
            ErrorModel::Oom { msg, .. } => msg,
            ErrorModel::ContextCeilingExceeded {
                requested,
                positional_max,
                trained_max,
                lift,
            } => "max_ctx "@ + decimal_text(requested as nat)
                + " is above the checkpoint's positional capacity of "@ + decimal_text(
                positional_max as nat,
            ) + " (max_position_embeddings "@ + decimal_text(trained_max as nat) + "): "@ + lift,
            ErrorModel::Mlx(s) => s,
            ErrorModel::Other(s) => s,
        }
    }
}

impl Error {
    /// The words in which the error is shown.
    pub fn message(&self) -> (r: String)
        ensures
            r@ == self@.text(),
    {
        match self {
            Error::Model(s) => s.clone(),
            Error::SmokeProbe(s) => s.clone(),
            Error::Oom { msg, .. } => msg.clone(),
            Error::ContextCeilingExceeded {
                requested,
                positional_max,
                trained_max,
                lift,
            } => {
                let mut m: String = join3(
                    "max_ctx ",
                    decimal(*requested as u64).as_str(),
                    " is above the checkpoint's positional capacity of ",
                );
                m.append(decimal(*positional_max as u64).as_str());
                m.append(" (max_position_embeddings ");
                m.append(decimal(*trained_max as u64).as_str());
                m.append("): ");
                m.append(lift.as_str());
                m
            },
            Error::Mlx(s) => s.clone(),
            Error::Other(s) => s.clone(),
        }
    }
}

/// The answer to a request that an engine error ended, without its body.
#[derive(Debug, Clone, Copy)]
pub struct EngineErrorResponse {
    /// The HTTP status.
    pub status: u16,
    /// The stable `type` key of the error body.
    pub kind: &'static str,
    /// The `Retry-After` header in seconds.
    pub retry_after: Option<u64>,
    /// The lifetime counter that the error belongs to.
    pub category: ApiErrorCategory,
}

impl ErrorModel {
    /// The category that an engine error is counted under.
    pub open spec fn category(self) -> ApiErrorCategory {
        match self {
            ErrorModel::SmokeProbe(_) => ApiErrorCategory::Internal,
            ErrorModel::Oom { phase: OomPhase::LoadWeights, .. } => ApiErrorCategory::OomLoad,
            ErrorModel::Oom { phase: OomPhase::LoadKvCache, .. } => ApiErrorCategory::OomKvCache,
            ErrorModel::Oom { phase: OomPhase::Generation, .. } => ApiErrorCategory::OomMidStream,
            _ => ApiErrorCategory::Upstream,
        }
    }

    /// Seconds after which a client may try again: only where memory ran out
    /// before generation began.
    pub open spec fn retry_after(self) -> Option<u64> {
        match self {
            ErrorModel::Oom { phase: OomPhase::LoadWeights, .. } => Some(5),
            ErrorModel::Oom { phase: OomPhase::LoadKvCache, .. } => Some(5),
            _ => None,
        }
    }
}

/// The category that an engine error is counted under.
pub fn engine_error_category(e: &Error) -> (r: ApiErrorCategory)
    ensures
        r == e@.category(),
{
    match e {
        Error::SmokeProbe(_) => ApiErrorCategory::Internal,
        Error::Oom { phase, .. } => match *phase {
            OomPhase::LoadWeights => ApiErrorCategory::OomLoad,
            OomPhase::LoadKvCache => ApiErrorCategory::OomKvCache,
            OomPhase::Generation => ApiErrorCategory::OomMidStream,
        },
        _ => ApiErrorCategory::Upstream,
    }
}

/// The stable `type` key of an engine error, as a stream that is already under
/// way spells it.
pub fn engine_error_type(e: &Error) -> (r: &'static str)
    ensures
        r@ == e@.category().kind_text(),
{
    engine_error_category(e).error_type()
}

/// The answer to a request that an engine error ended. Its `type` key is the
/// one that [`engine_error_type`] names.
pub fn engine_error_response(e: &Error) -> (r: EngineErrorResponse)
    ensures
        r.category == e@.category(),
        r.status == e@.category().status_code(),
        r.kind@ == e@.category().kind_text(),
        r.retry_after == e@.retry_after(),
{
    let category: ApiErrorCategory = engine_error_category(e);
    let retry_after: Option<u64> = match category {
        ApiErrorCategory::OomLoad => Some(5),
        ApiErrorCategory::OomKvCache => Some(5),
        _ => None,
    };
    EngineErrorResponse {
        status: category.status(),
        kind: category.error_type(),
        retry_after,
        category,
    }
}

/// The memory of the process in MB, as far as it could be read.
#[derive(Debug, Clone, Copy, PartialEq, Eq, Structural)]
pub struct ProcMem {
    pub process_rss_mb: Option<u64>,
    pub phys_footprint_mb: Option<u64>,
    pub compressed_mb: Option<u64>,
}

impl ErrorModel {
    /// The fields of the error body. Where memory ran out they tell how much was
    /// asked for and what the process held; a number that is not known is null.
    pub open spec fn body_fields(self, mem: ProcMem) -> Map<Seq<char>, JsonModel> {
        let common = no_members().insert("type"@, JsonModel::Text(self.category().kind_text())).insert(
            "message"@,
            JsonModel::Text(self.text()),
        );
        match self {
            ErrorModel::Oom { requested_bytes, peak_alloc_mb, .. } => common.insert(
                "requested_bytes"@,
                uint_or_null(requested_bytes),
            ).insert("peak_alloc_mb"@, uint_or_null(peak_alloc_mb)).insert(
                "process_rss_mb"@,
                uint_or_null(mem.process_rss_mb),
            ).insert("phys_footprint_mb"@, uint_or_null(mem.phys_footprint_mb)).insert(
                "compressed_mb"@,
                uint_or_null(mem.compressed_mb),
            ),
            _ => common,
        }
    }
}

/// The body of the answer to a request that an engine error ended.
pub fn engine_error_body(e: &Error, mem: ProcMem) -> (r: Value)
    ensures
        json_of(r) == JsonModel::Object(
            no_members().insert("error"@, JsonModel::Object(e@.body_fields(mem))),
        ),
{
    let mut fields: serde_json::Map<String, Value> = no_fields();
    put_field(&mut fields, "type", text_value(engine_error_type(e)));
    put_field(&mut fields, "message", text_value(e.message().as_str()));
    if let Error::Oom { requested_bytes, peak_alloc_mb, .. } = e {
        put_field(&mut fields, "requested_bytes", opt_uint_value(*requested_bytes));
        put_field(&mut fields, "peak_alloc_mb", opt_uint_value(*peak_alloc_mb));
        put_field(&mut fields, "process_rss_mb", opt_uint_value(mem.process_rss_mb));
        put_field(&mut fields, "phys_footprint_mb", opt_uint_value(mem.phys_footprint_mb));
        put_field(&mut fields, "compressed_mb", opt_uint_value(mem.compressed_mb));
    }
    let mut body: serde_json::Map<String, Value> = no_fields();
    put_field(&mut body, "error", object_value(fields));
    object_value(body)
}

/// An engine error is answered as the category that it is counted under: with that
/// category's status and kind, and the same kind as in a stream. Where memory ran out
/// before generation began the client is told to try again in five seconds, and only
/// there.
pub proof fn an_engine_error_is_answered_as_it_is_counted(
    e: &Error,
    r: EngineErrorResponse,
    category: ApiErrorCategory,
    status: u16,
    kind: &'static str,
    streamed: &'static str,
)
    requires
        call_ensures(engine_error_response, (e,), r),
        call_ensures(engine_error_category, (e,), category),
        call_ensures(ApiErrorCategory::status, (category,), status),
        call_ensures(ApiErrorCategory::error_type, (category,), kind),
        call_ensures(engine_error_type, (e,), streamed),
    ensures
        r.category == category,
        r.status == status,
        r.kind@ == kind@,
        streamed@ == kind@,
        e is SmokeProbe <==> category == ApiErrorCategory::Internal,
        (e is Oom && e->phase == OomPhase::LoadWeights) <==> category == ApiErrorCategory::OomLoad,
        (e is Oom && e->phase == OomPhase::LoadKvCache) <==> category
            == ApiErrorCategory::OomKvCache,
        (e is Oom && e->phase == OomPhase::Generation) <==> category
            == ApiErrorCategory::OomMidStream,
        !(e is SmokeProbe) && !(e is Oom) <==> category == ApiErrorCategory::Upstream,
        r.retry_after == (if category == ApiErrorCategory::OomLoad || category
            == ApiErrorCategory::OomKvCache {
            Some(5u64)
        } else {
            None
        }),
        r.retry_after is Some <==> r.status == 507,
{
}

/// An error is shown in its own words. One about the context names what was asked for, what
/// the checkpoint can address and how to lift it.
pub proof fn an_error_speaks_for_itself(e: &Error, r: String, a: String, b: String, c: String)
    requires
        call_ensures(Error::message, (e,), r),
        e is ContextCeilingExceeded ==> call_ensures(decimal, (e->requested as u64,), a)
            && call_ensures(decimal, (e->positional_max as u64,), b) && call_ensures(
            decimal,
            (e->trained_max as u64,),
            c,
        ),
    ensures
        e matches Error::Model(s) ==> r@ == s@,
        e matches Error::SmokeProbe(s) ==> r@ == s@,
        e matches Error::Mlx(s) ==> r@ == s@,
        e matches Error::Other(s) ==> r@ == s@,
        e is Oom ==> r@ == e->msg@,
        e is ContextCeilingExceeded ==> r@ == "max_ctx "@ + a@
            + " is above the checkpoint's positional capacity of "@ + b@
            + " (max_position_embeddings "@ + c@ + "): "@ + e->lift@,
{
}

/// Whether a field holds the number, or null where there is none.
pub open spec fn tells(
    fields: Map<Seq<char>, JsonModel>,
    key: Seq<char>,
    n: Option<u64>,
) -> bool {
    &&& fields.contains_key(key)
    &&& n is Some ==> fields[key] == JsonModel::Uint(n->0)
    &&& n is None ==> fields[key] == JsonModel::Null
}

/// The body of an answer tells the error's kind and words. Where memory ran out it tells
/// each number under its own name, and elsewhere none.
pub proof fn an_error_body_tells_what_is_known(
    e: &Error,
    mem: ProcMem,
    v: Value,
    kind: &'static str,
    words: String,
)
    requires
        call_ensures(engine_error_body, (e, mem), v),
        call_ensures(engine_error_type, (e,), kind),
        call_ensures(Error::message, (e,), words),
    ensures
        json_of(v) is Object,
        json_of(v)->Object_0.contains_key("error"@),
        json_of(v)->Object_0["error"@] is Object,
        ({
            let fields = json_of(v)->Object_0["error"@]->Object_0;
            &&& fields.contains_key("type"@) && fields["type"@] == JsonModel::Text(kind@)
            &&& fields.contains_key("message"@) && fields["message"@] == JsonModel::Text(words@)
            &&& e is Oom ==> {
                &&& tells(fields, "requested_bytes"@, e->requested_bytes)
                &&& tells(fields, "peak_alloc_mb"@, e->peak_alloc_mb)
                &&& tells(fields, "process_rss_mb"@, mem.process_rss_mb)
                &&& tells(fields, "phys_footprint_mb"@, mem.phys_footprint_mb)
                &&& tells(fields, "compressed_mb"@, mem.compressed_mb)
                &&& forall|key: Seq<char>| #[trigger]
                    fields.contains_key(key) ==> key == "type"@ || key == "message"@ || key
                        == "requested_bytes"@ || key == "peak_alloc_mb"@ || key
                        == "process_rss_mb"@ || key == "phys_footprint_mb"@ || key
                        == "compressed_mb"@
            }
            &&& !(e is Oom) ==> forall|key: Seq<char>| #[trigger]
                fields.contains_key(key) ==> key == "type"@ || key == "message"@
        }),
        forall|key: Seq<char>| #[trigger]
            json_of(v)->Object_0.contains_key(key) ==> key == "error"@,
{
    reveal_strlit("type");
    reveal_strlit("message");
    reveal_strlit("requested_bytes");
    reveal_strlit("peak_alloc_mb");
    reveal_strlit("process_rss_mb");
    reveal_strlit("phys_footprint_mb");
    reveal_strlit("compressed_mb");
    assert("type"@.len() == 4 && "message"@.len() == 7 && "requested_bytes"@.len() == 15
        && "peak_alloc_mb"@.len() == 13 && "process_rss_mb"@.len() == 14
        && "phys_footprint_mb"@.len() == 17);
    assert("peak_alloc_mb"@[1] != "compressed_mb"@[1]);
}

} // verus!
