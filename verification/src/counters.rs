//! Error categories of the HTTP boundary and their lifetime counters.

use serde_json::Value;
use vstd::prelude::*;

use crate::json::{json_of, no_fields, object_value, put_field, uint_value, JsonModel};

verus! {

/// HTTP-boundary error categories.
#[derive(Debug, Clone, Copy, PartialEq, Eq, Structural)]
pub enum ApiErrorCategory {
    /// A bad request field, an out-of-range parameter, an unsupported field.
    BadRequest,
    /// The prompt is longer than the context.
    ContextOverflow,
    /// The model is not in the registry.
    NotFound,
    /// Memory ran out while weights were loaded.
    OomLoad,
    /// Memory ran out while the KV cache was allocated.
    OomKvCache,
    /// Memory ran out in the middle of a decode.
    OomMidStream,
    /// The request ran longer than its wall-clock limit.
    Timeout,
    /// The loader or the engine failed.
    Upstream,
    /// NaN logits, a failed smoke probe or a panic.
    Internal,
    /// The admission queue is full.
    RateLimit,
    /// The admission controller expects to miss its latency target. Kept apart
    /// from [`ApiErrorCategory::Upstream`], which counts engine failures.
    AdmissionSla503,
}

impl ApiErrorCategory {
    pub open spec fn label(self) -> Seq<char> {
        match self {
            ApiErrorCategory::BadRequest => "bad_request"@,
            ApiErrorCategory::ContextOverflow => "context_overflow"@,
            ApiErrorCategory::NotFound => "not_found"@,
            ApiErrorCategory::OomLoad => "oom_load"@,
            ApiErrorCategory::OomKvCache => "oom_kv_cache"@,
            ApiErrorCategory::OomMidStream => "oom_mid_stream"@,
            ApiErrorCategory::Timeout => "timeout"@,
            ApiErrorCategory::Upstream => "upstream"@,
            ApiErrorCategory::Internal => "internal"@,
            ApiErrorCategory::RateLimit => "rate_limit"@,
            ApiErrorCategory::AdmissionSla503 => "admission_sla_503"@,
        }
    }

    pub open spec fn status_code(self) -> u16 {
        match self {
            ApiErrorCategory::BadRequest => 400,
            ApiErrorCategory::ContextOverflow => 400,
            ApiErrorCategory::NotFound => 404,
            ApiErrorCategory::OomLoad => 507,
            ApiErrorCategory::OomKvCache => 507,
            ApiErrorCategory::OomMidStream => 503,
            ApiErrorCategory::Timeout => 408,
            ApiErrorCategory::Upstream => 503,
            ApiErrorCategory::Internal => 500,
            ApiErrorCategory::RateLimit => 429,
            ApiErrorCategory::AdmissionSla503 => 503,
        }
    }

    pub open spec fn kind_text(self) -> Seq<char> {
        match self {
            ApiErrorCategory::BadRequest => "invalid_request_error"@,
            ApiErrorCategory::ContextOverflow => "context_length_exceeded"@,
            ApiErrorCategory::NotFound => "not_found_error"@,
            ApiErrorCategory::OomLoad => "oom_during_load"@,
            ApiErrorCategory::OomKvCache => "oom_kv_cache"@,
            ApiErrorCategory::OomMidStream => "oom_mid_stream"@,
            ApiErrorCategory::Timeout => "timeout"@,
            ApiErrorCategory::Upstream => "service_unavailable"@,
            ApiErrorCategory::Internal => "internal_error"@,
            ApiErrorCategory::RateLimit => "rate_limit_error"@,
            ApiErrorCategory::AdmissionSla503 => "admission_sla_exceeded"@,
        }
    }

    /// The stable label under which the category is reported.
    pub fn as_str(self) -> (r: &'static str)
        ensures
            r@ == self.label(),
    {
        match self {
            ApiErrorCategory::BadRequest => "bad_request",
            ApiErrorCategory::ContextOverflow => "context_overflow",
            ApiErrorCategory::NotFound => "not_found",
            ApiErrorCategory::OomLoad => "oom_load",
            ApiErrorCategory::OomKvCache => "oom_kv_cache",
            ApiErrorCategory::OomMidStream => "oom_mid_stream",
            ApiErrorCategory::Timeout => "timeout",
            ApiErrorCategory::Upstream => "upstream",
            ApiErrorCategory::Internal => "internal",
            ApiErrorCategory::RateLimit => "rate_limit",
            ApiErrorCategory::AdmissionSla503 => "admission_sla_503",
        }
    }

    /// The HTTP status that the category is answered with.
    pub fn status(self) -> (r: u16)
        ensures
            r == self.status_code(),
    {
        match self {
            ApiErrorCategory::BadRequest => 400,
            ApiErrorCategory::ContextOverflow => 400,
            ApiErrorCategory::NotFound => 404,
            ApiErrorCategory::OomLoad => 507,
            ApiErrorCategory::OomKvCache => 507,
            ApiErrorCategory::OomMidStream => 503,
            ApiErrorCategory::Timeout => 408,
            ApiErrorCategory::Upstream => 503,
            ApiErrorCategory::Internal => 500,
            ApiErrorCategory::RateLimit => 429,
            ApiErrorCategory::AdmissionSla503 => 503,
        }
    }

    /// The `type` key of the error body.
    pub fn error_type(self) -> (r: &'static str)
        ensures
            r@ == self.kind_text(),
    {
        match self {
            ApiErrorCategory::BadRequest => "invalid_request_error",
            ApiErrorCategory::ContextOverflow => "context_length_exceeded",
            ApiErrorCategory::NotFound => "not_found_error",
            ApiErrorCategory::OomLoad => "oom_during_load",
            ApiErrorCategory::OomKvCache => "oom_kv_cache",
            ApiErrorCategory::OomMidStream => "oom_mid_stream",
            ApiErrorCategory::Timeout => "timeout",
            ApiErrorCategory::Upstream => "service_unavailable",
            ApiErrorCategory::Internal => "internal_error",
            ApiErrorCategory::RateLimit => "rate_limit_error",
            ApiErrorCategory::AdmissionSla503 => "admission_sla_exceeded",
        }
    }
}

/// Lifetime counters, one per [`ApiErrorCategory`]. A counter wraps around
/// behind the largest value. There is one owner and no copy, so that no reader
/// sees counters that have gone stale.
#[derive(Debug, PartialEq, Eq, Structural)]
pub struct ApiErrorCounters {
    pub bad_request: u64,
    pub context_overflow: u64,
    pub not_found: u64,
    pub oom_load: u64,
    pub oom_kv_cache: u64,
    pub oom_mid_stream: u64,
    pub timeout: u64,
    pub upstream: u64,
    pub internal: u64,
    pub rate_limit: u64,
    pub admission_sla_503: u64,
}

/// The value of a counter after one more event.
pub open spec fn bumped(n: u64) -> u64 {
    if n == u64::MAX {
        0
    } else {
        (n + 1) as u64
    }
}

impl ApiErrorCounters {
    /// The counter of a category.
    pub open spec fn count(self, category: ApiErrorCategory) -> u64 {
        match category {
            ApiErrorCategory::BadRequest => self.bad_request,
            ApiErrorCategory::ContextOverflow => self.context_overflow,
            ApiErrorCategory::NotFound => self.not_found,
            ApiErrorCategory::OomLoad => self.oom_load,
            ApiErrorCategory::OomKvCache => self.oom_kv_cache,
            ApiErrorCategory::OomMidStream => self.oom_mid_stream,
            ApiErrorCategory::Timeout => self.timeout,
            ApiErrorCategory::Upstream => self.upstream,
            ApiErrorCategory::Internal => self.internal,
            ApiErrorCategory::RateLimit => self.rate_limit,
            ApiErrorCategory::AdmissionSla503 => self.admission_sla_503,
        }
    }

    /// All counters at zero.
    pub fn new() -> (r: ApiErrorCounters)
        ensures
            forall|c: ApiErrorCategory| #[trigger] r.count(c) == 0,
    {
        ApiErrorCounters {
            bad_request: 0,
            context_overflow: 0,
            not_found: 0,
            oom_load: 0,
            oom_kv_cache: 0,
            oom_mid_stream: 0,
            timeout: 0,
            upstream: 0,
            internal: 0,
            rate_limit: 0,
            admission_sla_503: 0,
        }
    }

    /// Counts one more error of the category. No other counter changes.
    pub fn increment(&mut self, category: ApiErrorCategory)
        ensures
            forall|c: ApiErrorCategory| #[trigger]
                final(self).count(c) == (if c == category {
                    bumped(old(self).count(c))
                } else {
                    old(self).count(c)
                }),
            steps(
                old(self).bad_request,
                final(self).bad_request,
                category == ApiErrorCategory::BadRequest,
            ),
            steps(
                old(self).context_overflow,
                final(self).context_overflow,
                category == ApiErrorCategory::ContextOverflow,
            ),
            steps(
                old(self).not_found,
                final(self).not_found,
                category == ApiErrorCategory::NotFound,
            ),
            steps(
                old(self).oom_load,
                final(self).oom_load,
                category == ApiErrorCategory::OomLoad,
            ),
            steps(
                old(self).oom_kv_cache,
                final(self).oom_kv_cache,
                category == ApiErrorCategory::OomKvCache,
            ),
            steps(
                old(self).oom_mid_stream,
                final(self).oom_mid_stream,
                category == ApiErrorCategory::OomMidStream,
            ),
            steps(
                old(self).timeout,
                final(self).timeout,
                category == ApiErrorCategory::Timeout,
            ),
            steps(
                old(self).upstream,
                final(self).upstream,
                category == ApiErrorCategory::Upstream,
            ),
            steps(
                old(self).internal,
                final(self).internal,
                category == ApiErrorCategory::Internal,
            ),
            steps(
                old(self).rate_limit,
                final(self).rate_limit,
                category == ApiErrorCategory::RateLimit,
            ),
            steps(
                old(self).admission_sla_503,
                final(self).admission_sla_503,
                category == ApiErrorCategory::AdmissionSla503,
            ),
    {
        match category {
            ApiErrorCategory::BadRequest => {
                self.bad_request = self.bad_request.wrapping_add(1);
            },
            ApiErrorCategory::ContextOverflow => {
                self.context_overflow = self.context_overflow.wrapping_add(1);
            },
            ApiErrorCategory::NotFound => {
                self.not_found = self.not_found.wrapping_add(1);
            },
            ApiErrorCategory::OomLoad => {
                self.oom_load = self.oom_load.wrapping_add(1);
            },
            ApiErrorCategory::OomKvCache => {
                self.oom_kv_cache = self.oom_kv_cache.wrapping_add(1);
            },
            ApiErrorCategory::OomMidStream => {
                self.oom_mid_stream = self.oom_mid_stream.wrapping_add(1);
            },
            ApiErrorCategory::Timeout => {
                self.timeout = self.timeout.wrapping_add(1);
            },
            ApiErrorCategory::Upstream => {
                self.upstream = self.upstream.wrapping_add(1);
            },
            ApiErrorCategory::Internal => {
                self.internal = self.internal.wrapping_add(1);
            },
            ApiErrorCategory::RateLimit => {
                self.rate_limit = self.rate_limit.wrapping_add(1);
            },
            ApiErrorCategory::AdmissionSla503 => {
                self.admission_sla_503 = self.admission_sla_503.wrapping_add(1);
            },
        }
    }
}

impl ApiErrorCounters {
    /// The counters by their labels.
    pub open spec fn report(self) -> Map<Seq<char>, JsonModel> {
        Map::<Seq<char>, JsonModel>::empty()
            .insert("bad_request"@, JsonModel::Uint(self.bad_request))
            .insert("context_overflow"@, JsonModel::Uint(self.context_overflow))
            .insert("not_found"@, JsonModel::Uint(self.not_found))
            .insert("oom_load"@, JsonModel::Uint(self.oom_load))
            .insert("oom_kv_cache"@, JsonModel::Uint(self.oom_kv_cache))
            .insert("oom_mid_stream"@, JsonModel::Uint(self.oom_mid_stream))
            .insert("timeout"@, JsonModel::Uint(self.timeout))
            .insert("upstream"@, JsonModel::Uint(self.upstream))
            .insert("internal"@, JsonModel::Uint(self.internal))
            .insert("rate_limit"@, JsonModel::Uint(self.rate_limit))
            .insert("admission_sla_503"@, JsonModel::Uint(self.admission_sla_503))
    }

    /// The counters as a JSON object with a field per category.
    pub fn to_json(&self) -> (r: Value)
        ensures
            json_of(r) == JsonModel::Object(self.report()),
    {
        let mut m: serde_json::Map<String, Value> = no_fields();
        put_field(&mut m, "bad_request", uint_value(self.bad_request));
        put_field(&mut m, "context_overflow", uint_value(self.context_overflow));
        put_field(&mut m, "not_found", uint_value(self.not_found));
        put_field(&mut m, "oom_load", uint_value(self.oom_load));
        put_field(&mut m, "oom_kv_cache", uint_value(self.oom_kv_cache));
        put_field(&mut m, "oom_mid_stream", uint_value(self.oom_mid_stream));
        put_field(&mut m, "timeout", uint_value(self.timeout));
        put_field(&mut m, "upstream", uint_value(self.upstream));
        put_field(&mut m, "internal", uint_value(self.internal));
        put_field(&mut m, "rate_limit", uint_value(self.rate_limit));
        put_field(&mut m, "admission_sla_503", uint_value(self.admission_sla_503));
        object_value(m)
    }
}

proof fn lemma_labels()
    ensures
        forall|a: ApiErrorCategory, b: ApiErrorCategory| #[trigger]
            a.label() == #[trigger] b.label() ==> a == b,
{
    reveal_strlit("bad_request");
    reveal_strlit("context_overflow");
    reveal_strlit("not_found");
    reveal_strlit("oom_load");
    reveal_strlit("oom_kv_cache");
    reveal_strlit("oom_mid_stream");
    reveal_strlit("timeout");
    reveal_strlit("upstream");
    reveal_strlit("internal");
    reveal_strlit("rate_limit");
    reveal_strlit("admission_sla_503");
    assert forall|a: ApiErrorCategory, b: ApiErrorCategory| #[trigger]
        a.label() == #[trigger] b.label() implies a == b by {
        let x = a.label();
        let y = b.label();
        assert(x.len() == y.len());
        assert(x[0] == y[0]);
    }
}

/// No two categories share a label, so the report shows every category with its
/// own counter.
pub proof fn report_shows_every_category(counters: ApiErrorCounters, c: ApiErrorCategory)
    ensures
        counters.report().contains_key(c.label()),
        counters.report()[c.label()] == JsonModel::Uint(counters.count(c)),
        forall|a: ApiErrorCategory, b: ApiErrorCategory| #[trigger]
            a.label() == #[trigger] b.label() ==> a == b,
{
    lemma_labels();
    assert(ApiErrorCategory::BadRequest.label() == "bad_request"@);
    assert(ApiErrorCategory::ContextOverflow.label() == "context_overflow"@);
    assert(ApiErrorCategory::NotFound.label() == "not_found"@);
    assert(ApiErrorCategory::OomLoad.label() == "oom_load"@);
    assert(ApiErrorCategory::OomKvCache.label() == "oom_kv_cache"@);
    assert(ApiErrorCategory::OomMidStream.label() == "oom_mid_stream"@);
    assert(ApiErrorCategory::Timeout.label() == "timeout"@);
    assert(ApiErrorCategory::Upstream.label() == "upstream"@);
    assert(ApiErrorCategory::Internal.label() == "internal"@);
    assert(ApiErrorCategory::RateLimit.label() == "rate_limit"@);
    assert(ApiErrorCategory::AdmissionSla503.label() == "admission_sla_503"@);
}

impl Default for ApiErrorCounters {
    fn default() -> (r: ApiErrorCounters)
        ensures
            forall|c: ApiErrorCategory| #[trigger] r.count(c) == 0,
    {
        ApiErrorCounters::new()
    }
}

/// Whether a counter has gone up by one where it is due, and not at all elsewhere; behind
/// the largest value it starts again.
pub open spec fn steps(before: u64, after: u64, due: bool) -> bool {
    &&& !due ==> after == before
    &&& due && before < u64::MAX ==> after == before + 1
    &&& due && before == u64::MAX ==> after == 0
}

/// An error is counted under its own category and no other.
pub proof fn an_error_is_counted_under_its_category(
    counters: &mut ApiErrorCounters,
    category: ApiErrorCategory,
)
    requires
        call_ensures(ApiErrorCounters::increment, (counters, category), ()),
    ensures
        steps(
            old(counters).bad_request,
            final(counters).bad_request,
            category == ApiErrorCategory::BadRequest,
        ),
        steps(
            old(counters).context_overflow,
            final(counters).context_overflow,
            category == ApiErrorCategory::ContextOverflow,
        ),
        steps(
            old(counters).not_found,
            final(counters).not_found,
            category == ApiErrorCategory::NotFound,
        ),
        steps(
            old(counters).oom_load,
            final(counters).oom_load,
            category == ApiErrorCategory::OomLoad,
        ),
        steps(
            old(counters).oom_kv_cache,
            final(counters).oom_kv_cache,
            category == ApiErrorCategory::OomKvCache,
        ),
        steps(
            old(counters).oom_mid_stream,
            final(counters).oom_mid_stream,
            category == ApiErrorCategory::OomMidStream,
        ),
        steps(
            old(counters).timeout,
            final(counters).timeout,
            category == ApiErrorCategory::Timeout,
        ),
        steps(
            old(counters).upstream,
            final(counters).upstream,
            category == ApiErrorCategory::Upstream,
        ),
        steps(
            old(counters).internal,
            final(counters).internal,
            category == ApiErrorCategory::Internal,
        ),
        steps(
            old(counters).rate_limit,
            final(counters).rate_limit,
            category == ApiErrorCategory::RateLimit,
        ),
        steps(
            old(counters).admission_sla_503,
            final(counters).admission_sla_503,
            category == ApiErrorCategory::AdmissionSla503,
        ),
{
}

/// New counters are all at zero.
pub proof fn new_counters_are_at_zero(r: ApiErrorCounters)
    requires
        call_ensures(ApiErrorCounters::new, (), r),
    ensures
        r.bad_request == 0,
        r.context_overflow == 0,
        r.not_found == 0,
        r.oom_load == 0,
        r.oom_kv_cache == 0,
        r.oom_mid_stream == 0,
        r.timeout == 0,
        r.upstream == 0,
        r.internal == 0,
        r.rate_limit == 0,
        r.admission_sla_503 == 0,
{
    assert(r.count(ApiErrorCategory::BadRequest) == r.bad_request);
    assert(r.count(ApiErrorCategory::ContextOverflow) == r.context_overflow);
    assert(r.count(ApiErrorCategory::NotFound) == r.not_found);
    assert(r.count(ApiErrorCategory::OomLoad) == r.oom_load);
    assert(r.count(ApiErrorCategory::OomKvCache) == r.oom_kv_cache);
    assert(r.count(ApiErrorCategory::OomMidStream) == r.oom_mid_stream);
    assert(r.count(ApiErrorCategory::Timeout) == r.timeout);
    assert(r.count(ApiErrorCategory::Upstream) == r.upstream);
    assert(r.count(ApiErrorCategory::Internal) == r.internal);
    assert(r.count(ApiErrorCategory::RateLimit) == r.rate_limit);
    assert(r.count(ApiErrorCategory::AdmissionSla503) == r.admission_sla_503);
}

/// The client's mistakes are answered with a status from 400 on, and the server's troubles
/// with one from 500 on: 507 where memory did not suffice to load, 503 where the client may
/// find the server well again, and 500 otherwise.
pub proof fn a_status_tells_whose_trouble_it_is(c: ApiErrorCategory, status: u16)
    requires
        call_ensures(ApiErrorCategory::status, (c,), status),
    ensures
        status == 400 <==> c is BadRequest || c is ContextOverflow,
        status == 404 <==> c is NotFound,
        status == 408 <==> c is Timeout,
        status == 429 <==> c is RateLimit,
        status == 500 <==> c is Internal,
        status == 507 <==> c is OomLoad || c is OomKvCache,
        status == 503 <==> c is OomMidStream || c is Upstream || c is AdmissionSla503,
{
}

/// The report shows each counter under the label of its category.
pub proof fn a_report_shows_the_counters(
    counters: ApiErrorCounters,
    v: Value,
    c: ApiErrorCategory,
    label: &'static str,
)
    requires
        call_ensures(ApiErrorCounters::to_json, (&counters,), v),
        call_ensures(ApiErrorCategory::as_str, (c,), label),
    ensures
        json_of(v) is Object,
        json_of(v)->Object_0.contains_key(label@),
        c is BadRequest ==> json_of(v)->Object_0[label@] == JsonModel::Uint(counters.bad_request),
        c is ContextOverflow ==> json_of(v)->Object_0[label@] == JsonModel::Uint(counters.context_overflow),
        c is NotFound ==> json_of(v)->Object_0[label@] == JsonModel::Uint(counters.not_found),
        c is OomLoad ==> json_of(v)->Object_0[label@] == JsonModel::Uint(counters.oom_load),
        c is OomKvCache ==> json_of(v)->Object_0[label@] == JsonModel::Uint(counters.oom_kv_cache),
        c is OomMidStream ==> json_of(v)->Object_0[label@] == JsonModel::Uint(counters.oom_mid_stream),
        c is Timeout ==> json_of(v)->Object_0[label@] == JsonModel::Uint(counters.timeout),
        c is Upstream ==> json_of(v)->Object_0[label@] == JsonModel::Uint(counters.upstream),
        c is Internal ==> json_of(v)->Object_0[label@] == JsonModel::Uint(counters.internal),
        c is RateLimit ==> json_of(v)->Object_0[label@] == JsonModel::Uint(counters.rate_limit),
        c is AdmissionSla503 ==> json_of(v)->Object_0[label@] == JsonModel::Uint(counters.admission_sla_503),
{
    report_shows_every_category(counters, c);
}

/// A category is known to clients under one kind and to operators under one label.
pub proof fn a_category_has_its_names(
    c: ApiErrorCategory,
    kind: &'static str,
    label: &'static str,
)
    requires
        call_ensures(ApiErrorCategory::error_type, (c,), kind),
        call_ensures(ApiErrorCategory::as_str, (c,), label),
    ensures
        c is BadRequest ==> kind@ == "invalid_request_error"@ && label@ == "bad_request"@,
        c is ContextOverflow ==> kind@ == "context_length_exceeded"@ && label@ == "context_overflow"@,
        c is NotFound ==> kind@ == "not_found_error"@ && label@ == "not_found"@,
        c is OomLoad ==> kind@ == "oom_during_load"@ && label@ == "oom_load"@,
        c is OomKvCache ==> kind@ == "oom_kv_cache"@ && label@ == "oom_kv_cache"@,
        c is OomMidStream ==> kind@ == "oom_mid_stream"@ && label@ == "oom_mid_stream"@,
        c is Timeout ==> kind@ == "timeout"@ && label@ == "timeout"@,
        c is Upstream ==> kind@ == "service_unavailable"@ && label@ == "upstream"@,
        c is Internal ==> kind@ == "internal_error"@ && label@ == "internal"@,
        c is RateLimit ==> kind@ == "rate_limit_error"@ && label@ == "rate_limit"@,
        c is AdmissionSla503 ==> kind@ == "admission_sla_exceeded"@ && label@ == "admission_sla_503"@,
{
}

/// A category of errors has a label of its own: two with the same label are the same.
pub proof fn labels_tell_categories_apart(
    a: ApiErrorCategory,
    b: ApiErrorCategory,
    x: &'static str,
    y: &'static str,
)
    requires
        call_ensures(ApiErrorCategory::as_str, (a,), x),
        call_ensures(ApiErrorCategory::as_str, (b,), y),
        x@ == y@,
    ensures
        a == b,
{
    lemma_labels();
    assert(a.label() == b.label());
}

/// The report shows nothing but the counters.
pub proof fn a_report_shows_nothing_else(counters: ApiErrorCounters, v: Value, key: Seq<char>)
    requires
        call_ensures(ApiErrorCounters::to_json, (&counters,), v),
        json_of(v) is Object,
        json_of(v)->Object_0.contains_key(key),
    ensures
        exists|c: ApiErrorCategory| #[trigger] c.label() == key,
{
    if key == "bad_request"@ {
        assert(ApiErrorCategory::BadRequest.label() == key);
    }
    if key == "context_overflow"@ {
        assert(ApiErrorCategory::ContextOverflow.label() == key);
    }
    if key == "not_found"@ {
        assert(ApiErrorCategory::NotFound.label() == key);
    }
    if key == "oom_load"@ {
        assert(ApiErrorCategory::OomLoad.label() == key);
    }
    if key == "oom_kv_cache"@ {
        assert(ApiErrorCategory::OomKvCache.label() == key);
    }
    if key == "oom_mid_stream"@ {
        assert(ApiErrorCategory::OomMidStream.label() == key);
    }
    if key == "timeout"@ {
        assert(ApiErrorCategory::Timeout.label() == key);
    }
    if key == "upstream"@ {
        assert(ApiErrorCategory::Upstream.label() == key);
    }
    if key == "internal"@ {
        assert(ApiErrorCategory::Internal.label() == key);
    }
    if key == "rate_limit"@ {
        assert(ApiErrorCategory::RateLimit.label() == key);
    }
    if key == "admission_sla_503"@ {
        assert(ApiErrorCategory::AdmissionSla503.label() == key);
    }
}

} // verus!
