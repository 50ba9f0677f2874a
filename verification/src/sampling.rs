//! Sampling parameters: what a request, the operator and the model's own
//! configuration make of them. `F` is the type of the parameters that are not
//! whole numbers.

use vstd::prelude::*;

use crate::text::{
    is_number, lemma_digits_then, lemma_no_value, number_of, parse_unsigned, reads_as_number,
    unsigned_body, unsigned_value,
};

verus! {

/// Where a parameter comes from.
#[derive(Debug, Clone, Copy, PartialEq, Eq, Structural)]
pub enum SamplingSource {
    Request,
    ServerDefault,
    ModelDefaults,
    HardCoded,
}

/// The sampling defaults that a model ships with.
#[derive(Debug, Clone, Copy)]
pub struct GenerationConfig<F> {
    pub temperature: Option<F>,
    pub top_p: Option<F>,
    pub top_k: Option<u32>,
    pub repetition_penalty: Option<F>,
}

/// The numbers zero and one.
#[derive(Debug, Clone, Copy)]
pub struct Neutral<F> {
    pub zero: F,
    pub one: F,
}

/// The sampling parameters that a request asks for.
#[derive(Debug)]
pub struct SamplingRequest<F> {
    pub temperature: Option<F>,
    pub top_p: Option<F>,
    pub top_k: Option<u32>,
    pub min_p: Option<F>,
    pub repetition_penalty: Option<F>,
    pub frequency_penalty: Option<F>,
    pub presence_penalty: Option<F>,
    pub logit_bias: Vec<(u32, F)>,
    pub seed: Option<u64>,
}

/// The sampling parameters that are in force.
#[derive(Debug)]
pub struct SamplingParams<F> {
    pub temperature: F,
    pub top_p: F,
    pub top_k: u32,
    pub min_p: F,
    pub repetition_penalty: F,
    pub frequency_penalty: F,
    pub presence_penalty: F,
    pub logit_bias: Vec<(u32, F)>,
    pub seed: Option<u64>,
}

/// The first value that is there, with its source: the request's, the operator's,
/// the model's, else the neutral one.
pub open spec fn resolved<T>(
    request: Option<T>,
    server: Option<T>,
    model: Option<T>,
    neutral: T,
) -> (T, SamplingSource) {
    match (request, server, model) {
        (Some(v), _, _) => (v, SamplingSource::Request),
        (None, Some(v), _) => (v, SamplingSource::ServerDefault),
        (None, None, Some(v)) => (v, SamplingSource::ModelDefaults),
        (None, None, None) => (neutral, SamplingSource::HardCoded),
    }
}

fn resolve<T>(request: Option<T>, server: Option<T>, model: Option<T>, neutral: T) -> (r: (
    T,
    SamplingSource,
))
    ensures
        r == resolved(request, server, model, neutral),
{
    match request {
        Some(v) => (v, SamplingSource::Request),
        None => match server {
            Some(v) => (v, SamplingSource::ServerDefault),
            None => match model {
                Some(v) => (v, SamplingSource::ModelDefaults),
                None => (neutral, SamplingSource::HardCoded),
            },
        },
    }
}

/// What the model's configuration sets of the temperature; nothing where there is
/// no configuration.
pub open spec fn model_temperature<F>(defaults: Option<&GenerationConfig<F>>) -> Option<F> {
    match defaults {
        Some(d) => d.temperature,
        None => None,
    }
}

pub open spec fn model_top_p<F>(defaults: Option<&GenerationConfig<F>>) -> Option<F> {
    match defaults {
        Some(d) => d.top_p,
        None => None,
    }
}

pub open spec fn model_top_k<F>(defaults: Option<&GenerationConfig<F>>) -> Option<u32> {
    match defaults {
        Some(d) => d.top_k,
        None => None,
    }
}

pub open spec fn model_repetition_penalty<F>(defaults: Option<&GenerationConfig<F>>) -> Option<F> {
    match defaults {
        Some(d) => d.repetition_penalty,
        None => None,
    }
}

/// Resolves every sampling parameter by itself. Only the temperature has a default
/// of the operator. Returns the parameters, and the sources of the temperature and
/// of `top_p`.
pub fn resolve_sampling_params<F: Copy>(
    request: SamplingRequest<F>,
    defaults: Option<&GenerationConfig<F>>,
    server_default_temperature: Option<F>,
    neutral: Neutral<F>,
) -> (r: (SamplingParams<F>, SamplingSource, SamplingSource))
    ensures
        (r.0.temperature, r.1) == resolved(
            request.temperature,
            server_default_temperature,
            model_temperature(defaults),
            neutral.one,
        ),
        (r.0.top_p, r.2) == resolved(request.top_p, None, model_top_p(defaults), neutral.one),
        r.0.top_k == resolved(request.top_k, None, model_top_k(defaults), 0u32).0,
        r.0.min_p == resolved(request.min_p, None, None, neutral.zero).0,
        r.0.repetition_penalty == resolved(
            request.repetition_penalty,
            None,
            model_repetition_penalty(defaults),
            neutral.one,
        ).0,
        r.0.frequency_penalty == resolved(request.frequency_penalty, None, None, neutral.zero).0,
        r.0.presence_penalty == resolved(request.presence_penalty, None, None, neutral.zero).0,
        r.0.logit_bias == request.logit_bias,
        r.0.seed == request.seed,
{
    let model: GenerationConfig<F> = match defaults {
        Some(d) => GenerationConfig {
            temperature: d.temperature,
            top_p: d.top_p,
            top_k: d.top_k,
            repetition_penalty: d.repetition_penalty,
        },
        None => GenerationConfig {
            temperature: None,
            top_p: None,
            top_k: None,
            repetition_penalty: None,
        },
    };
    let temperature: (F, SamplingSource) = resolve(
        request.temperature,
        server_default_temperature,
        model.temperature,
        neutral.one,
    );
    let top_p: (F, SamplingSource) = resolve(request.top_p, None, model.top_p, neutral.one);
    let top_k: (u32, SamplingSource) = resolve(request.top_k, None, model.top_k, 0);
    let min_p: (F, SamplingSource) = resolve(request.min_p, None, None, neutral.zero);
    let repetition: (F, SamplingSource) = resolve(
        request.repetition_penalty,
        None,
        model.repetition_penalty,
        neutral.one,
    );
    let frequency: (F, SamplingSource) = resolve(
        request.frequency_penalty,
        None,
        None,
        neutral.zero,
    );
    let presence: (F, SamplingSource) = resolve(request.presence_penalty, None, None, neutral.zero);
    let params: SamplingParams<F> = SamplingParams {
        temperature: temperature.0,
        top_p: top_p.0,
        top_k: top_k.0,
        min_p: min_p.0,
        repetition_penalty: repetition.0,
        frequency_penalty: frequency.0,
        presence_penalty: presence.0,
        logit_bias: request.logit_bias,
        seed: request.seed,
    };
    (params, temperature.1, top_p.1)
}

/// Whether a text is the id of a token.
pub open spec fn is_token_id(key: Seq<char>) -> bool {
    unsigned_value(key, u32::MAX as nat) is Ok
}

/// Reads the keys of a logit bias as token ids. The first key that is not one is
/// handed back as the error.
pub fn parse_logit_bias<F: Copy>(entries: &Vec<(String, F)>) -> (r: Result<Vec<(u32, F)>, String>)
    ensures
        match r {
            Ok(v) => {
                &&& v@.len() == entries@.len()
                &&& forall|i: int|
                    0 <= i < v@.len() ==> unsigned_value(entries@[i].0@, u32::MAX as nat) == Ok::<
                        nat,
                        crate::text::IntParseError,
                    >((#[trigger] v@[i]).0 as nat) && v@[i].1 == entries@[i].1
            },
            Err(key) => exists|i: int|
                {
                    &&& 0 <= i < entries@.len()
                    &&& key@ == (#[trigger] entries@[i]).0@
                    &&& !is_token_id(key@)
                    &&& forall|j: int| 0 <= j < i ==> is_token_id((#[trigger] entries@[j]).0@)
                },
        },
        (forall|i: int| 0 <= i < entries@.len() ==> is_token_id((#[trigger] entries@[i]).0@))
            ==> r is Ok,
{
    let mut out: Vec<(u32, F)> = Vec::new();
    let mut i: usize = 0;
    while i < entries.len()
        invariant
            i <= entries.len(),
            out@.len() == i,
            forall|k: int|
                0 <= k < i ==> unsigned_value(entries@[k].0@, u32::MAX as nat) == Ok::<
                    nat,
                    crate::text::IntParseError,
                >((#[trigger] out@[k]).0 as nat) && out@[k].1 == entries@[k].1,
            forall|k: int| 0 <= k < i ==> is_token_id((#[trigger] entries@[k]).0@),
        decreases entries.len() - i,
    {
        match parse_unsigned(entries[i].0.as_str(), u32::MAX as u64) {
            Ok(n) => {
                out.push((n as u32, entries[i].1));
            },
            Err(_) => {
                assert(!is_token_id(entries@[i as int].0@));
                return Err(entries[i].0.clone());
            },
        }
        i += 1;
    }
    Ok(out)
}

/// Whatever the operator and the model set, a parameter that the request gives is the one
/// in force, and it is known to come from the request.
pub proof fn the_request_decides<F: Copy>(
    request: SamplingRequest<F>,
    defaults: Option<&GenerationConfig<F>>,
    server: Option<F>,
    neutral: Neutral<F>,
    r: (SamplingParams<F>, SamplingSource, SamplingSource),
)
    requires
        call_ensures(resolve_sampling_params::<F>, (request, defaults, server, neutral), r),
    ensures
        request.temperature matches Some(v) ==> r.0.temperature == v && r.1
            == SamplingSource::Request,
        request.top_p matches Some(v) ==> r.0.top_p == v && r.2 == SamplingSource::Request,
        request.top_k matches Some(v) ==> r.0.top_k == v,
        request.min_p matches Some(v) ==> r.0.min_p == v,
        request.repetition_penalty matches Some(v) ==> r.0.repetition_penalty == v,
        request.frequency_penalty matches Some(v) ==> r.0.frequency_penalty == v,
        request.presence_penalty matches Some(v) ==> r.0.presence_penalty == v,
        r.0.seed == request.seed,
        r.0.logit_bias@ == request.logit_bias@,
{
}

/// Where the request gives no temperature, the operator's is in force, whatever the model
/// sets.
pub proof fn the_operator_decides_before_the_model<F: Copy>(
    request: SamplingRequest<F>,
    defaults: Option<&GenerationConfig<F>>,
    server: Option<F>,
    neutral: Neutral<F>,
    r: (SamplingParams<F>, SamplingSource, SamplingSource),
)
    requires
        request.temperature is None,
        server is Some,
        call_ensures(resolve_sampling_params::<F>, (request, defaults, server, neutral), r),
    ensures
        r.0.temperature == server->0,
        r.1 == SamplingSource::ServerDefault,
{
}

/// Where nobody else gives a parameter, the model's is in force.
pub proof fn the_model_decides_for_the_rest<F: Copy>(
    request: SamplingRequest<F>,
    d: &GenerationConfig<F>,
    server: Option<F>,
    neutral: Neutral<F>,
    r: (SamplingParams<F>, SamplingSource, SamplingSource),
)
    requires
        call_ensures(resolve_sampling_params::<F>, (request, Some(d), server, neutral), r),
    ensures
        request.temperature is None && server is None ==> (d.temperature matches Some(v)
            ==> r.0.temperature == v && r.1 == SamplingSource::ModelDefaults),
        request.top_p is None ==> (d.top_p matches Some(v) ==> r.0.top_p == v && r.2
            == SamplingSource::ModelDefaults),
        request.top_k is None ==> (d.top_k matches Some(v) ==> r.0.top_k == v),
        request.repetition_penalty is None ==> (d.repetition_penalty matches Some(v)
            ==> r.0.repetition_penalty == v),
{
}

/// A parameter that nobody gives has its neutral value: one for the temperature, `top_p`
/// and the repetition penalty, zero for the others.
pub proof fn nobody_decides<F: Copy>(
    request: SamplingRequest<F>,
    defaults: Option<&GenerationConfig<F>>,
    server: Option<F>,
    neutral: Neutral<F>,
    r: (SamplingParams<F>, SamplingSource, SamplingSource),
)
    requires
        call_ensures(resolve_sampling_params::<F>, (request, defaults, server, neutral), r),
    ensures
        request.temperature is None && server is None && (defaults matches Some(d)
            ==> d.temperature is None) ==> r.0.temperature == neutral.one && r.1
            == SamplingSource::HardCoded,
        request.top_p is None && (defaults matches Some(d) ==> d.top_p is None) ==> r.0.top_p
            == neutral.one && r.2 == SamplingSource::HardCoded,
        request.top_k is None && (defaults matches Some(d) ==> d.top_k is None) ==> r.0.top_k == 0,
        request.repetition_penalty is None && (defaults matches Some(d)
            ==> d.repetition_penalty is None) ==> r.0.repetition_penalty == neutral.one,
        request.min_p is None ==> r.0.min_p == neutral.zero,
        request.frequency_penalty is None ==> r.0.frequency_penalty == neutral.zero,
        request.presence_penalty is None ==> r.0.presence_penalty == neutral.zero,
{
}

/// The biases of a request are taken over in turn, each under the token that its key names
/// in decimal digits.
pub proof fn a_bias_belongs_to_its_token<F: Copy>(
    entries: &Vec<(String, F)>,
    r: Result<Vec<(u32, F)>, String>,
    k: int,
)
    requires
        forall|i: int|
            0 <= i < entries@.len() ==> is_number((#[trigger] entries@[i]).0@) && number_of(
                entries@[i].0@,
            ) <= u32::MAX,
        call_ensures(parse_logit_bias::<F>, (entries,), r),
    ensures
        r is Ok,
        r->Ok_0@.len() == entries@.len(),
        0 <= k < entries@.len() ==> r->Ok_0@[k].0 == number_of(entries@[k].0@) && r->Ok_0@[k].1
            == entries@[k].1,
{
    assert forall|i: int| 0 <= i < entries@.len() implies is_token_id(
        (#[trigger] entries@[i]).0@,
    ) by {
        lemma_token_id(entries@[i].0@);
    }
    if 0 <= k < entries@.len() {
        lemma_token_id(entries@[k].0@);
        assert(r->Ok_0@[k].1 == entries@[k].1);
    }
}

proof fn lemma_token_id(key: Seq<char>)
    requires
        is_number(key),
        number_of(key) <= u32::MAX,
    ensures
        unsigned_value(key, u32::MAX as nat) == Ok::<nat, crate::text::IntParseError>(
            number_of(key),
        ),
{
    assert('0' <= key[0] <= '9');
    assert(unsigned_body(key) == key);
    assert(key + Seq::<char>::empty() =~= key);
    lemma_digits_then(key, Seq::empty(), 0);
}

/// Where a key is not a number, the biases are refused with a key that is none.
pub proof fn a_key_that_is_no_token_is_refused<F: Copy>(
    entries: &Vec<(String, F)>,
    r: Result<Vec<(u32, F)>, String>,
    k: int,
)
    requires
        0 <= k < entries@.len(),
        !reads_as_number(entries@[k].0@),
        forall|i: int|
            0 <= i < k ==> is_number((#[trigger] entries@[i]).0@) && number_of(entries@[i].0@)
                <= u32::MAX,
        call_ensures(parse_logit_bias::<F>, (entries,), r),
    ensures
        r is Err,
        r->Err_0@ == entries@[k].0@,
{
    lemma_no_value(entries@[k].0@, u32::MAX as nat);
    if r is Ok {
        assert(r->Ok_0@[k].1 == entries@[k].1);
    } else {
        let i = choose|i: int|
            {
                &&& 0 <= i < entries@.len()
                &&& r->Err_0@ == (#[trigger] entries@[i]).0@
                &&& !is_token_id(r->Err_0@)
                &&& forall|j: int| 0 <= j < i ==> is_token_id((#[trigger] entries@[j]).0@)
            };
        if i < k {
            lemma_token_id(entries@[i].0@);
        } else if k < i {
            assert(is_token_id(entries@[k].0@));
        }
    }
}

} // verus!
