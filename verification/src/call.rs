//! Calls of a backend: the arguments come in and the result goes out as the
//! text of JSON documents.
use vstd::prelude::*;

use crate::error::{invalid_spec, BackendError, BackendFailure};
use crate::host_handle_obs::{label_views, Counter, CounterView, Label};
use crate::json::{
    json_bytes, json_of_bytes, object, parse_bytes, to_value, value_bytes, Fields, Json, JsonView,
};
use crate::text::{concat2, concat4};

verus! {

/// The result of a call.
#[derive(Debug)]
pub struct BackendResponse {
    pub payload: Vec<u8>,
    pub truncated: bool,
}

/// The arguments of a call once its payload went through the parser.
pub open spec fn parsed_arguments(parsed: Result<JsonView, Seq<char>>) -> Result<
    JsonView,
    BackendFailure,
> {
    match parsed {
        Ok(value) => Ok(value),
        Err(e) => Err(invalid_spec("execute payload was not JSON: "@ + e)),
    }
}

/// The arguments of a call: an empty payload stands for no arguments.
pub open spec fn arguments(payload: Seq<u8>) -> Result<JsonView, BackendFailure> {
    if payload.len() == 0 {
        Ok(object(seq![]))
    } else {
        parsed_arguments(json_of_bytes(payload))
    }
}

/// The arguments of a call, with what the parser made of its payload.
pub fn accept_arguments(parsed: Result<Json, String>) -> (r: Result<Json, BackendError>)
    ensures
        ({
            let given = match parsed {
                Ok(j) => Ok(j@),
                Err(e) => Err(e@),
            };
            match r {
                Ok(value) => parsed_arguments(given) == Ok::<JsonView, BackendFailure>(value@),
                Err(e) => parsed_arguments(given) == Err::<JsonView, BackendFailure>(e@),
            }
        }),
{
    match parsed {
        Ok(value) => Ok(value),
        Err(e) => Err(
            BackendError::InvalidSpec {
                message: concat2("execute payload was not JSON: ", e.as_str()),
            },
        ),
    }
}

/// The arguments of a call.
pub fn decode_payload(payload: &[u8]) -> (r: Result<Json, BackendError>)
    ensures
        match r {
            Ok(value) => arguments(payload@) == Ok::<JsonView, BackendFailure>(value@),
            Err(e) => arguments(payload@) == Err::<JsonView, BackendFailure>(e@),
        },
{
    if payload.len() == 0 {
        let none = Fields::new();
        assert(none@ =~= seq![]);
        return Ok(none.into_json());
    }
    accept_arguments(parse_bytes(payload))
}

/// The response to a call once its result was printed; `what` says what could
/// not be printed.
pub open spec fn printed_response(what: Seq<char>, printed: Result<Seq<u8>, Seq<char>>) -> Result<
    Seq<u8>,
    BackendFailure,
> {
    match printed {
        Ok(payload) => Ok(payload),
        Err(e) => Err(BackendFailure::Transport { message: "serialize "@ + what + ": "@ + e }),
    }
}

/// The payload of the response to a call.
pub open spec fn response(what: Seq<char>, result: Result<JsonView, BackendFailure>) -> Result<
    Seq<u8>,
    BackendFailure,
> {
    match result {
        Ok(value) => printed_response(what, json_bytes(value)),
        Err(e) => Err(e),
    }
}

/// The response to a call, with what came of printing its result.
pub fn accept_printed(what: &str, printed: Result<Vec<u8>, String>) -> (r: Result<
    BackendResponse,
    BackendError,
>)
    ensures
        ({
            let given = match printed {
                Ok(bytes) => Ok(bytes@),
                Err(e) => Err(e@),
            };
            match r {
                Ok(resp) => !resp.truncated && printed_response(what@, given) == Ok::<
                    Seq<u8>,
                    BackendFailure,
                >(resp.payload@),
                Err(e) => printed_response(what@, given) == Err::<Seq<u8>, BackendFailure>(e@),
            }
        }),
{
    match printed {
        Ok(payload) => Ok(BackendResponse { payload, truncated: false }),
        Err(e) => Err(
            BackendError::Transport {
                message: concat4("serialize ", what, ": ", e.as_str()),
            },
        ),
    }
}

/// The result of a call, as a value.
pub open spec fn result_view(result: Result<Json, BackendError>) -> Result<
    JsonView,
    BackendFailure,
> {
    match result {
        Ok(value) => Ok(value@),
        Err(e) => Err(e@),
    }
}

/// The response to a call.
pub fn respond(what: &str, result: Result<Json, BackendError>) -> (r: Result<
    BackendResponse,
    BackendError,
>)
    ensures
        match r {
            Ok(resp) => !resp.truncated && response(what@, result_view(result)) == Ok::<
                Seq<u8>,
                BackendFailure,
            >(resp.payload@),
            Err(e) => response(what@, result_view(result)) == Err::<Seq<u8>, BackendFailure>(e@),
        },
{
    match result {
        Ok(value) => {
            let v = to_value(&value);
            accept_printed(what, value_bytes(&v))
        },
        Err(e) => Err(e),
    }
}

/// The labels of a call: who was called, and how it went if that is counted.
pub open spec fn call_labels(
    backend_name: Seq<char>,
    provider: Seq<char>,
    model: Seq<char>,
) -> Seq<(Seq<char>, Seq<char>)> {
    seq![("binding"@, backend_name), ("provider"@, provider), ("model"@, model)]
}

/// What a call adds to the counter `name`.
pub open spec fn call_count(
    name: Seq<char>,
    backend_name: Seq<char>,
    provider: Seq<char>,
    model: Seq<char>,
    ok: bool,
) -> CounterView {
    CounterView {
        name,
        value: 1,
        labels: call_labels(backend_name, provider, model).push(
            (
                "status"@,
                if ok {
                    "ok"@
                } else {
                    "error"@
                },
            ),
        ),
    }
}

/// The labels of a call.
pub fn label_call(backend_name: &str, provider: &str, model: &str) -> (r: Vec<Label>)
    ensures
        label_views(r@) == call_labels(backend_name@, provider@, model@),
{
    let mut r: Vec<Label> = Vec::new();
    r.push(("binding".to_owned(), backend_name.to_owned()));
    r.push(("provider".to_owned(), provider.to_owned()));
    r.push(("model".to_owned(), model.to_owned()));
    assert(label_views(r@) =~= call_labels(backend_name@, provider@, model@));
    r
}

/// What a call adds to the counter `name`.
pub fn count_call(name: &str, backend_name: &str, provider: &str, model: &str, ok: bool) -> (r:
    Counter)
    ensures
        r@ == call_count(name@, backend_name@, provider@, model@, ok),
{
    let status = if ok {
        "ok"
    } else {
        "error"
    };
    let mut labels = label_call(backend_name, provider, model);
    let ghost before = labels@;
    labels.push(("status".to_owned(), status.to_owned()));
    assert(label_views(labels@) =~= label_views(before).push(("status"@, status@)));
    Counter { name: name.to_owned(), value: 1, labels }
}

} // verus!
