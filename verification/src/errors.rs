//! The error taxonomy of the dispatch core.  `NotMatch` is the one soft
//! kind: a container catches it and tries the next sibling.  Every other
//! kind travels up until a formatter or the application's default mapping
//! turns it into a response; an error may carry a ready-made response to
//! bypass the formatter search.
use vstd::prelude::*;

verus! {

use crate::http::{Response, RespV};
use crate::json::{JsonValue, JsonV, view_json, lemma_view_arr, lemma_view_obj};
use vstd::string::StringExecFns;

/// One structured reason a validation failed: the parameter at fault and
/// a short code saying how.
#[derive(Debug, PartialEq)]
pub struct ValidationReason {
    pub name: String,
    pub code: String,
}

/// The shadow of a validation reason.
pub struct ReasonV {
    pub name: Seq<char>,
    pub code: Seq<char>,
}

/// The views of a list of validation reasons.
pub open spec fn view_reasons(reasons: Seq<ValidationReason>) -> Seq<ReasonV> {
    Seq::new(reasons.len(), |i: int| ReasonV { name: reasons[i].name@, code: reasons[i].code@ })
}

/// The kinds of failure dispatch can produce.
#[derive(Debug, PartialEq)]
pub enum ErrorKind {
    /// This node does not apply to the request; the parent tries the next
    /// sibling.
    NotMatch,
    /// No route matched at all.
    NotFound,
    /// The query string could not be decoded.
    QueryString,
    /// The body could not be decoded; carries the cause.
    Body(String),
    /// A parameter schema rejected the bag; carries the reasons.
    Validation(Vec<ValidationReason>),
    /// Media negotiation found nothing usable.
    NotAcceptable,
    /// A file could not be served; carries the cause.
    File(String),
    /// An application-supplied failure, tagged by name.
    Custom { name: String, message: String },
}

/// The shadow of an error kind.
pub enum ErrV {
    NotMatch,
    NotFound,
    QueryString,
    Body(Seq<char>),
    Validation(Seq<ReasonV>),
    NotAcceptable,
    File(Seq<char>),
    Custom { name: Seq<char>, message: Seq<char> },
}

/// The shadow of an error kind.
pub open spec fn view_error(e: ErrorKind) -> ErrV {
    match e {
        ErrorKind::NotMatch => ErrV::NotMatch,
        ErrorKind::NotFound => ErrV::NotFound,
        ErrorKind::QueryString => ErrV::QueryString,
        ErrorKind::Body(reason) => ErrV::Body(reason@),
        ErrorKind::Validation(reasons) => ErrV::Validation(view_reasons(reasons@)),
        ErrorKind::NotAcceptable => ErrV::NotAcceptable,
        ErrorKind::File(reason) => ErrV::File(reason@),
        ErrorKind::Custom { name, message } => ErrV::Custom { name: name@, message: message@ },
    }
}

/// The route-not-applicable signal, as a named value.
#[derive(Debug, PartialEq)]
pub struct NotMatch;

impl NotMatch {
    /// The error kind this value stands for.
    pub fn kind(self) -> (r: ErrorKind)
        ensures
            view_error(r) == ErrV::NotMatch,
    {
        ErrorKind::NotMatch
    }
}

/// The no-route-matched failure, as a named value.
#[derive(Debug, PartialEq)]
pub struct NotFound;

impl NotFound {
    /// The error kind this value stands for.
    pub fn kind(self) -> (r: ErrorKind)
        ensures
            view_error(r) == ErrV::NotFound,
    {
        ErrorKind::NotFound
    }
}

/// A malformed query string, as a named value.
#[derive(Debug, PartialEq)]
pub struct QueryString;

impl QueryString {
    /// The error kind this value stands for.
    pub fn kind(self) -> (r: ErrorKind)
        ensures
            view_error(r) == ErrV::QueryString,
    {
        ErrorKind::QueryString
    }
}

/// A failed media negotiation, as a named value.
#[derive(Debug, PartialEq)]
pub struct NotAcceptable;

impl NotAcceptable {
    /// The error kind this value stands for.
    pub fn kind(self) -> (r: ErrorKind)
        ensures
            view_error(r) == ErrV::NotAcceptable,
    {
        ErrorKind::NotAcceptable
    }
}

/// A body that could not be decoded, with its cause.
#[derive(Debug, PartialEq)]
pub struct Body {
    pub reason: String,
}

impl Body {
    /// A body decode failure with the given cause.
    pub fn new(reason: String) -> (r: Body)
        ensures
            r.reason == reason,
    {
        Body { reason }
    }

    /// The error kind this value stands for.
    pub fn kind(self) -> (r: ErrorKind)
        ensures
            view_error(r) == ErrV::Body(self.reason@),
    {
        ErrorKind::Body(self.reason)
    }
}

/// A file that could not be served, with its cause.
#[derive(Debug, PartialEq)]
pub struct File {
    pub reason: String,
}

impl File {
    /// The error kind this value stands for.
    pub fn kind(self) -> (r: ErrorKind)
        ensures
            view_error(r) == ErrV::File(self.reason@),
    {
        ErrorKind::File(self.reason)
    }
}

/// The older name for a body decode failure.
#[derive(Debug, PartialEq)]
pub struct BodyDecodeError {
    pub reason: String,
}

impl BodyDecodeError {
    /// A body decode failure with the given cause.
    pub fn new(reason: String) -> (r: BodyDecodeError)
        ensures
            r.reason == reason,
    {
        BodyDecodeError { reason }
    }

    /// The error kind this value stands for.
    pub fn kind(self) -> (r: ErrorKind)
        ensures
            view_error(r) == ErrV::Body(self.reason@),
    {
        ErrorKind::Body(self.reason)
    }
}

/// The older name for a query-string decode failure.
#[derive(Debug, PartialEq)]
pub struct QueryStringDecodeError;

impl QueryStringDecodeError {
    /// The error kind this value stands for.
    pub fn kind(self) -> (r: ErrorKind)
        ensures
            view_error(r) == ErrV::QueryString,
    {
        ErrorKind::QueryString
    }
}

/// An error on its way up, with the response a formatter may already have
/// built for it.
#[derive(Debug, PartialEq)]
pub struct ErrorResponse {
    pub error: ErrorKind,
    pub response: Option<Response>,
}

/// The shadow of an error on its way up.
pub struct ErrRespV {
    pub error: ErrV,
    pub response: Option<RespV>,
}

impl ErrorResponse {
    /// The shadow of this error.
    pub open spec fn view(&self) -> ErrRespV {
        ErrRespV {
            error: view_error(self.error),
            response: match self.response {
                Some(r) => Some(r.view()),
                None => None,
            },
        }
    }

    /// An error with no response attached yet.
    pub fn new(error: ErrorKind) -> (r: ErrorResponse)
        ensures
            r.view() == (ErrRespV { error: view_error(error), response: None }),
    {
        ErrorResponse { error, response: None }
    }
}

/// The structured JSON carrying validation reasons: one object per
/// reason, naming the failing parameter and the code.
pub open spec fn spec_reasons_json(reasons: Seq<ReasonV>) -> JsonV {
    JsonV::Array(
        Seq::new(
            reasons.len(),
            |i: int|
                JsonV::Object(
                    seq![
                        ("name"@, JsonV::Str(reasons[i].name)),
                        ("code"@, JsonV::Str(reasons[i].code)),
                    ],
                ),
        ),
    )
}

/// Builds the structured JSON value for a list of validation reasons.
pub fn reasons_to_json(reasons: &Vec<ValidationReason>) -> (r: JsonValue)
    ensures
        view_json(r) == spec_reasons_json(view_reasons(reasons@)),
{
    let mut items: Vec<JsonValue> = Vec::new();
    let ghost target = spec_reasons_json(view_reasons(reasons@))->Array_0;
    let mut i: usize = 0;
    while i < reasons.len()
        invariant
            0 <= i <= reasons@.len(),
            target == spec_reasons_json(view_reasons(reasons@))->Array_0,
            target.len() == reasons@.len(),
            crate::json::view_json_arr(items@, 0) =~= target.subrange(0, i as int),
        decreases reasons@.len() - i,
    {
        let mut entries: Vec<(String, JsonValue)> = Vec::new();
        entries.push((String::from_str("name"), JsonValue::Str(reasons[i].name.clone())));
        entries.push((String::from_str("code"), JsonValue::Str(reasons[i].code.clone())));
        let obj = JsonValue::Object(entries);
        proof {
            reveal_strlit("name");
            reveal_strlit("code");
            lemma_view_obj(entries@, 0);
            assert(crate::json::view_json_obj(entries@, 0)[0] == (entries@[0].0@, view_json(
                entries@[0].1,
            )));
            assert(crate::json::view_json_obj(entries@, 0)[1] == (entries@[1].0@, view_json(
                entries@[1].1,
            )));
            assert(entries@[0].0@ == "name"@);
            assert(entries@[1].0@ == "code"@);
            assert(view_json(entries@[0].1) == JsonV::Str(reasons@[i as int].name@));
            assert(view_json(entries@[1].1) == JsonV::Str(reasons@[i as int].code@));
            assert(view_json(obj)->Object_0 =~= seq![
                ("name"@, JsonV::Str(reasons@[i as int].name@)),
                ("code"@, JsonV::Str(reasons@[i as int].code@)),
            ]);
            assert(view_json(obj) == target[i as int]);
        }
        let ghost items0 = items@;
        items.push(obj);
        proof {
            lemma_view_arr(items0, 0);
            lemma_view_arr(items@, 0);
            assert forall|k: int| 0 <= k < items@.len() implies crate::json::view_json_arr(
                items@,
                0,
            )[k] == target.subrange(0, i + 1)[k] by {
                assert(crate::json::view_json_arr(items@, 0)[k] == view_json(items@[k]));
                if k < items0.len() {
                    assert(items@[k] == items0[k]);
                    assert(crate::json::view_json_arr(items0, 0)[k] == view_json(items0[k]));
                    assert(crate::json::view_json_arr(items0, 0) == target.subrange(0, i as int));
                    assert(target.subrange(0, i as int)[k] == target[k]);
                } else {
                    assert(items@[k] == obj);
                }
            }
            assert(crate::json::view_json_arr(items@, 0) =~= target.subrange(0, i + 1));
        }
        i += 1;
    }
    let r = JsonValue::Array(items);
    proof {
        assert(crate::json::view_json_arr(items@, 0) =~= target);
        assert(view_json(r) == spec_reasons_json(view_reasons(reasons@)));
    }
    r
}

} // verus!
