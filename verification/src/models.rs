//! Model-directory operations: the decision logic of the non-streaming
//! request/response calls (list installed models, list actively loaded
//! models with endpoint fallback, unload a model, one-shot generation).
//!
//! These calls share nothing with the concurrency core but the HTTP client
//! and base URL. The surrounding process performs the requests and hands
//! this module the parsed replies and status codes as plain values; every
//! decision about them is made and proved here.

use vstd::prelude::*;
use vstd::string::*;

use crate::record::opt_str_view;

verus! {

/// One installed model as the tags listing reports it: a name and an
/// optional size.
#[derive(Debug)]
pub struct TagModelEntry {
    pub name: String,
    pub size: Option<u64>,
}

/// The reply of the model-listing endpoint: the installed models.
#[derive(Debug)]
pub struct TagsResponse {
    pub models: Vec<TagModelEntry>,
}

/// One actively loaded model.
#[derive(Debug)]
pub struct RunningModel {
    pub name: String,
}

/// The reply of an actively-loaded-models endpoint.
#[derive(Debug)]
pub struct RunningResponse {
    pub models: Vec<RunningModel>,
}

/// The reply of the one-shot generation endpoint: a response text and the
/// completion flag (absent means not done).
#[derive(Debug)]
pub struct GenerateResult {
    pub response: String,
    pub done: bool,
}

/// The names of the installed models, in listing order.
pub fn tag_model_names(tags: &TagsResponse) -> (names: Vec<String>)
    ensures
        names.deep_view() == Seq::new(tags.models@.len(), |i: int| tags.models@[i].name@),
{
    let mut names: Vec<String> = Vec::new();
    let n = tags.models.len();
    let mut i: usize = 0;
    while i < n
        invariant
            i <= n,
            n == tags.models@.len(),
            names.deep_view() =~= Seq::new(i as nat, |j: int| tags.models@[j].name@),
        decreases n - i,
    {
        let ghost prev = names.deep_view();
        names.push(tags.models[i].name.clone());
        i = i + 1;
        proof {
            assert(names.deep_view() =~= prev.push(tags.models@[i - 1].name@));
            assert(prev.push(tags.models@[i - 1].name@) =~= Seq::new(
                i as nat,
                |j: int| tags.models@[j].name@,
            ));
        }
    }
    names
}

/// The names of the actively loaded models, in listing order.
pub fn running_model_names(running: &RunningResponse) -> (names: Vec<String>)
    ensures
        names.deep_view() == Seq::new(running.models@.len(), |i: int| running.models@[i].name@),
{
    let mut names: Vec<String> = Vec::new();
    let n = running.models.len();
    let mut i: usize = 0;
    while i < n
        invariant
            i <= n,
            n == running.models@.len(),
            names.deep_view() =~= Seq::new(i as nat, |j: int| running.models@[j].name@),
        decreases n - i,
    {
        let ghost prev = names.deep_view();
        names.push(running.models[i].name.clone());
        i = i + 1;
        proof {
            assert(names.deep_view() =~= prev.push(running.models@[i - 1].name@));
            assert(prev.push(running.models@[i - 1].name@) =~= Seq::new(
                i as nat,
                |j: int| running.models@[j].name@,
            ));
        }
    }
    names
}

/// What the actively-loaded-models query answers, given the outcome of
/// each candidate endpoint in the order tried: the names from the first
/// candidate that responded successfully and parsed, and an empty list
/// where none did.
pub open spec fn first_success(attempts: Seq<Option<Seq<Seq<char>>>>) -> Seq<Seq<char>>
    decreases attempts.len(),
{
    if attempts.len() == 0 {
        seq![]
    } else {
        match attempts.first() {
            Some(names) => names,
            None => first_success(attempts.drop_first()),
        }
    }
}

/// Resolve the actively-loaded-models query from the per-endpoint
/// outcomes, in the order the endpoints were tried: `None` stands for a
/// transport failure, a non-success status, or a reply that did not
/// parse. Exactly [`first_success`]: the first successful reply wins, and
/// no successful reply yields the empty list rather than an error.
pub fn resolve_active_models(attempts: Vec<Option<Vec<String>>>) -> (names: Vec<String>)
    ensures
        names.deep_view() == first_success(attempts.deep_view()),
{
    let ghost orig = attempts.deep_view();
    let mut rem = attempts;
    while rem.len() > 0
        invariant
            orig == attempts.deep_view(),
            first_success(rem.deep_view()) == first_success(orig),
        decreases rem.len(),
    {
        let ghost remdv = rem.deep_view();
        let head = rem.remove(0);
        proof {
            assert(rem.deep_view() =~= remdv.drop_first());
        }
        match head {
            Some(names) => {
                proof {
                    assert(remdv.first() == Some(names.deep_view()));
                    assert(first_success(remdv) == names.deep_view());
                    assert(names.deep_view() == first_success(orig));
                }
                return names;
            },
            None => {
                proof {
                    assert(remdv.first() == None::<Seq<Seq<char>>>);
                }
            },
        }
    }
    proof {
        assert(rem.deep_view() =~= Seq::<Option<Seq<Seq<char>>>>::empty());
        assert(first_success(orig) =~= Seq::<Seq<char>>::empty());
    }
    Vec::new()
}

/// A success status of the upstream HTTP service.
pub open spec fn spec_status_success(status: u16) -> bool {
    200 <= status < 300
}

/// Whether an upstream HTTP status counts as success: the 2xx class.
pub fn status_success(status: u16) -> (r: bool)
    ensures
        r == spec_status_success(status),
{
    200 <= status && status < 300
}

/// The outcome of the unload call, decided from the HTTP status of the
/// zero-keep-alive generation request that performs it: success exactly
/// on a success status, and a failure carrying the status otherwise.
pub fn unload_outcome(status: u16) -> (r: Result<(), u16>)
    ensures
        r is Ok <==> spec_status_success(status),
        r matches Err(s) ==> s == status,
{
    if status_success(status) {
        Ok(())
    } else {
        Err(status)
    }
}

/// What a one-shot generation reply holds: the plain response text, the
/// nested message content, and the canonical rendering of the whole JSON
/// value as the last resort.
#[derive(Debug)]
pub struct GenRecord {
    pub response: Option<String>,
    pub message_content: Option<String>,
    pub canonical: String,
}

/// The mathematical value of a [`GenRecord`].
pub struct GenRecordView {
    pub response: Option<Seq<char>>,
    pub message_content: Option<Seq<char>>,
    pub canonical: Seq<char>,
}

impl View for GenRecord {
    type V = GenRecordView;

    open spec fn view(&self) -> GenRecordView {
        GenRecordView {
            response: match self.response {
                Some(ref s) => Some(s@),
                None => None,
            },
            message_content: match self.message_content {
                Some(ref s) => Some(s@),
                None => None,
            },
            canonical: self.canonical@,
        }
    }
}

/// The view of an optional generation record.
pub open spec fn opt_gen_view(r: Option<GenRecord>) -> Option<GenRecordView> {
    match r {
        Some(g) => Some(g@),
        None => None,
    }
}

/// What a one-shot generation reply body denotes as a JSON value, if it is
/// one. The result depends on the body's characters alone.
pub uninterp spec fn json_generate_of(body: Seq<char>) -> Option<GenRecordView>;

/// Relies on `serde_json::from_str::<Value>`, `Value`'s `get`, `pointer`,
/// `as_str` accessors, and `Value`'s canonical `to_string` rendering: all
/// functions of the body's characters alone, named [`json_generate_of`].
#[verifier::external_body]
fn parse_generate(body: &str) -> (r: Option<GenRecord>)
    ensures
        opt_gen_view(r) == json_generate_of(body@),
{
    let v: serde_json::Value = match serde_json::from_str(body) {
        Ok(v) => v,
        Err(_) => return None,
    };
    let response = v.get("response").and_then(|r| r.as_str()).map(|s| s.to_string());
    let message_content = v.pointer("/message/content").and_then(|c| c.as_str()).map(
        |s| s.to_string(),
    );
    let canonical = v.to_string();
    Some(GenRecord { response, message_content, canonical })
}

/// The text a one-shot generation reply yields: the plain response text
/// where present, else the nested message content where present, else the
/// canonical rendering of the reply.
pub open spec fn spec_generate_text(g: GenRecordView) -> Seq<char> {
    match g.response {
        Some(t) => t,
        None => match g.message_content {
            Some(c) => c,
            None => g.canonical,
        },
    }
}

/// Extract the one-shot generation text from a reply body. `None` exactly
/// where the body is not valid JSON (surfaced by the caller as a failure);
/// otherwise the text of [`spec_generate_text`].
pub fn extract_generate_text(body: &str) -> (r: Option<String>)
    ensures
        opt_str_view(r) == (match json_generate_of(body@) {
            Some(g) => Some(spec_generate_text(g)),
            None => None,
        }),
{
    match parse_generate(body) {
        Some(g) => match g.response {
            Some(t) => Some(t),
            None => match g.message_content {
                Some(c) => Some(c),
                None => Some(g.canonical),
            },
        },
        None => None,
    }
}

} // verus!
