//! Condition evaluation for gating filter execution on request/response
//! attributes.

use vstd::prelude::*;
use crate::message::{HeaderMap, Request, Response, visible_text, is_visible_text};
use crate::text::{eq_ignore_ascii_case, lower_seq, seq_starts_with, starts_with, str_eq};

verus! {

/// A request predicate; unset fields impose no constraint.
#[derive(Debug)]
pub struct ConditionMatch {
    /// Exact path to match.
    pub path: Option<String>,
    /// Path prefix to match.
    pub path_prefix: Option<String>,
    /// Methods to match (any of, compared case-insensitively).
    pub methods: Option<Vec<String>>,
    /// Headers that must all be present with exactly these values.
    pub headers: Option<Vec<(String, String)>>,
}

/// A request-phase condition.
#[derive(Debug)]
pub enum Condition {
    /// Run the filter only when the predicate matches.
    When(ConditionMatch),
    /// Skip the filter when the predicate matches.
    Unless(ConditionMatch),
}

/// A response predicate; unset fields impose no constraint.
#[derive(Debug)]
pub struct ResponseConditionMatch {
    /// Status codes to match (any of).
    pub status: Option<Vec<u16>>,
    /// Headers that must all be present with exactly these values.
    pub headers: Option<Vec<(String, String)>>,
}

/// A response-phase condition.
#[derive(Debug)]
pub enum ResponseCondition {
    /// Run the filter only when the predicate matches.
    When(ResponseConditionMatch),
    /// Skip the filter when the predicate matches.
    Unless(ResponseConditionMatch),
}

/// The first value of header `name` is readable text equal to `value`.
pub open spec fn header_is(headers: HeaderMap, name: Seq<char>, value: Seq<char>) -> bool {
    match headers.first(name) {
        Some(v) => visible_text(v) && v == value,
        None => false,
    }
}

/// Every required header pair holds in `headers`.
pub open spec fn headers_all(headers: HeaderMap, required: Seq<(String, String)>) -> bool {
    forall|i: int| 0 <= i < required.len() ==> header_is(headers, (#[trigger] required[i]).0@, required[i].1@)
}

/// Whether all set fields of `m` match `req`.
pub open spec fn request_matches(m: ConditionMatch, req: Request) -> bool {
    &&& (m.path matches Some(p) ==> req.path@ == p@)
    &&& (m.path_prefix matches Some(p) ==> seq_starts_with(req.path@, p@))
    &&& (m.methods matches Some(ms) ==> exists|i: int|
        0 <= i < ms@.len() && lower_seq((#[trigger] ms@[i])@) == lower_seq(req.method@))
    &&& (m.headers matches Some(hs) ==> headers_all(req.headers, hs@))
}

/// Whether a single condition lets the filter run for `req`.
pub open spec fn condition_allows(c: Condition, req: Request) -> bool {
    match c {
        Condition::When(m) => request_matches(m, req),
        Condition::Unless(m) => !request_matches(m, req),
    }
}

/// Whether all set fields of `m` match `resp`.
pub open spec fn response_matches(m: ResponseConditionMatch, resp: Response) -> bool {
    &&& (m.status matches Some(ss) ==> ss@.contains(resp.status))
    &&& (m.headers matches Some(hs) ==> headers_all(resp.headers, hs@))
}

/// Whether a single response condition lets the filter run for `resp`.
pub open spec fn response_condition_allows(c: ResponseCondition, resp: Response) -> bool {
    match c {
        ResponseCondition::When(m) => response_matches(m, resp),
        ResponseCondition::Unless(m) => !response_matches(m, resp),
    }
}

fn header_equals(headers: &HeaderMap, name: &str, value: &str) -> (r: bool)
    ensures
        r == header_is(*headers, name@, value@),
{
    match headers.get(name) {
        Some(v) => is_visible_text(v.as_str()) && str_eq(v.as_str(), value),
        None => false,
    }
}

fn headers_match_all(headers: &HeaderMap, required: &Vec<(String, String)>) -> (r: bool)
    ensures
        r == headers_all(*headers, required@),
{
    let mut i: usize = 0;
    while i < required.len()
        invariant
            i <= required@.len(),
            forall|j: int| 0 <= j < i ==> header_is(*headers, (#[trigger] required@[j]).0@, required@[j].1@),
        decreases required@.len() - i,
    {
        let (name, value) = &required[i];
        if !header_equals(headers, name.as_str(), value.as_str()) {
            return false;
        }
        i = i + 1;
    }
    true
}

fn method_listed(methods: &Vec<String>, method: &str) -> (r: bool)
    ensures
        r == exists|i: int| 0 <= i < methods@.len() && lower_seq((#[trigger] methods@[i])@) == lower_seq(method@),
{
    let mut i: usize = 0;
    while i < methods.len()
        invariant
            i <= methods@.len(),
            forall|j: int| 0 <= j < i ==> lower_seq((#[trigger] methods@[j])@) != lower_seq(method@),
        decreases methods@.len() - i,
    {
        if eq_ignore_ascii_case(methods[i].as_str(), method) {
            return true;
        }
        i = i + 1;
    }
    false
}

/// Returns true if all specified fields in the predicate match the request.
pub fn matches_request(m: &ConditionMatch, req: &Request) -> (r: bool)
    ensures
        r == request_matches(*m, *req),
{
    if let Some(exact) = &m.path {
        if !str_eq(req.path.as_str(), exact.as_str()) {
            return false;
        }
    }
    if let Some(prefix) = &m.path_prefix {
        if !starts_with(req.path.as_str(), prefix.as_str()) {
            return false;
        }
    }
    if let Some(methods) = &m.methods {
        if !method_listed(methods, req.method.as_str()) {
            return false;
        }
    }
    if let Some(headers) = &m.headers {
        if !headers_match_all(&req.headers, headers) {
            return false;
        }
    }
    true
}

/// Returns true if the filter should execute given its ordered conditions:
/// every `When` predicate matches and no `Unless` predicate matches.
pub fn should_execute(conditions: &[Condition], req: &Request) -> (r: bool)
    ensures
        r == forall|i: int| 0 <= i < conditions@.len() ==> condition_allows(#[trigger] conditions@[i], *req),
{
    let mut i: usize = 0;
    while i < conditions.len()
        invariant
            i <= conditions@.len(),
            forall|j: int| 0 <= j < i ==> condition_allows(#[trigger] conditions@[j], *req),
        decreases conditions@.len() - i,
    {
        match &conditions[i] {
            Condition::When(m) => {
                if !matches_request(m, req) {
                    assert(!condition_allows(conditions@[i as int], *req));
                    return false;
                }
            },
            Condition::Unless(m) => {
                if matches_request(m, req) {
                    assert(!condition_allows(conditions@[i as int], *req));
                    return false;
                }
            },
        }
        i = i + 1;
    }
    true
}

fn status_listed(statuses: &Vec<u16>, status: u16) -> (r: bool)
    ensures
        r == statuses@.contains(status),
{
    let mut i: usize = 0;
    while i < statuses.len()
        invariant
            i <= statuses@.len(),
            forall|j: int| 0 <= j < i ==> statuses@[j] != status,
        decreases statuses@.len() - i,
    {
        if statuses[i] == status {
            return true;
        }
        i = i + 1;
    }
    false
}

/// Returns true if all specified fields in the predicate match the response.
pub fn matches_response(m: &ResponseConditionMatch, resp: &Response) -> (r: bool)
    ensures
        r == response_matches(*m, *resp),
{
    if let Some(statuses) = &m.status {
        if !status_listed(statuses, resp.status) {
            return false;
        }
    }
    if let Some(headers) = &m.headers {
        if !headers_match_all(&resp.headers, headers) {
            return false;
        }
    }
    true
}

/// Returns true if the filter should execute in the response phase.
pub fn should_execute_response(conditions: &[ResponseCondition], resp: &Response) -> (r: bool)
    ensures
        r == forall|i: int|
            0 <= i < conditions@.len() ==> response_condition_allows(#[trigger] conditions@[i], *resp),
{
    let mut i: usize = 0;
    while i < conditions.len()
        invariant
            i <= conditions@.len(),
            forall|j: int| 0 <= j < i ==> response_condition_allows(#[trigger] conditions@[j], *resp),
        decreases conditions@.len() - i,
    {
        match &conditions[i] {
            ResponseCondition::When(m) => {
                if !matches_response(m, resp) {
                    assert(!response_condition_allows(conditions@[i as int], *resp));
                    return false;
                }
            },
            ResponseCondition::Unless(m) => {
                if matches_response(m, resp) {
                    assert(!response_condition_allows(conditions@[i as int], *resp));
                    return false;
                }
            },
        }
        i = i + 1;
    }
    true
}

} // verus!
