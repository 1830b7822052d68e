use praxis::body::{BodyAccess, BodyMode};
use praxis::guardrails::{
    compile_pattern, parse_contains, parse_matcher, parse_target, CompiledRule, GuardrailsAction, GuardrailsFilter,
    RuleMatcher, RuleTarget, RuleTargetKind, DEFAULT_MAX_BODY_BYTES,
};
use praxis::message::Request;
use praxis::actions::FilterAction;

fn contains_rule(target: RuleTarget, needle: &str, negate: bool) -> CompiledRule {
    CompiledRule { target, matcher: parse_contains(needle).ok().unwrap(), negate }
}

fn pattern_rule(target: RuleTarget, re: &str, negate: bool) -> CompiledRule {
    CompiledRule { target, matcher: compile_pattern(re).ok().unwrap(), negate }
}

fn body_contains(needle: &str) -> CompiledRule {
    contains_rule(RuleTarget::Body, needle, false)
}

fn header_contains(name: &str, needle: &str) -> CompiledRule {
    contains_rule(RuleTarget::Header(name.to_string()), needle, false)
}

fn make_filter(rules: Vec<CompiledRule>) -> GuardrailsFilter {
    GuardrailsFilter::new(GuardrailsAction::Reject, rules)
}

fn forbidden(a: &FilterAction) -> bool {
    matches!(a, FilterAction::Reject(r) if r.status == 403 && r.body.as_deref() == Some(b"Forbidden".as_slice()))
}

#[test]
fn body_access_with_body_rules() {
    let f = make_filter(vec![body_contains("evil")]);
    assert_eq!(f.request_body_access(), BodyAccess::ReadOnly, "body rules need ReadOnly access");
    assert_eq!(
        f.request_body_mode(),
        BodyMode::StreamBuffer { max_bytes: Some(DEFAULT_MAX_BODY_BYTES) },
        "body rules need StreamBuffer mode"
    );
}

#[test]
fn body_access_without_body_rules() {
    let f = make_filter(vec![header_contains("User-Agent", "bot")]);
    assert_eq!(f.request_body_access(), BodyAccess::NoAccess, "header-only rules need no body access");
    assert_eq!(f.request_body_mode(), BodyMode::Stream, "header-only rules use Stream mode");
}

#[test]
fn header_contains_rejects_match() {
    let f = make_filter(vec![header_contains("user-agent", "bad-bot")]);
    let mut req = Request::new("GET", "/");
    req.headers.append("user-agent", "bad-bot/1.0");
    assert!(forbidden(&f.on_request(&req)));
}

#[test]
fn header_contains_allows_non_match() {
    let f = make_filter(vec![header_contains("user-agent", "bad-bot")]);
    let mut req = Request::new("GET", "/");
    req.headers.append("user-agent", "good-bot/1.0");
    assert!(matches!(f.on_request(&req), FilterAction::Continue));
}

#[test]
fn header_pattern_rejects_match() {
    let f = make_filter(vec![pattern_rule(RuleTarget::Header("user-agent".to_string()), r"bad-bot.*", false)]);
    let mut req = Request::new("GET", "/");
    req.headers.append("user-agent", "bad-bot/2.0");
    assert!(forbidden(&f.on_request(&req)));
}

#[test]
fn missing_header_does_not_match() {
    let f = make_filter(vec![header_contains("x-evil", "evilmonkey")]);
    assert!(matches!(f.on_request(&Request::new("GET", "/")), FilterAction::Continue));
}

#[test]
fn body_contains_rejects_match() {
    let f = make_filter(vec![body_contains("DROP TABLE")]);
    assert!(forbidden(&f.on_request_body(Some("SELECT 1; DROP TABLE users;"))));
}

#[test]
fn body_contains_allows_clean_content() {
    let f = make_filter(vec![body_contains("DROP TABLE")]);
    assert!(matches!(f.on_request_body(Some("SELECT 1 FROM users")), FilterAction::Continue));
}

#[test]
fn body_pattern_rejects_match() {
    let f = make_filter(vec![pattern_rule(RuleTarget::Body, r"(?i)drop\s+table", false)]);
    assert!(forbidden(&f.on_request_body(Some("drop  table users"))));
}

#[test]
fn none_body_continues() {
    let f = make_filter(vec![body_contains("evil")]);
    assert!(matches!(f.on_request_body(None), FilterAction::Continue));
}

#[test]
fn negated_header_rejects_when_header_missing() {
    let f = make_filter(vec![contains_rule(RuleTarget::Header("x-auth".to_string()), "trusted", true)]);
    assert!(forbidden(&f.on_request(&Request::new("GET", "/"))));
}

#[test]
fn negated_body_pattern_allows_json() {
    let f = make_filter(vec![pattern_rule(RuleTarget::Body, r"^\{.*\}$", true)]);
    assert!(matches!(f.on_request_body(Some("{\"a\":1}")), FilterAction::Continue));
    assert!(forbidden(&f.on_request_body(Some("plain text"))));
}

#[test]
fn flag_action_continues_on_match() {
    let f = GuardrailsFilter::new(GuardrailsAction::Flag, vec![body_contains("evil")]);
    assert!(matches!(f.on_request_body(Some("pure evil")), FilterAction::Continue));
}

#[test]
fn contains_matcher_is_case_insensitive() {
    let rule = body_contains("DROP TABLE");
    assert!(rule.eval("drop table users"));
    assert!(rule.eval("Drop Table users"));
    assert!(rule.eval("DROP TABLE users"));
    assert!(!rule.eval("SELECT 1 FROM users"));
}

#[test]
fn contains_bare_pii_name_errors() {
    for name in &["ssn", "SSN", "credit_card", "Credit_Card", "phone", "email"] {
        assert!(parse_contains(name).is_err(), "bare PII kind name '{name}' should be rejected");
    }
}

#[test]
fn parse_errors_have_messages() {
    assert_eq!(parse_contains("").err().unwrap().to_string(), "guardrails: 'contains' must not be empty");
    assert_eq!(compile_pattern("").err().unwrap().to_string(), "guardrails: 'pattern' must not be empty");
    assert!(compile_pattern("(unclosed").err().unwrap().to_string().starts_with("guardrails: invalid regex '(unclosed': "));
    let long = "a".repeat(2000);
    assert_eq!(
        compile_pattern(&long).err().unwrap().to_string(),
        "guardrails: regex pattern exceeds 1024 character limit (2000 chars)"
    );
    assert_eq!(
        parse_matcher(Some("a"), Some("b")).err().unwrap().to_string(),
        "guardrails: use 'contains' or 'pattern', not both"
    );
    assert_eq!(
        parse_matcher(None, None).err().unwrap().to_string(),
        "guardrails: each rule must have 'contains' or 'pattern'"
    );
    assert_eq!(
        parse_target(RuleTargetKind::Header, None).err().unwrap().to_string(),
        "guardrails: 'name' is required for header rules"
    );
    assert_eq!(parse_target(RuleTargetKind::Header, Some("")).err().unwrap().to_string(), "guardrails: 'name' must not be empty");
    assert!(matches!(parse_target(RuleTargetKind::Body, None), Ok(RuleTarget::Body)));
    assert!(matches!(parse_matcher(Some("XSS"), None), Ok(RuleMatcher::Contains(ref n)) if n == "xss"));
}

fn body_pattern(re: &str) -> CompiledRule {
    pattern_rule(RuleTarget::Body, re, false)
}

#[test]
fn contains_matcher_matches_substring() {
    let rule = body_contains("DROP TABLE");
    assert!(rule.eval("SELECT 1; DROP TABLE users"), "should match substring");
}

#[test]
fn contains_matcher_rejects_non_match() {
    let rule = body_contains("DROP TABLE");
    assert!(!rule.eval("SELECT 1 FROM users"), "should not match unrelated text");
}

#[test]
fn contains_matcher_case_insensitive_mixed_needle() {
    let rule = body_contains("xSs");
    assert!(rule.eval("has XSS injection"), "case-insensitive needle should match");
    assert!(rule.eval("has xss injection"), "lowercase needle should match");
}

#[test]
fn pattern_matcher_matches_regex() {
    let rule = body_pattern(r"DROP\s+TABLE");
    assert!(rule.eval("DROP   TABLE users"), "regex should match whitespace variants");
}

#[test]
fn pattern_matcher_rejects_non_match() {
    let rule = body_pattern(r"DROP\s+TABLE");
    assert!(!rule.eval("SELECT 1 FROM users"), "regex should not match unrelated text");
}
