//! Guardrail rules: reject (or flag) requests whose headers or body contain
//! a literal string (case-insensitively) or match a regular expression.

use vstd::prelude::*;
use vstd::string::*;
use crate::actions::{FilterAction, Rejection};
use crate::body::{BodyAccess, BodyMode};
use crate::context::FilterError;
use crate::message::{is_visible_text, visible_text, Request};
use crate::text::{contains, decimal, lower_seq, push_decimal, push_str, seq_contains, str_eq, to_ascii_lower};

verus! {

/// Longest regular expression accepted, in bytes.
pub const MAX_REGEX_PATTERN_LEN: usize = 1024;

/// Compiled-size limit handed to the regex compiler, in bytes.
pub const MAX_REGEX_SIZE: usize = 1048576;

/// Stream-buffer limit for request bodies inspected by body rules.
pub const DEFAULT_MAX_BODY_BYTES: usize = 1048576;

/// Makes `regex::Regex` known to Verus as an opaque type; nothing is
/// claimed of its contents.
#[verifier::external_type_specification]
#[verifier::external_body]
pub struct ExRegex(regex::Regex);

/// Unicode lower-casing of a text, as `str::to_lowercase` performs it.
pub uninterp spec fn unicode_lower(s: Seq<char>) -> Seq<char>;

/// `str::to_lowercase`: the result is only claimed to be `unicode_lower`
/// of the argument.
#[verifier::external_body]
fn to_lowercase(s: &str) -> (r: String)
    ensures
        r@ == unicode_lower(s@),
{
    s.to_lowercase()
}

/// The outcome of compiling `pattern` with the given compiled-size limit
/// on a machine whose pointers have `pointer_bits` bits (the compiled size
/// depends on it): `None` when it compiles, otherwise the compiler's error
/// text.
pub uninterp spec fn regex_build_error(pattern: Seq<char>, size_limit: usize, pointer_bits: u32) -> Option<Seq<char>>;

/// Whether the regular expression `pattern` matches somewhere in `hay`.
pub uninterp spec fn regex_matches(pattern: Seq<char>, hay: Seq<char>) -> bool;

/// `regex::RegexBuilder::new(pattern).size_limit(size_limit).build()`, the
/// error rendered with its `Display`. The outcome is only claimed to be
/// `regex_build_error` of the arguments and this machine's pointer width.
#[verifier::external_body]
fn build_regex(pattern: &str, size_limit: usize) -> (r: Result<regex::Regex, String>)
    ensures
        r is Ok <==> regex_build_error(pattern@, size_limit, usize::BITS) is None,
        r matches Err(t) ==> regex_build_error(pattern@, size_limit, usize::BITS) == Some(t@),
{
    match regex::RegexBuilder::new(pattern).size_limit(size_limit).build() {
        Ok(re) => Ok(re),
        Err(e) => Err(e.to_string()),
    }
}

/// A compiled regular expression together with its source text.
#[derive(Debug)]
pub struct CompiledPattern {
    source: String,
    regex: regex::Regex,
}

impl CompiledPattern {
    /// The pattern's source text.
    pub closed spec fn pattern(&self) -> Seq<char> {
        self.source@
    }
}

/// `regex::Regex::is_match` on a pattern compiled from `p.pattern()`; the
/// result is only claimed to be `regex_matches` of that text and `hay`.
#[verifier::external_body]
fn regex_is_match(p: &CompiledPattern, hay: &str) -> (r: bool)
    ensures
        r == regex_matches(p.pattern(), hay@),
{
    p.regex.is_match(hay)
}

/// What a rule inspects.
#[derive(Debug)]
pub enum RuleTarget {
    /// A named request header.
    Header(String),
    /// The request body.
    Body,
}

/// The kind of target named in a rule's configuration.
#[derive(Debug, Clone, Copy, PartialEq, Eq, Structural)]
pub enum RuleTargetKind {
    /// A request header.
    Header,
    /// The request body.
    Body,
}

/// How a rule matches content.
#[derive(Debug)]
pub enum RuleMatcher {
    /// Substring of the lower-cased content (the needle is stored
    /// lower-cased).
    Contains(String),
    /// A compiled regular expression.
    Pattern(CompiledPattern),
}

/// A compiled guardrail rule.
#[derive(Debug)]
pub struct CompiledRule {
    /// What to inspect.
    pub target: RuleTarget,
    /// How to match.
    pub matcher: RuleMatcher,
    /// When true, the rule triggers on non-match instead of match.
    pub negate: bool,
}

/// Whether `m` matches `hay`.
pub open spec fn matcher_matches(m: RuleMatcher, hay: Seq<char>) -> bool {
    match m {
        RuleMatcher::Contains(needle) => seq_contains(unicode_lower(hay), needle@),
        RuleMatcher::Pattern(p) => regex_matches(p.pattern(), hay),
    }
}

impl CompiledRule {
    /// Whether the rule's matcher matches `haystack`.
    pub fn eval(&self, haystack: &str) -> (r: bool)
        ensures
            r == matcher_matches(self.matcher, haystack@),
    {
        match &self.matcher {
            RuleMatcher::Contains(needle) => {
                let lower = to_lowercase(haystack);
                contains(lower.as_str(), needle.as_str())
            },
            RuleMatcher::Pattern(p) => regex_is_match(p, haystack),
        }
    }
}

/// Build a rule target from its configured kind and header name.
pub fn parse_target(kind: RuleTargetKind, name: Option<&str>) -> (r: Result<RuleTarget, FilterError>)
    ensures
        kind == RuleTargetKind::Body ==> (r matches Ok(t) && t is Body),
        kind == RuleTargetKind::Header ==> match name {
            None => r matches Err(e) && e.message@ == "guardrails: 'name' is required for header rules"@,
            Some(n) => if n@.len() == 0 {
                r matches Err(e) && e.message@ == "guardrails: 'name' must not be empty"@
            } else {
                r matches Ok(RuleTarget::Header(h)) && h@ == n@
            },
        },
{
    match kind {
        RuleTargetKind::Header => match name {
            None => Err(FilterError::new("guardrails: 'name' is required for header rules")),
            Some(n) => {
                if n.unicode_len() == 0 {
                    Err(FilterError::new("guardrails: 'name' must not be empty"))
                } else {
                    Ok(RuleTarget::Header(n.to_owned()))
                }
            },
        },
        RuleTargetKind::Body => Ok(RuleTarget::Body),
    }
}

/// The names of the built-in PII categories, which a literal `contains`
/// value must not be (ignoring ASCII case).
pub open spec fn is_pii_kind_name(s: Seq<char>) -> bool {
    let l = lower_seq(s);
    l == "ssn"@ || l == "credit_card"@ || l == "phone"@ || l == "email"@
}

/// The message for a literal that names a PII category.
pub open spec fn pii_name_message(s: Seq<char>) -> Seq<char> {
    "guardrails: 'contains' value '"@ + s + "' is a PII category name; list PII categories instead"@
}

/// `r` is the outcome of a literal `contains` setting: a PII category
/// name or an empty literal is an error; otherwise a matcher on the
/// lower-cased literal.
pub open spec fn contains_parsed(literal: Seq<char>, r: Result<RuleMatcher, FilterError>) -> bool {
    &&& is_pii_kind_name(literal) ==> (r matches Err(e) && e.message@ == pii_name_message(literal))
    &&& !is_pii_kind_name(literal) && literal.len() == 0 ==> (r matches Err(e)
        && e.message@ == "guardrails: 'contains' must not be empty"@)
    &&& !is_pii_kind_name(literal) && literal.len() > 0 ==> (r matches Ok(RuleMatcher::Contains(n))
        && n@ == unicode_lower(literal))
}

/// Build a case-insensitive substring matcher from a literal.
pub fn parse_contains(literal: &str) -> (r: Result<RuleMatcher, FilterError>)
    ensures
        contains_parsed(literal@, r),
{
    let l = to_ascii_lower(literal);
    if str_eq(l.as_str(), "ssn") || str_eq(l.as_str(), "credit_card") || str_eq(l.as_str(), "phone") || str_eq(
        l.as_str(),
        "email",
    ) {
        let mut m = String::new();
        push_str(&mut m, "guardrails: 'contains' value '");
        push_str(&mut m, literal);
        push_str(&mut m, "' is a PII category name; list PII categories instead");
        return Err(FilterError { message: m });
    }
    if literal.unicode_len() == 0 {
        return Err(FilterError::new("guardrails: 'contains' must not be empty"));
    }
    Ok(RuleMatcher::Contains(to_lowercase(literal)))
}

/// The message for a pattern longer than the limit.
pub open spec fn pattern_too_long_message(len: nat) -> Seq<char> {
    "guardrails: regex pattern exceeds "@ + decimal(MAX_REGEX_PATTERN_LEN as nat) + " character limit ("@
        + decimal(len) + " chars)"@
}

/// `r` is the outcome of a `pattern` setting: an empty pattern or one
/// longer (in bytes) than the limit is an error; otherwise the regex
/// builder decides, within the compiled-size limit.
pub open spec fn pattern_compiled(p: &str, r: Result<RuleMatcher, FilterError>) -> bool {
    &&& p@.len() == 0 ==> (r matches Err(e) && e.message@ == "guardrails: 'pattern' must not be empty"@)
    &&& p@.len() > 0 && p.len() > MAX_REGEX_PATTERN_LEN ==> (r matches Err(e)
        && e.message@ == pattern_too_long_message(p.len() as nat))
    &&& p@.len() > 0 && p.len() <= MAX_REGEX_PATTERN_LEN ==> match regex_build_error(p@, MAX_REGEX_SIZE, usize::BITS) {
        None => r matches Ok(RuleMatcher::Pattern(cp)) && cp.pattern() == p@,
        Some(t) => r matches Err(e) && e.message@ == "guardrails: invalid regex '"@ + p@ + "': "@ + t,
    }
}

/// Validate and compile a regular expression, within the length and
/// compiled-size limits.
pub fn compile_pattern(p: &str) -> (r: Result<RuleMatcher, FilterError>)
    ensures
        pattern_compiled(p, r),
{
    if p.unicode_len() == 0 {
        return Err(FilterError::new("guardrails: 'pattern' must not be empty"));
    }
    let len = p.len();
    if len > MAX_REGEX_PATTERN_LEN {
        let mut m = String::new();
        push_str(&mut m, "guardrails: regex pattern exceeds ");
        push_decimal(&mut m, MAX_REGEX_PATTERN_LEN as u64);
        push_str(&mut m, " character limit (");
        push_decimal(&mut m, len as u64);
        push_str(&mut m, " chars)");
        return Err(FilterError { message: m });
    }
    match build_regex(p, MAX_REGEX_SIZE) {
        Ok(re) => Ok(RuleMatcher::Pattern(CompiledPattern { source: p.to_owned(), regex: re })),
        Err(t) => {
            let mut m = String::new();
            push_str(&mut m, "guardrails: invalid regex '");
            push_str(&mut m, p);
            push_str(&mut m, "': ");
            push_str(&mut m, t.as_str());
            Err(FilterError { message: m })
        },
    }
}

/// Build a matcher from the `contains` and `pattern` settings; exactly one
/// must be given.
pub fn parse_matcher(contains: Option<&str>, pattern: Option<&str>) -> (r: Result<RuleMatcher, FilterError>)
    ensures
        contains is Some && pattern is Some ==> (r matches Err(e)
            && e.message@ == "guardrails: use 'contains' or 'pattern', not both"@),
        contains is None && pattern is None ==> (r matches Err(e)
            && e.message@ == "guardrails: each rule must have 'contains' or 'pattern'"@),
        pattern is None ==> (contains matches Some(c) ==> contains_parsed(c@, r)),
        contains is None ==> (pattern matches Some(p) ==> pattern_compiled(p, r)),
{
    match (contains, pattern) {
        (Some(c), None) => parse_contains(c),
        (None, Some(p)) => compile_pattern(p),
        (Some(_), Some(_)) => Err(FilterError::new("guardrails: use 'contains' or 'pattern', not both")),
        (None, None) => Err(FilterError::new("guardrails: each rule must have 'contains' or 'pattern'")),
    }
}

/// What the filter does when a rule triggers.
#[derive(Debug, Clone, Copy, PartialEq, Eq, Structural)]
pub enum GuardrailsAction {
    /// Reject the request with 403.
    Reject,
    /// Let the request through.
    Flag,
}

/// Whether a rule triggers on the content it inspects (`None`: the header
/// is absent), taking negation into account.
pub open spec fn rule_triggers(rule: CompiledRule, hay: Option<Seq<char>>) -> bool {
    let matched = match hay {
        Some(h) => matcher_matches(rule.matcher, h),
        None => false,
    };
    matched != rule.negate
}

/// The text a header rule inspects: the header's first value when
/// readable as text.
pub open spec fn header_text(req: Request, name: Seq<char>) -> Option<Seq<char>> {
    match req.headers.first(name) {
        Some(v) => if visible_text(v) { Some(v) } else { None },
        None => None,
    }
}

/// `rule` is a header rule that triggers on `req`.
pub open spec fn header_rule_triggers(rule: CompiledRule, req: Request) -> bool {
    match rule.target {
        RuleTarget::Header(n) => rule_triggers(rule, header_text(req, n@)),
        RuleTarget::Body => false,
    }
}

/// Some header rule of `rules` triggers on `req`.
pub open spec fn header_rules_trigger(rules: Seq<CompiledRule>, req: Request) -> bool {
    exists|i: int| 0 <= i < rules.len() && header_rule_triggers(#[trigger] rules[i], req)
}

/// Some body rule of `rules` triggers on the body, when there is one.
pub open spec fn body_hit(rules: Seq<CompiledRule>, body: Option<&str>) -> bool {
    match body {
        Some(b) => body_rules_trigger(rules, b@),
        None => false,
    }
}

/// Some body rule of `rules` triggers on `body`.
pub open spec fn body_rules_trigger(rules: Seq<CompiledRule>, body: Seq<char>) -> bool {
    exists|i: int| 0 <= i < rules.len() && (#[trigger] rules[i]).target is Body && rule_triggers(rules[i], Some(body))
}

/// A header rule decides on the header's first value when that value is
/// readable text: it triggers exactly when "the matcher matches the value"
/// differs from the rule's negation, so a negated rule triggers on a
/// present value it does not match and stays quiet on one it matches. With
/// the header absent or unreadable, only a negated rule triggers.
pub proof fn header_rule_decision(rule: CompiledRule, req: Request)
    requires
        rule.target is Header,
    ensures
        ({
            let n = rule.target->0@;
            &&& (req.headers.first(n) matches Some(v) ==> (visible_text(v) ==> (header_rule_triggers(rule, req)
                <==> (matcher_matches(rule.matcher, v) != rule.negate))))
            &&& (req.headers.first(n) matches Some(v) ==> (!visible_text(v) ==> (header_rule_triggers(rule, req)
                <==> rule.negate)))
            &&& (req.headers.first(n) is None ==> (header_rule_triggers(rule, req) <==> rule.negate))
        }),
{
}

/// A body rule triggers on a body exactly when "the matcher matches the
/// body" differs from the rule's negation; header rules never look at the
/// body.
pub proof fn body_rule_decision(rules: Seq<CompiledRule>, body: Seq<char>, k: int)
    requires
        0 <= k < rules.len(),
    ensures
        rules[k].target is Body && (matcher_matches(rules[k].matcher, body) != rules[k].negate) ==> body_rules_trigger(
            rules,
            body,
        ),
        body_rules_trigger(rules, body) <==> exists|i: int|
            0 <= i < rules.len() && (#[trigger] rules[i]).target is Body && matcher_matches(rules[i].matcher, body)
                != rules[i].negate,
{
    if rules[k].target is Body && (matcher_matches(rules[k].matcher, body) != rules[k].negate) {
        assert(rule_triggers(rules[k], Some(body)));
    }
}

/// A filter that rejects does so for a request as soon as any one of its
/// header rules triggers on it.
pub proof fn one_triggered_header_rule_suffices(rules: Seq<CompiledRule>, req: Request, k: int)
    requires
        0 <= k < rules.len(),
        header_rule_triggers(rules[k], req),
    ensures
        header_rules_trigger(rules, req),
{
}

/// Rejects requests matching string or regex guardrail rules.
#[derive(Debug)]
pub struct GuardrailsFilter {
    /// What to do when a rule triggers.
    pub action: GuardrailsAction,
    /// The rules, in configuration order.
    pub rules: Vec<CompiledRule>,
    /// Whether any rule inspects the body.
    pub needs_body: bool,
}

/// The guardrails rejection: 403 with body `Forbidden`.
pub open spec fn is_forbidden(a: FilterAction) -> bool {
    a matches FilterAction::Reject(rej) && rej.status == 403 && rej.headers@.len() == 0
        && (rej.body matches Some(b) && b@ == "Forbidden".spec_bytes())
}

impl GuardrailsFilter {
    /// A filter over compiled rules.
    pub fn new(action: GuardrailsAction, rules: Vec<CompiledRule>) -> (r: Self)
        ensures
            r.action == action,
            r.rules@ == rules@,
            r.needs_body == exists|i: int| 0 <= i < rules@.len() && (#[trigger] rules@[i]).target is Body,
    {
        let mut needs_body = false;
        let mut i: usize = 0;
        while i < rules.len()
            invariant
                i <= rules@.len(),
                needs_body == exists|j: int| 0 <= j < i && (#[trigger] rules@[j]).target is Body,
            decreases rules@.len() - i,
        {
            match &rules[i].target {
                RuleTarget::Body => {
                    needs_body = true;
                },
                RuleTarget::Header(_) => {},
            }
            i = i + 1;
        }
        GuardrailsFilter { action, rules, needs_body }
    }

    /// The filter's registered name.
    pub fn name(&self) -> (r: &'static str)
        ensures
            r@ == "guardrails"@,
    {
        "guardrails"
    }

    /// Body rules read the request body; header-only rules need no access.
    pub fn request_body_access(&self) -> (r: BodyAccess)
        ensures
            self.needs_body ==> r == BodyAccess::ReadOnly,
            !self.needs_body ==> r == BodyAccess::NoAccess,
    {
        if self.needs_body { BodyAccess::ReadOnly } else { BodyAccess::NoAccess }
    }

    /// Body rules buffer the body while streaming it, up to the default
    /// limit; header-only rules stream.
    pub fn request_body_mode(&self) -> (r: BodyMode)
        ensures
            self.needs_body ==> r == (BodyMode::StreamBuffer { max_bytes: Some(DEFAULT_MAX_BODY_BYTES) }),
            !self.needs_body ==> r == BodyMode::Stream,
    {
        if self.needs_body {
            BodyMode::StreamBuffer { max_bytes: Some(DEFAULT_MAX_BODY_BYTES) }
        } else {
            BodyMode::Stream
        }
    }

    fn forbidden() -> (r: FilterAction)
        ensures
            is_forbidden(r),
    {
        FilterAction::Reject(Rejection::status(403).with_body("Forbidden".as_bytes_vec()))
    }

    /// Check the header rules: with the reject action, the request is
    /// refused with 403 when any of them triggers.
    pub fn on_request(&self, req: &Request) -> (r: FilterAction)
        ensures
            (self.action == GuardrailsAction::Reject && header_rules_trigger(self.rules@, *req)) ==> is_forbidden(r),
            !(self.action == GuardrailsAction::Reject && header_rules_trigger(self.rules@, *req)) ==> r is Continue,
    {
        let mut i: usize = 0;
        while i < self.rules.len()
            invariant
                i <= self.rules@.len(),
                forall|j: int| 0 <= j < i ==> !header_rule_triggers(#[trigger] self.rules@[j], *req),
            decreases self.rules@.len() - i,
        {
            let rule = &self.rules[i];
            match &rule.target {
                RuleTarget::Header(n) => {
                    let matched = match req.headers.get(n.as_str()) {
                        Some(v) => if is_visible_text(v.as_str()) { rule.eval(v.as_str()) } else { false },
                        None => false,
                    };
                    if matched != rule.negate {
                        if self.action == GuardrailsAction::Reject {
                            return Self::forbidden();
                        } else {
                            return FilterAction::Continue;
                        }
                    }
                },
                RuleTarget::Body => {},
            }
            i = i + 1;
        }
        FilterAction::Continue
    }

    /// Check the body rules on the buffered body text.
    pub fn on_request_body(&self, body: Option<&str>) -> (r: FilterAction)
        ensures
            (self.action == GuardrailsAction::Reject && body_hit(self.rules@, body)) ==> is_forbidden(r),
            !(self.action == GuardrailsAction::Reject && body_hit(self.rules@, body)) ==> r is Continue,
    {
        let text = match body {
            Some(t) => t,
            None => {
                return FilterAction::Continue;
            },
        };
        let mut i: usize = 0;
        while i < self.rules.len()
            invariant
                body == Some(text),
                i <= self.rules@.len(),
                forall|j: int| 0 <= j < i ==> !((#[trigger] self.rules@[j]).target is Body
                    && rule_triggers(self.rules@[j], Some(text@))),
            decreases self.rules@.len() - i,
        {
            let rule = &self.rules[i];
            match &rule.target {
                RuleTarget::Body => {
                    if rule.eval(text) != rule.negate {
                        if self.action == GuardrailsAction::Reject {
                            proof {
                                assert(rule_triggers(self.rules@[i as int], Some(text@)));
                                assert(body_rules_trigger(self.rules@, text@));
                            }
                            return Self::forbidden();
                        } else {
                            return FilterAction::Continue;
                        }
                    }
                },
                RuleTarget::Header(_) => {},
            }
            i = i + 1;
        }
        FilterAction::Continue
    }
}

} // verus!
