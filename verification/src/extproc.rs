//! External processing (`ext_proc`): configuration validation, the
//! processing protocol's messages, and the conversion between them and
//! the filter context.

use vstd::prelude::*;
use vstd::string::*;
use vstd::utf8::{encode_utf8, valid_utf8};
use crate::actions::{FilterAction, Rejection};
use crate::context::{header_pairs, FilterError, HttpFilterContext};
use crate::message::{lemma_without_name_values, values_of, without_name, is_valid_header_name, is_valid_header_value, is_visible_text, valid_header_name, valid_header_value, visible_text, HeaderMap, Request, Response};
use crate::text::{decimal, lower_seq, push_decimal, push_str, to_ascii_lower};

verus! {

// ---------------------------------------------------------------------------
// Configuration
// ---------------------------------------------------------------------------

/// Default per-message timeout in milliseconds.
pub const DEFAULT_MESSAGE_TIMEOUT_MS: u64 = 200;

/// Default HTTP status code returned on processor errors.
pub const DEFAULT_STATUS_ON_ERROR: u16 = 500;

/// Default deferred close timeout in milliseconds.
pub const DEFAULT_DEFERRED_CLOSE_TIMEOUT_MS: u64 = 5000;

/// Whether headers or trailers are forwarded.
#[derive(Debug, Clone, Copy, PartialEq, Eq, Structural)]
pub enum HeaderSendMode {
    /// Forward to the external processor.
    Send,
    /// Do not forward.
    Skip,
}

/// Whether and how a message body is forwarded.
#[derive(Debug, Clone, Copy, PartialEq, Eq, Structural)]
pub enum BodySendMode {
    /// Do not send the body (`none`).
    Off,
    /// Stream body chunks as they arrive.
    Streamed,
    /// Buffer the entire body and send it at once.
    Buffered,
    /// Buffer up to the configured limit and send what fits.
    BufferedPartial,
    /// Full-duplex streaming with the external processor.
    FullDuplexStreamed,
}

/// The configuration name of a body send mode.
pub open spec fn body_mode_name(m: BodySendMode) -> Seq<char> {
    match m {
        BodySendMode::Off => "none"@,
        BodySendMode::Streamed => "streamed"@,
        BodySendMode::Buffered => "buffered"@,
        BodySendMode::BufferedPartial => "buffered_partial"@,
        BodySendMode::FullDuplexStreamed => "full_duplex_streamed"@,
    }
}

impl BodySendMode {
    /// The mode's configuration name.
    pub fn name(&self) -> (r: &'static str)
        ensures
            r@ == body_mode_name(*self),
    {
        match self {
            BodySendMode::Off => "none",
            BodySendMode::Streamed => "streamed",
            BodySendMode::Buffered => "buffered",
            BodySendMode::BufferedPartial => "buffered_partial",
            BodySendMode::FullDuplexStreamed => "full_duplex_streamed",
        }
    }
}

/// Which parts of the request and response go to the processor.
#[derive(Debug, Clone, Copy, PartialEq, Eq, Structural)]
pub struct ProcessingModeConfig {
    /// Request headers.
    pub request_header_mode: HeaderSendMode,
    /// Response headers.
    pub response_header_mode: HeaderSendMode,
    /// Request body.
    pub request_body_mode: BodySendMode,
    /// Response body.
    pub response_body_mode: BodySendMode,
    /// Request trailers.
    pub request_trailer_mode: HeaderSendMode,
    /// Response trailers.
    pub response_trailer_mode: HeaderSendMode,
}

impl ProcessingModeConfig {
    /// Headers are sent; bodies and trailers are skipped.
    pub fn default_mode() -> (r: Self)
        ensures
            r == (ProcessingModeConfig {
                request_header_mode: HeaderSendMode::Send,
                response_header_mode: HeaderSendMode::Send,
                request_body_mode: BodySendMode::Off,
                response_body_mode: BodySendMode::Off,
                request_trailer_mode: HeaderSendMode::Skip,
                response_trailer_mode: HeaderSendMode::Skip,
            }),
    {
        ProcessingModeConfig {
            request_header_mode: HeaderSendMode::Send,
            response_header_mode: HeaderSendMode::Send,
            request_body_mode: BodySendMode::Off,
            response_body_mode: BodySendMode::Off,
            request_trailer_mode: HeaderSendMode::Skip,
            response_trailer_mode: HeaderSendMode::Skip,
        }
    }
}

/// Restrictions on which headers the processor may mutate.
#[derive(Debug)]
pub struct MutationRulesConfig {
    /// Headers the processor may mutate.
    pub allow: Vec<String>,
    /// Headers the processor may not mutate.
    pub deny: Vec<String>,
}

/// Restrictions on which headers are forwarded to the processor.
#[derive(Debug)]
pub struct ForwardRulesConfig {
    /// Only forward these headers.
    pub allowed_headers: Vec<String>,
    /// Never forward these headers.
    pub disallowed_headers: Vec<String>,
}

/// The `ext_proc` filter's configuration.
#[derive(Debug)]
pub struct ExtProcConfig {
    /// Keep the content-length header after body mutation.
    pub allow_content_length_header: bool,
    /// Let the processor override the processing mode.
    pub allow_mode_override: bool,
    /// Modes the processor may override to.
    pub allowed_override_modes: Vec<ProcessingModeConfig>,
    /// Deferred stream close timeout in milliseconds.
    pub deferred_close_timeout_ms: u64,
    /// Ignore immediate responses from the processor.
    pub disable_immediate_response: bool,
    /// Header forwarding rules.
    pub forward_rules: Option<ForwardRulesConfig>,
    /// Upper bound for processor-requested timeout overrides, in ms.
    pub max_message_timeout_ms: Option<u64>,
    /// Per-message timeout in milliseconds.
    pub message_timeout_ms: u64,
    /// Header mutation rules.
    pub mutation_rules: Option<MutationRulesConfig>,
    /// Observation-only mode.
    pub observability_mode: bool,
    /// What is sent to the processor.
    pub processing_mode: ProcessingModeConfig,
    /// Send the body before the header response arrives.
    pub send_body_without_waiting_for_header_response: bool,
    /// Status returned downstream when the processor fails.
    pub status_on_error: u16,
    /// gRPC endpoint URI of the processor.
    pub target: String,
}

/// The first problem with the numeric settings, if any.
pub open spec fn core_fields_error(cfg: ExtProcConfig) -> Option<Seq<char>> {
    let msg = cfg.message_timeout_ms;
    if !(100 <= cfg.status_on_error <= 599) {
        Some("ext_proc: status_on_error "@ + decimal(cfg.status_on_error as nat)
            + " is not a valid HTTP status code (must be 100..=599)"@)
    } else if msg == 0 {
        Some("ext_proc: message_timeout_ms must be greater than 0"@)
    } else if cfg.deferred_close_timeout_ms > 0 && cfg.deferred_close_timeout_ms < msg {
        Some("ext_proc: deferred_close_timeout_ms ("@ + decimal(cfg.deferred_close_timeout_ms as nat)
            + ") must be >= message_timeout_ms ("@ + decimal(msg as nat) + ")"@)
    } else {
        match cfg.max_message_timeout_ms {
            Some(max) => if max == 0 {
                Some("ext_proc: max_message_timeout_ms must be greater than 0"@)
            } else if max < msg {
                Some("ext_proc: max_message_timeout_ms ("@ + decimal(max as nat) + ") must be >= message_timeout_ms ("@
                    + decimal(msg as nat) + ")"@)
            } else {
                None
            },
            None => None,
        }
    }
}

/// The first unsupported processing-mode setting, if any.
pub open spec fn processing_mode_error(pm: ProcessingModeConfig) -> Option<Seq<char>> {
    if pm.request_header_mode == HeaderSendMode::Skip {
        Some("ext_proc: request_header_mode 'skip' is not yet supported"@)
    } else if pm.response_header_mode == HeaderSendMode::Skip {
        Some("ext_proc: response_header_mode 'skip' is not yet supported"@)
    } else if pm.request_body_mode != BodySendMode::Off {
        Some("ext_proc: request_body_mode '"@ + body_mode_name(pm.request_body_mode) + "' is not yet supported (only 'none')"@)
    } else if pm.response_body_mode != BodySendMode::Off {
        Some("ext_proc: response_body_mode '"@ + body_mode_name(pm.response_body_mode) + "' is not yet supported (only 'none')"@)
    } else if pm.request_trailer_mode == HeaderSendMode::Send {
        Some("ext_proc: request_trailer_mode 'send' is not yet supported"@)
    } else if pm.response_trailer_mode == HeaderSendMode::Send {
        Some("ext_proc: response_trailer_mode 'send' is not yet supported"@)
    } else {
        None
    }
}

/// The first problem with a configuration, if any: numeric settings,
/// then the processing mode, then features not implemented yet.
pub open spec fn config_error(cfg: ExtProcConfig) -> Option<Seq<char>> {
    if core_fields_error(cfg) is Some {
        core_fields_error(cfg)
    } else if processing_mode_error(cfg.processing_mode) is Some {
        processing_mode_error(cfg.processing_mode)
    } else if cfg.allow_mode_override {
        Some("ext_proc: allow_mode_override is not yet supported"@)
    } else if cfg.observability_mode {
        Some("ext_proc: observability_mode is not yet supported"@)
    } else if cfg.disable_immediate_response {
        Some("ext_proc: disable_immediate_response is not yet supported"@)
    } else if cfg.mutation_rules is Some {
        Some("ext_proc: mutation_rules is not yet supported"@)
    } else if cfg.forward_rules is Some {
        Some("ext_proc: forward_rules is not yet supported"@)
    } else if cfg.allow_content_length_header {
        Some("ext_proc: allow_content_length_header is not yet supported"@)
    } else if cfg.send_body_without_waiting_for_header_response {
        Some("ext_proc: send_body_without_waiting_for_header_response is not yet supported"@)
    } else if cfg.allowed_override_modes@.len() > 0 {
        Some("ext_proc: allowed_override_modes is not yet supported"@)
    } else {
        None
    }
}

fn fail(m: String) -> (r: Result<(), FilterError>)
    ensures
        r matches Err(e) && e.message@ == m@,
{
    Err(FilterError { message: m })
}

/// Validate the numeric settings.
pub fn validate_core_fields(cfg: &ExtProcConfig) -> (r: Result<(), FilterError>)
    ensures
        r is Ok <==> core_fields_error(*cfg) is None,
        r matches Err(e) ==> core_fields_error(*cfg) == Some(e.message@),
{
    let msg = cfg.message_timeout_ms;
    if !(100 <= cfg.status_on_error && cfg.status_on_error <= 599) {
        let mut m = String::new();
        push_str(&mut m, "ext_proc: status_on_error ");
        push_decimal(&mut m, cfg.status_on_error as u64);
        push_str(&mut m, " is not a valid HTTP status code (must be 100..=599)");
        return fail(m);
    }
    if msg == 0 {
        return Err(FilterError::new("ext_proc: message_timeout_ms must be greater than 0"));
    }
    if cfg.deferred_close_timeout_ms > 0 && cfg.deferred_close_timeout_ms < msg {
        let mut m = String::new();
        push_str(&mut m, "ext_proc: deferred_close_timeout_ms (");
        push_decimal(&mut m, cfg.deferred_close_timeout_ms);
        push_str(&mut m, ") must be >= message_timeout_ms (");
        push_decimal(&mut m, msg);
        push_str(&mut m, ")");
        return fail(m);
    }
    match cfg.max_message_timeout_ms {
        Some(max) => {
            if max == 0 {
                return Err(FilterError::new("ext_proc: max_message_timeout_ms must be greater than 0"));
            }
            if max < msg {
                let mut m = String::new();
                push_str(&mut m, "ext_proc: max_message_timeout_ms (");
                push_decimal(&mut m, max);
                push_str(&mut m, ") must be >= message_timeout_ms (");
                push_decimal(&mut m, msg);
                push_str(&mut m, ")");
                return fail(m);
            }
        },
        None => {},
    }
    Ok(())
}

/// Reject processing-mode settings that are not implemented.
pub fn validate_processing_mode(pm: ProcessingModeConfig) -> (r: Result<(), FilterError>)
    ensures
        r is Ok <==> processing_mode_error(pm) is None,
        r matches Err(e) ==> processing_mode_error(pm) == Some(e.message@),
{
    if pm.request_header_mode == HeaderSendMode::Skip {
        return Err(FilterError::new("ext_proc: request_header_mode 'skip' is not yet supported"));
    }
    if pm.response_header_mode == HeaderSendMode::Skip {
        return Err(FilterError::new("ext_proc: response_header_mode 'skip' is not yet supported"));
    }
    if pm.request_body_mode != BodySendMode::Off {
        let mut m = String::new();
        push_str(&mut m, "ext_proc: request_body_mode '");
        push_str(&mut m, pm.request_body_mode.name());
        push_str(&mut m, "' is not yet supported (only 'none')");
        return fail(m);
    }
    if pm.response_body_mode != BodySendMode::Off {
        let mut m = String::new();
        push_str(&mut m, "ext_proc: response_body_mode '");
        push_str(&mut m, pm.response_body_mode.name());
        push_str(&mut m, "' is not yet supported (only 'none')");
        return fail(m);
    }
    if pm.request_trailer_mode == HeaderSendMode::Send {
        return Err(FilterError::new("ext_proc: request_trailer_mode 'send' is not yet supported"));
    }
    if pm.response_trailer_mode == HeaderSendMode::Send {
        return Err(FilterError::new("ext_proc: response_trailer_mode 'send' is not yet supported"));
    }
    Ok(())
}

/// Reject configuration values for features not yet implemented.
pub fn validate_config(cfg: &ExtProcConfig) -> (r: Result<(), FilterError>)
    ensures
        r is Ok <==> config_error(*cfg) is None,
        r matches Err(e) ==> config_error(*cfg) == Some(e.message@),
{
    match validate_core_fields(cfg) {
        Err(e) => {
            return Err(e);
        },
        Ok(()) => {},
    }
    match validate_processing_mode(cfg.processing_mode) {
        Err(e) => {
            return Err(e);
        },
        Ok(()) => {},
    }
    if cfg.allow_mode_override {
        return Err(FilterError::new("ext_proc: allow_mode_override is not yet supported"));
    }
    if cfg.observability_mode {
        return Err(FilterError::new("ext_proc: observability_mode is not yet supported"));
    }
    if cfg.disable_immediate_response {
        return Err(FilterError::new("ext_proc: disable_immediate_response is not yet supported"));
    }
    if cfg.mutation_rules.is_some() {
        return Err(FilterError::new("ext_proc: mutation_rules is not yet supported"));
    }
    if cfg.forward_rules.is_some() {
        return Err(FilterError::new("ext_proc: forward_rules is not yet supported"));
    }
    if cfg.allow_content_length_header {
        return Err(FilterError::new("ext_proc: allow_content_length_header is not yet supported"));
    }
    if cfg.send_body_without_waiting_for_header_response {
        return Err(FilterError::new(
            "ext_proc: send_body_without_waiting_for_header_response is not yet supported",
        ));
    }
    if cfg.allowed_override_modes.len() > 0 {
        return Err(FilterError::new("ext_proc: allowed_override_modes is not yet supported"));
    }
    Ok(())
}

/// The `ext_proc` filter's validated settings.
#[derive(Debug)]
pub struct ExtProcFilter {
    /// Per-message timeout in milliseconds.
    pub message_timeout_ms: u64,
    /// Upper bound for processor-requested timeout overrides, in ms.
    pub max_message_timeout_ms: Option<u64>,
    /// Status returned downstream when the processor fails.
    pub status_on_error: u16,
    /// gRPC endpoint URI of the processor.
    pub target: String,
}

impl ExtProcFilter {
    /// Validate a configuration and keep the settings the filter uses.
    pub fn from_config(cfg: ExtProcConfig) -> (r: Result<Self, FilterError>)
        ensures
            config_error(cfg) matches Some(m) ==> (r matches Err(e) && e.message@ == m),
            config_error(cfg) is None ==> (r matches Ok(f) && f.message_timeout_ms == cfg.message_timeout_ms
                && f.max_message_timeout_ms == cfg.max_message_timeout_ms
                && f.status_on_error == cfg.status_on_error && f.target@ == cfg.target@),
    {
        match validate_config(&cfg) {
            Err(e) => Err(e),
            Ok(()) => Ok(ExtProcFilter {
                message_timeout_ms: cfg.message_timeout_ms,
                max_message_timeout_ms: cfg.max_message_timeout_ms,
                status_on_error: cfg.status_on_error,
                target: cfg.target,
            }),
        }
    }

    /// The filter's registered name.
    pub fn name(&self) -> (r: &'static str)
        ensures
            r@ == "ext_proc"@,
    {
        "ext_proc"
    }

    /// A processor failure becomes a rejection with the configured status;
    /// a success passes through unchanged.
    pub fn call_or_reject(&self, result: Result<FilterAction, FilterError>) -> (r: FilterAction)
        ensures
            result matches Ok(a) ==> r == a,
            result is Err ==> (r matches FilterAction::Reject(rej) && rej.status == self.status_on_error
                && rej.headers@.len() == 0 && rej.body is None),
    {
        match result {
            Ok(action) => action,
            Err(_) => FilterAction::Reject(Rejection::status(self.status_on_error)),
        }
    }
}

// ---------------------------------------------------------------------------
// Protocol messages
// ---------------------------------------------------------------------------

/// A header as exchanged with the processor.
#[derive(Debug)]
pub struct ProtoHeaderValue {
    /// Header name.
    pub key: String,
    /// Header value as text.
    pub value: String,
    /// Header value as raw bytes; preferred when non-empty.
    pub raw_value: Vec<u8>,
}

/// How a header mutation combines with existing values.
#[derive(Debug, Clone, Copy, PartialEq, Eq, Structural)]
pub enum HeaderAppendAction {
    /// Append to existing values, or add (wire value 0).
    AppendIfExistsOrAdd,
    /// Add only when absent (wire value 1).
    AddIfAbsent,
    /// Replace existing values, or add (wire value 2).
    OverwriteIfExistsOrAdd,
    /// Replace existing values only (wire value 3).
    OverwriteIfExists,
}

/// A header to set together with how it is applied.
#[derive(Debug)]
pub struct HeaderValueOption {
    /// The header.
    pub header: Option<ProtoHeaderValue>,
    /// Deprecated append flag.
    pub append: Option<bool>,
    /// Wire value of the append action (0 when unset).
    pub append_action: i32,
}

/// Header edits requested by the processor.
#[derive(Debug)]
pub struct HeaderMutation {
    /// Headers to set.
    pub set_headers: Vec<HeaderValueOption>,
    /// Header names to remove.
    pub remove_headers: Vec<String>,
}

/// A body chunk streamed back by the processor.
#[derive(Debug)]
pub struct StreamedBodyResponse {
    /// The chunk.
    pub body: Vec<u8>,
    /// Whether this is the last chunk.
    pub end_of_stream: bool,
}

/// A body edit requested by the processor.
#[derive(Debug)]
pub enum BodyMutationKind {
    /// Replace the body.
    Body(Vec<u8>),
    /// Clear the body when true.
    ClearBody(bool),
    /// Replace the body with a streamed chunk (empty: no body).
    StreamedResponse(StreamedBodyResponse),
}

/// A body edit, when present.
#[derive(Debug)]
pub struct BodyMutation {
    /// The edit.
    pub mutation: Option<BodyMutationKind>,
}

/// The mutations common to header and body responses.
#[derive(Debug)]
pub struct CommonResponse {
    /// Header edits.
    pub header_mutation: Option<HeaderMutation>,
    /// Body edit.
    pub body_mutation: Option<BodyMutation>,
}

/// The processor's answer to a headers message.
#[derive(Debug)]
pub struct HeadersResponse {
    /// The mutations.
    pub response: Option<CommonResponse>,
}

/// The processor's answer to a body message.
#[derive(Debug)]
pub struct BodyResponse {
    /// The mutations.
    pub response: Option<CommonResponse>,
}

/// A response the processor wants sent downstream at once.
#[derive(Debug)]
pub struct ImmediateResponse {
    /// Status code, when given.
    pub status: Option<i32>,
    /// Response headers.
    pub headers: Option<HeaderMutation>,
    /// Response body.
    pub body: String,
}

/// The kinds of message the processor sends.
#[derive(Debug)]
pub enum ProcessingResponseKind {
    /// Answer to request headers.
    RequestHeaders(HeadersResponse),
    /// Answer to response headers.
    ResponseHeaders(HeadersResponse),
    /// Answer to a request body chunk.
    RequestBody(BodyResponse),
    /// Answer to a response body chunk.
    ResponseBody(BodyResponse),
    /// Answer to request trailers.
    RequestTrailers,
    /// Answer to response trailers.
    ResponseTrailers,
    /// An immediate downstream response.
    ImmediateResponse(ImmediateResponse),
}

/// A message from the processor.
#[derive(Debug)]
pub struct ProcessingResponse {
    /// The answer, if any.
    pub response: Option<ProcessingResponseKind>,
    /// A requested per-message timeout as (seconds, nanoseconds).
    pub override_message_timeout: Option<(i64, i32)>,
}

/// Headers sent to the processor.
#[derive(Debug)]
pub struct HttpHeaders {
    /// The headers, pseudo-headers first.
    pub headers: Vec<ProtoHeaderValue>,
    /// Whether no body follows.
    pub end_of_stream: bool,
}

/// A body chunk sent to the processor.
#[derive(Debug)]
pub struct HttpBody {
    /// The bytes.
    pub body: Vec<u8>,
    /// Whether this is the last chunk.
    pub end_of_stream: bool,
}

/// A message to the processor.
#[derive(Debug)]
pub enum ProcessingRequest {
    /// Request headers.
    RequestHeaders(HttpHeaders),
    /// Response headers.
    ResponseHeaders(HttpHeaders),
    /// A request body chunk.
    RequestBody(HttpBody),
    /// A response body chunk.
    ResponseBody(HttpBody),
}

/// The processing phase a message belongs to.
#[derive(Debug, Clone, Copy, PartialEq, Eq, Structural)]
pub enum Phase {
    /// The request phase.
    Request,
    /// The response phase.
    Response,
}

impl Phase {
    /// The phase's name as used in messages.
    pub fn name(&self) -> (r: &'static str)
        ensures
            *self == Phase::Request ==> r@ == "request"@,
            *self == Phase::Response ==> r@ == "response"@,
    {
        match self {
            Phase::Request => "request",
            Phase::Response => "response",
        }
    }
}

// ---------------------------------------------------------------------------
// Header helpers
// ---------------------------------------------------------------------------

/// The text of a byte string decoded as UTF-8 with invalid sequences
/// replaced, as `String::from_utf8_lossy` does it.
pub uninterp spec fn utf8_lossy(bytes: Seq<u8>) -> Seq<char>;

/// `String::from_utf8_lossy(bytes).into_owned()`: the result is claimed to
/// be `utf8_lossy` of the bytes, and, as std documents, the bytes' own text
/// when they are valid UTF-8.
#[verifier::external_body]
fn from_utf8_lossy(bytes: &[u8]) -> (r: String)
    ensures
        r@ == utf8_lossy(bytes@),
        valid_utf8(bytes@) ==> encode_utf8(r@) == bytes@,
{
    String::from_utf8_lossy(bytes).into_owned()
}

/// The value text of a header: its raw bytes decoded when present,
/// otherwise its text value.
pub open spec fn header_value_text(hv: ProtoHeaderValue) -> Seq<char> {
    if hv.raw_value@.len() == 0 { hv.value@ } else { utf8_lossy(hv.raw_value@) }
}

/// The value text of a header, preferring its raw bytes.
pub fn header_value_string(hv: &ProtoHeaderValue) -> (r: String)
    ensures
        r@ == header_value_text(*hv),
{
    if hv.raw_value.len() == 0 {
        hv.value.as_str().to_owned()
    } else {
        from_utf8_lossy(hv.raw_value.as_slice())
    }
}

/// An HTTP/2 pseudo-header name.
pub open spec fn pseudo_name(name: Seq<char>) -> bool {
    name.len() > 0 && name[0] == ':'
}

/// Whether a header name is an HTTP/2 pseudo-header.
pub fn is_pseudo_header(name: &str) -> (r: bool)
    ensures
        r == pseudo_name(name@),
{
    name.unicode_len() > 0 && name.get_char(0) == ':'
}

/// A protocol header with the given key and value.
pub fn proto_header(key: &str, value: &str) -> (r: ProtoHeaderValue)
    ensures
        r.key@ == key@,
        r.value@ == value@,
        r.raw_value@.len() == 0,
{
    ProtoHeaderValue { key: key.to_owned(), value: value.to_owned(), raw_value: Vec::new() }
}

/// The append action of a header option: the wire action when set (an
/// unknown value counts as append), else the deprecated flag (absent or
/// true: append; false: overwrite).
pub open spec fn append_action_of(hvo: HeaderValueOption) -> HeaderAppendAction {
    if hvo.append_action != 0 {
        if hvo.append_action == 1 {
            HeaderAppendAction::AddIfAbsent
        } else if hvo.append_action == 2 {
            HeaderAppendAction::OverwriteIfExistsOrAdd
        } else if hvo.append_action == 3 {
            HeaderAppendAction::OverwriteIfExists
        } else {
            HeaderAppendAction::AppendIfExistsOrAdd
        }
    } else {
        match hvo.append {
            Some(false) => HeaderAppendAction::OverwriteIfExistsOrAdd,
            _ => HeaderAppendAction::AppendIfExistsOrAdd,
        }
    }
}

/// Resolve the append action of a header option.
pub fn resolve_append_action(hvo: &HeaderValueOption) -> (r: HeaderAppendAction)
    ensures
        r == append_action_of(*hvo),
{
    if hvo.append_action != 0 {
        if hvo.append_action == 1 {
            return HeaderAppendAction::AddIfAbsent;
        } else if hvo.append_action == 2 {
            return HeaderAppendAction::OverwriteIfExistsOrAdd;
        } else if hvo.append_action == 3 {
            return HeaderAppendAction::OverwriteIfExists;
        } else {
            return HeaderAppendAction::AppendIfExistsOrAdd;
        }
    }
    match hvo.append {
        Some(false) => HeaderAppendAction::OverwriteIfExistsOrAdd,
        _ => HeaderAppendAction::AppendIfExistsOrAdd,
    }
}

/// Whether a header option appends.
pub fn should_append(hvo: &HeaderValueOption) -> (r: bool)
    ensures
        r == (append_action_of(*hvo) == HeaderAppendAction::AppendIfExistsOrAdd),
{
    resolve_append_action(hvo) == HeaderAppendAction::AppendIfExistsOrAdd
}

// ---------------------------------------------------------------------------
// Messages to the processor
// ---------------------------------------------------------------------------

/// Texts of protocol headers.
pub open spec fn proto_pairs(hs: Seq<ProtoHeaderValue>) -> Seq<(Seq<char>, Seq<char>)> {
    hs.map_values(|h: ProtoHeaderValue| (h.key@, h.value@))
}

/// A header value as text, or empty when it is not readable as text.
pub open spec fn text_or_empty(v: Seq<char>) -> Seq<char> {
    if visible_text(v) { v } else { Seq::empty() }
}

/// Header entries with unreadable values blanked.
pub open spec fn readable_entries(es: Seq<(Seq<char>, Seq<char>)>) -> Seq<(Seq<char>, Seq<char>)> {
    es.map_values(|e: (Seq<char>, Seq<char>)| (e.0, text_or_empty(e.1)))
}

/// The request target: the path, and `?` and the query when there is one.
pub open spec fn path_and_query(req: Request) -> Seq<char> {
    match req.query {
        Some(q) => req.path@ + "?"@ + q@,
        None => req.path@,
    }
}

/// The headers describing a request to the processor: `:method`, `:path`,
/// `:scheme`, `:authority` (when there is a `Host` header), then every
/// request header.
pub open spec fn request_proto_pairs(req: Request, tls: bool) -> Seq<(Seq<char>, Seq<char>)> {
    let base = seq![
        (":method"@, req.method@),
        (":path"@, path_and_query(req)),
        (":scheme"@, if tls { "https"@ } else { "http"@ }),
    ];
    let with_authority = match req.headers.first("host"@) {
        Some(h) => base.push((":authority"@, text_or_empty(h))),
        None => base,
    };
    with_authority + readable_entries(req.headers@)
}

fn push_entries(out: &mut Vec<ProtoHeaderValue>, hs: &HeaderMap)
    ensures
        proto_pairs(final(out)@) == proto_pairs(old(out)@) + readable_entries(hs@),
        forall|i: int| 0 <= i < final(out)@.len() ==> (#[trigger] final(out)@[i]).raw_value@.len() == 0
            || i < old(out)@.len(),
{
    let ghost start = proto_pairs(out@);
    let mut i: usize = 0;
    while i < hs.len()
        invariant
            i <= hs@.len(),
            out@.len() >= old(out)@.len(),
            forall|k: int| 0 <= k < old(out)@.len() ==> out@[k] == old(out)@[k],
            start == proto_pairs(old(out)@),
            proto_pairs(out@) == start + readable_entries(hs@.subrange(0, i as int)),
            forall|k: int| 0 <= k < out@.len() ==> (#[trigger] out@[k]).raw_value@.len() == 0 || k < old(out)@.len(),
        decreases hs@.len() - i,
    {
        let (n, v) = hs.entry(i);
        let value = if is_visible_text(v) { v } else { "" };
        proof {
            reveal_strlit("");
            assert(value@ == text_or_empty(v@));
        }
        let ghost before = out@;
        let ph = proto_header(n, value);
        out.push(ph);
        proof {
            assert(out@ == before.push(ph));
            assert(proto_pairs(out@).len() == proto_pairs(before).len() + 1);
            assert(proto_pairs(out@).last() == (n@, text_or_empty(v@)));
            assert(hs@[i as int] == (n@, v@));
            assert(readable_entries(hs@.subrange(0, i + 1)) =~= readable_entries(hs@.subrange(0, i as int)).push(
                (n@, text_or_empty(v@)),
            ));
            assert(proto_pairs(out@) =~= proto_pairs(before).push((n@, text_or_empty(v@))));
        }
        i = i + 1;
    }
    proof {
        assert(hs@.subrange(0, hs@.len() as int) =~= hs@);
    }
}

/// Describe the request to the processor.
pub fn request_to_proto_headers(ctx: &HttpFilterContext) -> (r: HttpHeaders)
    ensures
        proto_pairs(r.headers@) == request_proto_pairs(ctx.request, ctx.downstream_tls),
        !r.end_of_stream,
{
    let mut path = String::new();
    push_str(&mut path, ctx.request.path.as_str());
    match &ctx.request.query {
        Some(q) => {
            push_str(&mut path, "?");
            push_str(&mut path, q.as_str());
        },
        None => {},
    }
    let scheme = if ctx.downstream_tls { "https" } else { "http" };
    let mut headers: Vec<ProtoHeaderValue> = Vec::new();
    headers.push(proto_header(":method", ctx.request.method.as_str()));
    headers.push(proto_header(":path", path.as_str()));
    headers.push(proto_header(":scheme", scheme));
    let host = ctx.request.headers.get("host");
    match &host {
        Some(h) => {
            let v = if is_visible_text(h.as_str()) { h.as_str() } else { "" };
            proof {
                reveal_strlit("");
                assert(v@ == text_or_empty(h@));
            }
            headers.push(proto_header(":authority", v));
        },
        None => {},
    }
    let ghost pre = proto_pairs(headers@);
    proof {
        let req = ctx.request;
        assert(path@ =~= path_and_query(req));
        assert(pre[0] == (":method"@, req.method@));
        assert(pre[1] == (":path"@, path_and_query(req)));
        assert(pre[2] == (":scheme"@, if ctx.downstream_tls { "https"@ } else { "http"@ }));
        match host {
            Some(h) => {
                assert(pre.len() == 4);
                assert(pre[3] == (":authority"@, text_or_empty(h@)));
            },
            None => {
                assert(pre.len() == 3);
            },
        }
        let base = seq![
            (":method"@, req.method@),
            (":path"@, path_and_query(req)),
            (":scheme"@, if ctx.downstream_tls { "https"@ } else { "http"@ }),
        ];
        let with_authority = match req.headers.first("host"@) {
            Some(h) => base.push((":authority"@, text_or_empty(h))),
            None => base,
        };
        assert(pre =~= with_authority);
    }
    push_entries(&mut headers, &ctx.request.headers);
    HttpHeaders { headers, end_of_stream: false }
}

/// The headers describing a response to the processor: `:status`, then
/// every response header; none without a response.
pub open spec fn response_proto_pairs(resp: Option<Response>) -> Seq<(Seq<char>, Seq<char>)> {
    match resp {
        Some(r) => seq![(":status"@, decimal(r.status as nat))] + readable_entries(r.headers@),
        None => Seq::empty(),
    }
}

/// Describe the upstream response to the processor.
pub fn response_to_proto_headers(ctx: &HttpFilterContext) -> (r: HttpHeaders)
    ensures
        proto_pairs(r.headers@) == response_proto_pairs(ctx.response_header),
        !r.end_of_stream,
{
    let mut headers: Vec<ProtoHeaderValue> = Vec::new();
    match &ctx.response_header {
        Some(resp) => {
            let mut status = String::new();
            push_decimal(&mut status, resp.status as u64);
            headers.push(proto_header(":status", status.as_str()));
            proof {
                assert(proto_pairs(headers@) =~= seq![(":status"@, decimal(resp.status as nat))]);
            }
            push_entries(&mut headers, &resp.headers);
        },
        None => {
            proof {
                assert(proto_pairs(headers@) =~= Seq::<(Seq<char>, Seq<char>)>::empty());
            }
        },
    }
    HttpHeaders { headers, end_of_stream: false }
}

fn copy_bytes(b: &[u8]) -> (r: Vec<u8>)
    ensures
        r@ == b@,
{
    let mut out: Vec<u8> = Vec::new();
    let mut i: usize = 0;
    while i < b.len()
        invariant
            i <= b@.len(),
            out@ == b@.subrange(0, i as int),
        decreases b@.len() - i,
    {
        out.push(b[i]);
        proof {
            assert(b@.subrange(0, i + 1) =~= b@.subrange(0, i as int).push(b@[i as int]));
        }
        i = i + 1;
    }
    proof {
        assert(b@.subrange(0, b@.len() as int) =~= b@);
    }
    out
}

/// The bytes of an optional body chunk (empty when absent).
pub open spec fn chunk_bytes(body: Option<&[u8]>) -> Seq<u8> {
    match body {
        Some(b) => b@,
        None => Seq::empty(),
    }
}

/// Wrap a request body chunk for the processor.
pub fn request_body_to_request(body: Option<&[u8]>, end_of_stream: bool) -> (r: ProcessingRequest)
    ensures
        r matches ProcessingRequest::RequestBody(b) && b.body@ == chunk_bytes(body) && b.end_of_stream == end_of_stream,
{
    let bytes = match body {
        Some(b) => copy_bytes(b),
        None => Vec::new(),
    };
    ProcessingRequest::RequestBody(HttpBody { body: bytes, end_of_stream })
}

/// Wrap a response body chunk for the processor.
pub fn response_body_to_request(body: Option<&[u8]>, end_of_stream: bool) -> (r: ProcessingRequest)
    ensures
        r matches ProcessingRequest::ResponseBody(b) && b.body@ == chunk_bytes(body) && b.end_of_stream == end_of_stream,
{
    let bytes = match body {
        Some(b) => copy_bytes(b),
        None => Vec::new(),
    };
    ProcessingRequest::ResponseBody(HttpBody { body: bytes, end_of_stream })
}

// ---------------------------------------------------------------------------
// Mutations from the processor
// ---------------------------------------------------------------------------

/// The request header names queued for removal by `names`: every valid,
/// non-pseudo name, lower-cased.
pub open spec fn removed_names(names: Seq<String>) -> Seq<Seq<char>>
    decreases names.len(),
{
    if names.len() == 0 {
        Seq::empty()
    } else {
        let prev = removed_names(names.drop_last());
        let n = names.last()@;
        if !pseudo_name(n) && valid_header_name(n) { prev.push(lower_seq(n)) } else { prev }
    }
}

/// Texts of a list of strings.
pub open spec fn string_texts(v: Seq<String>) -> Seq<Seq<char>> {
    v.map_values(|s: String| s@)
}

/// Queue request header removals, skipping pseudo-headers and invalid names.
pub fn remove_request_headers(names: &Vec<String>, ctx: &mut HttpFilterContext)
    ensures
        string_texts(final(ctx).request_headers_to_remove@) == string_texts(old(ctx).request_headers_to_remove@)
            + removed_names(names@),
        final(ctx).request == old(ctx).request,
        final(ctx).extra_request_headers == old(ctx).extra_request_headers,
        final(ctx).request_headers_to_set == old(ctx).request_headers_to_set,
        final(ctx).response_header == old(ctx).response_header,
        final(ctx).response_headers_modified == old(ctx).response_headers_modified,
        final(ctx).cluster == old(ctx).cluster,
        final(ctx).upstream == old(ctx).upstream,
        final(ctx).client_addr == old(ctx).client_addr,
        final(ctx).downstream_tls == old(ctx).downstream_tls,
        final(ctx).request_body_bytes == old(ctx).request_body_bytes,
        final(ctx).response_body_bytes == old(ctx).response_body_bytes,
{
    let mut i: usize = 0;
    while i < names.len()
        invariant
            i <= names@.len(),
            string_texts(ctx.request_headers_to_remove@) == string_texts(old(ctx).request_headers_to_remove@)
                + removed_names(names@.subrange(0, i as int)),
            ctx.request == old(ctx).request,
            ctx.extra_request_headers == old(ctx).extra_request_headers,
            ctx.request_headers_to_set == old(ctx).request_headers_to_set,
            ctx.response_header == old(ctx).response_header,
            ctx.response_headers_modified == old(ctx).response_headers_modified,
            ctx.cluster == old(ctx).cluster,
            ctx.upstream == old(ctx).upstream,
            ctx.client_addr == old(ctx).client_addr,
            ctx.downstream_tls == old(ctx).downstream_tls,
            ctx.request_body_bytes == old(ctx).request_body_bytes,
            ctx.response_body_bytes == old(ctx).response_body_bytes,
        decreases names@.len() - i,
    {
        proof {
            assert(names@.subrange(0, i + 1).drop_last() =~= names@.subrange(0, i as int));
        }
        let n = names[i].as_str();
        if !is_pseudo_header(n) && is_valid_header_name(n) {
            let ghost before = ctx.request_headers_to_remove@;
            ctx.request_headers_to_remove.push(to_ascii_lower(n));
            proof {
                assert(string_texts(ctx.request_headers_to_remove@) =~= string_texts(before).push(lower_seq(n@)));
            }
        }
        i = i + 1;
    }
    proof {
        assert(names@.subrange(0, names@.len() as int) =~= names@);
    }
}

/// The extra request header an option adds, if any: appended always, or
/// added only when the request lacks the header.
pub open spec fn extra_entry(hvo: HeaderValueOption, req: Request) -> Option<(Seq<char>, Seq<char>)> {
    match hvo.header {
        Some(hv) => if !pseudo_name(hv.key@) && valid_header_name(hv.key@) {
            match append_action_of(hvo) {
                HeaderAppendAction::AppendIfExistsOrAdd => Some((hv.key@, header_value_text(hv))),
                HeaderAppendAction::AddIfAbsent => if req.headers.values(hv.key@).len() == 0 {
                    Some((hv.key@, header_value_text(hv)))
                } else {
                    None
                },
                _ => None,
            }
        } else {
            None
        },
        None => None,
    }
}

/// The request header an option sets (replacing existing values), if any:
/// always, or only when the request has the header; the value must be valid.
pub open spec fn set_entry(hvo: HeaderValueOption, req: Request) -> Option<(Seq<char>, Seq<char>)> {
    match hvo.header {
        Some(hv) => if !pseudo_name(hv.key@) && valid_header_name(hv.key@) && valid_header_value(header_value_text(hv)) {
            match append_action_of(hvo) {
                HeaderAppendAction::OverwriteIfExistsOrAdd => Some((lower_seq(hv.key@), header_value_text(hv))),
                HeaderAppendAction::OverwriteIfExists => if req.headers.values(hv.key@).len() > 0 {
                    Some((lower_seq(hv.key@), header_value_text(hv)))
                } else {
                    None
                },
                _ => None,
            }
        } else {
            None
        },
        None => None,
    }
}

/// Where one request header option goes, by its append action: appending
/// always queues the header as an extra header; add-if-absent queues it
/// only when the request lacks the header; overwrite queues it to replace
/// the request's values (for overwrite-if-exists only when present) when
/// the value is valid. No option lands in both queues.
pub proof fn request_option_routing(o: HeaderValueOption, req: Request)
    requires
        o.header is Some,
        !pseudo_name(o.header->0.key@),
        valid_header_name(o.header->0.key@),
    ensures
        ({
            let hv = o.header->0;
            let k = hv.key@;
            let v = header_value_text(hv);
            let present = req.headers.values(k).len() > 0;
            &&& !(extra_entry(o, req) is Some && set_entry(o, req) is Some)
            &&& (append_action_of(o) == HeaderAppendAction::AppendIfExistsOrAdd ==> extra_entry(o, req) == Some((k, v)))
            &&& (append_action_of(o) == HeaderAppendAction::AddIfAbsent ==> extra_entry(o, req) == if present {
                None
            } else {
                Some((k, v))
            })
            &&& (append_action_of(o) == HeaderAppendAction::OverwriteIfExistsOrAdd ==> set_entry(o, req) == if valid_header_value(v) {
                Some((lower_seq(k), v))
            } else {
                None
            })
            &&& (append_action_of(o) == HeaderAppendAction::OverwriteIfExists ==> set_entry(o, req) == if present
                && valid_header_value(v) {
                Some((lower_seq(k), v))
            } else {
                None
            })
        }),
{
}

/// The entries the options contribute, in order: extra headers when
/// `extra`, headers to set otherwise.
pub open spec fn collect_entries(opts: Seq<HeaderValueOption>, req: Request, extra: bool) -> Seq<(Seq<char>, Seq<char>)>
    decreases opts.len(),
{
    if opts.len() == 0 {
        Seq::empty()
    } else {
        let prev = collect_entries(opts.drop_last(), req, extra);
        let e = if extra { extra_entry(opts.last(), req) } else { set_entry(opts.last(), req) };
        match e {
            Some(p) => prev.push(p),
            None => prev,
        }
    }
}

/// Route one request header option to the right queue.
pub fn dispatch_request_header(hvo: &HeaderValueOption, ctx: &mut HttpFilterContext)
    ensures
        header_pairs(final(ctx).extra_request_headers@) == match extra_entry(*hvo, old(ctx).request) {
            Some(p) => header_pairs(old(ctx).extra_request_headers@).push(p),
            None => header_pairs(old(ctx).extra_request_headers@),
        },
        header_pairs(final(ctx).request_headers_to_set@) == match set_entry(*hvo, old(ctx).request) {
            Some(p) => header_pairs(old(ctx).request_headers_to_set@).push(p),
            None => header_pairs(old(ctx).request_headers_to_set@),
        },
        final(ctx).request == old(ctx).request,
        final(ctx).request_headers_to_remove == old(ctx).request_headers_to_remove,
        final(ctx).response_header == old(ctx).response_header,
        final(ctx).response_headers_modified == old(ctx).response_headers_modified,
        final(ctx).cluster == old(ctx).cluster,
        final(ctx).upstream == old(ctx).upstream,
        final(ctx).client_addr == old(ctx).client_addr,
        final(ctx).downstream_tls == old(ctx).downstream_tls,
        final(ctx).request_body_bytes == old(ctx).request_body_bytes,
        final(ctx).response_body_bytes == old(ctx).response_body_bytes,
{
    let hv = match &hvo.header {
        Some(hv) => hv,
        None => {
            return;
        },
    };
    let key = hv.key.as_str();
    if is_pseudo_header(key) || !is_valid_header_name(key) {
        return;
    }
    let value = header_value_string(hv);
    match resolve_append_action(hvo) {
        HeaderAppendAction::OverwriteIfExistsOrAdd => {
            if is_valid_header_value(value.as_str()) {
                let ghost before = ctx.request_headers_to_set@;
                ctx.request_headers_to_set.push((to_ascii_lower(key), value));
                proof {
                    assert(header_pairs(ctx.request_headers_to_set@) =~= header_pairs(before).push(
                        (lower_seq(key@), header_value_text(*hv)),
                    ));
                }
            }
        },
        HeaderAppendAction::OverwriteIfExists => {
            if ctx.request.headers.contains_key(key) && is_valid_header_value(value.as_str()) {
                let ghost before = ctx.request_headers_to_set@;
                ctx.request_headers_to_set.push((to_ascii_lower(key), value));
                proof {
                    assert(header_pairs(ctx.request_headers_to_set@) =~= header_pairs(before).push(
                        (lower_seq(key@), header_value_text(*hv)),
                    ));
                }
            }
        },
        HeaderAppendAction::AddIfAbsent => {
            if !ctx.request.headers.contains_key(key) {
                ctx.add_extra_header(key, value);
            }
        },
        HeaderAppendAction::AppendIfExistsOrAdd => {
            ctx.add_extra_header(key, value);
        },
    }
}

/// Apply set-header options to the request queues.
pub fn set_request_headers(opts: &Vec<HeaderValueOption>, ctx: &mut HttpFilterContext)
    ensures
        header_pairs(final(ctx).extra_request_headers@) == header_pairs(old(ctx).extra_request_headers@)
            + collect_entries(opts@, old(ctx).request, true),
        header_pairs(final(ctx).request_headers_to_set@) == header_pairs(old(ctx).request_headers_to_set@)
            + collect_entries(opts@, old(ctx).request, false),
        final(ctx).request == old(ctx).request,
        final(ctx).request_headers_to_remove == old(ctx).request_headers_to_remove,
        final(ctx).response_header == old(ctx).response_header,
        final(ctx).response_headers_modified == old(ctx).response_headers_modified,
        final(ctx).cluster == old(ctx).cluster,
        final(ctx).upstream == old(ctx).upstream,
        final(ctx).client_addr == old(ctx).client_addr,
        final(ctx).downstream_tls == old(ctx).downstream_tls,
        final(ctx).request_body_bytes == old(ctx).request_body_bytes,
        final(ctx).response_body_bytes == old(ctx).response_body_bytes,
{
    let mut i: usize = 0;
    while i < opts.len()
        invariant
            i <= opts@.len(),
            header_pairs(ctx.extra_request_headers@) == header_pairs(old(ctx).extra_request_headers@)
                + collect_entries(opts@.subrange(0, i as int), old(ctx).request, true),
            header_pairs(ctx.request_headers_to_set@) == header_pairs(old(ctx).request_headers_to_set@)
                + collect_entries(opts@.subrange(0, i as int), old(ctx).request, false),
            ctx.request == old(ctx).request,
            ctx.request_headers_to_remove == old(ctx).request_headers_to_remove,
            ctx.response_header == old(ctx).response_header,
            ctx.response_headers_modified == old(ctx).response_headers_modified,
            ctx.cluster == old(ctx).cluster,
            ctx.upstream == old(ctx).upstream,
            ctx.client_addr == old(ctx).client_addr,
            ctx.downstream_tls == old(ctx).downstream_tls,
            ctx.request_body_bytes == old(ctx).request_body_bytes,
            ctx.response_body_bytes == old(ctx).response_body_bytes,
        decreases opts@.len() - i,
    {
        proof {
            assert(opts@.subrange(0, i + 1).drop_last() =~= opts@.subrange(0, i as int));
        }
        let ghost e0 = header_pairs(ctx.extra_request_headers@);
        let ghost s0 = header_pairs(ctx.request_headers_to_set@);
        dispatch_request_header(&opts[i], ctx);
        proof {
            let c_e = collect_entries(opts@.subrange(0, i as int), old(ctx).request, true);
            let c_s = collect_entries(opts@.subrange(0, i as int), old(ctx).request, false);
            match extra_entry(opts@[i as int], old(ctx).request) {
                Some(p) => { assert((header_pairs(old(ctx).extra_request_headers@) + c_e).push(p) =~= header_pairs(old(ctx).extra_request_headers@) + c_e.push(p)); },
                None => {},
            }
            match set_entry(opts@[i as int], old(ctx).request) {
                Some(p) => { assert((header_pairs(old(ctx).request_headers_to_set@) + c_s).push(p) =~= header_pairs(old(ctx).request_headers_to_set@) + c_s.push(p)); },
                None => {},
            }
        }
        i = i + 1;
    }
    proof {
        assert(opts@.subrange(0, opts@.len() as int) =~= opts@);
    }
}

/// Apply a header mutation to the upstream request: removals, then sets.
pub fn apply_request_header_mutation(m: &HeaderMutation, ctx: &mut HttpFilterContext)
    ensures
        string_texts(final(ctx).request_headers_to_remove@) == string_texts(old(ctx).request_headers_to_remove@)
            + removed_names(m.remove_headers@),
        header_pairs(final(ctx).extra_request_headers@) == header_pairs(old(ctx).extra_request_headers@)
            + collect_entries(m.set_headers@, old(ctx).request, true),
        header_pairs(final(ctx).request_headers_to_set@) == header_pairs(old(ctx).request_headers_to_set@)
            + collect_entries(m.set_headers@, old(ctx).request, false),
        final(ctx).request == old(ctx).request,
        final(ctx).response_header == old(ctx).response_header,
        final(ctx).response_headers_modified == old(ctx).response_headers_modified,
        final(ctx).cluster == old(ctx).cluster,
        final(ctx).upstream == old(ctx).upstream,
        final(ctx).client_addr == old(ctx).client_addr,
        final(ctx).downstream_tls == old(ctx).downstream_tls,
        final(ctx).request_body_bytes == old(ctx).request_body_bytes,
        final(ctx).response_body_bytes == old(ctx).response_body_bytes,
{
    remove_request_headers(&m.remove_headers, ctx);
    set_request_headers(&m.set_headers, ctx);
}

/// Response headers after applying set options in order, and whether any
/// was applied: valid pairs are appended or replace existing values.
pub open spec fn response_sets(hs: Seq<(Seq<char>, Seq<char>)>, opts: Seq<HeaderValueOption>) -> (Seq<(Seq<char>, Seq<char>)>, bool)
    decreases opts.len(),
{
    if opts.len() == 0 {
        (hs, false)
    } else {
        let (prev, changed) = response_sets(hs, opts.drop_last());
        let o = opts.last();
        match o.header {
            Some(hv) => {
                let (k, v) = (hv.key@, header_value_text(hv));
                if !pseudo_name(k) && valid_header_name(k) && valid_header_value(v) {
                    if append_action_of(o) == HeaderAppendAction::AppendIfExistsOrAdd {
                        (prev.push((lower_seq(k), v)), true)
                    } else {
                        (without_name(prev, lower_seq(k)).push((lower_seq(k), v)), true)
                    }
                } else {
                    (prev, changed)
                }
            },
            None => (prev, changed),
        }
    }
}

/// One more valid set option applied to the response headers: an option
/// whose action is append-if-exists-or-add keeps every value its name held
/// and adds the new value last; any other action leaves the new value alone
/// under the name. Every other name keeps its values, and the headers
/// count as changed.
pub proof fn response_set_option_effect(
    hs: Seq<(Seq<char>, Seq<char>)>,
    opts: Seq<HeaderValueOption>,
    o: HeaderValueOption,
    m: Seq<char>,
)
    requires
        o.header is Some,
        !pseudo_name(o.header->0.key@),
        valid_header_name(o.header->0.key@),
        valid_header_value(header_value_text(o.header->0)),
    ensures
        ({
            let before = response_sets(hs, opts).0;
            let after = response_sets(hs, opts.push(o));
            let k = lower_seq(o.header->0.key@);
            let v = header_value_text(o.header->0);
            &&& after.1
            &&& (append_action_of(o) == HeaderAppendAction::AppendIfExistsOrAdd ==> values_of(after.0, k)
                == values_of(before, k).push(v))
            &&& (append_action_of(o) != HeaderAppendAction::AppendIfExistsOrAdd ==> values_of(after.0, k)
                == seq![v])
            &&& (m != k ==> values_of(after.0, m) == values_of(before, m))
        }),
{
    assert(opts.push(o).drop_last() =~= opts);
    let before = response_sets(hs, opts).0;
    let k = lower_seq(o.header->0.key@);
    let v = header_value_text(o.header->0);
    if append_action_of(o) == HeaderAppendAction::AppendIfExistsOrAdd {
        assert(before.push((k, v)).drop_last() =~= before);
    } else {
        let w = without_name(before, k);
        assert(w.push((k, v)).drop_last() =~= w);
        lemma_without_name_values(before, k, k);
        lemma_without_name_values(before, k, m);
        assert(values_of(w.push((k, v)), k) =~= seq![v]);
    }
}

/// A set option without a valid, non-pseudo header changes nothing.
pub proof fn response_set_option_skipped(hs: Seq<(Seq<char>, Seq<char>)>, opts: Seq<HeaderValueOption>, o: HeaderValueOption)
    requires
        o.header is None || pseudo_name(o.header->0.key@) || !valid_header_name(o.header->0.key@) || !valid_header_value(
            header_value_text(o.header->0),
        ),
    ensures
        response_sets(hs, opts.push(o)) == response_sets(hs, opts),
{
    assert(opts.push(o).drop_last() =~= opts);
}

/// Response headers after removing names in order, and whether any removal
/// found a value.
pub open spec fn response_removes(hs: Seq<(Seq<char>, Seq<char>)>, names: Seq<String>) -> (Seq<(Seq<char>, Seq<char>)>, bool)
    decreases names.len(),
{
    if names.len() == 0 {
        (hs, false)
    } else {
        let (prev, changed) = response_removes(hs, names.drop_last());
        let n = names.last()@;
        if !pseudo_name(n) && valid_header_name(n) {
            (without_name(prev, lower_seq(n)), changed || values_of(prev, lower_seq(n)).len() > 0)
        } else {
            (prev, changed)
        }
    }
}

/// One more valid removal applied to the response headers: no value is
/// left under the name, every other name keeps its values, and the headers
/// count as changed exactly when they had changed already or the name held
/// a value.
pub proof fn response_remove_effect(hs: Seq<(Seq<char>, Seq<char>)>, names: Seq<String>, n: String, m: Seq<char>)
    requires
        !pseudo_name(n@),
        valid_header_name(n@),
    ensures
        ({
            let before = response_removes(hs, names);
            let after = response_removes(hs, names.push(n));
            let k = lower_seq(n@);
            &&& values_of(after.0, k).len() == 0
            &&& (m != k ==> values_of(after.0, m) == values_of(before.0, m))
            &&& after.1 == (before.1 || values_of(before.0, k).len() > 0)
        }),
{
    assert(names.push(n).drop_last() =~= names);
    let before = response_removes(hs, names).0;
    lemma_without_name_values(before, lower_seq(n@), lower_seq(n@));
    lemma_without_name_values(before, lower_seq(n@), m);
}

/// Apply set options to response headers; returns whether any applied.
pub fn set_response_headers(opts: &Vec<HeaderValueOption>, resp: &mut Response) -> (r: bool)
    requires
        old(resp).headers.wf(),
    ensures
        final(resp).headers.wf(),
        final(resp).status == old(resp).status,
        (final(resp).headers@, r) == response_sets(old(resp).headers@, opts@),
{
    let mut modified = false;
    let mut i: usize = 0;
    while i < opts.len()
        invariant
            i <= opts@.len(),
            resp.headers.wf(),
            resp.status == old(resp).status,
            (resp.headers@, modified) == response_sets(old(resp).headers@, opts@.subrange(0, i as int)),
        decreases opts@.len() - i,
    {
        proof {
            assert(opts@.subrange(0, i + 1).drop_last() =~= opts@.subrange(0, i as int));
        }
        let o = &opts[i];
        match &o.header {
            Some(hv) => {
                let key = hv.key.as_str();
                if !is_pseudo_header(key) {
                    let value = header_value_string(hv);
                    if is_valid_header_name(key) && is_valid_header_value(value.as_str()) {
                        if should_append(o) {
                            resp.headers.append(key, value.as_str());
                        } else {
                            resp.headers.insert(key, value.as_str());
                        }
                        modified = true;
                    }
                }
            },
            None => {},
        }
        i = i + 1;
    }
    proof {
        assert(opts@.subrange(0, opts@.len() as int) =~= opts@);
    }
    modified
}

/// Remove names from response headers; returns whether any was present.
pub fn remove_response_headers(names: &Vec<String>, resp: &mut Response) -> (r: bool)
    requires
        old(resp).headers.wf(),
    ensures
        final(resp).headers.wf(),
        final(resp).status == old(resp).status,
        (final(resp).headers@, r) == response_removes(old(resp).headers@, names@),
{
    let mut modified = false;
    let mut i: usize = 0;
    while i < names.len()
        invariant
            i <= names@.len(),
            resp.headers.wf(),
            resp.status == old(resp).status,
            (resp.headers@, modified) == response_removes(old(resp).headers@, names@.subrange(0, i as int)),
        decreases names@.len() - i,
    {
        proof {
            assert(names@.subrange(0, i + 1).drop_last() =~= names@.subrange(0, i as int));
        }
        let n = names[i].as_str();
        if !is_pseudo_header(n) && is_valid_header_name(n) {
            let present = resp.headers.remove(n);
            if present {
                modified = true;
            }
        }
        i = i + 1;
    }
    proof {
        assert(names@.subrange(0, names@.len() as int) =~= names@);
    }
    modified
}

/// Apply a header mutation to the upstream response (sets, then removals),
/// recording whether anything changed.
pub fn apply_response_header_mutation(m: &HeaderMutation, ctx: &mut HttpFilterContext)
    requires
        old(ctx).response_header matches Some(resp) ==> resp.headers.wf(),
    ensures
        final(ctx).request == old(ctx).request,
        final(ctx).extra_request_headers == old(ctx).extra_request_headers,
        final(ctx).request_headers_to_set == old(ctx).request_headers_to_set,
        final(ctx).request_headers_to_remove == old(ctx).request_headers_to_remove,
        final(ctx).cluster == old(ctx).cluster,
        final(ctx).upstream == old(ctx).upstream,
        final(ctx).client_addr == old(ctx).client_addr,
        final(ctx).downstream_tls == old(ctx).downstream_tls,
        final(ctx).request_body_bytes == old(ctx).request_body_bytes,
        final(ctx).response_body_bytes == old(ctx).response_body_bytes,
        old(ctx).response_header is None ==> final(ctx).response_header is None
            && final(ctx).response_headers_modified == old(ctx).response_headers_modified,
        old(ctx).response_header matches Some(resp) ==> ({
            let (h1, c1) = response_sets(resp.headers@, m.set_headers@);
            let (h2, c2) = response_removes(h1, m.remove_headers@);
            &&& final(ctx).response_header matches Some(out)
            &&& out.status == resp.status
            &&& out.headers.wf()
            &&& out.headers@ == h2
            &&& final(ctx).response_headers_modified == (old(ctx).response_headers_modified || c1 || c2)
        }),
{
    let mut resp = match ctx.response_header.take() {
        Some(r) => r,
        None => {
            return;
        },
    };
    let sets = set_response_headers(&m.set_headers, &mut resp);
    let removes = remove_response_headers(&m.remove_headers, &mut resp);
    ctx.response_header = Some(resp);
    if sets || removes {
        ctx.response_headers_modified = true;
    }
}

/// Apply a headers answer to the request or the response, by phase.
pub fn apply_headers_response(hr: &HeadersResponse, ctx: &mut HttpFilterContext, phase: Phase)
    requires
        old(ctx).response_header matches Some(resp) ==> resp.headers.wf(),
    ensures
        final(ctx).request == old(ctx).request,
        final(ctx).cluster == old(ctx).cluster,
        final(ctx).upstream == old(ctx).upstream,
        final(ctx).client_addr == old(ctx).client_addr,
        final(ctx).downstream_tls == old(ctx).downstream_tls,
        final(ctx).request_body_bytes == old(ctx).request_body_bytes,
        final(ctx).response_body_bytes == old(ctx).response_body_bytes,
        final(ctx).response_header matches Some(resp) ==> resp.headers.wf(),
        headers_answer_applied(*hr, *old(ctx), *final(ctx), phase),
{
    match &hr.response {
        Some(common) => match &common.header_mutation {
            Some(m) => match phase {
                Phase::Request => apply_request_header_mutation(m, ctx),
                Phase::Response => apply_response_header_mutation(m, ctx),
            },
            None => {},
        },
        None => {},
    }
}

/// `after` is `before` with the header mutation of `hr` (if any) applied.
pub open spec fn headers_answer_applied(hr: HeadersResponse, before: HttpFilterContext, after: HttpFilterContext, phase: Phase) -> bool {
    match hr.response {
        Some(c) => match c.header_mutation {
            Some(m) => mutation_applied(before, after, m, phase),
            None => after == before,
        },
        None => after == before,
    }
}

/// `after` is `before` with header mutation `m` applied in `phase`.
pub open spec fn mutation_applied(before: HttpFilterContext, after: HttpFilterContext, m: HeaderMutation, phase: Phase) -> bool {
    match phase {
        Phase::Request => {
            &&& string_texts(after.request_headers_to_remove@) == string_texts(before.request_headers_to_remove@)
                + removed_names(m.remove_headers@)
            &&& header_pairs(after.extra_request_headers@) == header_pairs(before.extra_request_headers@)
                + collect_entries(m.set_headers@, before.request, true)
            &&& header_pairs(after.request_headers_to_set@) == header_pairs(before.request_headers_to_set@)
                + collect_entries(m.set_headers@, before.request, false)
            &&& after.response_header == before.response_header
            &&& after.response_headers_modified == before.response_headers_modified
        },
        Phase::Response => {
            &&& after.extra_request_headers == before.extra_request_headers
            &&& after.request_headers_to_set == before.request_headers_to_set
            &&& after.request_headers_to_remove == before.request_headers_to_remove
            &&& (before.response_header is None ==> after.response_header is None
                && after.response_headers_modified == before.response_headers_modified)
            &&& (before.response_header matches Some(resp) ==> ({
                let (h1, c1) = response_sets(resp.headers@, m.set_headers@);
                let (h2, c2) = response_removes(h1, m.remove_headers@);
                &&& after.response_header matches Some(out)
                &&& out.status == resp.status
                &&& out.headers@ == h2
                &&& after.response_headers_modified == (before.response_headers_modified || c1 || c2)
            }))
        },
    }
}

/// The body after a body mutation.
pub open spec fn mutated_body(bm: BodyMutation, body: Option<Vec<u8>>) -> Option<Seq<u8>> {
    let cur = match body {
        Some(b) => Some(b@),
        None => None,
    };
    match bm.mutation {
        Some(BodyMutationKind::Body(b)) => Some(b@),
        Some(BodyMutationKind::ClearBody(true)) => None,
        Some(BodyMutationKind::StreamedResponse(st)) => if st.body@.len() == 0 { None } else { Some(st.body@) },
        _ => cur,
    }
}

/// The bytes of an optional body.
pub open spec fn body_bytes(body: Option<Vec<u8>>) -> Option<Seq<u8>> {
    match body {
        Some(b) => Some(b@),
        None => None,
    }
}

/// Apply a body mutation to the body chunk.
pub fn apply_body_mutation(bm: &BodyMutation, body: &mut Option<Vec<u8>>)
    ensures
        body_bytes(*final(body)) == mutated_body(*bm, *old(body)),
{
    match &bm.mutation {
        Some(BodyMutationKind::Body(b)) => {
            *body = Some(copy_bytes(b.as_slice()));
        },
        Some(BodyMutationKind::ClearBody(clear)) => {
            if *clear {
                *body = None;
            }
        },
        Some(BodyMutationKind::StreamedResponse(st)) => {
            if st.body.len() == 0 {
                *body = None;
            } else {
                *body = Some(copy_bytes(st.body.as_slice()));
            }
        },
        None => {},
    }
}

/// Apply a body answer: its header mutation (by phase), then its body
/// mutation; processing continues.
pub fn apply_body_response(br: &BodyResponse, ctx: &mut HttpFilterContext, body: &mut Option<Vec<u8>>, phase: Phase) -> (r: Result<FilterAction, FilterError>)
    requires
        old(ctx).response_header matches Some(resp) ==> resp.headers.wf(),
    ensures
        r matches Ok(a) && a is Continue,
        final(ctx).request == old(ctx).request,
        final(ctx).cluster == old(ctx).cluster,
        final(ctx).upstream == old(ctx).upstream,
        final(ctx).client_addr == old(ctx).client_addr,
        final(ctx).downstream_tls == old(ctx).downstream_tls,
        final(ctx).request_body_bytes == old(ctx).request_body_bytes,
        final(ctx).response_body_bytes == old(ctx).response_body_bytes,
        final(ctx).response_header matches Some(resp) ==> resp.headers.wf(),
        br.response is None ==> *final(ctx) == *old(ctx) && *final(body) == *old(body),
        br.response matches Some(c) ==> ({
            &&& (c.header_mutation matches Some(m) ==> mutation_applied(*old(ctx), *final(ctx), m, phase))
            &&& (c.header_mutation is None ==> *final(ctx) == *old(ctx))
            &&& (c.body_mutation matches Some(bm) ==> body_bytes(*final(body)) == mutated_body(bm, *old(body)))
            &&& (c.body_mutation is None ==> *final(body) == *old(body))
        }),
{
    let common = match &br.response {
        Some(c) => c,
        None => {
            return Ok(FilterAction::Continue);
        },
    };
    match &common.header_mutation {
        Some(m) => match phase {
            Phase::Request => apply_request_header_mutation(m, ctx),
            Phase::Response => apply_response_header_mutation(m, ctx),
        },
        None => {},
    }
    match &common.body_mutation {
        Some(bm) => apply_body_mutation(bm, body),
        None => {},
    }
    Ok(FilterAction::Continue)
}

/// The status of an immediate response: 200 when absent; 500 when it is
/// not a status code in 100..=599.
pub open spec fn immediate_status(imm: ImmediateResponse) -> u16 {
    match imm.status {
        None => 200,
        Some(code) => if 100 <= code <= 599 { code as u16 } else { 500 },
    }
}

/// The headers of an immediate response: each set option's header, value
/// preferring raw bytes.
pub open spec fn immediate_headers(opts: Seq<HeaderValueOption>) -> Seq<(Seq<char>, Seq<char>)>
    decreases opts.len(),
{
    if opts.len() == 0 {
        Seq::empty()
    } else {
        let prev = immediate_headers(opts.drop_last());
        match opts.last().header {
            Some(hv) => prev.push((hv.key@, header_value_text(hv))),
            None => prev,
        }
    }
}

/// `a` is the rejection an immediate response asks for: its status, its
/// body's bytes (none when empty) and its headers.
pub open spec fn is_immediate_rejection(imm: ImmediateResponse, a: FilterAction) -> bool {
    a matches FilterAction::Reject(rej) && rej.status == immediate_status(imm)
        && (imm.body@.len() == 0 ==> rej.body is None)
        && (imm.body@.len() > 0 ==> (rej.body matches Some(b) && b@ == encode_utf8(imm.body@)))
        && header_pairs(rej.headers@) == match imm.headers {
            Some(hm) => immediate_headers(hm.set_headers@),
            None => Seq::empty(),
        }
}

/// Turn an immediate response into a rejection with its status, body and
/// headers.
pub fn immediate_to_rejection(imm: &ImmediateResponse) -> (r: FilterAction)
    ensures
        is_immediate_rejection(*imm, r),
{
    let status: u16 = match imm.status {
        None => 200,
        Some(code) => if 100 <= code && code <= 599 { code as u16 } else { 500 },
    };
    let mut rejection = Rejection::status(status);
    if imm.body.as_str().unicode_len() > 0 {
        rejection = rejection.with_body(imm.body.as_str().as_bytes_vec());
    }
    match &imm.headers {
        Some(hm) => {
            let mut i: usize = 0;
            proof {
                assert(header_pairs(rejection.headers@) =~= immediate_headers(hm.set_headers@.subrange(0, 0)));
            }
            while i < hm.set_headers.len()
                invariant
                    i <= hm.set_headers@.len(),
                    rejection.status == status,
                    imm.body@.len() == 0 ==> rejection.body is None,
                    imm.body@.len() > 0 ==> (rejection.body matches Some(b) && b@ == encode_utf8(imm.body@)),
                    header_pairs(rejection.headers@) == immediate_headers(hm.set_headers@.subrange(0, i as int)),
                decreases hm.set_headers@.len() - i,
            {
                proof {
                    assert(hm.set_headers@.subrange(0, i + 1).drop_last() =~= hm.set_headers@.subrange(0, i as int));
                }
                match &hm.set_headers[i].header {
                    Some(hv) => {
                        let value = header_value_string(hv);
                        let ghost before = rejection.headers@;
                        rejection = rejection.with_header(hv.key.as_str(), value.as_str());
                        proof {
                            assert(header_pairs(rejection.headers@) =~= header_pairs(before).push((hv.key@, value@)));
                        }
                    },
                    None => {},
                }
                i = i + 1;
            }
            proof {
                assert(hm.set_headers@.subrange(0, hm.set_headers@.len() as int) =~= hm.set_headers@);
            }
        },
        None => {
            proof {
                assert(header_pairs(rejection.headers@) =~= Seq::<(Seq<char>, Seq<char>)>::empty());
            }
        },
    }
    FilterAction::Reject(rejection)
}

/// The name of a response variant as used in messages.
pub open spec fn variant_name(k: ProcessingResponseKind) -> Seq<char> {
    match k {
        ProcessingResponseKind::RequestHeaders(_) => "RequestHeaders"@,
        ProcessingResponseKind::ResponseHeaders(_) => "ResponseHeaders"@,
        ProcessingResponseKind::RequestBody(_) => "RequestBody"@,
        ProcessingResponseKind::ResponseBody(_) => "ResponseBody"@,
        ProcessingResponseKind::RequestTrailers => "RequestTrailers"@,
        ProcessingResponseKind::ResponseTrailers => "ResponseTrailers"@,
        ProcessingResponseKind::ImmediateResponse(_) => "ImmediateResponse"@,
    }
}

/// The name of a response variant.
pub fn response_variant_name(k: &ProcessingResponseKind) -> (r: &'static str)
    ensures
        r@ == variant_name(*k),
{
    match k {
        ProcessingResponseKind::RequestHeaders(_) => "RequestHeaders",
        ProcessingResponseKind::ResponseHeaders(_) => "ResponseHeaders",
        ProcessingResponseKind::RequestBody(_) => "RequestBody",
        ProcessingResponseKind::ResponseBody(_) => "ResponseBody",
        ProcessingResponseKind::RequestTrailers => "RequestTrailers",
        ProcessingResponseKind::ResponseTrailers => "ResponseTrailers",
        ProcessingResponseKind::ImmediateResponse(_) => "ImmediateResponse",
    }
}

/// The name of a phase.
pub open spec fn phase_name(p: Phase) -> Seq<char> {
    match p {
        Phase::Request => "request"@,
        Phase::Response => "response"@,
    }
}

/// The error for an answer that does not fit the phase.
pub open spec fn unexpected_message(k: ProcessingResponseKind, p: Phase, stage: Seq<char>) -> Seq<char> {
    "ext_proc: unexpected response type '"@ + variant_name(k) + "' during "@ + phase_name(p) + " "@ + stage
        + " phase"@
}

fn unexpected(k: &ProcessingResponseKind, p: Phase, stage: &str) -> (r: FilterError)
    ensures
        r.message@ == unexpected_message(*k, p, stage@),
{
    let mut m = String::new();
    push_str(&mut m, "ext_proc: unexpected response type '");
    push_str(&mut m, response_variant_name(k));
    push_str(&mut m, "' during ");
    push_str(&mut m, p.name());
    push_str(&mut m, " ");
    push_str(&mut m, stage);
    push_str(&mut m, " phase");
    FilterError { message: m }
}

/// The outcome of acting on a headers-phase answer: no answer continues;
/// an immediate response rejects; the headers answer of the phase is
/// applied; anything else is an error. Only the applied answer changes the
/// context.
pub open spec fn headers_dispatched(response: ProcessingResponse, phase: Phase, before: HttpFilterContext, after: HttpFilterContext, r: Result<FilterAction, FilterError>) -> bool {
    match response.response {
        None => r matches Ok(a) && a is Continue && after == before,
        Some(k) => match k {
            ProcessingResponseKind::ImmediateResponse(imm) => after == before && (r matches Ok(a) && is_immediate_rejection(imm, a)),
            ProcessingResponseKind::RequestHeaders(hr) => if phase == Phase::Request {
                r matches Ok(a) && a is Continue && headers_answer_applied(hr, before, after, phase)
            } else {
                after == before && (r matches Err(e) && e.message@ == unexpected_message(k, phase, "headers"@))
            },
            ProcessingResponseKind::ResponseHeaders(hr) => if phase == Phase::Response {
                r matches Ok(a) && a is Continue && headers_answer_applied(hr, before, after, phase)
            } else {
                after == before && (r matches Err(e) && e.message@ == unexpected_message(k, phase, "headers"@))
            },
            _ => after == before && (r matches Err(e) && e.message@ == unexpected_message(k, phase, "headers"@)),
        },
    }
}

/// Act on the processor's answer to a headers message.
pub fn dispatch_response(response: &ProcessingResponse, ctx: &mut HttpFilterContext, phase: Phase) -> (r: Result<FilterAction, FilterError>)
    requires
        old(ctx).response_header matches Some(resp) ==> resp.headers.wf(),
    ensures
        final(ctx).request == old(ctx).request,
        final(ctx).cluster == old(ctx).cluster,
        final(ctx).upstream == old(ctx).upstream,
        final(ctx).client_addr == old(ctx).client_addr,
        final(ctx).downstream_tls == old(ctx).downstream_tls,
        final(ctx).request_body_bytes == old(ctx).request_body_bytes,
        final(ctx).response_body_bytes == old(ctx).response_body_bytes,
        final(ctx).response_header matches Some(resp) ==> resp.headers.wf(),
        headers_dispatched(*response, phase, *old(ctx), *final(ctx), r),
{
    let k = match &response.response {
        Some(k) => k,
        None => {
            return Ok(FilterAction::Continue);
        },
    };
    match k {
        ProcessingResponseKind::RequestHeaders(hr) => {
            if phase == Phase::Request {
                apply_headers_response(hr, ctx, phase);
                return Ok(FilterAction::Continue);
            }
        },
        ProcessingResponseKind::ResponseHeaders(hr) => {
            if phase == Phase::Response {
                apply_headers_response(hr, ctx, phase);
                return Ok(FilterAction::Continue);
            }
        },
        ProcessingResponseKind::ImmediateResponse(imm) => {
            return Ok(immediate_to_rejection(imm));
        },
        _ => {},
    }
    Err(unexpected(k, phase, "headers"))
}

/// The outcome of acting on a body-phase answer: no answer continues; a
/// body answer is applied; an immediate response rejects; anything else is
/// an error and changes nothing.
pub open spec fn body_dispatched(response: ProcessingResponse, phase: Phase, before: HttpFilterContext, after: HttpFilterContext, body_before: Option<Vec<u8>>, body_after: Option<Vec<u8>>, r: Result<FilterAction, FilterError>) -> bool {
    match response.response {
        None => r matches Ok(a) && a is Continue && after == before && body_after == body_before,
        Some(k) => match k {
            ProcessingResponseKind::RequestBody(br) => body_answer_applied(br, phase, before, after, body_before, body_after, r),
            ProcessingResponseKind::ResponseBody(br) => body_answer_applied(br, phase, before, after, body_before, body_after, r),
            ProcessingResponseKind::ImmediateResponse(imm) => after == before && body_after == body_before
                && (r matches Ok(a) && is_immediate_rejection(imm, a)),
            _ => after == before && body_after == body_before
                && (r matches Err(e) && e.message@ == unexpected_message(k, phase, "body"@)),
        },
    }
}

/// `after` and `body_after` result from applying body answer `br`.
pub open spec fn body_answer_applied(br: BodyResponse, phase: Phase, before: HttpFilterContext, after: HttpFilterContext, body_before: Option<Vec<u8>>, body_after: Option<Vec<u8>>, r: Result<FilterAction, FilterError>) -> bool {
    &&& r matches Ok(a) && a is Continue
    &&& match br.response {
        None => after == before && body_after == body_before,
        Some(c) => {
            &&& match c.header_mutation {
                Some(m) => mutation_applied(before, after, m, phase),
                None => after == before,
            }
            &&& match c.body_mutation {
                Some(bm) => body_bytes(body_after) == mutated_body(bm, body_before),
                None => body_after == body_before,
            }
        },
    }
}

/// Act on the processor's answer to a body message.
pub fn dispatch_body_response(response: &ProcessingResponse, ctx: &mut HttpFilterContext, body: &mut Option<Vec<u8>>, phase: Phase) -> (r: Result<FilterAction, FilterError>)
    requires
        old(ctx).response_header matches Some(resp) ==> resp.headers.wf(),
    ensures
        final(ctx).request == old(ctx).request,
        final(ctx).cluster == old(ctx).cluster,
        final(ctx).upstream == old(ctx).upstream,
        final(ctx).client_addr == old(ctx).client_addr,
        final(ctx).downstream_tls == old(ctx).downstream_tls,
        final(ctx).request_body_bytes == old(ctx).request_body_bytes,
        final(ctx).response_body_bytes == old(ctx).response_body_bytes,
        final(ctx).response_header matches Some(resp) ==> resp.headers.wf(),
        body_dispatched(*response, phase, *old(ctx), *final(ctx), *old(body), *final(body), r),
{
    let k = match &response.response {
        Some(k) => k,
        None => {
            return Ok(FilterAction::Continue);
        },
    };
    match k {
        ProcessingResponseKind::RequestBody(br) => apply_body_response(br, ctx, body, phase),
        ProcessingResponseKind::ResponseBody(br) => apply_body_response(br, ctx, body, phase),
        ProcessingResponseKind::ImmediateResponse(imm) => Ok(immediate_to_rejection(imm)),
        _ => Err(unexpected(k, phase, "body")),
    }
}

/// Nanoseconds in a second.
pub const NANOS_PER_SEC: u128 = 1000000000;

/// Nanoseconds in a millisecond.
pub const NANOS_PER_MILLI: u128 = 1000000;

/// The per-message timeout the processor asked for, in nanoseconds, capped
/// at the configured maximum (in ms): none without a maximum, without a
/// request, or for a zero request. Negative parts count as zero.
pub open spec fn timeout_override(requested: Option<(i64, i32)>, max_ms: Option<u64>) -> Option<nat> {
    match (max_ms, requested) {
        (Some(max), Some((secs, nanos))) => {
            let s: nat = if secs >= 0 { secs as nat } else { 0 };
            let n: nat = if nanos >= 0 { nanos as nat } else { 0 };
            let d = s * 1000000000 + n;
            let m = max as nat * 1000000;
            if d == 0 { None } else { Some(if d < m { d } else { m }) }
        },
        _ => None,
    }
}

/// Extract and cap the processor's timeout override, in nanoseconds.
pub fn parse_timeout_override(resp: &ProcessingResponse, max_ms: Option<u64>) -> (r: Option<u128>)
    ensures
        r matches Some(v) ==> timeout_override(resp.override_message_timeout, max_ms) == Some(v as nat),
        r is None ==> timeout_override(resp.override_message_timeout, max_ms) is None,
{
    let max = match max_ms {
        Some(m) => m,
        None => {
            return None;
        },
    };
    let (secs, nanos) = match resp.override_message_timeout {
        Some(p) => p,
        None => {
            return None;
        },
    };
    let s: u128 = if secs >= 0 { secs as u128 } else { 0 };
    let n: u128 = if nanos >= 0 { nanos as u128 } else { 0 };
    assert(s * NANOS_PER_SEC <= 0x8000_0000_0000_0000u128 * 1000000000) by (nonlinear_arith)
        requires s < 0x8000_0000_0000_0000u128;
    let d = s * NANOS_PER_SEC + n;
    if d == 0 {
        return None;
    }
    let m = (max as u128) * NANOS_PER_MILLI;
    Some(if d < m { d } else { m })
}

/// What to do with a message from the processor while waiting for an
/// answer: `None` when it is the answer; otherwise wait for the next
/// message for the given nanoseconds.
pub fn override_step(resp: &ProcessingResponse, max_ms: Option<u64>) -> (r: Option<u128>)
    ensures
        resp.response is Some ==> r is None,
        resp.response is None ==> (r matches Some(v) ==> timeout_override(resp.override_message_timeout, max_ms) == Some(v as nat)),
        resp.response is None ==> (r is None <==> timeout_override(resp.override_message_timeout, max_ms) is None),
{
    if resp.response.is_some() {
        return None;
    }
    parse_timeout_override(resp, max_ms)
}

/// An immediate response always yields a status code in 100..=599.
pub proof fn immediate_status_in_range(imm: ImmediateResponse)
    ensures
        100 <= immediate_status(imm) <= 599,
{
}

} // verus!
