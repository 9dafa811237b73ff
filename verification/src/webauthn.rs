//! The WebAuthn client logic: which requests may be signed, the client data
//! that binds an assertion to its origin, the choice of user verification,
//! the mapping of authenticator errors to stable codes, and the encoding of
//! the authenticator's answer. Talking to the security key itself is left
//! to the caller, which hands the key's answers to these functions.
use vstd::prelude::*;
use vstd::utf8::*;

use crate::encoding::{
    lemma_b64url_injective,
    b64url_decode_error,
    b64url_encode,
    decode_b64url,
    decode_error_display,
    decode_error_text,
    encode_b64url,
    is_b64url,
};
use crate::text::{
    chars_contain,
    chars_contain_char,
    chars_end_with,
    chars_eq,
    chars_of,
    concat,
    contains_text,
    ends_with,
    has_prefix,
    starts_with,
    text_eq,
};

verus! {

broadcast use vstd::string::group_string_axioms;

// ---------------------------------------------------------------------------
// Data
// ---------------------------------------------------------------------------

/// A `navigator.credentials.get()` request as the page serialised it.
pub struct GetRequest {
    pub origin: String,
    pub rp_id: String,
    /// base64url, exactly as the relying party sent it
    pub challenge: String,
    /// base64url credential ids; empty means discoverable (resident) credentials
    pub allow_credentials: Vec<String>,
    pub user_verification: Option<String>,
    pub cross_origin: bool,
    pub pin: Option<String>,
}

/// One assertion, base64url-encoded for the page.
#[derive(Debug)]
pub struct AssertionOut {
    pub credential_id: String,
    pub authenticator_data: String,
    pub signature: String,
    pub user_handle: Option<String>,
    pub user_name: String,
    pub user_display_name: String,
}

/// The answer to a request: the client data that was signed over, and the
/// assertions the key produced.
#[derive(Debug)]
pub struct GetResponse {
    pub client_data_json: String,
    pub assertions: Vec<AssertionOut>,
}

/// An error with a stable code the page can act on.
#[derive(Debug)]
pub struct WebAuthnError {
    pub code: &'static str,
    pub message: String,
    pub pin_retries: Option<i32>,
}

/// What the security key returned for one credential, as plain values.
#[derive(Debug)]
pub struct RawAssertion {
    pub credential_id: Vec<u8>,
    pub auth_data: Vec<u8>,
    pub signature: Vec<u8>,
    pub user_id: Vec<u8>,
    pub user_name: String,
    pub user_display_name: String,
}

/// A request that passed every check, ready for the security key.
#[derive(Debug)]
pub struct PreparedAssertion {
    pub rp_id: String,
    /// The clientDataJSON text; the key signs over its SHA-256 hash.
    pub client_data: String,
    /// The decoded `allowCredentials`, in request order.
    pub allow_ids: Vec<Vec<u8>>,
}

/// How user verification is to be handled before the key is asked anything.
pub enum UvPlan {
    /// Use the PIN the user entered.
    Pin(String),
    /// The relying party discourages verification: ask for none.
    WithoutPinAndUv,
    /// Ask the key whether it verifies users itself or has a PIN.
    AskKey,
}

/// How to proceed once the key's options are known.
#[derive(Debug)]
pub enum KeyUv {
    /// The key verifies users itself (e.g. a fingerprint): leave the request as is.
    BuiltIn,
    /// Ask for neither PIN nor user verification.
    WithoutPinAndUv,
}

/// An option of the security key that the verification decision may need.
#[derive(Debug)]
pub enum KeyOption {
    /// Whether the key verifies users itself (`uv`).
    Uv,
    /// Whether the key has a PIN set (`clientPin`).
    ClientPin,
}

/// How the assertion is to be requested from the key.
pub enum SignMode {
    /// With the PIN the user entered.
    Pin(String),
    /// With neither PIN nor user verification.
    WithoutPinAndUv,
    /// As built, leaving verification to the key.
    AsIs,
}

/// The next step of the user-verification exchange with the key.
pub enum VerificationStep {
    /// Ask the key for this option, then decide again with its answer.
    Ask(KeyOption),
    /// Request the assertion.
    Sign(SignMode),
    /// Give up with this error; the key is asked for no assertion.
    Fail(WebAuthnError),
}

// ---------------------------------------------------------------------------
// Constants
// ---------------------------------------------------------------------------

pub const ORIGIN_MICROSOFTONLINE: &'static str = "https://login.microsoftonline.com";

pub const ORIGIN_MICROSOFT: &'static str = "https://login.microsoft.com";

pub const ORIGIN_LIVE: &'static str = "https://login.live.com";

pub const CODE_NOT_ALLOWED: &'static str = "not-allowed";

pub const CODE_BAD_REQUEST: &'static str = "bad-request";

pub const CODE_PIN_REQUIRED: &'static str = "pin-required";

pub const CODE_UV_UNAVAILABLE: &'static str = "uv-unavailable";

pub const CODE_PIN_INVALID: &'static str = "pin-invalid";

pub const CODE_PIN_BLOCKED: &'static str = "pin-blocked";

pub const CODE_NO_CREDENTIALS: &'static str = "no-credentials";

pub const CODE_TIMEOUT: &'static str = "timeout";

pub const CODE_INTERNAL: &'static str = "internal";

pub const CODE_NO_DEVICE: &'static str = "no-device";

pub const HTTPS_PREFIX: &'static str = "https://";

// ---------------------------------------------------------------------------
// Specifications
// ---------------------------------------------------------------------------

/// The origins allowed to ask for an assertion: the Microsoft sign-in pages.
pub open spec fn is_allowed_origin(origin: Seq<char>) -> bool {
    origin == ORIGIN_MICROSOFTONLINE@ || origin == ORIGIN_MICROSOFT@ || origin == ORIGIN_LIVE@
}

/// The host part of an origin: what follows `https://`, or the whole text.
pub open spec fn origin_host(origin: Seq<char>) -> Seq<char> {
    if starts_with(origin, HTTPS_PREFIX@) {
        origin.skip(HTTPS_PREFIX@.len() as int)
    } else {
        origin
    }
}

/// The browser rule for a relying party id: the host itself, or a parent
/// domain of it with at least two labels (`.rp_id` ends the host).
pub open spec fn rp_id_fits_host(host: Seq<char>, rp_id: Seq<char>) -> bool {
    ||| host == rp_id
    ||| rp_id.contains('.') && ends_with(host, seq!['.'] + rp_id)
}

/// The security boundary: an allowed origin and a relying party id that fits it.
pub open spec fn origin_and_rp_id_valid(origin: Seq<char>, rp_id: Seq<char>) -> bool {
    is_allowed_origin(origin) && rp_id_fits_host(origin_host(origin), rp_id)
}

/// The message of a refusal by `validate_origin_and_rpid`.
pub open spec fn refusal_message(origin: Seq<char>, rp_id: Seq<char>) -> Seq<char> {
    if !is_allowed_origin(origin) {
        "origin "@ + origin + " is not allowed"@
    } else {
        "rpId "@ + rp_id + " does not match origin "@ + origin
    }
}

/// `e` has code `code`, message `message` and no PIN retry count.
pub open spec fn is_error(e: WebAuthnError, code: Seq<char>, message: Seq<char>) -> bool {
    e.code@ == code && e.message@ == message && e.pin_retries is None
}

/// `e` reports that the base64url text `text` in field `what` could not be
/// decoded; the message ends with the decoder's own description of why.
pub open spec fn is_bad_base64(e: WebAuthnError, what: Seq<char>, text: Seq<char>) -> bool {
    &&& e.code@ == CODE_BAD_REQUEST@
    &&& e.pin_retries is None
    &&& e.message@ == "invalid base64url in "@ + what + ": "@ + decode_error_display(
        b64url_decode_error(text),
    )
}

/// The stable code for an authenticator error text: the first group of
/// CTAP status names that occurs in it decides.
pub open spec fn ctap_code(msg: Seq<char>) -> Seq<char> {
    if contains_text(msg, "PIN_INVALID"@) || contains_text(msg, "PIN_AUTH_INVALID"@) {
        CODE_PIN_INVALID@
    } else if contains_text(msg, "PIN_REQUIRED"@) || contains_text(msg, "PIN_NOT_SET"@)
        || contains_text(msg, "PUAT_REQUIRED"@) {
        CODE_PIN_REQUIRED@
    } else if contains_text(msg, "PIN_BLOCKED"@) || contains_text(msg, "PIN_AUTH_BLOCKED"@)
        || contains_text(msg, "UV_BLOCKED"@) {
        CODE_PIN_BLOCKED@
    } else if contains_text(msg, "NO_CREDENTIALS"@) {
        CODE_NO_CREDENTIALS@
    } else if contains_text(msg, "USER_ACTION_TIMEOUT"@) || contains_text(msg, "ACTION_TIMEOUT"@)
        || contains_text(msg, "KEEPALIVE_CANCEL"@) {
        CODE_TIMEOUT@
    } else if contains_text(msg, "OPERATION_DENIED"@) {
        CODE_NOT_ALLOWED@
    } else {
        CODE_INTERNAL@
    }
}

/// The text that `serde_json` makes of a JSON object with the given string
/// members and boolean members (the members as `serde_json::Map` holds them).
pub uninterp spec fn json_object_text(
    texts: Seq<(Seq<char>, Seq<char>)>,
    flags: Seq<(Seq<char>, bool)>,
) -> Seq<char>;

/// The clientDataJSON of a `webauthn.get` request.
pub open spec fn client_data_text(challenge: Seq<char>, origin: Seq<char>, cross_origin: bool) -> Seq<
    char,
> {
    json_object_text(
        seq![("type"@, "webauthn.get"@), ("challenge"@, challenge), ("origin"@, origin)],
        seq![("crossOrigin"@, cross_origin)],
    )
}

/// Every `allowCredentials` entry of the request is valid base64url.
pub open spec fn allow_list_decodes(request: GetRequest) -> bool {
    forall|i: int|
        0 <= i < request.allow_credentials@.len() ==> is_b64url(
            #[trigger] request.allow_credentials@[i]@,
        )
}

/// Entry `i` is the first `allowCredentials` entry that is not base64url.
pub open spec fn first_bad_credential(request: GetRequest, i: int) -> bool {
    &&& !is_b64url(request.allow_credentials@[i]@)
    &&& forall|j: int| 0 <= j < i ==> is_b64url(#[trigger] request.allow_credentials@[j]@)
}

/// A request that `prepare_assertion` accepts.
pub open spec fn request_acceptable(request: GetRequest) -> bool {
    &&& origin_and_rp_id_valid(request.origin@, request.rp_id@)
    &&& allow_list_decodes(request)
    &&& is_b64url(request.challenge@)
}

/// The user verification requirement, `"preferred"` when the request names none.
pub open spec fn uv_requirement(user_verification: Option<String>) -> Seq<char> {
    match user_verification {
        Some(u) => u@,
        None => "preferred"@,
    }
}

/// `out` is `raw` encoded for the page: the byte fields in base64url, a user
/// handle only when the key returned a non-empty user id.
pub open spec fn assertion_encodes(out: AssertionOut, raw: RawAssertion) -> bool {
    &&& out.credential_id@ == b64url_encode(raw.credential_id@)
    &&& out.authenticator_data@ == b64url_encode(raw.auth_data@)
    &&& out.signature@ == b64url_encode(raw.signature@)
    &&& if raw.user_id@.len() == 0 {
        out.user_handle is None
    } else {
        out.user_handle matches Some(h) && h@ == b64url_encode(raw.user_id@)
    }
    &&& out.user_name@ == raw.user_name@
    &&& out.user_display_name@ == raw.user_display_name@
}

/// An accepted relying party id is never a bare top-level label: it holds a
/// dot and ends the origin's host at a label boundary (or is the host).
pub proof fn accepted_rp_id_is_dotted_suffix(origin: Seq<char>, rp_id: Seq<char>)
    requires
        origin_and_rp_id_valid(origin, rp_id),
    ensures
        rp_id.contains('.'),
        ends_with(origin_host(origin), rp_id),
        origin_host(origin) == rp_id || ends_with(origin_host(origin), seq!['.'] + rp_id),
{
    reveal_strlit("https://login.microsoftonline.com");
    reveal_strlit("https://login.microsoft.com");
    reveal_strlit("https://login.live.com");
    reveal_strlit("https://");
    let host = origin_host(origin);
    if host == rp_id {
        assert(origin.subrange(0, 8) =~= HTTPS_PREFIX@);
        assert(host[5] == '.');
        assert(host.subrange(0, host.len() as int) =~= host);
    } else {
        let d = seq!['.'] + rp_id;
        assert(host.subrange(host.len() - rp_id.len(), host.len() as int) =~= host.subrange(
            host.len() - d.len(),
            host.len() as int,
        ).skip(1));
        assert(d.skip(1) =~= rp_id);
    }
}

// ---------------------------------------------------------------------------
// Outside calls
// ---------------------------------------------------------------------------

/// The `anyhow` error type that `ctap-hid-fido2` reports with.
#[verifier::external_type_specification]
#[verifier::external_body]
pub struct ExAnyhowError(anyhow::Error);

/// The text of an `anyhow` error in its alternate form (`{:#}`): the error
/// followed by its chain of causes.
pub uninterp spec fn error_chain(err: anyhow::Error) -> Seq<char>;

/// `format!("{err:#}")`: the error with its chain of causes, which is where
/// `ctap-hid-fido2` names the CTAP status.
#[verifier::external_body]
fn error_chain_text(err: &anyhow::Error) -> (r: String)
    ensures
        r@ == error_chain(*err),
{
    format!("{err:#}")
}

/// `serde_json::Value::Object(map).to_string()` for a map holding the
/// given string and boolean members.
#[verifier::external_body]
fn json_object(texts: &Vec<(String, String)>, flags: &Vec<(String, bool)>) -> (r: String)
    ensures
        r@ == json_object_text(
            texts@.map_values(|p: (String, String)| (p.0@, p.1@)),
            flags@.map_values(|p: (String, bool)| (p.0@, p.1)),
        ),
{
    let map: serde_json::Map<String, serde_json::Value> = texts
        .iter()
        .map(|(k, v)| (k.clone(), serde_json::Value::String(v.clone())))
        .chain(flags.iter().map(|(k, b)| (k.clone(), serde_json::Value::Bool(*b))))
        .collect();
    serde_json::Value::Object(map).to_string()
}

// ---------------------------------------------------------------------------
// Functions
// ---------------------------------------------------------------------------

impl WebAuthnError {
    /// An error with the given code and message and no PIN retry count.
    pub fn new(code: &'static str, message: String) -> (e: Self)
        ensures
            e.code == code,
            e.message == message,
            e.pin_retries is None,
    {
        Self { code, message, pin_retries: None }
    }
}

/// `a + b + c` as a new `String`.
fn concat3(a: &str, b: &str, c: &str) -> (r: String)
    ensures
        r@ == a@ + b@ + c@,
{
    let mut r = concat(a, b);
    r.append(c);
    r
}

/// The stable code for an authenticator error text.
pub fn ctap_error_code(msg: &str) -> (code: &'static str)
    ensures
        code@ == ctap_code(msg@),
{
    proof {
        reveal_strlit("PIN_INVALID");
        reveal_strlit("PIN_AUTH_INVALID");
        reveal_strlit("PIN_REQUIRED");
        reveal_strlit("PIN_NOT_SET");
        reveal_strlit("PUAT_REQUIRED");
        reveal_strlit("PIN_BLOCKED");
        reveal_strlit("PIN_AUTH_BLOCKED");
        reveal_strlit("UV_BLOCKED");
        reveal_strlit("NO_CREDENTIALS");
        reveal_strlit("USER_ACTION_TIMEOUT");
        reveal_strlit("ACTION_TIMEOUT");
        reveal_strlit("KEEPALIVE_CANCEL");
        reveal_strlit("OPERATION_DENIED");
    }
    let m = chars_of(msg);
    let m = m.as_slice();
    if chars_contain(m, chars_of("PIN_INVALID").as_slice()) || chars_contain(
        m,
        chars_of("PIN_AUTH_INVALID").as_slice(),
    ) {
        CODE_PIN_INVALID
    } else if chars_contain(m, chars_of("PIN_REQUIRED").as_slice()) || chars_contain(
        m,
        chars_of("PIN_NOT_SET").as_slice(),
    ) || chars_contain(m, chars_of("PUAT_REQUIRED").as_slice()) {
        CODE_PIN_REQUIRED
    } else if chars_contain(m, chars_of("PIN_BLOCKED").as_slice()) || chars_contain(
        m,
        chars_of("PIN_AUTH_BLOCKED").as_slice(),
    ) || chars_contain(m, chars_of("UV_BLOCKED").as_slice()) {
        CODE_PIN_BLOCKED
    } else if chars_contain(m, chars_of("NO_CREDENTIALS").as_slice()) {
        CODE_NO_CREDENTIALS
    } else if chars_contain(m, chars_of("USER_ACTION_TIMEOUT").as_slice()) || chars_contain(
        m,
        chars_of("ACTION_TIMEOUT").as_slice(),
    ) || chars_contain(m, chars_of("KEEPALIVE_CANCEL").as_slice()) {
        CODE_TIMEOUT
    } else if chars_contain(m, chars_of("OPERATION_DENIED").as_slice()) {
        CODE_NOT_ALLOWED
    } else {
        CODE_INTERNAL
    }
}

/// The error for the given authenticator error text and PIN retry count.
pub fn ctap_error(message: String, pin_retries: Option<i32>) -> (e: WebAuthnError)
    ensures
        e.code@ == ctap_code(message@),
        e.message == message,
        e.pin_retries == pin_retries,
{
    let code = ctap_error_code(message.as_str());
    WebAuthnError { code, message, pin_retries }
}

/// Maps an error of `ctap-hid-fido2` (which names the CTAP status in its
/// text) to a stable code; the message is the error's text with its causes.
pub fn map_ctap_error(err: anyhow::Error, pin_retries: Option<i32>) -> (e: WebAuthnError)
    ensures
        e.message@ == error_chain(err),
        e.code@ == ctap_code(e.message@),
        e.pin_retries == pin_retries,
{
    let message = error_chain_text(&err);
    ctap_error(message, pin_retries)
}

/// Decodes the base64url text `s` of request field `what`.
pub fn b64_decode(s: &str, what: &str) -> (r: Result<Vec<u8>, WebAuthnError>)
    ensures
        match r {
            Ok(v) => b64url_encode(v@) == s@,
            Err(e) => !is_b64url(s@) && is_bad_base64(e, what@, s@),
        },
{
    match decode_b64url(s) {
        Ok(v) => Ok(v),
        Err(err) => {
            let detail = decode_error_text(&err);
            let mut message = concat3("invalid base64url in ", what, ": ");
            message.append(detail.as_str());
            Err(WebAuthnError::new(CODE_BAD_REQUEST, message))
        },
    }
}

/// Whether `origin` is one of the allowed sign-in origins.
pub fn allowed_origin(origin: &str) -> (r: bool)
    ensures
        r == is_allowed_origin(origin@),
{
    text_eq(origin, ORIGIN_MICROSOFTONLINE) || text_eq(origin, ORIGIN_MICROSOFT) || text_eq(
        origin,
        ORIGIN_LIVE,
    )
}

/// The security boundary: only allowlisted origins may sign, and the rpId
/// must be the origin's host or a parent domain of it with at least two
/// labels (the rule a browser applies).
pub fn validate_origin_and_rpid(origin: &str, rp_id: &str) -> (r: Result<(), WebAuthnError>)
    ensures
        r is Ok <==> origin_and_rp_id_valid(origin@, rp_id@),
        r matches Err(e) ==> is_error(e, CODE_NOT_ALLOWED@, refusal_message(origin@, rp_id@)),
{
    proof {
        reveal_strlit("origin ");
        reveal_strlit(" is not allowed");
        reveal_strlit("rpId ");
        reveal_strlit(" does not match origin ");
    }
    if !allowed_origin(origin) {
        let message = concat3("origin ", origin, " is not allowed");
        return Err(WebAuthnError::new(CODE_NOT_ALLOWED, message));
    }
    let o = chars_of(origin);
    let host: Vec<char> = if has_prefix(origin, HTTPS_PREFIX) {
        let start = chars_of(HTTPS_PREFIX).len();
        let mut h: Vec<char> = Vec::new();
        let mut i = start;
        while i < o.len()
            invariant
                start <= i <= o@.len(),
                h@ == o@.subrange(start as int, i as int),
            decreases o@.len() - i,
        {
            h.push(o[i]);
            assert(h@ =~= o@.subrange(start as int, i + 1));
            i = i + 1;
        }
        h
    } else {
        o
    };
    assert(host@ == origin_host(origin@));
    let rp = chars_of(rp_id);
    let is_same = chars_eq(host.as_slice(), rp.as_slice());
    let mut dotted: Vec<char> = Vec::new();
    dotted.push('.');
    let mut i: usize = 0;
    while i < rp.len()
        invariant
            i <= rp@.len(),
            dotted@ == seq!['.'] + rp@.take(i as int),
        decreases rp@.len() - i,
    {
        dotted.push(rp[i]);
        assert(dotted@ =~= seq!['.'] + rp@.take(i + 1));
        i = i + 1;
    }
    assert(rp@.take(rp@.len() as int) == rp@);
    let is_parent = chars_contain_char(rp.as_slice(), '.') && chars_end_with(
        host.as_slice(),
        dotted.as_slice(),
    );
    if !is_same && !is_parent {
        let mut message = concat3("rpId ", rp_id, " does not match origin ");
        message.append(origin);
        return Err(WebAuthnError::new(CODE_NOT_ALLOWED, message));
    }
    Ok(())
}

/// The clientDataJSON for a `webauthn.get` request.
pub fn client_data_json(challenge: &str, origin: &str, cross_origin: bool) -> (r: String)
    ensures
        r@ == client_data_text(challenge@, origin@, cross_origin),
{
    let mut texts: Vec<(String, String)> = Vec::new();
    texts.push(("type".to_owned(), "webauthn.get".to_owned()));
    texts.push(("challenge".to_owned(), challenge.to_owned()));
    texts.push(("origin".to_owned(), origin.to_owned()));
    let mut flags: Vec<(String, bool)> = Vec::new();
    flags.push(("crossOrigin".to_owned(), cross_origin));
    let r = json_object(&texts, &flags);
    assert(texts@.map_values(|p: (String, String)| (p.0@, p.1@)) =~= seq![
        ("type"@, "webauthn.get"@),
        ("challenge"@, challenge@),
        ("origin"@, origin@),
    ]);
    assert(flags@.map_values(|p: (String, bool)| (p.0@, p.1)) =~= seq![
        ("crossOrigin"@, cross_origin),
    ]);
    r
}

/// Checks a request and prepares what the security key is given: the
/// origin and rpId pass `validate_origin_and_rpid`, every allowed credential
/// id and the challenge are valid base64url, and the client data binds the
/// challenge to the origin.
pub fn prepare_assertion(request: &GetRequest) -> (r: Result<PreparedAssertion, WebAuthnError>)
    ensures
        r is Ok <==> request_acceptable(*request),
        r matches Ok(p) ==> {
            &&& p.rp_id@ == request.rp_id@
            &&& p.client_data@ == client_data_text(
                request.challenge@,
                request.origin@,
                request.cross_origin,
            )
            &&& p.allow_ids@.len() == request.allow_credentials@.len()
            &&& forall|i: int|
                0 <= i < p.allow_ids@.len() ==> b64url_encode(#[trigger] p.allow_ids@[i]@)
                    == request.allow_credentials@[i]@
        },
        r matches Err(e) ==> if !origin_and_rp_id_valid(request.origin@, request.rp_id@) {
            is_error(e, CODE_NOT_ALLOWED@, refusal_message(request.origin@, request.rp_id@))
        } else if !allow_list_decodes(*request) {
            exists|i: int|
                0 <= i < request.allow_credentials@.len() && first_bad_credential(*request, i)
                    && is_bad_base64(
                    e,
                    "allowCredentials"@,
                    #[trigger] request.allow_credentials@[i]@,
                )
        } else {
            is_bad_base64(e, "challenge"@, request.challenge@)
        },
{
    validate_origin_and_rpid(request.origin.as_str(), request.rp_id.as_str())?;
    let mut allow_ids: Vec<Vec<u8>> = Vec::new();
    let n = request.allow_credentials.len();
    for i in 0..n
        invariant
            n == request.allow_credentials@.len(),
            origin_and_rp_id_valid(request.origin@, request.rp_id@),
            allow_ids@.len() == i,
            forall|k: int|
                0 <= k < i ==> b64url_encode(#[trigger] allow_ids@[k]@)
                    == request.allow_credentials@[k]@,
    {
        match b64_decode(request.allow_credentials[i].as_str(), "allowCredentials") {
            Ok(id) => {
                allow_ids.push(id);
            },
            Err(e) => {
                assert(!allow_list_decodes(*request));
                assert(first_bad_credential(*request, i as int)) by {
                    assert forall|j: int| 0 <= j < i implies is_b64url(
                        #[trigger] request.allow_credentials@[j]@,
                    ) by {
                        assert(b64url_encode(allow_ids@[j]@) == request.allow_credentials@[j]@);
                    }
                }
                return Err(e);
            },
        }
    }
    assert(allow_list_decodes(*request)) by {
        assert forall|k: int| 0 <= k < request.allow_credentials@.len() implies is_b64url(
            #[trigger] request.allow_credentials@[k]@,
        ) by {
            let b = allow_ids@[k]@;
            assert(b64url_encode(b) == request.allow_credentials@[k]@);
        }
    }
    // The challenge is only checked: clientDataJSON carries it as sent.
    match b64_decode(request.challenge.as_str(), "challenge") {
        Ok(c) => {
            assert(is_b64url(request.challenge@)) by {
                assert(b64url_encode(c@) == request.challenge@);
            }
        },
        Err(e) => {
            return Err(e);
        },
    }
    let client_data = client_data_json(
        request.challenge.as_str(),
        request.origin.as_str(),
        request.cross_origin,
    );
    Ok(PreparedAssertion { rp_id: request.rp_id.clone(), client_data, allow_ids })
}

/// The user verification requirement, `"preferred"` when none is named.
pub fn user_verification_requirement(user_verification: &Option<String>) -> (r: String)
    ensures
        r@ == uv_requirement(*user_verification),
{
    match user_verification {
        Some(u) => u.clone(),
        None => "preferred".to_owned(),
    }
}

/// The first decision on user verification: a PIN the user entered is
/// used; otherwise a `"discouraged"` requirement asks for none; otherwise
/// the key must be asked what it supports.
pub fn plan_user_verification(pin: &Option<String>, user_verification: &Option<String>) -> (r:
    UvPlan)
    ensures
        match pin {
            Some(p) => r matches UvPlan::Pin(q) && q@ == p@,
            None => if uv_requirement(*user_verification) == "discouraged"@ {
                r is WithoutPinAndUv
            } else {
                r is AskKey
            },
        },
{
    let req = user_verification_requirement(user_verification);
    match pin {
        Some(p) => UvPlan::Pin(p.clone()),
        None => {
            if text_eq(req.as_str(), "discouraged") {
                UvPlan::WithoutPinAndUv
            } else {
                UvPlan::AskKey
            }
        },
    }
}

/// The error when no security key can be opened; `detail` is the reason
/// the HID layer gave.
pub fn no_device_error(detail: &str) -> (e: WebAuthnError)
    ensures
        is_error(e, CODE_NO_DEVICE@, "no FIDO2 security key found: "@ + detail@),
{
    WebAuthnError::new(CODE_NO_DEVICE, concat("no FIDO2 security key found: ", detail))
}

/// The error when the worker that drives the key could not be joined.
pub fn join_error(detail: &str) -> (e: WebAuthnError)
    ensures
        is_error(e, CODE_INTERNAL@, "task join error: "@ + detail@),
{
    WebAuthnError::new(CODE_INTERNAL, concat("task join error: ", detail))
}

/// Whether the key verifies users itself (its `uv` option is set), in which
/// case its PIN setting need not be asked for.
pub fn key_verifies_users(built_in_uv: Option<bool>) -> (r: bool)
    ensures
        r == (built_in_uv == Some(true)),
{
    match built_in_uv {
        Some(b) => b,
        None => false,
    }
}

/// The decision once the key's options are known (no PIN was entered and
/// verification is not discouraged). `built_in_uv` and `pin_set` are the
/// key's `uv` and `clientPin` options, `None` when it did not say; `pin_set`
/// is only consulted when the key has no built-in verification.
pub fn resolve_key_verification(
    user_verification: &Option<String>,
    built_in_uv: Option<bool>,
    pin_set: Option<bool>,
) -> (r: Result<KeyUv, WebAuthnError>)
    ensures
        built_in_uv == Some(true) ==> r matches Ok(KeyUv::BuiltIn),
        built_in_uv != Some(true) && pin_set == Some(true) ==> (r matches Err(e) && is_error(
            e,
            CODE_PIN_REQUIRED@,
            "security key requires its PIN"@,
        )),
        built_in_uv != Some(true) && pin_set != Some(true) && uv_requirement(*user_verification)
            == "required"@ ==> (r matches Err(e) && is_error(
            e,
            CODE_UV_UNAVAILABLE@,
            "user verification required but the key has no PIN set and no built-in verification"@,
        )),
        built_in_uv != Some(true) && pin_set != Some(true) && uv_requirement(*user_verification)
            != "required"@ ==> r matches Ok(KeyUv::WithoutPinAndUv),
{
    if built_in_uv == Some(true) {
        return Ok(KeyUv::BuiltIn);
    }
    if pin_set == Some(true) {
        return Err(WebAuthnError::new(CODE_PIN_REQUIRED, "security key requires its PIN".to_owned()));
    }
    let req = user_verification_requirement(user_verification);
    if text_eq(req.as_str(), "required") {
        return Err(
            WebAuthnError::new(
                CODE_UV_UNAVAILABLE,
                "user verification required but the key has no PIN set and no built-in verification".to_owned(),
            ),
        );
    }
    Ok(KeyUv::WithoutPinAndUv)
}

/// The next step of user verification, given the PIN the user entered, the
/// relying party's requirement, and the key's answers so far: `built_in_uv`
/// and `pin_set` are `None` while that option has not been asked, else the
/// key's answer (itself `None` when the key did not say).
///
/// A PIN is used when there is one; a `"discouraged"` requirement asks for
/// nothing; otherwise the key's `uv` option is asked first, and its
/// `clientPin` option only when it does not verify users itself.
pub fn next_verification_step(
    pin: &Option<String>,
    user_verification: &Option<String>,
    built_in_uv: Option<Option<bool>>,
    pin_set: Option<Option<bool>>,
) -> (step: VerificationStep)
    ensures
        step_follows(*pin, *user_verification, built_in_uv, pin_set, step),
{
    match plan_user_verification(pin, user_verification) {
        UvPlan::Pin(p) => VerificationStep::Sign(SignMode::Pin(p)),
        UvPlan::WithoutPinAndUv => VerificationStep::Sign(SignMode::WithoutPinAndUv),
        UvPlan::AskKey => {
            let uv = match built_in_uv {
                None => return VerificationStep::Ask(KeyOption::Uv),
                Some(uv) => uv,
            };
            if uv == Some(true) {
                return VerificationStep::Sign(SignMode::AsIs);
            }
            let set = match pin_set {
                None => return VerificationStep::Ask(KeyOption::ClientPin),
                Some(set) => set,
            };
            match resolve_key_verification(user_verification, uv, set) {
                Ok(KeyUv::BuiltIn) => VerificationStep::Sign(SignMode::AsIs),
                Ok(KeyUv::WithoutPinAndUv) => VerificationStep::Sign(SignMode::WithoutPinAndUv),
                Err(e) => VerificationStep::Fail(e),
            }
        },
    }
}

/// What the verification exchange ends in. An entered PIN is used. A
/// `"discouraged"` requirement signs without verification. A key that
/// verifies users itself signs as built. A key without built-in
/// verification that has a PIN set makes the page ask for the PIN, whatever
/// the requirement (`"required"` included). A key with neither refuses a
/// `"required"` request and otherwise signs without verification.
pub proof fn verification_step_outcomes(
    pin: Option<String>,
    user_verification: Option<String>,
    built_in_uv: Option<Option<bool>>,
    pin_set: Option<Option<bool>>,
    step: VerificationStep,
)
    requires
        step_follows(pin, user_verification, built_in_uv, pin_set, step),
    ensures
        pin matches Some(p) ==> (step matches VerificationStep::Sign(SignMode::Pin(q)) && q@ == p@),
        pin is None && uv_requirement(user_verification) == "discouraged"@ ==> (
        step matches VerificationStep::Sign(SignMode::WithoutPinAndUv)),
        pin is None && uv_requirement(user_verification) != "discouraged"@ && built_in_uv == Some(
            Some(true),
        ) ==> (step matches VerificationStep::Sign(SignMode::AsIs)),
        pin is None && uv_requirement(user_verification) != "discouraged"@ && built_in_uv is Some
            && built_in_uv != Some(Some(true)) && pin_set == Some(Some(true)) ==> (
        step matches VerificationStep::Fail(e) && e.code@ == "pin-required"@
            && e.message@ == "security key requires its PIN"@),
        pin is None && uv_requirement(user_verification) == "required"@ && built_in_uv is Some
            && built_in_uv != Some(Some(true)) && pin_set is Some && pin_set != Some(Some(true))
            ==> (step matches VerificationStep::Fail(e) && e.code@ == "uv-unavailable"@),
        pin is None && uv_requirement(user_verification) != "required"@ && uv_requirement(
            user_verification,
        ) != "discouraged"@ && built_in_uv is Some && built_in_uv != Some(Some(true))
            && pin_set is Some && pin_set != Some(Some(true)) ==> (
        step matches VerificationStep::Sign(SignMode::WithoutPinAndUv)),
{
    reveal_strlit("required");
    reveal_strlit("discouraged");
    assert("required"@[0] != "discouraged"@[0]);
}

/// The stable code of an authenticator error text depends on which CTAP
/// status names occur anywhere in it, in this order of precedence:
/// `PIN_INVALID`/`PIN_AUTH_INVALID`, then `PIN_REQUIRED`/`PIN_NOT_SET`/
/// `PUAT_REQUIRED`, then `PIN_BLOCKED`/`PIN_AUTH_BLOCKED`/`UV_BLOCKED`, then
/// `NO_CREDENTIALS`, then `USER_ACTION_TIMEOUT`/`ACTION_TIMEOUT`/
/// `KEEPALIVE_CANCEL`, then `OPERATION_DENIED`; a text naming none is
/// `internal`.
pub proof fn ctap_code_follows_status_names(msg: Seq<char>)
    ensures
        contains_text(msg, "PIN_INVALID"@) ==> ctap_code(msg) == "pin-invalid"@,
        contains_text(msg, "PIN_AUTH_INVALID"@) ==> ctap_code(msg) == "pin-invalid"@,
        !contains_text(msg, "PIN_INVALID"@) && !contains_text(msg, "PIN_AUTH_INVALID"@) ==> {
            &&& contains_text(msg, "PIN_REQUIRED"@) || contains_text(msg, "PIN_NOT_SET"@)
                || contains_text(msg, "PUAT_REQUIRED"@) ==> ctap_code(msg) == "pin-required"@
            &&& !contains_text(msg, "PIN_REQUIRED"@) && !contains_text(msg, "PIN_NOT_SET"@)
                && !contains_text(msg, "PUAT_REQUIRED"@) ==> {
                &&& contains_text(msg, "PIN_BLOCKED"@) || contains_text(msg, "PIN_AUTH_BLOCKED"@)
                    || contains_text(msg, "UV_BLOCKED"@) ==> ctap_code(msg) == "pin-blocked"@
                &&& !contains_text(msg, "PIN_BLOCKED"@) && !contains_text(msg, "PIN_AUTH_BLOCKED"@)
                    && !contains_text(msg, "UV_BLOCKED"@) ==> {
                    &&& contains_text(msg, "NO_CREDENTIALS"@) ==> ctap_code(msg)
                        == "no-credentials"@
                    &&& !contains_text(msg, "NO_CREDENTIALS"@) ==> {
                        &&& contains_text(msg, "USER_ACTION_TIMEOUT"@) || contains_text(
                            msg,
                            "ACTION_TIMEOUT"@,
                        ) || contains_text(msg, "KEEPALIVE_CANCEL"@) ==> ctap_code(msg)
                            == "timeout"@
                        &&& !contains_text(msg, "USER_ACTION_TIMEOUT"@) && !contains_text(
                            msg,
                            "ACTION_TIMEOUT"@,
                        ) && !contains_text(msg, "KEEPALIVE_CANCEL"@) ==> {
                            &&& contains_text(msg, "OPERATION_DENIED"@) ==> ctap_code(msg)
                                == "not-allowed"@
                            &&& !contains_text(msg, "OPERATION_DENIED"@) ==> ctap_code(msg)
                                == "internal"@
                        }
                    }
                }
            }
        },
{
}

/// The allowlist and the rpId rule, spelled out: a request is valid exactly
/// for one of the three Microsoft sign-in origins, with an rpId that is that
/// origin's host, or a dotted parent domain of it (`.rp_id` ends the host).
pub proof fn valid_origins_and_rp_ids(origin: Seq<char>, rp_id: Seq<char>)
    ensures
        origin_and_rp_id_valid(origin, rp_id) <==> {
            ||| origin == "https://login.microsoftonline.com"@ && host_fits(
                "login.microsoftonline.com"@,
                rp_id,
            )
            ||| origin == "https://login.microsoft.com"@ && host_fits("login.microsoft.com"@, rp_id)
            ||| origin == "https://login.live.com"@ && host_fits("login.live.com"@, rp_id)
        },
{
    reveal_strlit("https://login.microsoftonline.com");
    reveal_strlit("https://login.microsoft.com");
    reveal_strlit("https://login.live.com");
    reveal_strlit("login.microsoftonline.com");
    reveal_strlit("login.microsoft.com");
    reveal_strlit("login.live.com");
    reveal_strlit("https://");
    let a = "https://login.microsoftonline.com"@;
    let b = "https://login.microsoft.com"@;
    let c = "https://login.live.com"@;
    assert(a.subrange(0, 8) =~= HTTPS_PREFIX@);
    assert(b.subrange(0, 8) =~= HTTPS_PREFIX@);
    assert(c.subrange(0, 8) =~= HTTPS_PREFIX@);
    assert(origin_host(a) =~= "login.microsoftonline.com"@);
    assert(origin_host(b) =~= "login.microsoft.com"@);
    assert(origin_host(c) =~= "login.live.com"@);
}

/// `rp_id` is `host` itself, or contains a dot and ends `host` after a `.`.
pub open spec fn host_fits(host: Seq<char>, rp_id: Seq<char>) -> bool {
    ||| rp_id == host
    ||| rp_id.contains('.') && rp_id.len() < host.len() && host.subrange(
        host.len() - rp_id.len() - 1,
        host.len() as int,
    ) == seq!['.'] + rp_id
}

/// An encoded assertion gives back the key's bytes: each byte field decodes
/// (as base64url) to what the key returned, the user handle is present
/// exactly when the key returned a non-empty user id, and the user names
/// are passed through.
pub proof fn encoded_assertion_decodes_to_raw(out: AssertionOut, raw: RawAssertion, b: Seq<u8>)
    requires
        assertion_encodes(out, raw),
    ensures
        out.user_handle is None <==> raw.user_id@.len() == 0,
        b64url_encode(b) == out.credential_id@ ==> b == raw.credential_id@,
        b64url_encode(b) == out.authenticator_data@ ==> b == raw.auth_data@,
        b64url_encode(b) == out.signature@ ==> b == raw.signature@,
        out.user_handle matches Some(h) && b64url_encode(b) == h@ ==> b == raw.user_id@,
        out.user_name@ == raw.user_name@,
        out.user_display_name@ == raw.user_display_name@,
{
    if b64url_encode(b) == out.credential_id@ {
        lemma_b64url_injective(b, raw.credential_id@);
    }
    if b64url_encode(b) == out.authenticator_data@ {
        lemma_b64url_injective(b, raw.auth_data@);
    }
    if b64url_encode(b) == out.signature@ {
        lemma_b64url_injective(b, raw.signature@);
    }
    if out.user_handle is Some && raw.user_id@.len() > 0 {
        if b64url_encode(b) == out.user_handle->0@ {
            lemma_b64url_injective(b, raw.user_id@);
        }
    }
}

/// The exchange asks the key each option at most once, in order: `uv` only
/// while unanswered, `clientPin` only after the key said it does not verify
/// users itself, and nothing once both are answered.
pub proof fn verification_asks_in_order(
    pin: Option<String>,
    user_verification: Option<String>,
    built_in_uv: Option<Option<bool>>,
    pin_set: Option<Option<bool>>,
    step: VerificationStep,
)
    requires
        step_follows(pin, user_verification, built_in_uv, pin_set, step),
    ensures
        step matches VerificationStep::Ask(KeyOption::Uv) ==> built_in_uv is None,
        step matches VerificationStep::Ask(KeyOption::ClientPin) ==> (built_in_uv matches Some(
            b,
        ) && b != Some(true) && pin_set is None),
        built_in_uv is Some && pin_set is Some ==> !(step is Ask),
        built_in_uv == Some(Some(true)) ==> !(step is Ask),
{
}

/// `step` is what `next_verification_step` gives for these inputs.
pub open spec fn step_follows(
    pin: Option<String>,
    user_verification: Option<String>,
    built_in_uv: Option<Option<bool>>,
    pin_set: Option<Option<bool>>,
    step: VerificationStep,
) -> bool {
    match pin {
        Some(p) => step matches VerificationStep::Sign(SignMode::Pin(q)) && q@ == p@,
        None => if uv_requirement(user_verification) == "discouraged"@ {
            step matches VerificationStep::Sign(SignMode::WithoutPinAndUv)
        } else {
            match built_in_uv {
                None => step matches VerificationStep::Ask(KeyOption::Uv),
                Some(Some(true)) => step matches VerificationStep::Sign(SignMode::AsIs),
                Some(_) => match pin_set {
                    None => step matches VerificationStep::Ask(KeyOption::ClientPin),
                    Some(Some(true)) => step matches VerificationStep::Fail(e) && is_error(
                        e,
                        CODE_PIN_REQUIRED@,
                        "security key requires its PIN"@,
                    ),
                    Some(_) => if uv_requirement(user_verification) == "required"@ {
                        step matches VerificationStep::Fail(e) && is_error(
                            e,
                            CODE_UV_UNAVAILABLE@,
                            "user verification required but the key has no PIN set and no built-in verification"@,
                        )
                    } else {
                        step matches VerificationStep::Sign(SignMode::WithoutPinAndUv)
                    },
                },
            }
        },
    }
}

/// One assertion encoded for the page.
pub fn encode_assertion(raw: &RawAssertion) -> (out: AssertionOut)
    ensures
        assertion_encodes(out, *raw),
{
    let user_handle = if raw.user_id.len() == 0 {
        None
    } else {
        Some(encode_b64url(raw.user_id.as_slice()))
    };
    AssertionOut {
        credential_id: encode_b64url(raw.credential_id.as_slice()),
        authenticator_data: encode_b64url(raw.auth_data.as_slice()),
        signature: encode_b64url(raw.signature.as_slice()),
        user_handle,
        user_name: raw.user_name.clone(),
        user_display_name: raw.user_display_name.clone(),
    }
}

/// The answer to the page: the client data as base64url of its UTF-8 bytes,
/// and every assertion the key returned, in order, encoded.
pub fn build_response(client_data: &str, assertions: &Vec<RawAssertion>) -> (r: GetResponse)
    ensures
        r.client_data_json@ == b64url_encode(encode_utf8(client_data@)),
        r.assertions@.len() == assertions@.len(),
        forall|i: int|
            0 <= i < assertions@.len() ==> assertion_encodes(
                #[trigger] r.assertions@[i],
                assertions@[i],
            ),
{
    let mut out: Vec<AssertionOut> = Vec::new();
    let n = assertions.len();
    for i in 0..n
        invariant
            n == assertions@.len(),
            out@.len() == i,
            forall|k: int| 0 <= k < i ==> assertion_encodes(#[trigger] out@[k], assertions@[k]),
    {
        out.push(encode_assertion(&assertions[i]));
    }
    GetResponse { client_data_json: encode_b64url(client_data.as_bytes()), assertions: out }
}

} // verus!
