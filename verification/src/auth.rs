//! OAuth2 authorization-code flow with PKCE: the token record, its validity
//! rule, the lifecycle's decisions, and the requests the flow sends.

use vstd::prelude::*;
use vstd::string::*;
use base64::Engine;
use rand::Rng;
use sha2::Digest;
use crate::encoding::{percent_encode, percent_encoded, same_text};

verus! {

/// Scopes requested from the provider, space-delimited.
pub const SCOPES: &'static str =
    "https://www.googleapis.com/auth/calendar.readonly https://www.googleapis.com/auth/tasks";

/// Seconds before the recorded expiry at which a token stops being used.
pub const EXPIRY_BUFFER_SECS: i64 = 60;

/// Number of random bytes behind a PKCE verifier.
pub const VERIFIER_BYTES: usize = 32;

/// Operator-supplied client credentials, as stored on disk.
#[derive(Debug, Clone)]
pub struct Credentials {
    pub installed: InstalledCredentials,
}

/// The nested record of the credentials file.
#[derive(Debug, Clone)]
pub struct InstalledCredentials {
    pub client_id: String,
    pub client_secret: String,
    pub auth_uri: String,
    pub token_uri: String,
}

/// The persisted token record. `expires_at` is in epoch seconds.
#[derive(Debug, Clone)]
pub struct Token {
    pub access_token: String,
    pub refresh_token: Option<String>,
    pub expires_at: Option<i64>,
}

/// What the token endpoint answers on success.
#[derive(Debug, Clone)]
pub struct TokenResponse {
    pub access_token: String,
    pub refresh_token: Option<String>,
    pub expires_in: Option<i64>,
}

/// A verifier and the challenge derived from it, for one authorization attempt.
#[derive(Debug, Clone)]
pub struct PkcePair {
    pub verifier: String,
    pub challenge: String,
}

/// Why the redirect that ends the consent step gave no authorization code.
#[derive(Debug, Clone, Copy, PartialEq, Eq)]
pub enum CallbackError {
    /// The request target did not parse as a URL on the local origin.
    BadUrl,
    /// The URL carries no `code` query parameter.
    MissingCode,
}

/// The two grants made at the token endpoint.
#[derive(Debug, Clone, Copy, PartialEq, Eq)]
pub enum Grant {
    Refresh,
    AuthorizationCode,
}

/// A grant that the token endpoint refused, with the provider's error body.
#[derive(Debug, Clone)]
pub enum TokenError {
    /// The refresh grant failed; the lifecycle goes on to authorize.
    Refresh(String),
    /// The authorization-code grant failed; the attempt ends.
    Exchange(String),
}

/// What the lifecycle does next for a stored token and the current time.
#[derive(Debug, Clone)]
pub enum AccessStep {
    /// The stored access token is still usable: return it, no network call.
    Cached(String),
    /// Try a refresh grant with this refresh token.
    Refresh(String),
    /// Run the interactive authorization.
    Authorize,
}

/// A token is usable at `now` while `now + 60 < expires_at`; one without a
/// recorded expiry is never taken as usable.
pub open spec fn token_usable(token: Token, now: i64) -> bool {
    match token.expires_at {
        Some(e) => e as int > now as int + EXPIRY_BUFFER_SECS as int,
        None => false,
    }
}

/// The step that the lifecycle takes for a stored token at `now`.
pub open spec fn access_step(stored: Option<Token>, now: i64) -> AccessStep {
    match stored {
        Some(token) => if token_usable(token, now) {
            AccessStep::Cached(token.access_token)
        } else {
            match token.refresh_token {
                Some(r) => AccessStep::Refresh(r),
                None => AccessStep::Authorize,
            }
        },
        None => AccessStep::Authorize,
    }
}

/// Decides `token_usable`.
pub fn token_is_usable(token: &Token, now: i64) -> (r: bool)
    ensures
        r == token_usable(*token, now),
{
    match token.expires_at {
        Some(e) => now <= i64::MAX - EXPIRY_BUFFER_SECS && e > now + EXPIRY_BUFFER_SECS,
        None => false,
    }
}

/// First decision of the token lifecycle: serve the stored token, refresh
/// it, or authorize interactively.
pub fn get_access_token(stored: Option<Token>, now: i64) -> (step: AccessStep)
    ensures
        step == access_step(stored, now),
{
    match stored {
        Some(token) => {
            if token_is_usable(&token, now) {
                AccessStep::Cached(token.access_token)
            } else {
                match token.refresh_token {
                    Some(r) => AccessStep::Refresh(r),
                    None => AccessStep::Authorize,
                }
            }
        },
        None => AccessStep::Authorize,
    }
}

/// The step after a refresh grant: its token is persisted and served, a
/// failed refresh falls through to the interactive authorization.
pub fn after_refresh(outcome: Result<Token, String>) -> (step: Result<Token, AccessStep>)
    ensures
        match outcome {
            Ok(t) => step == Ok::<Token, AccessStep>(t),
            Err(_) => step == Err::<Token, AccessStep>(AccessStep::Authorize),
        },
{
    match outcome {
        Ok(t) => Ok(t),
        Err(_) => Err(AccessStep::Authorize),
    }
}

/// A token whose expiry lies 59 seconds ahead is not served from the store,
/// one whose expiry lies 61 seconds ahead is.
pub proof fn lemma_expiry_buffer(token: Token, now: i64)
    requires
        token.expires_at is Some,
    ensures
        token.expires_at->0 as int == now as int + 59 ==> !(access_step(Some(token), now) is Cached),
        token.expires_at->0 as int == now as int + 61 ==> access_step(Some(token), now)
            == AccessStep::Cached(token.access_token),
        token.expires_at->0 as int <= now as int + 60 ==> !token_usable(token, now),
        token.expires_at->0 as int > now as int + 60 ==> token_usable(token, now),
{
}

/// Absolute expiry for a lifetime of `expires_in` seconds counted from `now`.
pub open spec fn expiry_of(expires_in: Option<i64>, now: i64) -> Option<i64> {
    match expires_in {
        Some(secs) => Some((now + secs) as i64),
        None => None,
    }
}

/// Whether the expiry of a response received at `now` fits the timestamp type.
pub open spec fn expiry_fits(expires_in: Option<i64>, now: i64) -> bool {
    match expires_in {
        Some(secs) => i64::MIN <= now + secs <= i64::MAX,
        None => true,
    }
}

/// Decides `expiry_fits`.
pub fn expiry_in_range(expires_in: &Option<i64>, now: i64) -> (r: bool)
    ensures
        r == expiry_fits(*expires_in, now),
{
    match expires_in {
        Some(secs) => now.checked_add(*secs).is_some(),
        None => true,
    }
}

fn expiry_at(expires_in: Option<i64>, now: i64) -> (r: Option<i64>)
    requires
        expiry_fits(expires_in, now),
    ensures
        r == expiry_of(expires_in, now),
{
    match expires_in {
        Some(secs) => Some(now + secs),
        None => None,
    }
}

fn copy_text(text: &Option<String>) -> (r: Option<String>)
    ensures
        r == *text,
{
    match text {
        Some(s) => Some(s.clone()),
        None => None,
    }
}

/// The refresh token kept after a refresh grant: the response's, or,
/// where it has none, the one the grant was made with.
pub open spec fn kept_refresh_token(response: TokenResponse, refresh_token: Seq<char>) -> Seq<char> {
    match response.refresh_token {
        Some(r) => r@,
        None => refresh_token,
    }
}

/// The refresh token that is kept after a refresh grant, whatever else
/// the response holds: a response that omits it retains the previous one.
pub fn retained_refresh_token(response: &TokenResponse, previous: &str) -> (kept: String)
    ensures
        kept@ == kept_refresh_token(*response, previous@),
        response.refresh_token is None ==> kept@ == previous@,
{
    match &response.refresh_token {
        Some(r) => r.clone(),
        None => String::from_str(previous),
    }
}

/// The token that a successful refresh grant yields: the response's access
/// token and expiry, and the response's refresh token or, where it has
/// none, the one the grant was made with.
pub fn refresh_access_token(response: &TokenResponse, refresh_token: &str, now: i64) -> (token:
    Token)
    requires
        expiry_fits(response.expires_in, now),
    ensures
        token.access_token == response.access_token,
        token.expires_at == expiry_of(response.expires_in, now),
        token.refresh_token is Some,
        token.refresh_token->0@ == kept_refresh_token(*response, refresh_token@),
{
    let expires_at = expiry_at(response.expires_in, now);
    let kept = retained_refresh_token(response, refresh_token);
    Token { access_token: response.access_token.clone(), refresh_token: Some(kept), expires_at }
}

/// The token that a successful authorization-code grant yields.
pub fn exchanged_token(response: &TokenResponse, now: i64) -> (token: Token)
    requires
        expiry_fits(response.expires_in, now),
    ensures
        token.access_token == response.access_token,
        token.refresh_token == response.refresh_token,
        token.expires_at == expiry_of(response.expires_in, now),
{
    let expires_at = expiry_at(response.expires_in, now);
    Token {
        access_token: response.access_token.clone(),
        refresh_token: copy_text(&response.refresh_token),
        expires_at,
    }
}

/// Whether an HTTP status is a success: 200 to 299.
pub open spec fn status_ok(status: u16) -> bool {
    200 <= status < 300
}

/// Decides `status_ok`.
pub fn is_success_status(status: u16) -> (r: bool)
    ensures
        r == status_ok(status),
{
    200 <= status && status < 300
}

/// What an answer of the token endpoint means for a grant: its body on a
/// success status, else the grant's error carrying the body.
pub fn token_endpoint_outcome(grant: Grant, status: u16, body: String) -> (r: Result<
    String,
    TokenError,
>)
    ensures
        status_ok(status) ==> r == Ok::<String, TokenError>(body),
        !status_ok(status) && grant == Grant::Refresh ==> r == Err::<String, TokenError>(
            TokenError::Refresh(body),
        ),
        !status_ok(status) && grant == Grant::AuthorizationCode ==> r == Err::<
            String,
            TokenError,
        >(TokenError::Exchange(body)),
{
    if is_success_status(status) {
        Ok(body)
    } else {
        match grant {
            Grant::Refresh => Err(TokenError::Refresh(body)),
            Grant::AuthorizationCode => Err(TokenError::Exchange(body)),
        }
    }
}

impl TokenError {
    /// The error as a line of text: what failed, then the provider's body.
    pub fn message(&self) -> (text: String)
        ensures
            text@ == match *self {
                TokenError::Refresh(body) => "Token refresh failed: "@ + body@,
                TokenError::Exchange(body) => "Token exchange failed: "@ + body@,
            },
    {
        match self {
            TokenError::Refresh(body) => {
                let mut text = String::from_str("Token refresh failed: ");
                text.append(body.as_str());
                text
            },
            TokenError::Exchange(body) => {
                let mut text = String::from_str("Token exchange failed: ");
                text.append(body.as_str());
                text
            },
        }
    }
}

/// The longest token lifetime, in seconds, whose end fits the timestamp
/// type at every instant that the clock can show.
pub const LONGEST_LIFETIME: i64 = 9_000_000_000_000_000_000;

/// The current time in epoch seconds, by `chrono::Utc::now().timestamp()`.
/// The contract claims what the call's source shows of every reading: it
/// counts from 1970 onwards, and its day number, counted from the year 1,
/// fits 32 bits.
#[verifier::external_body]
pub(crate) fn now_secs() -> (now: i64)
    ensures
        now >= 0,
        now / 86_400 + 719_163 <= 0x7fff_ffff,
{
    chrono::Utc::now().timestamp()
}

/// The lifecycle's first decision at the current time.
pub fn current_access_step(stored: Option<Token>) -> (step: AccessStep)
    ensures
        exists|at: i64| step == #[trigger] access_step(stored, at),
        stored is None ==> step == AccessStep::Authorize,
{
    let now = now_secs();
    get_access_token(stored, now)
}

/// Whether `token` is what a refresh grant answered with `response` at
/// `now` yields.
pub open spec fn is_refreshed(
    token: Token,
    response: TokenResponse,
    refresh_token: Seq<char>,
    now: i64,
) -> bool {
    &&& expiry_fits(response.expires_in, now)
    &&& token.access_token == response.access_token
    &&& token.expires_at == expiry_of(response.expires_in, now)
    &&& token.refresh_token is Some
    &&& token.refresh_token->0@ == kept_refresh_token(response, refresh_token)
}

/// The token of a refresh grant answered just now; `None` where its
/// expiry does not fit the timestamp type. A response without a lifetime
/// always yields a token.
pub fn token_from_refresh(response: &TokenResponse, refresh_token: &str) -> (r: Option<Token>)
    ensures
        response.expires_in is None ==> r is Some,
        response.expires_in is Some && response.expires_in->0 <= LONGEST_LIFETIME ==> r is Some,
        r is Some ==> r->0.access_token == response.access_token && r->0.refresh_token is Some
            && r->0.refresh_token->0@ == kept_refresh_token(*response, refresh_token@),
        r is Some ==> exists|at: i64| #[trigger]
            is_refreshed(r->0, *response, refresh_token@, at),
{
    let now = now_secs();
    if expiry_in_range(&response.expires_in, now) {
        let token = refresh_access_token(response, refresh_token, now);
        let r = Some(token);
        assert(is_refreshed(r->0, *response, refresh_token@, now));
        r
    } else {
        None
    }
}

/// Whether `token` is what an authorization-code grant answered with
/// `response` at `now` yields.
pub open spec fn is_exchanged(token: Token, response: TokenResponse, now: i64) -> bool {
    &&& expiry_fits(response.expires_in, now)
    &&& token.access_token == response.access_token
    &&& token.expires_at == expiry_of(response.expires_in, now)
    &&& token.refresh_token == response.refresh_token
}

/// The token of an authorization-code grant answered just now; `None`
/// where its expiry does not fit the timestamp type.
pub fn token_from_exchange(response: &TokenResponse) -> (r: Option<Token>)
    ensures
        response.expires_in is None ==> r is Some,
        response.expires_in is Some && response.expires_in->0 <= LONGEST_LIFETIME ==> r is Some,
        r is Some ==> r->0.access_token == response.access_token && r->0.refresh_token
            == response.refresh_token,
        r is Some ==> exists|at: i64| #[trigger] is_exchanged(r->0, *response, at),
{
    let now = now_secs();
    if expiry_in_range(&response.expires_in, now) {
        let token = exchanged_token(response, now);
        let r = Some(token);
        assert(is_exchanged(r->0, *response, now));
        r
    } else {
        None
    }
}

/// A file name inside a directory: the two joined with `/`, or the bare
/// name where the directory is the empty text.
pub open spec fn path_in(base_dir: Seq<char>, name: Seq<char>) -> Seq<char> {
    if base_dir.len() == 0 {
        name
    } else {
        base_dir + "/"@ + name
    }
}

pub(crate) fn file_in(base_dir: &str, name: &str) -> (r: String)
    ensures
        r@ == path_in(base_dir@, name@),
{
    if base_dir.is_empty() {
        String::from_str(name)
    } else {
        let mut p = String::from_str(base_dir);
        p.append("/");
        p.append(name);
        p
    }
}

/// Path of the credentials file inside the program's directory.
pub fn get_credentials_path(base_dir: &str) -> (r: String)
    ensures
        r@ == path_in(base_dir@, "credentials.json"@),
{
    file_in(base_dir, "credentials.json")
}

/// Path of the token file inside the program's directory.
pub fn get_token_path(base_dir: &str) -> (r: String)
    ensures
        r@ == path_in(base_dir@, "token.json"@),
{
    file_in(base_dir, "token.json")
}

/// The SHA-256 digest of a byte string, as `sha2::Sha256` computes it.
pub uninterp spec fn sha256(data: Seq<u8>) -> Seq<u8>;

/// The unpadded URL-safe base64 text of a byte string, as the engine
/// `base64::engine::general_purpose::URL_SAFE_NO_PAD` encodes it.
pub uninterp spec fn base64url_nopad(data: Seq<u8>) -> Seq<char>;

/// Hashes with `sha2::Sha256` (`new`, `update`, `finalize`). The contract
/// names the digest and gives its length, 32 bytes.
#[verifier::external_body]
pub(crate) fn sha256_digest(data: &Vec<u8>) -> (digest: Vec<u8>)
    ensures
        digest@ == sha256(data@),
        digest@.len() == 32,
{
    let mut hasher = sha2::Sha256::new();
    hasher.update(data.as_slice());
    hasher.finalize().to_vec()
}

/// Length of the unpadded base64 text of `n` bytes: four characters for
/// every three bytes, and two or three for one or two bytes left over.
pub open spec fn base64_length(n: nat) -> nat {
    n / 3 * 4 + if n % 3 == 0 {
        0nat
    } else if n % 3 == 1 {
        2nat
    } else {
        3nat
    }
}

/// A character of the URL-safe base64 alphabet: a letter, a digit, `-` or `_`.
pub open spec fn url_safe_char(c: char) -> bool {
    ('A' <= c && c <= 'Z') || ('a' <= c && c <= 'z') || ('0' <= c && c <= '9') || c == '-' || c
        == '_'
}

/// Text made of characters of the URL-safe alphabet alone.
pub open spec fn url_safe_text(text: Seq<char>) -> bool {
    forall|i: int| 0 <= i < text.len() ==> url_safe_char(#[trigger] text[i])
}

/// Length of a verifier and of a challenge: the text of 32 bytes.
pub const PKCE_TEXT_LEN: usize = 43;

/// Encodes with `base64::Engine::encode` on `URL_SAFE_NO_PAD`. The contract
/// names the result, and claims its length, as the crate computes it for
/// unpadded text, and that its characters come from the URL-safe alphabet.
#[verifier::external_body]
pub(crate) fn base64url_encode(data: &Vec<u8>) -> (text: String)
    ensures
        text@ == base64url_nopad(data@),
        text@.len() == base64_length(data@.len()),
        url_safe_text(text@),
{
    base64::engine::general_purpose::URL_SAFE_NO_PAD.encode(data.as_slice())
}

/// Draws one byte from `rand::thread_rng()` with `Rng::gen`. Nothing is
/// promised of the byte.
#[verifier::external_body]
pub(crate) fn random_byte() -> (b: u8) {
    rand::thread_rng().gen()
}

/// The PKCE challenge that belongs to a verifier: the base64url text of the
/// SHA-256 digest of the verifier's bytes.
pub open spec fn challenge_of(verifier: Seq<char>) -> Seq<char> {
    base64url_nopad(sha256(vstd::utf8::encode_utf8(verifier)))
}

/// Whether `verifier` is the encoding of 32 bytes.
pub open spec fn is_verifier(verifier: Seq<char>) -> bool {
    exists|bytes: Seq<u8>| bytes.len() == VERIFIER_BYTES && verifier == #[trigger] base64url_nopad(bytes)
}

/// A fresh verifier: 32 random bytes, base64url-encoded without padding.
pub fn generate_code_verifier() -> (verifier: String)
    ensures
        is_verifier(verifier@),
        verifier@.len() == PKCE_TEXT_LEN,
        url_safe_text(verifier@),
{
    let mut bytes: Vec<u8> = Vec::new();
    while bytes.len() < VERIFIER_BYTES
        invariant
            bytes.len() <= VERIFIER_BYTES,
        decreases VERIFIER_BYTES - bytes.len(),
    {
        bytes.push(random_byte());
    }
    base64url_encode(&bytes)
}

/// The challenge for a verifier.
pub fn generate_code_challenge(verifier: &str) -> (challenge: String)
    ensures
        challenge@ == challenge_of(verifier@),
        challenge@.len() == PKCE_TEXT_LEN,
        url_safe_text(challenge@),
{
    let bytes = verifier.as_bytes_vec();
    let digest = sha256_digest(&bytes);
    base64url_encode(&digest)
}

/// A verifier with its challenge.
pub fn generate() -> (pair: PkcePair)
    ensures
        is_verifier(pair.verifier@),
        pair.challenge@ == challenge_of(pair.verifier@),
        pair.verifier@.len() == PKCE_TEXT_LEN,
        pair.challenge@.len() == PKCE_TEXT_LEN,
        url_safe_text(pair.verifier@),
        url_safe_text(pair.challenge@),
{
    let verifier = generate_code_verifier();
    let challenge = generate_code_challenge(verifier.as_str());
    PkcePair { verifier, challenge }
}

/// Whether a stored challenge is the one re-derived from the verifier.
pub fn challenge_matches(verifier: &str, challenge: &str) -> (r: bool)
    ensures
        r == (challenge@ == challenge_of(verifier@)),
{
    let derived = generate_code_challenge(verifier);
    same_text(derived.as_str(), challenge)
}

/// A decimal digit as text.
pub open spec fn digit_text(d: nat) -> Seq<char> {
    if d == 0 {
        "0"@
    } else if d == 1 {
        "1"@
    } else if d == 2 {
        "2"@
    } else if d == 3 {
        "3"@
    } else if d == 4 {
        "4"@
    } else if d == 5 {
        "5"@
    } else if d == 6 {
        "6"@
    } else if d == 7 {
        "7"@
    } else if d == 8 {
        "8"@
    } else {
        "9"@
    }
}

/// A number in decimal, without leading zeros.
pub open spec fn decimal_text(n: nat) -> Seq<char>
    decreases n,
{
    if n < 10 {
        digit_text(n)
    } else {
        decimal_text(n / 10) + digit_text(n % 10)
    }
}

fn digit_str(d: u16) -> (r: &'static str)
    requires
        d < 10,
    ensures
        r@ == digit_text(d as nat),
{
    if d == 0 {
        "0"
    } else if d == 1 {
        "1"
    } else if d == 2 {
        "2"
    } else if d == 3 {
        "3"
    } else if d == 4 {
        "4"
    } else if d == 5 {
        "5"
    } else if d == 6 {
        "6"
    } else if d == 7 {
        "7"
    } else if d == 8 {
        "8"
    } else {
        "9"
    }
}

fn decimal(n: u16) -> (r: String)
    ensures
        r@ == decimal_text(n as nat),
    decreases n,
{
    if n < 10 {
        String::from_str(digit_str(n))
    } else {
        let mut text = decimal(n / 10);
        text.append(digit_str(n % 10));
        text
    }
}

/// The redirect URI of a callback receiver bound to `port` on loopback.
pub fn redirect_uri(port: u16) -> (uri: String)
    ensures
        uri@ == "http://127.0.0.1:"@ + decimal_text(port as nat),
{
    let mut uri = String::from_str("http://127.0.0.1:");
    uri.append(decimal(port).as_str());
    uri
}

/// The authorization request: the endpoint followed by the query
/// parameters, each value percent-encoded.
pub open spec fn authorization_url_of(
    auth_uri: Seq<char>,
    client_id: Seq<char>,
    redirect_uri: Seq<char>,
    challenge: Seq<char>,
) -> Seq<char> {
    auth_uri + "?client_id="@ + percent_encoded(client_id) + "&redirect_uri="@ + percent_encoded(
        redirect_uri,
    ) + "&response_type=code&scope="@ + percent_encoded(SCOPES@) + "&code_challenge="@
        + percent_encoded(challenge)
        + "&code_challenge_method=S256&access_type=offline&prompt=consent"@
}

/// Builds the URL that the browser is sent to for consent.
pub fn authorization_url(creds: &Credentials, redirect_uri: &str, challenge: &str) -> (url: String)
    ensures
        url@ == authorization_url_of(
            creds.installed.auth_uri@,
            creds.installed.client_id@,
            redirect_uri@,
            challenge@,
        ),
{
    let mut url = String::from_str(creds.installed.auth_uri.as_str());
    url.append("?client_id=");
    url.append(percent_encode(creds.installed.client_id.as_str()).as_str());
    url.append("&redirect_uri=");
    url.append(percent_encode(redirect_uri).as_str());
    url.append("&response_type=code&scope=");
    url.append(percent_encode(SCOPES).as_str());
    url.append("&code_challenge=");
    url.append(percent_encode(challenge).as_str());
    url.append("&code_challenge_method=S256&access_type=offline&prompt=consent");
    url
}

/// The name/value pairs that the `url` crate reads from the query of a URL,
/// or `None` where the text is no URL.
pub uninterp spec fn url_query_pairs(url: Seq<char>) -> Option<Seq<(Seq<char>, Seq<char>)>>;

/// The text of each name and value of a list of pairs.
pub open spec fn pairs_text(pairs: Seq<(String, String)>) -> Seq<(Seq<char>, Seq<char>)> {
    pairs.map_values(|p: (String, String)| (p.0@, p.1@))
}

#[verifier::external_type_specification]
#[verifier::external_body]
pub struct ExUrlParseError(url::ParseError);

/// Parses with `url::Url::parse` and collects `Url::query_pairs`, decoded,
/// in their order. The contract names the pairs, and says that an error
/// comes exactly where the text is no URL.
#[verifier::external_body]
pub(crate) fn parse_query_pairs(url: &str) -> (r: Result<Vec<(String, String)>, url::ParseError>)
    ensures
        match r {
            Ok(pairs) => url_query_pairs(url@) == Some(pairs_text(pairs@)),
            Err(_) => url_query_pairs(url@) is None,
        },
{
    let parsed = url::Url::parse(url)?;
    Ok(parsed.query_pairs().map(|(k, v)| (k.into_owned(), v.into_owned())).collect())
}

/// Index of the first pair named `code`, or the length where there is none.
pub open spec fn code_index(pairs: Seq<(Seq<char>, Seq<char>)>) -> int
    decreases pairs.len(),
{
    if pairs.len() == 0 {
        0
    } else if pairs[0].0 == "code"@ {
        0
    } else {
        1 + code_index(pairs.skip(1))
    }
}

/// The value of the first query parameter named `code`.
pub open spec fn code_of(pairs: Seq<(Seq<char>, Seq<char>)>) -> Option<Seq<char>> {
    if code_index(pairs) < pairs.len() {
        Some(pairs[code_index(pairs)].1)
    } else {
        None
    }
}

proof fn lemma_code_index(pairs: Seq<(Seq<char>, Seq<char>)>, i: int)
    requires
        0 <= i <= pairs.len(),
        forall|j: int| 0 <= j < i ==> (#[trigger] pairs[j]).0 != "code"@,
        i < pairs.len() ==> pairs[i].0 == "code"@,
    ensures
        code_index(pairs) == i,
    decreases i,
{
    if i > 0 {
        let rest = pairs.skip(1);
        assert forall|j: int| 0 <= j < i - 1 implies (#[trigger] rest[j]).0 != "code"@ by {
            assert(rest[j] == pairs[j + 1]);
        }
        lemma_code_index(rest, i - 1);
    }
}

/// Picks the authorization code out of the query parameters of the redirect.
pub fn find_code(pairs: &Vec<(String, String)>) -> (code: Option<String>)
    ensures
        match code {
            Some(c) => code_of(pairs_text(pairs@)) == Some(c@),
            None => code_of(pairs_text(pairs@)) is None,
        },
{
    let mut i: usize = 0;
    while i < pairs.len()
        invariant
            i <= pairs.len(),
            forall|j: int| 0 <= j < i ==> (#[trigger] pairs_text(pairs@)[j]).0 != "code"@,
        decreases pairs.len() - i,
    {
        if same_text(pairs[i].0.as_str(), "code") {
            proof {
                lemma_code_index(pairs_text(pairs@), i as int);
            }
            return Some(pairs[i].1.clone());
        }
        i = i + 1;
    }
    proof {
        lemma_code_index(pairs_text(pairs@), i as int);
    }
    None
}

/// The URL that a request target stands for on the local origin.
pub open spec fn callback_url_of(request_target: Seq<char>) -> Seq<char> {
    "http://localhost"@ + request_target
}

/// What the redirect's request target yields: the code, or why there is none.
pub open spec fn callback_outcome(request_target: Seq<char>) -> Result<Seq<char>, CallbackError> {
    match url_query_pairs(callback_url_of(request_target)) {
        None => Err(CallbackError::BadUrl),
        Some(pairs) => match code_of(pairs) {
            Some(c) => Ok(c),
            None => Err(CallbackError::MissingCode),
        },
    }
}

/// Reads the authorization code from the target of the redirect request.
pub fn callback_code(request_target: &str) -> (r: Result<String, CallbackError>)
    ensures
        match r {
            Ok(code) => callback_outcome(request_target@) == Ok::<Seq<char>, CallbackError>(code@),
            Err(e) => callback_outcome(request_target@) == Err::<Seq<char>, CallbackError>(e),
        },
{
    let mut url = String::from_str("http://localhost");
    url.append(request_target);
    match parse_query_pairs(url.as_str()) {
        Err(_) => Err(CallbackError::BadUrl),
        Ok(pairs) => match find_code(&pairs) {
            Some(code) => Ok(code),
            None => Err(CallbackError::MissingCode),
        },
    }
}

fn pair(name: &str, value: &str) -> (p: (String, String))
    ensures
        p.0@ == name@,
        p.1@ == value@,
{
    (String::from_str(name), String::from_str(value))
}

/// Form body of the refresh grant, in the order it is sent.
pub fn refresh_form(creds: &Credentials, refresh_token: &str) -> (form: Vec<(String, String)>)
    ensures
        pairs_text(form@) == seq![
            ("client_id"@, creds.installed.client_id@),
            ("client_secret"@, creds.installed.client_secret@),
            ("refresh_token"@, refresh_token@),
            ("grant_type"@, "refresh_token"@),
        ],
{
    let mut form: Vec<(String, String)> = Vec::new();
    form.push(pair("client_id", creds.installed.client_id.as_str()));
    form.push(pair("client_secret", creds.installed.client_secret.as_str()));
    form.push(pair("refresh_token", refresh_token));
    form.push(pair("grant_type", "refresh_token"));
    assert(pairs_text(form@) =~= seq![
        ("client_id"@, creds.installed.client_id@),
        ("client_secret"@, creds.installed.client_secret@),
        ("refresh_token"@, refresh_token@),
        ("grant_type"@, "refresh_token"@),
    ]);
    form
}

/// Form body of the authorization-code grant, in the order it is sent.
pub fn exchange_form(creds: &Credentials, code: &str, verifier: &str, redirect_uri: &str) -> (form:
    Vec<(String, String)>)
    ensures
        pairs_text(form@) == seq![
            ("client_id"@, creds.installed.client_id@),
            ("client_secret"@, creds.installed.client_secret@),
            ("code"@, code@),
            ("code_verifier"@, verifier@),
            ("redirect_uri"@, redirect_uri@),
            ("grant_type"@, "authorization_code"@),
        ],
{
    let mut form: Vec<(String, String)> = Vec::new();
    form.push(pair("client_id", creds.installed.client_id.as_str()));
    form.push(pair("client_secret", creds.installed.client_secret.as_str()));
    form.push(pair("code", code));
    form.push(pair("code_verifier", verifier));
    form.push(pair("redirect_uri", redirect_uri));
    form.push(pair("grant_type", "authorization_code"));
    assert(pairs_text(form@) =~= seq![
        ("client_id"@, creds.installed.client_id@),
        ("client_secret"@, creds.installed.client_secret@),
        ("code"@, code@),
        ("code_verifier"@, verifier@),
        ("redirect_uri"@, redirect_uri@),
        ("grant_type"@, "authorization_code"@),
    ]);
    form
}

} // verus!
