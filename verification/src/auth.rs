//! The credentials in `auth.json`: who they are of, how fresh they are, and their renewal.

use vstd::prelude::*;

use crate::adapter::CodexAdapter;
use crate::json;
use crate::json::{Json, JsonModel};
use crate::outside;
use crate::state;
use crate::state::LiveIdentity;
use crate::text;

verus! {

/// The client id under which tokens are renewed.
pub const CHATGPT_OAUTH_CLIENT_ID: &'static str = "app_EMoamEEZ73f0CkXaXp7hrann";

/// Where tokens are renewed.
pub const REFRESH_TOKEN_URL: &'static str = "https://auth.openai.com/oauth/token";

/// The environment variable that overrides where tokens are renewed.
pub const REFRESH_TOKEN_URL_OVERRIDE_ENV: &'static str = "CODEX_REFRESH_TOKEN_URL_OVERRIDE";

/// How many seconds before its end an access token counts as expired.
pub const ACCESS_TOKEN_REFRESH_SKEW_SECS: i64 = 60;

// ---------------------------------------------------------------------------
// Tokens
// ---------------------------------------------------------------------------

/// The second of the fields that dots separate.
pub open spec fn second_field(token: Seq<char>) -> Option<Seq<char>> {
    match text::split_at_first(token, '.') {
        Some(pair) => Some(text::before_first(pair.1, '.')),
        None => None,
    }
}

/// The bytes of the claims that a token carries.
pub open spec fn claim_bytes(token: Seq<char>) -> Option<Seq<u8>> {
    match second_field(token) {
        Some(field) => outside::base64_decoded(field),
        None => None,
    }
}

/// The claims that a token carries: the JSON in its second field.
pub open spec fn jwt_claims(token: Seq<char>) -> Option<JsonModel> {
    match claim_bytes(token) {
        Some(bytes) => json::parsed_bytes(bytes),
        None => None,
    }
}

/// Why a token carries no claims.
#[derive(Clone, Copy, Debug, PartialEq, Eq, Structural)]
pub enum TokenError {
    /// There is no second field.
    NotAToken,
    /// The second field is no base64.
    NotBase64,
    /// What the second field stands for is no JSON.
    NotJson,
}

impl TokenError {
    /// The error in words.
    pub fn message(&self) -> (r: &'static str)
        ensures
            r@ == match *self {
                TokenError::NotAToken => "auth.json id_token is not a valid JWT"@,
                TokenError::NotBase64 => "failed to decode JWT payload"@,
                TokenError::NotJson => "failed to parse JWT claims"@,
            },
    {
        match self {
            TokenError::NotAToken => "auth.json id_token is not a valid JWT",
            TokenError::NotBase64 => "failed to decode JWT payload",
            TokenError::NotJson => "failed to parse JWT claims",
        }
    }
}

/// The second of the fields of the token.
pub fn payload_field<'a>(token: &'a str) -> (r: Option<&'a str>)
    ensures
        text::opt_str_chars(r) == second_field(token@),
{
    match text::split_once(token, '.') {
        Some(pair) => Some(text::head_before(pair.1, '.')),
        None => None,
    }
}

/// Whether the token carries no claims, and this is why.
pub open spec fn is_token_error(token: Seq<char>, error: TokenError) -> bool {
    &&& jwt_claims(token) is None
    &&& error == TokenError::NotAToken <==> second_field(token) is None
    &&& error == TokenError::NotJson <==> claim_bytes(token) is Some
}

/// The claims that the token carries.
pub fn decode_jwt_payload(token: &str) -> (r: Result<Json, TokenError>)
    ensures
        match r {
            Ok(claims) => jwt_claims(token@) == Some(claims@),
            Err(error) => is_token_error(token@, error),
        },
{
    let field = match payload_field(token) {
        Some(field) => field,
        None => return Err(TokenError::NotAToken),
    };
    let bytes = match outside::decode_base64(field) {
        Some(bytes) => bytes,
        None => return Err(TokenError::NotBase64),
    };
    match Json::parse_bytes(&bytes) {
        Some(claims) => Ok(claims),
        None => Err(TokenError::NotJson),
    }
}

/// The number of seconds, or of another unit, that a claim stands for: the integer, or a
/// large one as the bits of an integer with sign, or a fraction rounded toward zero.
pub open spec fn claim_number(claims: JsonModel, claim: Seq<char>) -> Option<i64> {
    match claims.member(claim) {
        Some(JsonModel::Number(n)) => if n.signed is Some {
            n.signed
        } else if n.unsigned is Some {
            Some(n.unsigned->0 as i64)
        } else {
            n.truncated
        },
        _ => None,
    }
}

/// The number that a claim stands for.
pub fn numeric_claim(claims: &Json, claim: &str) -> (r: Option<i64>)
    ensures
        r == claim_number(claims@, claim@),
{
    match claims.get(claim) {
        Some(Json::Number(n)) => match n.signed() {
            Some(value) => Some(value),
            None => match n.unsigned() {
                Some(value) => Some(
                    #[verifier::truncate]
                    (value as i64),
                ),
                None => n.truncated(),
            },
        },
        _ => None,
    }
}

/// The number that a claim of the token stands for.
pub open spec fn token_number(token: Seq<char>, claim: Seq<char>) -> Option<i64> {
    match jwt_claims(token) {
        Some(claims) => claim_number(claims, claim),
        None => None,
    }
}

/// The number that a claim of the token stands for.
pub fn jwt_numeric_claim(token: &str, claim: &str) -> (r: Option<i64>)
    ensures
        r == token_number(token@, claim@),
{
    match decode_jwt_payload(token) {
        Ok(claims) => numeric_claim(&claims, claim),
        Err(_) => None,
    }
}

/// The text of the member of the tokens, where it is not blank.
pub open spec fn token_text(auth: JsonModel, name: Seq<char>) -> Option<Seq<char>> {
    text::non_blank(json::text_of(auth.nested("tokens"@, name)))
}

/// The text of the member of the tokens, without the white space at its ends, where it is
/// not blank.
pub fn token_field<'a>(auth: &'a Json, name: &str) -> (r: Option<&'a str>)
    ensures
        text::opt_str_chars(r) == token_text(auth@, name@),
{
    text::trim_non_blank(json::as_text(auth.get_nested("tokens", name)))
}

/// The text of the member, without the white space at its ends, where it is not blank.
pub fn json_nonempty_str<'a>(value: &'a Json, name: &str) -> (r: Option<&'a str>)
    ensures
        text::opt_str_chars(r) == text::non_blank(json::text_of(value@.member(name@))),
{
    text::trim_non_blank(json::as_text(value.get(name)))
}

// ---------------------------------------------------------------------------
// Identity
// ---------------------------------------------------------------------------

/// The name of a plan: its letters in lower case, but for the first.
pub open spec fn plan_name(raw: Seq<char>) -> Seq<char> {
    let value = text::lowercase(text::trimmed(raw));
    if value.len() == 0 {
        value
    } else {
        seq![text::ascii_upper(value[0])] + value.skip(1)
    }
}

/// The name of a plan: its letters in lower case, but for the first.
pub fn normalize_plan(raw: &str) -> (r: String)
    ensures
        r@ == plan_name(raw@),
{
    let value = text::to_lowercase(text::trim(raw));
    let chars = text::chars_of(value.as_str());
    if chars.len() == 0 {
        return value;
    }
    let mut out = String::new();
    out.push(text::upper_char(chars[0]));
    let rest = text::text_of(&chars, 1, chars.len());
    out.append(rest.as_str());
    assert(value@.subrange(1, value@.len() as int) =~= value@.skip(1));
    assert(out@ =~= plan_name(raw@));
    out
}

/// Whose credentials these are.
pub struct IdentityModel {
    pub email: Seq<char>,
    pub account_id: Option<Seq<char>>,
    pub plan: Option<Seq<char>>,
}

/// The email in the claims: without white space at its ends, and in lower case.
pub open spec fn claimed_email(claims: JsonModel) -> Option<Seq<char>> {
    match text::non_blank(json::text_of(claims.member("email"@))) {
        Some(email) => Some(text::lowercase(email)),
        None => None,
    }
}

/// The plan in the claims.
pub open spec fn claimed_plan(claims: JsonModel) -> Option<Seq<char>> {
    match json::text_of(claims.nested("https://api.openai.com/auth"@, "chatgpt_plan_type"@)) {
        Some(plan) => Some(plan_name(plan)),
        None => None,
    }
}

/// Whose credentials these are, by the claims of their identity token.
pub open spec fn identity_with(auth: JsonModel, claims: JsonModel) -> Option<IdentityModel> {
    match claimed_email(claims) {
        Some(email) => Some(
            IdentityModel {
                email,
                account_id: token_text(auth, "account_id"@),
                plan: claimed_plan(claims),
            },
        ),
        None => None,
    }
}

/// The claims of the identity token.
pub open spec fn identity_claims(auth: JsonModel) -> Option<JsonModel> {
    match json::text_of(auth.nested("tokens"@, "id_token"@)) {
        Some(token) => jwt_claims(token),
        None => None,
    }
}

/// Whose credentials these are.
pub open spec fn identity_of(auth: JsonModel) -> Option<IdentityModel> {
    match identity_claims(auth) {
        Some(claims) => identity_with(auth, claims),
        None => None,
    }
}

/// Whose credentials these are, and on which plan.
#[derive(Debug)]
pub struct LiveIdentityWithPlan {
    pub email: String,
    pub account_id: Option<String>,
    pub plan: Option<String>,
}

impl View for LiveIdentityWithPlan {
    type V = IdentityModel;

    open spec fn view(&self) -> IdentityModel {
        IdentityModel {
            email: self.email@,
            account_id: text::opt_chars(self.account_id),
            plan: text::opt_chars(self.plan),
        }
    }
}

impl LiveIdentityWithPlan {
    /// The identity as that of the command line.
    pub fn into_live(self) -> (r: LiveIdentity)
        ensures
            r.email@ == self@.email,
            text::opt_chars(r.account_id) == self@.account_id,
            r.adapter_id@.len() == 0,
            r.stable_id is None,
            r.aliases@.len() == 0,
            r.payload@ == "null"@,
            r.scodex_account_id is None,
    {
        LiveIdentity {
            adapter_id: String::new(),
            email: self.email,
            account_id: self.account_id,
            stable_id: None,
            aliases: Vec::new(),
            payload: "null".to_owned(),
            scodex_account_id: None,
        }
    }
}

/// Why nobody can be read off the credentials.
#[derive(Clone, Copy, Debug, PartialEq, Eq, Structural)]
pub enum IdentityError {
    MissingIdToken,
    BadIdToken(TokenError),
    MissingEmail,
}

impl IdentityError {
    /// The error in words.
    pub fn message(&self) -> (r: &'static str)
        ensures
            r@ == match *self {
                IdentityError::MissingIdToken => "auth.json is missing tokens.id_token"@,
                IdentityError::BadIdToken(_) => "failed to parse JWT claims"@,
                IdentityError::MissingEmail => "auth.json is missing email in id_token"@,
            },
    {
        match self {
            IdentityError::MissingIdToken => "auth.json is missing tokens.id_token",
            IdentityError::BadIdToken(_) => "failed to parse JWT claims",
            IdentityError::MissingEmail => "auth.json is missing email in id_token",
        }
    }
}

/// Whose credentials these are, by the claims of their identity token.
pub fn identity_from_claims(auth: &Json, claims: &Json) -> (r: Option<LiveIdentityWithPlan>)
    ensures
        match r {
            Some(identity) => identity_with(auth@, claims@) == Some(identity@),
            None => identity_with(auth@, claims@) is None,
        },
{
    let email = match json_nonempty_str(claims, "email") {
        Some(email) => text::to_lowercase(email),
        None => return None,
    };
    let plan = match json::as_text(
        claims.get_nested("https://api.openai.com/auth", "chatgpt_plan_type"),
    ) {
        Some(plan) => Some(normalize_plan(plan)),
        None => None,
    };
    let account_id = state::own_text(token_field(auth, "account_id"));
    Some(LiveIdentityWithPlan { email, account_id, plan })
}

/// Whether nobody can be read off the credentials, and this is why.
pub open spec fn is_identity_error(auth: JsonModel, error: IdentityError) -> bool {
    &&& identity_of(auth) is None
    &&& error == IdentityError::MissingIdToken <==> json::text_of(
        auth.nested("tokens"@, "id_token"@),
    ) is None
    &&& error == IdentityError::MissingEmail <==> identity_claims(auth) is Some
    &&& error matches IdentityError::BadIdToken(why) ==> is_token_error(
        json::text_of(auth.nested("tokens"@, "id_token"@))->0,
        why,
    )
}

/// Whose credentials these are.
pub fn decode_identity(auth: &Json) -> (r: Result<LiveIdentityWithPlan, IdentityError>)
    ensures
        match r {
            Ok(identity) => identity_of(auth@) == Some(identity@),
            Err(error) => is_identity_error(auth@, error),
        },
{
    let token = match json::as_text(auth.get_nested("tokens", "id_token")) {
        Some(token) => token,
        None => return Err(IdentityError::MissingIdToken),
    };
    let claims = match decode_jwt_payload(token) {
        Ok(claims) => claims,
        Err(error) => return Err(IdentityError::BadIdToken(error)),
    };
    match identity_from_claims(auth, &claims) {
        Some(identity) => Ok(identity),
        None => Err(IdentityError::MissingEmail),
    }
}

/// Whether two identities are of the same account: their emails are equal but for case,
/// or both have an account id and it is the same.
pub open spec fn same_person(left: IdentityModel, right: IdentityModel) -> bool {
    ||| text::same_ignoring_case(left.email, right.email)
    ||| left.account_id is Some && left.account_id == right.account_id
}

/// Whether both credentials are of the same account.
pub open spec fn same_account(left: JsonModel, right: JsonModel) -> bool {
    match (identity_of(left), identity_of(right)) {
        (Some(l), Some(r)) => same_person(l, r),
        _ => false,
    }
}

/// Whether two identities are of the same account.
pub fn identities_match(left: &LiveIdentityWithPlan, right: &LiveIdentityWithPlan) -> (r: bool)
    ensures
        r == same_person(left@, right@),
{
    if text::eq_ignore_case(left.email.as_str(), right.email.as_str()) {
        return true;
    }
    match (&left.account_id, &right.account_id) {
        (Some(l), Some(r)) => text::same_text(l.as_str(), r.as_str()),
        _ => false,
    }
}

/// Whether both credentials are of the same account.
pub fn chatgpt_identities_match(left: &Json, right: &Json) -> (r: bool)
    ensures
        r == same_account(left@, right@),
{
    match (decode_identity(left), decode_identity(right)) {
        (Ok(l), Ok(r)) => identities_match(&l, &r),
        _ => false,
    }
}

/// Being of the same account does not depend on which of the two is named first.
pub proof fn law_same_account_is_symmetric(left: JsonModel, right: JsonModel)
    ensures
        same_account(left, right) == same_account(right, left),
{
}

/// Credentials that can be read are of the same account as themselves.
pub proof fn law_same_account_is_reflexive(auth: JsonModel)
    requires
        identity_of(auth) is Some,
    ensures
        same_account(auth, auth),
{
}

// ---------------------------------------------------------------------------
// Freshness
// ---------------------------------------------------------------------------

/// The nanoseconds since 1970, or where they do not fit the milliseconds times a million.
pub open spec fn instant_nanos(instant: (i64, Option<i64>, i64)) -> Option<i64> {
    if instant.1 is Some {
        instant.1
    } else if i64::MIN <= instant.2 * 1_000_000 <= i64::MAX {
        Some((instant.2 * 1_000_000) as i64)
    } else {
        None
    }
}

/// The nanoseconds since 1970 of an instant.
pub fn nanos_of(instant: (i64, Option<i64>, i64)) -> (r: Option<i64>)
    ensures
        r == instant_nanos(instant),
{
    match instant.1 {
        Some(nanos) => Some(nanos),
        None => instant.2.checked_mul(1_000_000),
    }
}

/// The nanoseconds since 1970 that an RFC 3339 text stands for.
pub open spec fn rfc3339_nanos(value: Seq<char>) -> Option<i64> {
    match outside::rfc3339_instant(text::trimmed(value)) {
        Some(instant) => instant_nanos(instant),
        None => None,
    }
}

/// The nanoseconds since 1970 that an RFC 3339 text stands for.
pub fn parse_rfc3339_nanos(value: &str) -> (r: Option<i64>)
    ensures
        r == rfc3339_nanos(value@),
{
    match outside::parse_rfc3339(text::trim(value)) {
        Some(instant) => nanos_of(instant),
        None => None,
    }
}

/// A number that grows with each renewal: the time of the last one, or else when the
/// access token was issued, or else when it expires.
pub open spec fn freshness(auth: JsonModel) -> Option<i64> {
    let renewed = match json::text_of(auth.member("last_refresh"@)) {
        Some(value) => rfc3339_nanos(value),
        None => None,
    };
    let token = token_text(auth, "access_token"@);
    if renewed is Some {
        renewed
    } else if token is Some {
        if token_number(token->0, "iat"@) is Some {
            token_number(token->0, "iat"@)
        } else {
            token_number(token->0, "exp"@)
        }
    } else {
        None
    }
}

/// A number that grows with each renewal of the credentials.
pub fn auth_freshness_ts(auth: &Json) -> (r: Option<i64>)
    ensures
        r == freshness(auth@),
{
    if let Some(value) = json::as_text(auth.get("last_refresh")) {
        if let Some(nanos) = parse_rfc3339_nanos(value) {
            return Some(nanos);
        }
    }
    match token_field(auth, "access_token") {
        Some(token) => match jwt_numeric_claim(token, "iat") {
            Some(issued) => Some(issued),
            None => jwt_numeric_claim(token, "exp"),
        },
        None => None,
    }
}

/// Whether what is live is newer than what is stored: what has a freshness is newer than
/// what has none.
pub open spec fn newer(live: Option<i64>, stored: Option<i64>) -> bool {
    match (live, stored) {
        (Some(l), Some(s)) => l > s,
        (Some(_), None) => true,
        _ => false,
    }
}

/// Whether what is live is newer than what is stored.
pub fn is_newer(live: Option<i64>, stored: Option<i64>) -> (r: bool)
    ensures
        r == newer(live, stored),
{
    match (live, stored) {
        (Some(l), Some(s)) => l > s,
        (Some(_), None) => true,
        (None, Some(_)) => false,
        (None, None) => false,
    }
}

/// Whether the live credentials are newer than the stored ones.
pub open spec fn newer_auth(live: JsonModel, stored: JsonModel) -> bool {
    newer(freshness(live), freshness(stored))
}

/// Whether the live credentials are newer than the stored ones.
pub fn live_auth_is_newer(live: &Json, stored: &Json) -> (r: bool)
    ensures
        r == newer_auth(live@, stored@),
{
    is_newer(auth_freshness_ts(live), auth_freshness_ts(stored))
}

/// Being newer is a strict order: nothing is newer than itself, and of two credentials at
/// most one is newer than the other.
pub proof fn law_newer_is_strict(left: JsonModel, right: JsonModel)
    ensures
        !newer_auth(left, left),
        newer_auth(left, right) ==> !newer_auth(right, left),
{
}

/// Being newer is transitive.
pub proof fn law_newer_is_transitive(a: JsonModel, b: JsonModel, c: JsonModel)
    requires
        newer_auth(a, b),
        newer_auth(b, c),
    ensures
        newer_auth(a, c),
{
}

// ---------------------------------------------------------------------------
// Renewal
// ---------------------------------------------------------------------------

/// Whether an access token that expires at this time is to be renewed now.
pub open spec fn expires_soon(expiry: Option<i64>, now: i64) -> bool {
    expiry matches Some(at) && at <= now + ACCESS_TOKEN_REFRESH_SKEW_SECS
}

/// Whether an access token that expires at this time is to be renewed now.
pub fn is_expiring(expiry: Option<i64>, now: i64) -> (r: bool)
    ensures
        r == expires_soon(expiry, now),
{
    match expiry {
        Some(at) => at as i128 <= now as i128 + ACCESS_TOKEN_REFRESH_SKEW_SECS as i128,
        None => false,
    }
}

/// Whether the credentials are to be renewed: they can be, and their access token is
/// missing or about to expire.
pub open spec fn needs_refresh(auth: JsonModel, now: i64) -> bool {
    &&& token_text(auth, "refresh_token"@) is Some
    &&& match token_text(auth, "access_token"@) {
        Some(token) => expires_soon(token_number(token, "exp"@), now),
        None => true,
    }
}

/// Whether the credentials are to be renewed.
pub fn auth_needs_token_refresh(auth: &Json, now: i64) -> (r: bool)
    ensures
        r == needs_refresh(auth@, now),
{
    if token_field(auth, "refresh_token").is_none() {
        return false;
    }
    match token_field(auth, "access_token") {
        None => true,
        Some(token) => is_expiring(jwt_numeric_claim(token, "exp"), now),
    }
}

/// Where tokens are renewed: the override, where it is not blank, or the usual place.
pub open spec fn renewal_url(override_url: Option<Seq<char>>) -> Seq<char> {
    if text::non_blank(override_url) is Some {
        text::non_blank(override_url)->0
    } else {
        REFRESH_TOKEN_URL@
    }
}

/// Where tokens are renewed: the override, where it is not blank, or the usual place.
pub fn refresh_token_url(override_url: Option<&str>) -> (r: String)
    ensures
        r@ == match text::non_blank(text::opt_str_chars(override_url)) {
            Some(url) => url,
            None => REFRESH_TOKEN_URL@,
        },
        r@ == renewal_url(text::opt_str_chars(override_url)),
{
    match text::trim_non_blank(override_url) {
        Some(url) => url.to_owned(),
        None => REFRESH_TOKEN_URL.to_owned(),
    }
}

/// Why credentials were not renewed.
#[derive(Debug)]
pub enum RefreshError {
    MissingRefreshToken,
    /// The service answered with this status.
    Refused(String),
    BadReply,
    MissingAccessToken,
    MissingTokens,
}

impl RefreshError {
    /// The error in words.
    pub fn message(&self) -> (r: String)
        ensures
            r@ == match *self {
                RefreshError::MissingRefreshToken => "auth.json is missing tokens.refresh_token"@,
                RefreshError::Refused(status) => "OAuth token refresh failed: "@ + status@,
                RefreshError::BadReply => "invalid JSON in OAuth refresh response"@,
                RefreshError::MissingAccessToken =>
                    "OAuth refresh response is missing access_token"@,
                RefreshError::MissingTokens => "auth.json is missing tokens"@,
            },
    {
        match self {
            RefreshError::MissingRefreshToken => {
                "auth.json is missing tokens.refresh_token".to_owned()
            },
            RefreshError::Refused(status) => text::concat2(
                "OAuth token refresh failed: ",
                status.as_str(),
            ),
            RefreshError::BadReply => "invalid JSON in OAuth refresh response".to_owned(),
            RefreshError::MissingAccessToken => {
                "OAuth refresh response is missing access_token".to_owned()
            },
            RefreshError::MissingTokens => "auth.json is missing tokens".to_owned(),
        }
    }
}

/// What the service is asked to renew with this refresh token.
pub open spec fn refresh_request_model(token: Seq<char>) -> JsonModel {
    JsonModel::Object(
        seq![
            ("client_id"@, JsonModel::Text(CHATGPT_OAUTH_CLIENT_ID@)),
            ("grant_type"@, JsonModel::Text("refresh_token"@)),
            ("refresh_token"@, JsonModel::Text(token)),
        ],
    )
}

/// What the service is asked, to renew the credentials.
pub fn refresh_request(auth: &Json) -> (r: Result<Json, RefreshError>)
    ensures
        match token_text(auth@, "refresh_token"@) {
            Some(token) => r matches Ok(request) && request@ == refresh_request_model(token),
            None => r matches Err(error) && error == RefreshError::MissingRefreshToken,
        },
{
    let token = match token_field(auth, "refresh_token") {
        Some(token) => token.to_owned(),
        None => return Err(RefreshError::MissingRefreshToken),
    };
    let mut fields: Vec<(String, Json)> = Vec::new();
    fields.push(("client_id".to_owned(), Json::Text(CHATGPT_OAUTH_CLIENT_ID.to_owned())));
    fields.push(("grant_type".to_owned(), Json::Text("refresh_token".to_owned())));
    fields.push(("refresh_token".to_owned(), Json::Text(token)));
    proof {
        json::lemma_object_model(fields);
        assert(json::fields_model(fields@) =~= refresh_request_model(token@)->Object_0);
    }
    Ok(Json::Object(fields))
}

/// The text of the member, where it is not blank.
pub open spec fn member_text(value: JsonModel, name: Seq<char>) -> Option<Seq<char>> {
    text::non_blank(json::text_of(value.member(name)))
}

/// The tokens with the one of that name set to what the reply says of it, where it says
/// anything.
pub open spec fn with_replied(
    tokens: Seq<(Seq<char>, JsonModel)>,
    reply: JsonModel,
    name: Seq<char>,
) -> Seq<(Seq<char>, JsonModel)> {
    match member_text(reply, name) {
        Some(value) => json::with_member(tokens, name, JsonModel::Text(value)),
        None => tokens,
    }
}

/// The tokens after the reply.
pub open spec fn renewed_tokens(
    tokens: Seq<(Seq<char>, JsonModel)>,
    reply: JsonModel,
) -> Seq<(Seq<char>, JsonModel)> {
    with_replied(
        with_replied(with_replied(tokens, reply, "access_token"@), reply, "refresh_token"@),
        reply,
        "id_token"@,
    )
}

/// The credentials after the reply, at the time of the stamp.
pub open spec fn renewed(auth: JsonModel, reply: JsonModel, stamp: Seq<char>) -> JsonModel {
    match (auth, auth.member("tokens"@)) {
        (JsonModel::Object(root), Some(JsonModel::Object(tokens))) => JsonModel::Object(
            json::with_member(
                json::with_member(
                    root,
                    "tokens"@,
                    JsonModel::Object(renewed_tokens(tokens, reply)),
                ),
                "last_refresh"@,
                JsonModel::Text(stamp),
            ),
        ),
        _ => auth,
    }
}

fn set_replied(tokens: &mut Vec<(String, Json)>, reply: &Json, name: &str)
    ensures
        json::fields_model(final(tokens)@) == with_replied(
            json::fields_model(old(tokens)@),
            reply@,
            name@,
        ),
{
    if let Some(value) = json_nonempty_str(reply, name) {
        json::set_member(tokens, name, Json::Text(value.to_owned()));
    }
}

/// The credentials after the reply of the service: its tokens in place of the old ones,
/// the refresh token and the identity token only where it gives new ones, and the stamp
/// as the time of the renewal.
pub fn apply_token_refresh_at(auth: Json, reply: &Json, stamp: &str) -> (r: Result<
    Json,
    RefreshError,
>)
    ensures
        if member_text(reply@, "access_token"@) is None {
            r matches Err(error) && error == RefreshError::MissingAccessToken
        } else if !has_tokens(auth@) {
            r matches Err(error) && error == RefreshError::MissingTokens
        } else {
            r matches Ok(updated) && updated@ == renewed(auth@, reply@, stamp@)
        },
{
    if json_nonempty_str(reply, "access_token").is_none() {
        return Err(RefreshError::MissingAccessToken);
    }
    let ghost before = auth@;
    let mut root = match auth {
        Json::Object(root) => root,
        _ => return Err(RefreshError::MissingTokens),
    };
    let ghost root_before = json::fields_model(root@);
    let i = json::member_position(&root, "tokens");
    proof {
        json::lemma_object_model(root);
        assert forall|k: int| 0 <= k < i implies (#[trigger] root_before[k]).0 != "tokens"@ by {
            assert(root@[k].0@ != "tokens"@);
        }
        json::lemma_lookup_at(root_before, "tokens"@, i as int);
    }
    if i == root.len() {
        return Err(RefreshError::MissingTokens);
    }
    let ghost old_root = root@;
    let (key, value) = root.remove(i);
    assert((key, value) == old_root[i as int]);
    let mut tokens = match value {
        Json::Object(tokens) => tokens,
        _ => return Err(RefreshError::MissingTokens),
    };
    proof {
        json::lemma_object_model(tokens);
    }
    let ghost tokens_before = json::fields_model(tokens@);
    set_replied(&mut tokens, reply, "access_token");
    set_replied(&mut tokens, reply, "refresh_token");
    set_replied(&mut tokens, reply, "id_token");
    proof {
        json::lemma_object_model(tokens);
        json::lemma_with_member(
            root_before,
            "tokens"@,
            JsonModel::Object(renewed_tokens(tokens_before, reply@)),
            i as int,
        );
    }
    root.insert(i, (key, Json::Object(tokens)));
    assert(json::fields_model(root@) =~= root_before.update(
        i as int,
        ("tokens"@, JsonModel::Object(renewed_tokens(tokens_before, reply@))),
    ));
    json::set_member(&mut root, "last_refresh", Json::Text(stamp.to_owned()));
    proof {
        json::lemma_object_model(root);
    }
    Ok(Json::Object(root))
}

/// Whether the credentials have tokens.
pub open spec fn has_tokens(auth: JsonModel) -> bool {
    auth.member("tokens"@) matches Some(tokens) && tokens is Object
}

/// Whether `r` is what the reply makes of the credentials: they are renewed at some time,
/// unless the reply has no access token, or else unless they have no tokens.
pub open spec fn is_refresh_of(
    auth: JsonModel,
    reply: JsonModel,
    r: Result<Json, RefreshError>,
) -> bool {
    if member_text(reply, "access_token"@) is None {
        r matches Err(error) && error == RefreshError::MissingAccessToken
    } else if !has_tokens(auth) {
        r matches Err(error) && error == RefreshError::MissingTokens
    } else {
        r matches Ok(updated) && exists|stamp: Seq<char>|
            outside::is_utc_stamp(stamp) && updated@ == #[trigger] renewed(
                auth,
                reply,
                stamp,
            )
    }
}

/// The credentials after the reply of the service, stamped with the present time.
pub fn apply_token_refresh(auth: Json, reply: &Json) -> (r: Result<Json, RefreshError>)
    ensures
        is_refresh_of(auth@, reply@, r),
{
    let stamp = outside::utc_stamp();
    apply_token_refresh_at(auth, reply, stamp.as_str())
}

/// An answer of the service that renews tokens.
#[derive(Debug)]
pub struct HttpReply {
    pub status: u16,
    /// The status as it is shown, such as `401 Unauthorized`.
    pub status_text: String,
    pub body: String,
}

/// Whether the status says that the request succeeded.
pub open spec fn is_success(status: u16) -> bool {
    200 <= status < 300
}

/// The renewed credentials by what the service answered: an answer that is no success
/// renews nothing.
pub fn refresh_outcome(auth: Json, reply: &HttpReply) -> (r: Result<Json, RefreshError>)
    ensures
        if !is_success(reply.status) {
            r matches Err(RefreshError::Refused(status)) && status@ == reply.status_text@
        } else {
            match json::parsed_text(reply.body@) {
                Some(body) => is_refresh_of(auth@, body, r),
                None => r matches Err(error) && error == RefreshError::BadReply,
            }
        },
{
    if reply.status < 200 || reply.status >= 300 {
        return Err(RefreshError::Refused(reply.status_text.clone()));
    }
    match Json::parse(reply.body.as_str()) {
        Some(body) => apply_token_refresh(auth, &body),
        None => Err(RefreshError::BadReply),
    }
}

/// Why credentials could not be read.
#[derive(Clone, Copy, Debug, PartialEq, Eq, Structural)]
pub enum ReadError {
    NotFound,
    Unreadable,
    NotJson,
}

impl ReadError {
    /// The error in words.
    pub open spec fn words(self, path: Seq<char>) -> Seq<char> {
        match self {
            ReadError::NotFound => "auth.json not found: "@ + path,
            ReadError::Unreadable => "failed to read "@ + path,
            ReadError::NotJson => "invalid JSON in "@ + path,
        }
    }

    /// The error in words.
    pub fn message(&self, path: &str) -> (r: String)
        ensures
            r@ == self.words(path@),
    {
        match self {
            ReadError::NotFound => text::concat2("auth.json not found: ", path),
            ReadError::Unreadable => text::concat2("failed to read ", path),
            ReadError::NotJson => text::concat2("invalid JSON in ", path),
        }
    }
}

impl CodexAdapter {
    /// The credentials in a file, by what it holds where it could be read.
    pub fn read_auth_json(&self, found: bool, contents: Option<&str>) -> (r: Result<
        Json,
        ReadError,
    >)
        ensures
            if !found {
                r matches Err(error) && error == ReadError::NotFound
            } else {
                match contents {
                    None => r matches Err(error) && error == ReadError::Unreadable,
                    Some(contents) => match json::parsed_text(contents@) {
                        Some(model) => r matches Ok(auth) && auth@ == model,
                        None => r matches Err(error) && error == ReadError::NotJson,
                    },
                }
            },
    {
        if !found {
            return Err(ReadError::NotFound);
        }
        match contents {
            None => Err(ReadError::Unreadable),
            Some(contents) => match Json::parse(contents) {
                Some(auth) => Ok(auth),
                None => Err(ReadError::NotJson),
            },
        }
    }

    /// Whether renewed credentials are to replace the live ones as well: those are of the
    /// same account.
    pub fn sync_refreshed_auth_to_live_if_current(
        &self,
        live: Option<&Json>,
        refreshed: &Json,
    ) -> (r: bool)
        ensures
            r == (live is Some && same_account(live->0@, refreshed@)),
    {
        match live {
            Some(live) => chatgpt_identities_match(live, refreshed),
            None => false,
        }
    }
}

/// What the file of the credentials holds. Plain credentials are read from it as they were
/// written.
pub fn write_auth_json(auth: &Json) -> (r: String)
    ensures
        r@ == json::pretty_text(auth@).push('\n'),
        json::is_plain(auth@, json::MAX_NESTING as nat) ==> json::reads_as(r@, auth@),
{
    let mut out = auth.pretty();
    out.push('\n');
    out
}

proof fn lemma_names_differ()
    ensures
        "tokens"@ != "last_refresh"@,
        "access_token"@ != "refresh_token"@,
        "access_token"@ != "id_token"@,
        "refresh_token"@ != "id_token"@,
        "account_id"@ != "access_token"@,
        "account_id"@ != "refresh_token"@,
        "account_id"@ != "id_token"@,
{
    reveal_strlit("tokens");
    reveal_strlit("last_refresh");
    reveal_strlit("access_token");
    reveal_strlit("refresh_token");
    reveal_strlit("id_token");
    reveal_strlit("account_id");
    assert("tokens"@.len() != "last_refresh"@.len());
    assert("account_id"@[1] != "access_token"@[1] || "account_id"@.len() != "access_token"@.len());
    assert("access_token"@.len() == 12 && "refresh_token"@.len() == 13 && "id_token"@.len() == 8);
}

proof fn lemma_replied(
    tokens: Seq<(Seq<char>, JsonModel)>,
    reply: JsonModel,
    name: Seq<char>,
    other: Seq<char>,
)
    ensures
        member_text(reply, name) matches Some(value) ==> json::lookup(
            with_replied(tokens, reply, name),
            name,
        ) == Some(JsonModel::Text(value)),
        other != name || member_text(reply, name) is None ==> json::lookup(
            with_replied(tokens, reply, name),
            other,
        ) == json::lookup(tokens, other),
{
    if let Some(value) = member_text(reply, name) {
        json::law_set_member(tokens, name, JsonModel::Text(value), other);
    }
}

/// What a token stands for after a renewal: what the reply says of it where it is one of
/// the three that are renewed, or else what it stood for before.
proof fn lemma_renewed_token(auth: JsonModel, reply: JsonModel, stamp: Seq<char>, name: Seq<char>)
    requires
        has_tokens(auth),
    ensures
        has_tokens(renewed(auth, reply, stamp)),
        renewed(auth, reply, stamp).nested("tokens"@, name) == (if (name == "access_token"@ || name
            == "refresh_token"@ || name == "id_token"@) && member_text(reply, name) is Some {
            Some(JsonModel::Text(member_text(reply, name)->0))
        } else {
            auth.nested("tokens"@, name)
        }),
{
    lemma_names_differ();
    let root = auth->Object_0;
    let tokens = auth.member("tokens"@)->0->Object_0;
    let first = with_replied(tokens, reply, "access_token"@);
    let second = with_replied(first, reply, "refresh_token"@);
    lemma_replied(tokens, reply, "access_token"@, name);
    lemma_replied(first, reply, "refresh_token"@, name);
    lemma_replied(second, reply, "id_token"@, name);
    let set = JsonModel::Object(renewed_tokens(tokens, reply));
    json::law_set_member(root, "tokens"@, set, "tokens"@);
    json::law_set_member(
        json::with_member(root, "tokens"@, set),
        "last_refresh"@,
        JsonModel::Text(stamp),
        "tokens"@,
    );
}

/// A renewal changes nothing in the credentials but their tokens and the time of the
/// last renewal.
pub proof fn law_refresh_keeps_other_members(
    auth: JsonModel,
    reply: JsonModel,
    stamp: Seq<char>,
    name: Seq<char>,
)
    requires
        name != "tokens"@,
        name != "last_refresh"@,
    ensures
        renewed(auth, reply, stamp).member(name) == auth.member(name),
{
    if has_tokens(auth) {
        let root = auth->Object_0;
        let tokens = auth.member("tokens"@)->0->Object_0;
        let set = JsonModel::Object(renewed_tokens(tokens, reply));
        json::law_set_member(root, "tokens"@, set, name);
        json::law_set_member(
            json::with_member(root, "tokens"@, set),
            "last_refresh"@,
            JsonModel::Text(stamp),
            name,
        );
    }
}

/// A renewal keeps every token but the access token, the refresh token and the identity
/// token; the account id in particular.
pub proof fn law_refresh_keeps_other_tokens(
    auth: JsonModel,
    reply: JsonModel,
    stamp: Seq<char>,
    name: Seq<char>,
)
    requires
        has_tokens(auth),
        name != "access_token"@,
        name != "refresh_token"@,
        name != "id_token"@,
    ensures
        renewed(auth, reply, stamp).nested("tokens"@, name) == auth.nested("tokens"@, name),
        token_text(renewed(auth, reply, stamp), "account_id"@) == token_text(auth, "account_id"@),
{
    lemma_names_differ();
    lemma_renewed_token(auth, reply, stamp, name);
    lemma_renewed_token(auth, reply, stamp, "account_id"@);
}

/// After a renewal the access token is the one of the reply, and the time of the last
/// renewal is that of the stamp.
pub proof fn law_refresh_takes_the_new_token(
    auth: JsonModel,
    reply: JsonModel,
    stamp: Seq<char>,
)
    requires
        has_tokens(auth),
        member_text(reply, "access_token"@) is Some,
    ensures
        token_text(renewed(auth, reply, stamp), "access_token"@) == member_text(
            reply,
            "access_token"@,
        ),
        renewed(auth, reply, stamp).member("last_refresh"@) == Some(JsonModel::Text(stamp)),
{
    lemma_renewed_token(auth, reply, stamp, "access_token"@);
    text::lemma_trim_idempotent(
        json::text_of(reply.member("access_token"@))->0,
        text::CharClass::WhiteSpace,
    );
    let root = auth->Object_0;
    let tokens = auth.member("tokens"@)->0->Object_0;
    let set = JsonModel::Object(renewed_tokens(tokens, reply));
    json::law_set_member(
        json::with_member(root, "tokens"@, set),
        "last_refresh"@,
        JsonModel::Text(stamp),
        "last_refresh"@,
    );
}

/// A reply without a refresh token leaves the old one in place, and one without an
/// identity token leaves the credentials those of the same person.
pub proof fn law_refresh_keeps_what_is_omitted(
    auth: JsonModel,
    reply: JsonModel,
    stamp: Seq<char>,
)
    requires
        has_tokens(auth),
    ensures
        member_text(reply, "refresh_token"@) is None ==> renewed(auth, reply, stamp).nested(
            "tokens"@,
            "refresh_token"@,
        ) == auth.nested("tokens"@, "refresh_token"@),
        member_text(reply, "id_token"@) is None ==> identity_of(renewed(auth, reply, stamp))
            == identity_of(auth),
{
    lemma_names_differ();
    lemma_renewed_token(auth, reply, stamp, "refresh_token"@);
    lemma_renewed_token(auth, reply, stamp, "id_token"@);
    lemma_renewed_token(auth, reply, stamp, "account_id"@);
}

/// Credentials that were written and read again are of the same person, as fresh, and due
/// for a renewal at the same times; each of their tokens is the same.
pub proof fn law_read_credentials_are_those_written(
    written: Seq<char>,
    auth: JsonModel,
    name: Seq<char>,
    now: i64,
)
    requires
        json::reads_as(written, auth),
    ensures
        json::parsed_text(written) matches Some(read) && {
            &&& identity_of(read) == identity_of(auth)
            &&& freshness(read) == freshness(auth)
            &&& needs_refresh(read, now) == needs_refresh(auth, now)
            &&& token_text(read, name) == token_text(auth, name)
        },
{
    let read = json::parsed_text(written)->0;
    let depth = json::MAX_NESTING as nat;
    json::law_same_contents_same_members(read, auth, depth, "tokens"@, name);
    json::law_same_contents_same_members(read, auth, depth, "tokens"@, "id_token"@);
    json::law_same_contents_same_members(read, auth, depth, "tokens"@, "account_id"@);
    json::law_same_contents_same_members(read, auth, depth, "tokens"@, "access_token"@);
    json::law_same_contents_same_members(read, auth, depth, "tokens"@, "refresh_token"@);
    json::law_same_contents_same_members(read, auth, depth, "last_refresh"@, name);
}

/// Plain credentials stay plain when they are renewed, so that they can be written and read
/// again.
pub proof fn law_renewed_credentials_stay_plain(
    auth: JsonModel,
    reply: JsonModel,
    stamp: Seq<char>,
)
    requires
        json::is_plain(auth, json::MAX_NESTING as nat),
    ensures
        json::is_plain(renewed(auth, reply, stamp), json::MAX_NESTING as nat),
{
    if has_tokens(auth) {
        let depth = json::MAX_NESTING as nat;
        let inner = (depth - 1) as nat;
        let root = auth->Object_0;
        json::lemma_lookup_is_member(root, "tokens"@);
        let tokens = auth.member("tokens"@)->0->Object_0;
        assert(json::is_plain(JsonModel::Object(tokens), inner));
        let first = with_replied(tokens, reply, "access_token"@);
        let second = with_replied(first, reply, "refresh_token"@);
        lemma_replied_is_plain(tokens, reply, "access_token"@, inner);
        lemma_replied_is_plain(first, reply, "refresh_token"@, inner);
        lemma_replied_is_plain(second, reply, "id_token"@, inner);
        let set = JsonModel::Object(renewed_tokens(tokens, reply));
        json::law_set_member_keeps_plain(root, "tokens"@, set, depth);
        json::law_set_member_keeps_plain(
            json::with_member(root, "tokens"@, set),
            "last_refresh"@,
            JsonModel::Text(stamp),
            depth,
        );
    }
}

proof fn lemma_replied_is_plain(
    tokens: Seq<(Seq<char>, JsonModel)>,
    reply: JsonModel,
    name: Seq<char>,
    depth: nat,
)
    requires
        depth > 0,
        json::is_plain(JsonModel::Object(tokens), depth),
    ensures
        json::is_plain(JsonModel::Object(with_replied(tokens, reply, name)), depth),
{
    if member_text(reply, name) is Some {
        json::law_set_member_keeps_plain(
            tokens,
            name,
            JsonModel::Text(member_text(reply, name)->0),
            depth,
        );
    }
}

// ---------------------------------------------------------------------------
// Laws of what is read off the credentials
// ---------------------------------------------------------------------------

/// The claims of a token stand between its first dot and its second.
pub proof fn law_claims_stand_in_the_middle(head: Seq<char>, middle: Seq<char>, tail: Seq<char>)
    requires
        forall|i: int| 0 <= i < head.len() ==> #[trigger] head[i] != '.',
        forall|i: int| 0 <= i < middle.len() ==> #[trigger] middle[i] != '.',
    ensures
        second_field(head.push('.') + (middle.push('.') + tail)) == Some(middle),
        second_field(head.push('.') + middle) == Some(middle),
        second_field(head) is None,
{
    text::law_text_is_split(head, '.', middle.push('.') + tail);
    text::law_text_is_split(head, '.', middle);
    text::law_text_is_split(middle, '.', tail);
}

/// The number of a claim is the whole number that it is; what is no number counts for
/// nothing.
pub proof fn law_claim_is_the_number_it_says(
    claims: JsonModel,
    claim: Seq<char>,
    number: json::NumberModel,
    value: i64,
)
    ensures
        claims.member(claim) == Some(JsonModel::Number(number)) && number.signed == Some(value)
            ==> claim_number(claims, claim) == Some(value),
        claims.member(claim) == Some(JsonModel::Number(number)) && number.signed is None
            && number.unsigned is None ==> claim_number(claims, claim) == number.truncated,
        !(claims.member(claim) matches Some(JsonModel::Number(_))) ==> claim_number(
            claims,
            claim,
        ) is None,
{
}

/// The name of a plan is the word it was given as, with its first letter and no other in
/// upper case.
pub proof fn law_plan_is_written_as_a_name(raw: Seq<char>, i: int)
    requires
        0 <= i < plan_name(raw).len(),
    ensures
        plan_name(raw).len() == text::trimmed(raw).len(),
        i == 0 ==> !('a' <= plan_name(raw)[i] <= 'z'),
        i > 0 ==> !('A' <= plan_name(raw)[i] <= 'Z'),
        text::ascii_lower(plan_name(raw)[i]) == text::ascii_lower(text::trimmed(raw)[i]),
{
}

/// Whose credentials these are, the claims say: the email, in lower case, and the plan; the
/// account id stands next to the tokens. Without an email they are nobody's.
pub proof fn law_claims_tell_the_person(
    auth: JsonModel,
    claims: JsonModel,
    email: Seq<char>,
    account_id: Seq<char>,
    plan: Seq<char>,
)
    requires
        claims.member("email"@) == Some(JsonModel::Text(email)),
        text::trimmed(email).len() > 0,
    ensures
        identity_with(auth, claims) matches Some(person) && {
            &&& person.email == text::lowercase(text::trimmed(email))
            &&& auth.nested("tokens"@, "account_id"@) == Some(JsonModel::Text(account_id))
                && text::trimmed(account_id).len() > 0 ==> person.account_id == Some(
                text::trimmed(account_id),
            )
            &&& auth.nested("tokens"@, "account_id"@) is None ==> person.account_id is None
            &&& claims.nested("https://api.openai.com/auth"@, "chatgpt_plan_type"@) == Some(
                JsonModel::Text(plan),
            ) ==> person.plan == Some(plan_name(plan))
            &&& claims.nested("https://api.openai.com/auth"@, "chatgpt_plan_type"@) is None
                ==> person.plan is None
        },
{
}

/// Without an email in the claims, or without an identity token, the credentials are
/// nobody's; with both they are those of the person in the claims.
pub proof fn law_person_is_that_of_the_identity_token(
    auth: JsonModel,
    token: Seq<char>,
    claims: JsonModel,
)
    ensures
        auth.nested("tokens"@, "id_token"@) == Some(JsonModel::Text(token)) && jwt_claims(token)
            == Some(claims) ==> identity_of(auth) == identity_with(auth, claims),
        auth.nested("tokens"@, "id_token"@) == Some(JsonModel::Text(token)) && jwt_claims(token)
            == Some(claims) && claims.member("email"@) is None ==> identity_of(auth) is None,
        auth.nested("tokens"@, "id_token"@) is None ==> identity_of(auth) is None,
{
}

/// Two persons are one where their emails are, but for case, or their account ids; where
/// both differ they are not.
pub proof fn law_persons_are_told_apart(left: IdentityModel, right: IdentityModel)
    ensures
        text::lowercase(left.email) == text::lowercase(right.email) ==> same_person(left, right),
        left.account_id is Some && right.account_id is Some && left.account_id->0
            == right.account_id->0 ==> same_person(left, right),
        text::lowercase(left.email) != text::lowercase(right.email) && (left.account_id is None
            || right.account_id is None || left.account_id->0 != right.account_id->0)
            ==> !same_person(left, right),
{
}

/// Credentials are as fresh as their last renewal, where they say when that was; else as
/// when their access token was issued, where it says so, and else as when it expires.
pub proof fn law_freshness_is_the_last_renewal(
    auth: JsonModel,
    stamp: Seq<char>,
    nanos: i64,
    token: Seq<char>,
    claims: JsonModel,
)
    requires
        text::trimmed(stamp) == stamp,
        text::trimmed(token) == token && token.len() > 0,
    ensures
        auth.member("last_refresh"@) == Some(JsonModel::Text(stamp)) && (outside::rfc3339_instant(
            stamp,
        ) matches Some(instant) && instant.1 == Some(nanos)) ==> freshness(auth) == Some(nanos),
        auth.member("last_refresh"@) is None && auth.nested("tokens"@, "access_token"@) == Some(
            JsonModel::Text(token),
        ) && jwt_claims(token) == Some(claims) ==> {
            &&& claim_number(claims, "iat"@) is Some ==> freshness(auth) == claim_number(
                claims,
                "iat"@,
            )
            &&& claim_number(claims, "iat"@) is None ==> freshness(auth) == claim_number(
                claims,
                "exp"@,
            )
        },
        auth.member("last_refresh"@) is None && auth.nested("tokens"@, "access_token"@) is None
            ==> freshness(auth) is None,
{
}

/// A time too far off to be counted in nanoseconds is that of its milliseconds, where they
/// can be.
pub proof fn law_instant_in_nanoseconds(seconds: i64, nanos: i64, millis: i64)
    ensures
        instant_nanos((seconds, Some(nanos), millis)) == Some(nanos),
        i64::MIN <= millis * 1_000_000 <= i64::MAX ==> (instant_nanos(
            (seconds, None, millis),
        ) matches Some(n) && n == millis * 1_000_000),
        !(i64::MIN <= millis * 1_000_000 <= i64::MAX) ==> instant_nanos((seconds, None, millis)) is None,
{
}

/// Of two that have a freshness the greater is newer; having one is newer than having none.
pub proof fn law_greater_is_newer(live: i64, stored: i64, other: Option<i64>)
    ensures
        newer(Some(live), Some(stored)) <==> live > stored,
        newer(Some(live), None),
        !newer(None, other),
{
}

/// An access token is renewed from 60 seconds before it expires; one that does not say when
/// it expires is not.
pub proof fn law_token_is_renewed_in_time(expiry: i64, now: i64)
    ensures
        expires_soon(Some(expiry), now) <==> expiry - now <= 60,
        !expires_soon(None, now),
{
}

/// Credentials without a refresh token are never renewed; with one they are where the access
/// token is missing or about to expire.
pub proof fn law_credentials_are_renewed_where_they_can_be(
    auth: JsonModel,
    now: i64,
    token: Seq<char>,
)
    ensures
        auth.nested("tokens"@, "refresh_token"@) is None ==> !needs_refresh(auth, now),
        token_text(auth, "refresh_token"@) is Some && auth.nested("tokens"@, "access_token"@) is None
            ==> needs_refresh(auth, now),
        token_text(auth, "refresh_token"@) is Some && auth.nested("tokens"@, "access_token"@)
            == Some(JsonModel::Text(token)) && text::trimmed(token) == token && token.len() > 0 ==> (
        needs_refresh(auth, now) <==> (token_number(token, "exp"@) matches Some(expiry) && expiry
            - now <= 60)),
{
}

/// The request for a renewal names the client, the kind of grant, and the refresh token.
pub proof fn law_renewal_hands_in_the_refresh_token(token: Seq<char>)
    ensures
        refresh_request_model(token).member("client_id"@) == Some(
            JsonModel::Text(CHATGPT_OAUTH_CLIENT_ID@),
        ),
        refresh_request_model(token).member("grant_type"@) == Some(
            JsonModel::Text("refresh_token"@),
        ),
        refresh_request_model(token).member("refresh_token"@) == Some(JsonModel::Text(token)),
{
    reveal_strlit("client_id");
    reveal_strlit("grant_type");
    reveal_strlit("refresh_token");
    assert("client_id"@.len() != "grant_type"@.len());
    assert("client_id"@.len() != "refresh_token"@.len());
    assert("grant_type"@.len() != "refresh_token"@.len());
    reveal_with_fuel(json::lookup, 4);
}

/// A status in the two hundreds is a success, and no other.
pub proof fn law_success_is_in_the_two_hundreds(status: u16)
    ensures
        is_success(status) <==> status / 100 == 2,
{
}

/// Tokens are renewed where the override says, without the white space around it, and in the
/// usual place where there is none or it is blank.
pub proof fn law_override_says_where_tokens_are_renewed(url: Seq<char>)
    ensures
        text::trimmed(url).len() > 0 ==> renewal_url(Some(url)) == text::trimmed(url),
        text::trimmed(url).len() == 0 ==> renewal_url(Some(url)) == REFRESH_TOKEN_URL@,
        renewal_url(None) == REFRESH_TOKEN_URL@,
{
}

/// Credentials that are nobody's are not of the same account as any others.
pub proof fn law_nobody_shares_an_account(left: JsonModel, right: JsonModel)
    requires
        identity_of(left) is None,
    ensures
        !same_account(left, right),
        !same_account(right, left),
{
}

/// A token without a dot is none; one whose second field is no base64 cannot be decoded, and one
/// that decodes to no JSON cannot be read. There is no error where there are claims.
pub proof fn law_token_errors_tell_what_is_wrong(
    token: Seq<char>,
    error: TokenError,
    field: Seq<char>,
    bytes: Seq<u8>,
)
    requires
        is_token_error(token, error),
    ensures
        (forall|i: int| 0 <= i < token.len() ==> #[trigger] token[i] != '.') ==> error
            == TokenError::NotAToken,
        second_field(token) == Some(field) && outside::base64_decoded(field) is None ==> error
            == TokenError::NotBase64,
        second_field(token) == Some(field) && outside::base64_decoded(field) == Some(bytes) ==> error
            == TokenError::NotJson && json::parsed_bytes(bytes) is None,
{
    if forall|i: int| 0 <= i < token.len() ==> #[trigger] token[i] != '.' {
        text::law_text_is_split(token, '.', Seq::empty());
    }
}

/// Where nobody can be read off the credentials, the error says whether the identity token is
/// missing, cannot be read, or names no email.
pub proof fn law_identity_errors_tell_what_is_wrong(
    auth: JsonModel,
    error: IdentityError,
    token: Seq<char>,
    claims: JsonModel,
)
    requires
        is_identity_error(auth, error),
    ensures
        auth.nested("tokens"@, "id_token"@) is None ==> error == IdentityError::MissingIdToken,
        auth.nested("tokens"@, "id_token"@) == Some(JsonModel::Text(token)) && jwt_claims(token)
            == Some(claims) ==> error == IdentityError::MissingEmail && claimed_email(claims) is None,
        auth.nested("tokens"@, "id_token"@) == Some(JsonModel::Text(token)) && jwt_claims(
            token,
        ) is None ==> (error matches IdentityError::BadIdToken(why) && is_token_error(token, why)),
{
}

/// A reply without an access token renews nothing, and neither does any reply credentials
/// without tokens; otherwise the tokens of the reply are taken.
pub proof fn law_reply_must_hold_a_token(
    auth: JsonModel,
    reply: JsonModel,
    r: Result<Json, RefreshError>,
)
    requires
        is_refresh_of(auth, reply, r),
    ensures
        reply.member("access_token"@) is None ==> (r matches Err(error) && error
            == RefreshError::MissingAccessToken),
        member_text(reply, "access_token"@) is Some && auth.member("tokens"@) is None ==> (
        r matches Err(error) && error == RefreshError::MissingTokens),
        member_text(reply, "access_token"@) is Some && has_tokens(auth) ==> (r matches Ok(updated)
            && token_text(updated@, "access_token"@) == member_text(reply, "access_token"@)),
{
    if member_text(reply, "access_token"@) is Some && has_tokens(auth) {
        let stamp = choose|stamp: Seq<char>|
            outside::is_utc_stamp(stamp) && r->Ok_0@ == #[trigger] renewed(auth, reply, stamp);
        law_refresh_takes_the_new_token(auth, reply, stamp);
    }
}

/// The error on a file names it, and tells a missing file from one that cannot be read and from
/// one that is no JSON.
pub proof fn law_read_errors_name_the_file(path: Seq<char>)
    ensures
        path.is_suffix_of(ReadError::NotFound.words(path)),
        path.is_suffix_of(ReadError::Unreadable.words(path)),
        path.is_suffix_of(ReadError::NotJson.words(path)),
        ReadError::NotFound.words(path) != ReadError::Unreadable.words(path),
        ReadError::NotFound.words(path) != ReadError::NotJson.words(path),
        ReadError::Unreadable.words(path) != ReadError::NotJson.words(path),
{
    reveal_strlit("auth.json not found: ");
    reveal_strlit("failed to read ");
    reveal_strlit("invalid JSON in ");
    let missing = ReadError::NotFound.words(path);
    let unread = ReadError::Unreadable.words(path);
    let other = ReadError::NotJson.words(path);
    assert(path =~= missing.skip(missing.len() - path.len()));
    assert(path =~= unread.skip(unread.len() - path.len()));
    assert(path =~= other.skip(other.len() - path.len()));
    assert(missing.len() != unread.len());
    assert(missing.len() != other.len());
    assert(unread.len() != other.len());
}

} // verus!
