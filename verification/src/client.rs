//! The server-registration client: the token lifecycle (acquire once, cache,
//! decode claims), and the construction of the registration exchanges.
//!
//! The client performs no I/O. An operation that needs state the client does
//! not hold yet answers [`Step::Authenticate`] with the authentication request
//! to perform; the caller performs it and hands the response body to
//! [`DedicatedServerClient::handle_auth_response`]. Only that call mutates the
//! client, so once a token is cached it is reused for the client's lifetime.
use crate::base64::{b64url_decode, spec_b64_decode};
use crate::config::{ClientConfig, ClientConfigSettings, ServerConfig, spec_server_config_json};
use crate::http::{
    auth_request, authorization, servers_url, spec_auth_request, spec_client_config_request,
    spec_register_request, spec_deregister_request, user_agent, HttpRequest, Method,
};
use crate::json::{
    find_char, json_string_field, json_u64_field, spec_find_char, spec_json_string_field,
    spec_json_u64_field,
};
use crate::Error;
use vstd::prelude::*;
use vstd::string::StrSliceExecFns;
use vstd::string::StringExecFns;
use vstd::utf8::{decode_utf8, encode_utf8, encode_utf8_decode_utf8, valid_utf8};

verus! {

/// The pair returned by the authentication endpoint. The refresh token is
/// held but never used.
#[derive(Debug, Clone, PartialEq, Eq)]
pub struct AuthToken {
    pub access_token: String,
    pub refresh_token: String,
}

/// Claims decoded from an access token's payload, signature unchecked: the
/// subject (the account id) and, when present, the expiry.
#[derive(Debug, Clone, PartialEq, Eq)]
pub struct AccessTokenClaims {
    pub sub: String,
    pub exp: Option<u64>,
}

#[verifier::ext_equal]
pub struct AuthTokenModel {
    pub access_token: Seq<char>,
    pub refresh_token: Seq<char>,
}

#[verifier::ext_equal]
pub struct ClaimsModel {
    pub sub: Seq<char>,
    pub exp: Option<u64>,
}

impl View for AuthToken {
    type V = AuthTokenModel;

    open spec fn view(&self) -> AuthTokenModel {
        AuthTokenModel { access_token: self.access_token@, refresh_token: self.refresh_token@ }
    }
}

impl View for AccessTokenClaims {
    type V = ClaimsModel;

    open spec fn view(&self) -> ClaimsModel {
        ClaimsModel { sub: self.sub@, exp: self.exp }
    }
}

/// The payload segment of a token: the text between the first and the second
/// dot, there being exactly two dots.
pub open spec fn spec_payload(t: Seq<char>) -> Option<Seq<char>> {
    match spec_find_char(t, '.', 0) {
        None => None,
        Some(d1) => match spec_find_char(t, '.', d1 + 1) {
            None => None,
            Some(d2) => if spec_find_char(t, '.', d2 + 1) is None {
                Some(t.subrange(d1 + 1, d2))
            } else {
                None
            },
        },
    }
}

/// The payload decoded to text: base64url to bytes, which must be valid UTF-8.
pub open spec fn spec_payload_json(t: Seq<char>) -> Option<Seq<char>> {
    match spec_payload(t) {
        None => None,
        Some(p) => match spec_b64_decode(p) {
            None => None,
            Some(bytes) => if valid_utf8(bytes) {
                Some(decode_utf8(bytes))
            } else {
                None
            },
        },
    }
}

/// Relies on `core::str::from_utf8`: `Some` exactly when the bytes are valid
/// UTF-8, and then the string is the one those bytes encode.
#[verifier::external_body]
fn bytes_to_string(v: &Vec<u8>) -> (r: Option<String>)
    ensures
        (r matches Some(s) ==> valid_utf8(v@) && encode_utf8(s@) == v@),
        (r is None ==> !valid_utf8(v@)),
{
    match core::str::from_utf8(v.as_slice()) {
        Ok(s) => Some(s.to_string()),
        Err(_) => None,
    }
}

/// The claims of a token: the payload must decode to text carrying a `sub`
/// string field; the `exp` field is optional.
pub open spec fn spec_claims(t: Seq<char>) -> Option<ClaimsModel> {
    match spec_payload_json(t) {
        None => None,
        Some(j) => match spec_json_string_field(j, "sub"@) {
            None => None,
            Some(sub) => Some(ClaimsModel { sub: sub, exp: spec_json_u64_field(j, "exp"@) }),
        },
    }
}

/// Decodes the claims out of an access token, per `spec_claims`; any malformed
/// token yields the decode error.
pub fn decode_access_token_claims(token: &str) -> (r: Result<AccessTokenClaims, Error>)
    ensures
        (spec_claims(token@) matches Some(cl) ==> (r matches Ok(c) && c@ == cl)),
        (spec_claims(token@) is None ==> r == Err::<AccessTokenClaims, Error>(Error::Decode)),
{
    let n = token.unicode_len();
    let d1 = match find_char(token, '.', 0, n) {
        None => {
            return Err(Error::Decode);
        },
        Some(d) => d,
    };
    let d2 = match find_char(token, '.', d1 + 1, n) {
        None => {
            return Err(Error::Decode);
        },
        Some(d) => d,
    };
    match find_char(token, '.', d2 + 1, n) {
        Some(_) => {
            return Err(Error::Decode);
        },
        None => {},
    }
    let payload = token.substring_char(d1 + 1, d2);
    let bytes = match b64url_decode(payload) {
        None => {
            return Err(Error::Decode);
        },
        Some(b) => b,
    };
    let j = match bytes_to_string(&bytes) {
        None => {
            return Err(Error::Decode);
        },
        Some(x) => x,
    };
    proof {
        encode_utf8_decode_utf8(j@);
    }
    let sub = match json_string_field(j.as_str(), "sub") {
        None => {
            return Err(Error::Decode);
        },
        Some(s) => s,
    };
    let exp = json_u64_field(j.as_str(), "exp");
    Ok(AccessTokenClaims { sub, exp })
}

/// The token pair carried by an authentication response body: its
/// `accessToken` and `refreshToken` string fields, both required.
pub open spec fn spec_auth_token_of(body: Seq<char>) -> Option<AuthTokenModel> {
    match spec_json_string_field(body, "accessToken"@) {
        None => None,
        Some(at) => match spec_json_string_field(body, "refreshToken"@) {
            None => None,
            Some(rt) => Some(AuthTokenModel { access_token: at, refresh_token: rt }),
        },
    }
}

/// The whole state of a [`DedicatedServerClient`].
#[verifier::ext_equal]
pub struct ClientModel {
    pub login: Seq<char>,
    pub password: Seq<char>,
    pub auth_token: Option<AuthTokenModel>,
    pub claims: Option<ClaimsModel>,
}

/// A client in this state must still authenticate before it can hand out a
/// token.
pub open spec fn spec_needs_authentication(c: ClientModel) -> bool {
    c.auth_token is None
}

/// The token cache has two states, nothing or everything: the claims are
/// cached exactly when the token is. Construction establishes this and every
/// operation preserves it, so it holds of every reachable client.
pub open spec fn spec_client_wf(c: ClientModel) -> bool {
    c.auth_token is Some <==> c.claims is Some
}

pub open spec fn spec_cached_access_token(c: ClientModel) -> Option<Seq<char>> {
    match c.auth_token {
        Some(t) => Some(t.access_token),
        None => None,
    }
}

pub open spec fn spec_cached_account_id(c: ClientModel) -> Option<Seq<char>> {
    match c.claims {
        Some(cl) => Some(cl.sub),
        None => None,
    }
}

/// What handling an authentication response does. A client that already holds
/// a token ignores the response: the cache is never replaced. Otherwise the
/// token pair and its decoded claims are cached together, and only on success:
/// an unreadable body, or a token whose claims do not decode, leaves the
/// client unchanged with the matching error, so a later call authenticates
/// afresh.
pub open spec fn spec_handle_auth_response(c: ClientModel, body: Seq<char>) -> (Result<
    (),
    Error,
>, ClientModel) {
    if c.auth_token is Some {
        (Ok(()), c)
    } else {
        match spec_auth_token_of(body) {
            None => (Err(Error::Http), c),
            Some(tok) => match spec_claims(tok.access_token) {
                Some(cl) => (
                    Ok(()),
                    ClientModel { auth_token: Some(tok), claims: Some(cl), ..c },
                ),
                None => (Err(Error::Decode), c),
            },
        }
    }
}

/// What an operation asks of its caller: either its result is ready from the
/// client's cached state, or the caller must first perform the given
/// authentication exchange and hand the response back.
#[derive(Debug)]
pub enum Step<T> {
    Ready(T),
    Authenticate(HttpRequest),
}

/// The client of the unauthenticated endpoints.
#[derive(Debug, Clone, PartialEq, Eq)]
pub struct Client {}

impl Client {
    pub fn new() -> (r: Self)
        ensures
            r == (Client {  }),
    {
        Client {  }
    }

    /// The exchange that fetches the client configuration.
    pub fn client_config_request(&self) -> (r: HttpRequest)
        ensures
            r@ == spec_client_config_request(),
    {
        let mut url = String::new();
        url.append("https://prod.trackmania.core.nadeo.online/client/config");
        let r = HttpRequest {
            method: Method::Get,
            url,
            user_agent: Some(user_agent()),
            authorization: None,
            basic_auth: None,
            body: None,
        };
        proof {
            assert(r@ =~~= spec_client_config_request());
        }
        r
    }

    /// Reads the caller's observed IP out of a client-configuration response
    /// body: its `ClientIP` string field, whether at the top level or nested
    /// under a `settings` object.
    pub fn get_client_config(&self, body: &str) -> (r: Result<ClientConfig, Error>)
        ensures
            (spec_json_string_field(body@, "ClientIP"@) matches Some(ip) ==> (r matches Ok(cfg)
                && cfg.settings.client_ip@ == ip)),
            (spec_json_string_field(body@, "ClientIP"@) is None ==> r == Err::<
                ClientConfig,
                Error,
            >(Error::Http)),
    {
        match json_string_field(body, "ClientIP") {
            Some(ip) => Ok(ClientConfig { settings: ClientConfigSettings { client_ip: ip } }),
            None => Err(Error::Http),
        }
    }
}

impl Default for Client {
    fn default() -> (r: Self)
        ensures
            r == (Client {  }),
    {
        Client::new()
    }
}

/// The client of the dedicated-server endpoints: fixed credentials, plus the
/// cached token and claims, both absent until the first successful
/// authentication, cached together by it, and never cleared or replaced
/// afterwards. The state is private: every reachable client satisfies
/// `spec_client_wf` of its view.
#[derive(Debug, Clone, PartialEq, Eq)]
pub struct DedicatedServerClient {
    client: Client,
    login: String,
    password: String,
    auth_token: Option<AuthToken>,
    access_token_claims: Option<AccessTokenClaims>,
}

impl View for DedicatedServerClient {
    type V = ClientModel;

    closed spec fn view(&self) -> ClientModel {
        ClientModel {
            login: self.login@,
            password: self.password@,
            auth_token: match self.auth_token {
                Some(ref t) => Some(t@),
                None => None,
            },
            claims: match self.access_token_claims {
                Some(ref c) => Some(c@),
                None => None,
            },
        }
    }
}

impl DedicatedServerClient {
    pub fn new(login: &'static str, password: &'static str) -> (r: Self)
        ensures
            r@ == (ClientModel {
                login: login@,
                password: password@,
                auth_token: None,
                claims: None,
            }),
    {
        let mut lg = String::new();
        lg.append(login);
        let mut pw = String::new();
        pw.append(password);
        let r = DedicatedServerClient {
            client: Client::new(),
            login: lg,
            password: pw,
            auth_token: None,
            access_token_claims: None,
        };
        proof {
            assert(r@ =~~= (ClientModel {
                login: login@,
                password: password@,
                auth_token: None,
                claims: None,
            }));
        }
        r
    }

    /// The cached access token, or the authentication exchange to perform
    /// first. The client itself is untouched either way.
    pub fn get_access_token(&self) -> (r: Step<String>)
        ensures
            (self@.auth_token matches Some(t) ==> (r matches Step::Ready(s) && s@
                == t.access_token)),
            (self@.auth_token is None ==> (r matches Step::Authenticate(q) && q@
                == spec_auth_request(self@.login, self@.password))),
    {
        match &self.auth_token {
            Some(t) => Step::Ready(t.access_token.clone()),
            None => Step::Authenticate(auth_request(self.login.as_str(), self.password.as_str())),
        }
    }

    /// The account id out of the cached claims, or the authentication exchange
    /// to perform first. No exchange is needed once the claims are cached.
    pub fn get_account_id(&self) -> (r: Step<String>)
        ensures
            (self@.claims matches Some(cl) ==> (r matches Step::Ready(s) && s@ == cl.sub)),
            (self@.claims is None ==> (r matches Step::Authenticate(q) && q@ == spec_auth_request(
                self@.login,
                self@.password,
            ))),
    {
        match &self.access_token_claims {
            Some(c) => Step::Ready(c.sub.clone()),
            None => Step::Authenticate(auth_request(self.login.as_str(), self.password.as_str())),
        }
    }

    /// Caches what an authentication response carries, per
    /// `spec_handle_auth_response`: all or nothing, and never over an already
    /// cached token.
    pub fn handle_auth_response(&mut self, body: &str) -> (r: Result<(), Error>)
        ensures
            r == spec_handle_auth_response(old(self)@, body@).0,
            final(self)@ == spec_handle_auth_response(old(self)@, body@).1,
    {
        if self.auth_token.is_some() {
            return Ok(());
        }
        let at = match json_string_field(body, "accessToken") {
            None => {
                return Err(Error::Http);
            },
            Some(x) => x,
        };
        let rt = match json_string_field(body, "refreshToken") {
            None => {
                return Err(Error::Http);
            },
            Some(x) => x,
        };
        match decode_access_token_claims(at.as_str()) {
            Ok(c) => {
                self.auth_token = Some(AuthToken { access_token: at, refresh_token: rt });
                self.access_token_claims = Some(c);
                proof {
                    assert(self@ =~~= spec_handle_auth_response(old(self)@, body@).1);
                }
                Ok(())
            },
            Err(e) => Err(e),
        }
    }

    /// The PUT that registers a server under the account, carrying the cached
    /// access token and the serialized description — or the authentication
    /// exchange to perform first.
    pub fn register_dedicated_server(&self, account_id: &str, config: &ServerConfig) -> (r: Step<
        HttpRequest,
    >)
        ensures
            (self@.auth_token matches Some(t) ==> (r matches Step::Ready(q) && q@
                == spec_register_request(
                t.access_token,
                account_id@,
                spec_server_config_json(config@),
            ))),
            (self@.auth_token is None ==> (r matches Step::Authenticate(q) && q@
                == spec_auth_request(self@.login, self@.password))),
    {
        match &self.auth_token {
            None => Step::Authenticate(
                auth_request(self.login.as_str(), self.password.as_str()),
            ),
            Some(t) => {
                let req = HttpRequest {
                    method: Method::Put,
                    url: servers_url(account_id),
                    user_agent: Some(user_agent()),
                    authorization: Some(authorization(t.access_token.as_str())),
                    basic_auth: None,
                    body: Some(config.to_json()),
                };
                proof {
                    assert(req@ =~~= spec_register_request(
                        t@.access_token,
                        account_id@,
                        spec_server_config_json(config@),
                    ));
                }
                Step::Ready(req)
            },
        }
    }

    /// The DELETE that deregisters the account's server, carrying the cached
    /// access token — or the authentication exchange to perform first.
    pub fn deregister_dedicated_server(&self, account_id: &str) -> (r: Step<HttpRequest>)
        ensures
            (self@.auth_token matches Some(t) ==> (r matches Step::Ready(q) && q@
                == spec_deregister_request(t.access_token, account_id@))),
            (self@.auth_token is None ==> (r matches Step::Authenticate(q) && q@
                == spec_auth_request(self@.login, self@.password))),
    {
        match &self.auth_token {
            None => Step::Authenticate(
                auth_request(self.login.as_str(), self.password.as_str()),
            ),
            Some(t) => {
                let req = HttpRequest {
                    method: Method::Delete,
                    url: servers_url(account_id),
                    user_agent: Some(user_agent()),
                    authorization: Some(authorization(t.access_token.as_str())),
                    basic_auth: None,
                    body: None,
                };
                proof {
                    assert(req@ =~~= spec_deregister_request(t@.access_token, account_id@));
                }
                Step::Ready(req)
            },
        }
    }

    /// The client of the unauthenticated endpoints that this client carries.
    pub fn client(&self) -> &Client {
        &self.client
    }
}

/// Authentication happens exactly once. A client that needs authentication and
/// successfully handles an authentication response needs none afterwards, and
/// the cached token is exactly the one the response carried; since every other
/// operation leaves the client untouched, no later call authenticates again.
pub proof fn lemma_authenticate_exactly_once(c: ClientModel, body: Seq<char>)
    requires
        spec_needs_authentication(c),
        spec_handle_auth_response(c, body).0 == Ok::<(), Error>(()),
    ensures
        !spec_needs_authentication(spec_handle_auth_response(c, body).1),
        spec_auth_token_of(body) matches Some(t) && spec_cached_access_token(
            spec_handle_auth_response(c, body).1,
        ) == Some(t.access_token),
{
}

/// Once a client that needed authentication handles a response successfully,
/// the cached account id is the `sub` claim decoded from the cached token's
/// payload, with no further exchange.
pub proof fn lemma_account_id_from_cached_claims(c: ClientModel, body: Seq<char>)
    requires
        spec_needs_authentication(c),
        spec_handle_auth_response(c, body).0 == Ok::<(), Error>(()),
    ensures
        spec_auth_token_of(body) matches Some(t) && spec_claims(t.access_token) matches Some(cl)
            && spec_cached_account_id(spec_handle_auth_response(c, body).1) == Some(cl.sub),
{
}

/// The cache moves only forward, all or nothing: handling a response keeps the
/// claims cached exactly when the token is, a client that already holds a
/// token is left exactly as it was, and a cached token is never replaced.
pub proof fn lemma_cache_never_replaced(c: ClientModel, body: Seq<char>)
    requires
        spec_client_wf(c),
    ensures
        spec_client_wf(spec_handle_auth_response(c, body).1),
        !spec_needs_authentication(c) ==> spec_handle_auth_response(c, body).1 == c,
        (spec_cached_access_token(c) matches Some(t) ==> spec_cached_access_token(
            spec_handle_auth_response(c, body).1,
        ) == Some(t)),
{
}

/// A token whose payload carries no `sub` claim has no claims at all: decoding
/// it must fail, whatever else the payload holds.
pub proof fn lemma_missing_sub_fails(t: Seq<char>)
    requires
        spec_payload_json(t) matches Some(j) && spec_json_string_field(j, "sub"@) is None,
    ensures
        spec_claims(t) is None,
{
}

} // verus!
