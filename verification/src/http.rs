//! A plain description of an outbound HTTP request. The library never sends
//! one itself: callers perform the described exchange and hand the response
//! body back as text.
use vstd::prelude::*;
use vstd::string::StringExecFns;

verus! {

#[derive(Debug, Clone, Copy, PartialEq, Eq, Structural)]
pub enum Method {
    Get,
    Post,
    Put,
    Delete,
}

/// Basic-auth credentials to attach to a request.
#[derive(Debug, Clone, PartialEq, Eq)]
pub struct BasicAuth {
    pub login: String,
    pub password: String,
}

/// One outbound HTTP exchange, fully described by plain values.
#[derive(Debug, Clone, PartialEq, Eq)]
pub struct HttpRequest {
    pub method: Method,
    pub url: String,
    pub user_agent: Option<String>,
    pub authorization: Option<String>,
    pub basic_auth: Option<BasicAuth>,
    pub body: Option<String>,
}

#[verifier::ext_equal]
pub struct BasicAuthModel {
    pub login: Seq<char>,
    pub password: Seq<char>,
}

#[verifier::ext_equal]
pub struct HttpRequestModel {
    pub method: Method,
    pub url: Seq<char>,
    pub user_agent: Option<Seq<char>>,
    pub authorization: Option<Seq<char>>,
    pub basic_auth: Option<BasicAuthModel>,
    pub body: Option<Seq<char>>,
}

impl View for BasicAuth {
    type V = BasicAuthModel;

    open spec fn view(&self) -> BasicAuthModel {
        BasicAuthModel { login: self.login@, password: self.password@ }
    }
}

impl View for HttpRequest {
    type V = HttpRequestModel;

    open spec fn view(&self) -> HttpRequestModel {
        HttpRequestModel {
            method: self.method,
            url: self.url@,
            user_agent: match self.user_agent {
                Some(ref u) => Some(u@),
                None => None,
            },
            authorization: match self.authorization {
                Some(ref a) => Some(a@),
                None => None,
            },
            basic_auth: match self.basic_auth {
                Some(ref b) => Some(b@),
                None => None,
            },
            body: match self.body {
                Some(ref b) => Some(b@),
                None => None,
            },
        }
    }
}

/// The fixed product identifier sent as the user-agent of authenticated calls.
pub open spec fn spec_user_agent() -> Seq<char> {
    "JussyDr"@
}

/// The authentication exchange: a POST with basic credentials and the fixed
/// user-agent, no body.
pub open spec fn spec_auth_request(login: Seq<char>, password: Seq<char>) -> HttpRequestModel {
    HttpRequestModel {
        method: Method::Post,
        url: "https://prod.trackmania.core.nadeo.online/v2/authentication/token/basic"@,
        user_agent: Some(spec_user_agent()),
        authorization: None,
        basic_auth: Some(BasicAuthModel { login: login, password: password }),
        body: None,
    }
}

/// The unauthenticated fetch of the client configuration: a GET with the fixed
/// user-agent, nothing else attached.
pub open spec fn spec_client_config_request() -> HttpRequestModel {
    HttpRequestModel {
        method: Method::Get,
        url: "https://prod.trackmania.core.nadeo.online/client/config"@,
        user_agent: Some(spec_user_agent()),
        authorization: None,
        basic_auth: None,
        body: None,
    }
}

/// The per-account server resource: the fixed prefix followed by the account id.
pub open spec fn spec_servers_url(account_id: Seq<char>) -> Seq<char> {
    "https://prod.trackmania.core.nadeo.online/servers/"@ + account_id
}

/// The authorization header value that carries an access token.
pub open spec fn spec_authorization(token: Seq<char>) -> Seq<char> {
    "nadeo_v1 t="@ + token
}

/// Registration: a PUT of the serialized server description to the account's
/// server resource, carrying the access token.
pub open spec fn spec_register_request(
    token: Seq<char>,
    account_id: Seq<char>,
    body: Seq<char>,
) -> HttpRequestModel {
    HttpRequestModel {
        method: Method::Put,
        url: spec_servers_url(account_id),
        user_agent: Some(spec_user_agent()),
        authorization: Some(spec_authorization(token)),
        basic_auth: None,
        body: Some(body),
    }
}

/// Deregistration: a DELETE of the account's server resource, carrying the
/// access token, no body.
pub open spec fn spec_deregister_request(token: Seq<char>, account_id: Seq<char>) -> HttpRequestModel {
    HttpRequestModel {
        method: Method::Delete,
        url: spec_servers_url(account_id),
        user_agent: Some(spec_user_agent()),
        authorization: Some(spec_authorization(token)),
        basic_auth: None,
        body: None,
    }
}

pub(crate) fn user_agent() -> (r: String)
    ensures
        r@ == spec_user_agent(),
{
    let mut s = String::new();
    s.append("JussyDr");
    proof {
        assert(s@ =~= spec_user_agent());
    }
    s
}

pub(crate) fn auth_request(login: &str, password: &str) -> (r: HttpRequest)
    ensures
        r@ == spec_auth_request(login@, password@),
{
    let mut url = String::new();
    url.append("https://prod.trackmania.core.nadeo.online/v2/authentication/token/basic");
    let mut lg = String::new();
    lg.append(login);
    let mut pw = String::new();
    pw.append(password);
    let r = HttpRequest {
        method: Method::Post,
        url,
        user_agent: Some(user_agent()),
        authorization: None,
        basic_auth: Some(BasicAuth { login: lg, password: pw }),
        body: None,
    };
    proof {
        assert(r@ =~~= spec_auth_request(login@, password@));
    }
    r
}

pub(crate) fn servers_url(account_id: &str) -> (r: String)
    ensures
        r@ == spec_servers_url(account_id@),
{
    let mut url = String::new();
    url.append("https://prod.trackmania.core.nadeo.online/servers/");
    url.append(account_id);
    proof {
        assert(url@ =~= spec_servers_url(account_id@));
    }
    url
}

pub(crate) fn authorization(token: &str) -> (r: String)
    ensures
        r@ == spec_authorization(token@),
{
    let mut h = String::new();
    h.append("nadeo_v1 t=");
    h.append(token);
    proof {
        assert(h@ =~= spec_authorization(token@));
    }
    h
}

} // verus!
