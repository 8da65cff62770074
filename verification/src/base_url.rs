//! Which endpoints a provider may talk to.

use vstd::prelude::*;

verus! {

/// What of a URL the policy looks at.
#[derive(Debug)]
pub struct UrlParts {
    /// The scheme in lower case, without its colon.
    pub scheme: String,
    /// The user name in front of the host, empty where there is none.
    pub username: String,
    /// The password in front of the host.
    pub password: Option<String>,
    /// The host as it is connected to.
    pub host: Option<String>,
}

/// What [`UrlParts`] stand for.
pub struct UrlModel {
    pub scheme: Seq<char>,
    pub username: Seq<char>,
    pub password: Option<Seq<char>>,
    pub host: Option<Seq<char>>,
}

pub open spec fn text_view(s: Option<String>) -> Option<Seq<char>> {
    match s {
        Some(s) => Some(s@),
        None => None,
    }
}

impl View for UrlParts {
    type V = UrlModel;

    open spec fn view(&self) -> UrlModel {
        UrlModel {
            scheme: self.scheme@,
            username: self.username@,
            password: text_view(self.password),
            host: text_view(self.host),
        }
    }
}

pub open spec fn parts_view(parts: Option<UrlParts>) -> Option<UrlModel> {
    match parts {
        Some(parts) => Some(parts@),
        None => None,
    }
}

/// What `url::Url::parse` finds in a text: scheme, user name, password and
/// host of the URL; `None` where it reports an error.
pub uninterp spec fn url_parts(input: Seq<char>) -> Option<UrlModel>;

/// `url::Url::parse`, read out by `scheme`, `username`, `password` and
/// `host_str`. `None` stands for its error. The result depends on the text
/// alone.
#[verifier::external_body]
fn parse_url(input: &str) -> (r: Option<UrlParts>)
    ensures
        parts_view(r) == url_parts(input@),
{
    match url::Url::parse(input) {
        Ok(u) => Some(
            UrlParts {
                scheme: u.scheme().to_string(),
                username: u.username().to_string(),
                password: u.password().map(str::to_string),
                host: u.host_str().map(str::to_string),
            },
        ),
        Err(_) => None,
    }
}

/// Whether a URL carries a user name or a password.
pub open spec fn carries_userinfo(u: UrlModel) -> bool {
    u.username.len() > 0 || u.password is Some
}

/// The policy: any `https` host, or exactly `localhost` or `127.0.0.1` over
/// `http`, and never with credentials in the URL.
pub open spec fn permitted(parts: Option<UrlModel>) -> bool {
    match parts {
        Some(u) => {
            &&& !carries_userinfo(u)
            &&& {
                ||| u.scheme == "https"@
                ||| u.scheme == "http"@ && (u.host == Some("localhost"@) || u.host == Some(
                    "127.0.0.1"@,
                ))
            }
        },
        None => false,
    }
}

/// How a rejected base URL is reported.
pub open spec fn rejection(url: Seq<char>) -> Seq<char> {
    "base_url '"@ + url
        + "' is not permitted: must be https://, or http://localhost / http://127.0.0.1 for tests"@
}

/// Whether the policy permits a URL with these parts; `None` is a text that is
/// no URL.
pub fn base_url_permitted(parts: &Option<UrlParts>) -> (r: bool)
    ensures
        r == permitted(parts_view(*parts)),
{
    match parts {
        Some(u) => {
            if !u.username.as_str().is_empty() || u.password.is_some() {
                return false;
            }
            if u.scheme == "https".to_string() {
                return true;
            }
            if u.scheme != "http".to_string() {
                return false;
            }
            match &u.host {
                Some(host) => *host == "localhost".to_string() || *host == "127.0.0.1".to_string(),
                None => false,
            }
        },
        None => false,
    }
}

/// Judge `url`, which parses to `parts`.
pub fn check_base_url(url: &str, parts: &Option<UrlParts>) -> (r: Result<(), String>)
    ensures
        r is Ok <==> permitted(parts_view(*parts)),
        r matches Err(message) ==> message@ == rejection(url@),
{
    if base_url_permitted(parts) {
        return Ok(());
    }
    let mut message = "base_url '".to_string();
    message.append(url);
    message.append(
        "' is not permitted: must be https://, or http://localhost / http://127.0.0.1 for tests",
    );
    Err(message)
}

/// Validate the base URL: HTTPS only, with exactly `localhost` and `127.0.0.1`
/// permitted over HTTP for test mock servers, and no credentials in it. The URL
/// is parsed, not matched by its first characters, so that neither
/// `http://localhost@evil.com` nor `http://localhost.evil.com` passes.
pub fn validate_base_url(url: &str) -> (r: Result<(), String>)
    ensures
        r is Ok <==> permitted(url_parts(url@)),
        r matches Err(message) ==> message@ == rejection(url@),
{
    let parts = parse_url(url);
    check_base_url(url, &parts)
}

/// Credentials in a URL get it rejected, whatever its scheme and host.
pub proof fn law_userinfo_is_rejected(u: UrlModel)
    requires
        carries_userinfo(u),
    ensures
        !permitted(Some(u)),
{
}

/// Without credentials any `https` URL is accepted.
pub proof fn law_https_is_accepted(u: UrlModel)
    requires
        !carries_userinfo(u),
        u.scheme == "https"@,
    ensures
        permitted(Some(u)),
{
}

/// Over any other scheme only the exact loopback names pass, and those only
/// over `http`.
pub proof fn law_without_https_only_loopback_passes(u: UrlModel)
    requires
        u.scheme != "https"@,
    ensures
        permitted(Some(u)) ==> {
            &&& u.scheme == "http"@
            &&& u.host == Some("localhost"@) || u.host == Some("127.0.0.1"@)
        },
        permitted(Some(u)) <== {
            &&& !carries_userinfo(u)
            &&& u.scheme == "http"@
            &&& u.host == Some("localhost"@) || u.host == Some("127.0.0.1"@)
        },
{
}

} // verus!
