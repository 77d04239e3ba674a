//! Where resources are fetched from, and the server's defaults.
use hyper::http::uri::InvalidUri;
use hyper::Uri;
use vstd::prelude::*;
use vstd::string::*;

verus! {

/// The memory limit where none is given, in bytes.
pub const DEFAULT_MEMORY_LIMIT: usize = 42_000_000;

/// The port to listen on where none is given.
pub const DEFAULT_PORT: u16 = 443;

/// The memory limit for the cache.
pub fn memory_limit(flag: Option<usize>) -> (limit: usize)
    ensures
        limit == (match flag {
            Some(bytes) => bytes,
            None => DEFAULT_MEMORY_LIMIT,
        }),
        flag is None ==> limit == 42_000_000,
{
    match flag {
        Some(bytes) => bytes,
        None => DEFAULT_MEMORY_LIMIT,
    }
}

/// The port to listen on.
pub fn listen_port(flag: Option<u16>) -> (port: u16)
    ensures
        port == (match flag {
            Some(number) => number,
            None => DEFAULT_PORT,
        }),
        flag is None ==> port == 443,
{
    match flag {
        Some(number) => number,
        None => DEFAULT_PORT,
    }
}

/// The error of `hyper::Uri::try_from`.
#[verifier::external_type_specification]
#[verifier::external_body]
pub struct ExInvalidUri(hyper::http::uri::InvalidUri);

/// The components of a URI.
pub struct UriParts {
    /// The scheme; `http` and `https` are in lower case however they were written.
    pub scheme: Option<String>,
    /// User, host and port
    pub authority: Option<String>,
    /// The path; `/` where an absolute URI has none.
    pub path: String,
    /// What follows the `?`
    pub query: Option<String>,
}

/// The components of a URI, as text.
pub struct UriView {
    pub scheme: Option<Seq<char>>,
    pub authority: Option<Seq<char>>,
    pub path: Seq<char>,
    pub query: Option<Seq<char>>,
}

/// The text of an optional component.
pub open spec fn text_of(component: Option<String>) -> Option<Seq<char>> {
    match component {
        Some(text) => Some(text@),
        None => None,
    }
}

impl View for UriParts {
    type V = UriView;

    open spec fn view(&self) -> UriView {
        UriView {
            scheme: text_of(self.scheme),
            authority: text_of(self.authority),
            path: self.path@,
            query: text_of(self.query),
        }
    }
}

/// The length that no URI may exceed.
pub const MAX_URI_LENGTH: usize = 65_534;

/// The components of the URI that `text` spells, or why it spells none.
pub uninterp spec fn parsed_uri(text: Seq<char>) -> Result<UriView, InvalidUri>;

/// `hyper::Uri::try_from`, and the components of the URI it gives. The last clause says that an
/// HTTP URI without a query, put together again from its components, parses into the same ones,
/// unless the slash that stands for an absent path makes it too long.
#[verifier::external_body]
fn parse_uri(text: &str) -> (parts: Result<UriParts, InvalidUri>)
    ensures
        parsed_uri(text@) == match parts {
            Ok(parts) => Ok(parts@),
            Err(error) => Err(error),
        },
        parts matches Ok(parts) ==> (parts@.is_plain_http() && parts@.url().len()
            <= MAX_URI_LENGTH ==> parsed_uri(parts@.url()) == Ok::<_, InvalidUri>(parts@)),
{
    let uri = Uri::try_from(text)?;
    Ok(UriParts {
        scheme: uri.scheme_str().map(str::to_owned),
        authority: uri.authority().map(|authority| authority.as_str().to_owned()),
        path: uri.path().to_owned(),
        query: uri.query().map(str::to_owned),
    })
}

/// Why a URI cannot be the backend's.
#[derive(PartialEq, Eq, Structural, Debug, Clone, Copy)]
pub enum Rejection {
    /// It is not an HTTP URI.
    NotHttp,
    /// It has a query.
    HasQuery,
    /// It names no host.
    Relative,
    /// Its path does not end with a slash.
    NoTrailingSlash,
}

impl Rejection {
    /// What to tell the user.
    pub fn message(&self) -> (text: String)
        ensures
            text@ == match self {
                Rejection::NotHttp =>
                    "backend should serve over HTTP, since HTTPS is terminated at the cache"@,
                Rejection::HasQuery =>
                    "backend URL should not contain query, only a base path is allowed"@,
                Rejection::Relative => "backend URL should not be relative URL"@,
                Rejection::NoTrailingSlash => "backend URL should end with a /"@,
            },
    {
        match self {
            Rejection::NotHttp =>
                "backend should serve over HTTP, since HTTPS is terminated at the cache".to_owned(),
            Rejection::HasQuery =>
                "backend URL should not contain query, only a base path is allowed".to_owned(),
            Rejection::Relative => "backend URL should not be relative URL".to_owned(),
            Rejection::NoTrailingSlash => "backend URL should end with a /".to_owned(),
        }
    }
}

/// Why there are no fetch settings.
#[derive(Debug)]
pub enum SettingsError {
    /// The backend URL is no URI.
    InvalidUri(InvalidUri),
    /// The backend URL is not acceptable.
    Rejected(Rejection),
}

impl UriView {
    /// Whether the path ends with a slash.
    pub open spec fn ends_with_slash(self) -> bool {
        self.path.len() > 0 && self.path.last() == '/'
    }

    /// Whether this is an HTTP URI that names a host and has no query.
    pub open spec fn is_plain_http(self) -> bool {
        &&& self.scheme == Some("http"@)
        &&& self.authority is Some
        &&& self.query is None
    }

    /// Why this URI cannot be the backend's, if it cannot; the first reason that holds.
    pub open spec fn rejection(self) -> Option<Rejection> {
        if self.scheme != Some("http"@) {
            Some(Rejection::NotHttp)
        } else if self.query is Some {
            Some(Rejection::HasQuery)
        } else if self.authority is None {
            Some(Rejection::Relative)
        } else if !self.ends_with_slash() {
            Some(Rejection::NoTrailingSlash)
        } else {
            None
        }
    }

    /// The URI spelled out again.
    pub open spec fn url(self) -> Seq<char> {
        "http"@ + "://"@ + self.authority->0 + self.path
    }
}

/// Where resources are fetched from.
#[derive(Debug)]
pub struct FetchSettings {
    /// The URL that the path of a resource is appended to
    pub backend_url: String,
}

/// What comes of the backend URL `text`: the URL to fetch from, or why there is none.
pub open spec fn settings_for(text: Seq<char>) -> Result<Seq<char>, SettingsError> {
    match parsed_uri(text) {
        Ok(uri) => match uri.rejection() {
            None => Ok(uri.url()),
            Some(rejection) => Err(SettingsError::Rejected(rejection)),
        },
        Err(error) => Err(SettingsError::InvalidUri(error)),
    }
}

/// The URL in fetch settings, where there are any.
pub open spec fn settings_text(settings: Result<FetchSettings, SettingsError>) -> Result<
    Seq<char>,
    SettingsError,
> {
    match settings {
        Ok(settings) => Ok(settings.backend_url@),
        Err(error) => Err(error),
    }
}

/// Whether `text` ends with a slash.
fn ends_with_slash(text: &str) -> (yes: bool)
    ensures
        yes == (text@.len() > 0 && text@.last() == '/'),
{
    let length = text.unicode_len();
    length > 0 && text.get_char(length - 1) == '/'
}

impl FetchSettings {
    /// The settings for the backend that the URI `parts` names.
    pub fn from_uri(parts: UriParts) -> (settings: Result<FetchSettings, Rejection>)
        ensures
            match settings {
                Ok(settings) => parts@.rejection() is None && settings.backend_url@
                    == parts@.url(),
                Err(rejection) => parts@.rejection() == Some(rejection),
            },
            settings is Ok <==> parts.scheme is Some && parts.scheme->0@ == "http"@
                && parts.authority is Some && parts.query is None && parts.path@.len() > 0
                && parts.path@.last() == '/',
            settings matches Ok(settings) ==> settings.backend_url@ == "http://"@
                + parts.authority->0@ + parts.path@,
            settings matches Err(rejection) ==> match rejection {
                Rejection::NotHttp => parts.scheme is None || parts.scheme->0@ != "http"@,
                Rejection::HasQuery => {
                    &&& parts.scheme is Some && parts.scheme->0@ == "http"@
                    &&& parts.query is Some
                },
                Rejection::Relative => {
                    &&& parts.scheme is Some && parts.scheme->0@ == "http"@
                    &&& parts.query is None
                    &&& parts.authority is None
                },
                Rejection::NoTrailingSlash => {
                    &&& parts.scheme is Some && parts.scheme->0@ == "http"@
                    &&& parts.query is None
                    &&& parts.authority is Some
                    &&& parts.path@.len() == 0 || parts.path@.last() != '/'
                },
            },
    {
        proof {
            reveal_strlit("http");
            reveal_strlit("://");
            reveal_strlit("http://");
            assert("http://"@ =~= "http"@ + "://"@);
        }
        let scheme = match parts.scheme {
            Some(scheme) => scheme,
            None => { return Err(Rejection::NotHttp); },
        };
        if scheme != "http".to_owned() {
            return Err(Rejection::NotHttp);
        }
        if parts.query.is_some() {
            return Err(Rejection::HasQuery);
        }
        let authority = match parts.authority {
            Some(authority) => authority,
            None => { return Err(Rejection::Relative); },
        };
        if !ends_with_slash(parts.path.as_str()) {
            return Err(Rejection::NoTrailingSlash);
        }
        let mut backend_url = scheme;
        backend_url.append("://");
        backend_url.append(authority.as_str());
        backend_url.append(parts.path.as_str());
        Ok(FetchSettings { backend_url })
    }

    /// The settings for the backend at `backend_url`. An accepted URL, as the settings spell it, is
    /// accepted again and stays as it is.
    pub fn try_from(backend_url: &str) -> (settings: Result<FetchSettings, SettingsError>)
        ensures
            settings_for(backend_url@) == settings_text(settings),
            settings matches Ok(settings) ==> (settings.backend_url@.len() <= MAX_URI_LENGTH
                ==> settings_for(settings.backend_url@) == settings_for(backend_url@)),
            match parsed_uri(backend_url@) {
                Ok(uri) => {
                    &&& settings is Ok <==> uri.scheme == Some("http"@) && uri.authority is Some
                        && uri.query is None && uri.path.len() > 0 && uri.path.last() == '/'
                    &&& settings is Ok ==> settings->Ok_0.backend_url@ == "http://"@
                        + uri.authority->0 + uri.path
                    &&& settings is Err ==> settings->Err_0 is Rejected
                },
                Err(error) => settings is Err && settings->Err_0 == SettingsError::InvalidUri(
                    error,
                ),
            },
    {
        match parse_uri(backend_url) {
            Ok(parts) => match FetchSettings::from_uri(parts) {
                Ok(settings) => Ok(settings),
                Err(rejection) => Err(SettingsError::Rejected(rejection)),
            },
            Err(error) => Err(SettingsError::InvalidUri(error)),
        }
    }

    /// The URL of a resource on the backend: the backend's own, and the resource's path without
    /// its first character, which is always a slash.
    pub fn resource_url(&self, resource: &str) -> (url: String)
        requires
            resource@.len() > 0,
            (resource@[0] as u32) < 128,
        ensures
            url@ == self.backend_url@ + resource@.skip(1),
    {
        let mut url = self.backend_url.as_str().to_owned();
        url.append(resource.substring_char(1, resource.unicode_len()));
        assert(url@ =~= self.backend_url@ + resource@.skip(1));
        url
    }
}

} // verus!
