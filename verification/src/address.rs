//! Where a node is found, and what of the outside world it takes to say so.
use vstd::prelude::*;
use vstd::utf8::{decode_utf8, valid_utf8};

verus! {

/// The parts of a URL.
#[derive(Debug, PartialEq, Eq)]
pub struct UrlParts {
    /// The URL as a whole, in its normal form.
    pub href: String,
    pub scheme: String,
    pub host: Option<String>,
    /// The port, where it is not the default one of the scheme.
    pub port: Option<u16>,
    pub path: String,
    pub query: Option<String>,
    pub username: String,
    pub password: Option<String>,
}

/// The contents of [`UrlParts`].
pub struct UrlView {
    pub href: Seq<char>,
    pub scheme: Seq<char>,
    pub host: Option<Seq<char>>,
    pub port: Option<u16>,
    pub path: Seq<char>,
    pub query: Option<Seq<char>>,
    pub username: Seq<char>,
    pub password: Option<Seq<char>>,
}

/// The text that may be there.
pub open spec fn text_view(text: Option<String>) -> Option<Seq<char>> {
    match text {
        Some(s) => Some(s@),
        None => None,
    }
}

impl View for UrlParts {
    type V = UrlView;

    open spec fn view(&self) -> UrlView {
        UrlView {
            href: self.href@,
            scheme: self.scheme@,
            host: text_view(self.host),
            port: self.port,
            path: self.path@,
            query: text_view(self.query),
            username: self.username@,
            password: text_view(self.password),
        }
    }
}

/// The URL that a text spells, or the text of the error.
pub uninterp spec fn url_of_text(text: Seq<char>) -> Result<UrlView, Seq<char>>;

/// `url::Url::parse`, and the parts of the `url::Url` that it gives: all of it depends on the
/// text alone.
#[verifier::external_body]
pub(crate) fn parse_url(text: &str) -> (r: Result<UrlParts, String>)
    ensures
        url_of_text(text@) == match r {
            Ok(parts) => Ok::<UrlView, Seq<char>>(parts@),
            Err(error) => Err(error@),
        },
{
    let url = url::Url::parse(text).map_err(|e| format!("{}", e))?;
    Ok(UrlParts {
        href: url.as_str().to_string(),
        scheme: url.scheme().to_string(),
        host: url.host_str().map(str::to_string),
        port: url.port(),
        path: url.path().to_string(),
        query: url.query().map(str::to_string),
        username: url.username().to_string(),
        password: url.password().map(str::to_string),
    })
}

/// The value of an `Authorization` header for a name and a password.
pub uninterp spec fn basic_credentials(username: Seq<char>, password: Seq<char>) -> Seq<u8>;

/// `headers::Authorization::basic` and the encoding of its credentials: the bytes depend on name
/// and password alone.
#[verifier::external_body]
pub(crate) fn encode_basic(username: &str, password: &str) -> (r: Vec<u8>)
    ensures
        r@ == basic_credentials(username@, password@),
{
    let basic = headers::Authorization::basic(username, password).0;
    headers::authorization::Credentials::encode(&basic).as_bytes().to_vec()
}

/// How some bytes read as text.
pub uninterp spec fn lossy_text(bytes: Seq<u8>) -> Seq<char>;

/// `String::from_utf8_lossy`: the text depends on the bytes alone, and bytes that are UTF-8 read
/// as what they encode.
#[verifier::external_body]
pub(crate) fn from_utf8_lossy(bytes: &[u8]) -> (r: String)
    ensures
        r@ == lossy_text(bytes@),
        valid_utf8(bytes@) ==> r@ == decode_utf8(bytes@),
{
    String::from_utf8_lossy(bytes).into_owned()
}

} // verus!
