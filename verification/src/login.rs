//! Checking the login URL that the server hands out before it is opened.
use crate::rpc::AppServerError;
use crate::text::str_eq;
use vstd::prelude::*;

verus! {

/// What the `url` crate makes of `url`: the scheme of the parsed URL (lower
/// case, without the colon), or the message of the error the parse ends in.
pub uninterp spec fn parsed_url_scheme(url: Seq<char>) -> Result<Seq<char>, Seq<char>>;

/// `url::Url::parse` followed by `Url::scheme`: the scheme of `url`, or the
/// message (`Display`) of the `url::ParseError` that the parse ended in.
#[verifier::external_body]
fn url_scheme(url: &str) -> (r: Result<String, String>)
    ensures
        match r {
            Ok(s) => parsed_url_scheme(url@) == Ok::<Seq<char>, Seq<char>>(s@),
            Err(t) => parsed_url_scheme(url@) == Err::<Seq<char>, Seq<char>>(t@),
        },
{
    match url::Url::parse(url) {
        Ok(parsed) => Ok(parsed.scheme().to_owned()),
        Err(e) => Err(e.to_string()),
    }
}

/// A login URL can be opened where it is an absolute URL with the scheme
/// `http` or `https`.
pub open spec fn openable_login_url(url: Seq<char>) -> bool {
    parsed_url_scheme(url) matches Ok(s) && (s == "http"@ || s == "https"@)
}

/// Checks that the login URL `url` may be opened in a browser: it must parse
/// as a URL whose scheme is `http` or `https`. A URL that does not parse is
/// refused with the parser's message.
pub fn check_login_url(url: &str) -> (r: Result<(), AppServerError>)
    ensures
        match parsed_url_scheme(url@) {
            Err(message) => r matches Err(e) && e is Rpc && e.text() == message,
            Ok(s) => if s == "http"@ || s == "https"@ {
                r is Ok
            } else {
                r matches Err(e) && e is Rpc && e.text() == "Login URL must use http or https"@
            },
        },
        r is Ok <==> openable_login_url(url@),
{
    match url_scheme(url) {
        Ok(scheme) => {
            if str_eq(scheme.as_str(), "http") || str_eq(scheme.as_str(), "https") {
                Ok(())
            } else {
                Err(AppServerError::rpc("Login URL must use http or https"))
            }
        },
        Err(message) => Err(AppServerError::Rpc(message)),
    }
}

} // verus!
