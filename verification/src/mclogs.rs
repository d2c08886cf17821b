//! Sharing a game log through mclo.gs: what is sent, and what the service's
//! answer means.
use vstd::prelude::*;

use crate::text::{chars_of, is_blank, push_str_chars, string_of, trim};

verus! {

/// The answer of the mclo.gs upload API.
pub struct MclogsResponse {
    pub success: bool,
    pub url: Option<String>,
    pub error: Option<String>,
}

/// Whether a character is left as it is by URL encoding: an ASCII letter
/// or digit, `-`, `.`, `_` or `~`.
pub open spec fn unreserved(c: char) -> bool {
    let u = c as u32;
    (48 <= u <= 57) || (65 <= u <= 90) || (97 <= u <= 122) || c == '-' || c == '.' || c == '_' || c == '~'
}

/// What `urlencoding::encode` makes of a text.
pub uninterp spec fn url_encoded(s: Seq<char>) -> Seq<char>;

/// `urlencoding::encode`: every byte of the UTF-8 text percent-encoded but
/// those of ASCII letters, digits and `-._~`. The encoding is named; the
/// claim made of it is that a text made only of such characters comes
/// back unchanged.
#[verifier::external_body]
fn url_encode(s: &str) -> (res: String)
    ensures
        res@ == url_encoded(s@),
        (forall|i: int| 0 <= i < s@.len() ==> unreserved(#[trigger] s@[i])) ==> res@ == s@,
{
    urlencoding::encode(s).into_owned()
}

/// The form body that uploads a log: `content=` and the URL-encoded log;
/// a log that is only whitespace is refused.
pub fn upload_form(content: &str) -> (r: Result<String, String>)
    ensures
        match r {
            Ok(body) => trim(content@).len() > 0 && body@ == "content="@ + url_encoded(content@),
            Err(m) => trim(content@).len() == 0 && m@ == "Cannot upload empty log"@,
        },
{
    if is_blank(content) {
        return Err("Cannot upload empty log".to_owned());
    }
    let mut out = chars_of("content=");
    let enc = url_encode(content);
    push_str_chars(&mut out, enc.as_str());
    Ok(string_of(out.as_slice()))
}

/// What an answer of the service comes to: the address of the uploaded log,
/// or the service's error.
pub fn interpret_response(response: MclogsResponse) -> (r: Result<String, String>)
    ensures
        response.success ==> match response.url {
            Some(u) => r matches Ok(x) && x@ == u@,
            None => r matches Err(m) && m@ == "No URL in response"@,
        },
        !response.success ==> match response.error {
            Some(e) => r matches Err(m) && m@ == e@,
            None => r matches Err(m) && m@ == "Unknown error"@,
        },
{
    if response.success {
        match response.url {
            Some(u) => Ok(u),
            None => Err("No URL in response".to_owned()),
        }
    } else {
        match response.error {
            Some(e) => Err(e),
            None => Err("Unknown error".to_owned()),
        }
    }
}

} // verus!
