use vstd::prelude::*;
use vstd::string::*;

use reqwest::header::{HeaderValue, InvalidHeaderValue};

use crate::error::MirrorError;

verus! {

#[verifier::external_type_specification]
#[verifier::external_body]
pub struct ExHeaderValue(HeaderValue);

#[verifier::external_type_specification]
#[verifier::external_body]
pub struct ExInvalidHeaderValue(InvalidHeaderValue);

/// Product part of the identification.
pub const PRODUCT_NAME: &'static str = "Panamax";

/// Version part of the identification.
pub const PRODUCT_VERSION: &'static str = "1.0.3";

/// Contact value of the default configuration; it is never sent.
pub const PLACEHOLDER_CONTACT: &'static str = "your@email.com";

/// A character that may stand in a header value: a tab, or any character from
/// the space upwards but DEL. Characters beyond ASCII are encoded as bytes of
/// 128 and above, which are all accepted.
pub open spec fn header_char_ok(c: char) -> bool {
    c == '\t' || (c as u32 >= 32 && c as u32 != 127)
}

pub open spec fn header_text_ok(s: Seq<char>) -> bool {
    forall|i: int| 0 <= i < s.len() ==> header_char_ok(#[trigger] s[i])
}

pub open spec fn opt_view(o: Option<String>) -> Option<Seq<char>> {
    match o {
        Some(s) => Some(s@),
        None => None,
    }
}

/// `Panamax/<version>`.
pub open spec fn default_agent_text() -> Seq<char> {
    PRODUCT_NAME@ + "/"@ + PRODUCT_VERSION@
}

/// The identification for an optional contact: the contact is appended in
/// parentheses unless it is absent or the placeholder.
pub open spec fn agent_text(contact: Option<Seq<char>>) -> Seq<char> {
    match contact {
        Some(c) => if c != PLACEHOLDER_CONTACT@ {
            default_agent_text() + " ("@ + c + ")"@
        } else {
            default_agent_text()
        },
        None => default_agent_text(),
    }
}

/// A contact other than the placeholder appears verbatim in the
/// identification, right after `Panamax/<version> (`.
pub proof fn lemma_contact_verbatim(c: Seq<char>)
    requires
        c != PLACEHOLDER_CONTACT@,
    ensures
        agent_text(Some(c)).subrange(
            default_agent_text().len() + 2 as int,
            default_agent_text().len() + 2 + c.len() as int,
        ) == c,
{
    reveal_strlit(" (");
    let k: int = (default_agent_text().len() + 2) as int;
    assert(agent_text(Some(c)).subrange(k, k + c.len() as int) =~= c);
}

/// Relies on `HeaderValue::from_str` of the http crate (re-exported by
/// reqwest): it succeeds exactly when every byte is a tab, or is at least 32
/// and not 127.
#[verifier::external_body]
fn header_value_from_str(s: &str) -> (r: Result<HeaderValue, InvalidHeaderValue>)
    ensures
        r is Ok <==> header_text_ok(s@),
{
    HeaderValue::from_str(s)
}

/// Whether two strings hold the same characters.
pub fn same_text(a: &str, b: &str) -> (r: bool)
    ensures
        r == (a@ == b@),
{
    let x = String::from_str(a);
    let y = String::from_str(b);
    x == y
}

/// The identification without a contact.
pub fn default_user_agent() -> (r: String)
    ensures
        r@ == default_agent_text(),
{
    let mut s = String::from_str(PRODUCT_NAME);
    s.append("/");
    s.append(PRODUCT_VERSION);
    s
}

/// The identification for the configured contact.
pub fn user_agent(contact: &Option<String>) -> (r: String)
    ensures
        r@ == agent_text(opt_view(*contact)),
{
    match contact {
        Some(c) => {
            if !same_text(c.as_str(), PLACEHOLDER_CONTACT) {
                let mut s = default_user_agent();
                s.append(" (");
                s.append(c.as_str());
                s.append(")");
                s
            } else {
                default_user_agent()
            }
        },
        None => default_user_agent(),
    }
}

/// The identification sent with every request, as text and as a header value.
pub struct Identification {
    pub text: String,
    pub header: HeaderValue,
}

/// Builds the identification for the configured contact, before any request
/// is made; it is refused when it holds a character that no header may hold.
pub fn identification(contact: &Option<String>) -> (r: Result<Identification, MirrorError>)
    ensures
        r is Ok <==> header_text_ok(agent_text(opt_view(*contact))),
        r matches Ok(id) ==> id.text@ == agent_text(opt_view(*contact)),
        r matches Err(e) ==> e == MirrorError::InvalidIdentification,
{
    let text = user_agent(contact);
    match header_value_from_str(text.as_str()) {
        Ok(header) => Ok(Identification { text, header }),
        Err(_) => Err(MirrorError::InvalidIdentification),
    }
}

} // verus!
