//! The per-request fill-in step: prerendered pages carry placeholder tokens
//! for the values only known at request time, and serving a page replaces
//! them.

use vstd::prelude::*;

use crate::text::{chars_of, replace_spec};
use crate::trusted::string_from_chars;

verus! {

/// The placeholder a prerendered page carries where the client address
/// belongs.
pub fn client_ip_token() -> (r: &'static str)
    ensures
        r@ == "__CLIENT_IP_PLACEHOLDER__"@,
{
    "__CLIENT_IP_PLACEHOLDER__"
}

/// The placeholder a prerendered page carries where the response's
/// content-security nonce belongs.
pub fn csp_nonce_token() -> (r: &'static str)
    ensures
        r@ == "__CSP_NONCE__"@,
{
    "__CSP_NONCE__"
}

/// Fills a prerendered template's placeholders with the request's client
/// address and nonce.
pub fn inject_runtime_tokens(template: &str, client_ip: &str, nonce: &str) -> (r: String)
    ensures
        r@ == replace_spec(
            replace_spec(template@, "__CLIENT_IP_PLACEHOLDER__"@, client_ip@),
            "__CSP_NONCE__"@,
            nonce@,
        ),
{
    let tv = chars_of(template);
    let with_ip = crate::text::replace_chars(
        &tv,
        &chars_of(client_ip_token()),
        &chars_of(client_ip),
    );
    let with_nonce = crate::text::replace_chars(
        &with_ip,
        &chars_of(csp_nonce_token()),
        &chars_of(nonce),
    );
    string_from_chars(&with_nonce)
}

} // verus!
