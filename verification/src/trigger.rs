//! The reload trigger's client-side decisions: where a reload request goes
//! and whether the reply reports success.

use vstd::prelude::*;

use crate::search::{contains_chars, contains_spec};
use crate::text::{
    after_prefix, chars_from, chars_of, chars_range, find_char, index_of_char, starts_with,
};
use crate::trusted::string_from_chars;

verus! {

/// Splits a reload URL into host-and-port and request path.  Only plain
/// `http://` URLs are accepted; the path is everything from the first slash
/// after the host, or `/` when there is none.
pub fn parse_reload_url(url: &str) -> (r: Option<(String, String)>)
    ensures
        r is Some <==> starts_with(url@, "http://"@),
        r matches Some((host, path)) ==> {
            let rest = after_prefix(url@, "http://"@);
            match find_char(rest, '/', 0) {
                Some(j) => host@ == rest.subrange(0, j) && path@ == rest.subrange(
                    j,
                    rest.len() as int,
                ),
                None => host@ == rest && path@ == "/"@,
            }
        },
{
    let uv = chars_of(url);
    if !crate::text::chars_starts_with(&uv, "http://") {
        return None;
    }
    let rest = chars_from(&uv, "http://".unicode_len());
    match index_of_char(&rest, '/', 0) {
        Some(j) => {
            let host = chars_range(&rest, 0, j);
            let path = chars_from(&rest, j);
            Some((string_from_chars(&host), string_from_chars(&path)))
        },
        None => {
            let path = chars_of("/");
            Some((string_from_chars(&rest), string_from_chars(&path)))
        },
    }
}

/// Whether an HTTP status line reports a successful reload.
pub fn reload_succeeded(status_line: &str) -> (r: bool)
    ensures
        r == contains_spec(status_line@, " 200 "@),
{
    contains_chars(&chars_of(status_line), &chars_of(" 200 "))
}

} // verus!
