//! Per-request nonces for the content-security policy.

use vstd::prelude::*;

use crate::text::chars_of;
use crate::trusted::{random_index, string_from_chars};

verus! {

/// A character a nonce may hold: an ASCII letter or digit.
pub open spec fn nonce_char(c: char) -> bool {
    (65 <= c as u32 && c as u32 <= 90) || (97 <= c as u32 && c as u32 <= 122) || (48 <= c as u32
        && c as u32 <= 57)
}

/// Draws a fresh sixteen-character nonce of ASCII letters and digits.
/// Which characters come back is up to the random number generator; only
/// the length and the alphabet are promised.
pub fn generate_nonce() -> (r: String)
    ensures
        r@.len() == 16,
        forall|i: int| 0 <= i < 16 ==> nonce_char(#[trigger] r@[i]),
{
    let charset = chars_of("ABCDEFGHIJKLMNOPQRSTUVWXYZabcdefghijklmnopqrstuvwxyz0123456789");
    proof {
        reveal_strlit("ABCDEFGHIJKLMNOPQRSTUVWXYZabcdefghijklmnopqrstuvwxyz0123456789");
    }
    assert(charset@.len() == 62);
    assert(forall|k: int| 0 <= k < 62 ==> nonce_char(#[trigger] charset@[k]));
    let mut out: Vec<char> = Vec::new();
    let mut i: usize = 0;
    while i < 16
        invariant
            i <= 16,
            charset@.len() == 62,
            forall|k: int| 0 <= k < 62 ==> nonce_char(#[trigger] charset@[k]),
            out@.len() == i,
            forall|k: int| 0 <= k < i ==> nonce_char(#[trigger] out@[k]),
        decreases 16 - i,
    {
        let idx = random_index(62);
        out.push(charset[idx]);
        i = i + 1;
    }
    string_from_chars(&out)
}

} // verus!
