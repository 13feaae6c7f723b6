//! Shape rules for user names and content.

use vstd::prelude::*;
use vstd::string::{StrSliceExecFns, StringSliceAdditionalSpecFns};
use crate::text::{blank, char_is_alphanumeric, is_alphanumeric, is_blank, trim, trimmed};

verus! {

/// The longest user name, in characters.
pub const MAX_USERNAME_CHARS: usize = 20;

/// The longest content, in bytes of UTF-8.
pub const MAX_CONTENT_BYTES: usize = 280;

/// A character that a user name may hold: a letter, a number or `_`.
pub open spec fn username_char(c: char) -> bool {
    char_is_alphanumeric(c) || c == '_'
}

/// A user name has from 1 to 20 characters, each a letter, a number or `_`.
pub open spec fn valid_username(s: Seq<char>) -> bool {
    &&& 0 < s.len() <= MAX_USERNAME_CHARS
    &&& forall|i: int| 0 <= i < s.len() ==> username_char(#[trigger] s[i])
}

/// Content is valid when it is not blank and takes at most 280 bytes.
pub open spec fn valid_content(s: Seq<char>) -> bool {
    &&& !is_blank(s)
    &&& vstd::utf8::encode_utf8(s).len() <= MAX_CONTENT_BYTES
}

/// Whether `username` has the shape of a user name.
pub fn is_valid_username(username: &str) -> (b: bool)
    ensures
        b == valid_username(username@),
{
    let n = username.unicode_len();
    if n == 0 || n > MAX_USERNAME_CHARS {
        return false;
    }
    let mut i: usize = 0;
    while i < n
        invariant
            i <= n,
            n == username@.len(),
            forall|j: int| 0 <= j < i ==> username_char(#[trigger] username@[j]),
        decreases n - i,
    {
        let c = username.get_char(i);
        if !(is_alphanumeric(c) || c == '_') {
            return false;
        }
        i += 1;
    }
    true
}

/// Whether `content` is valid content.
pub fn is_valid_content(content: &str) -> (b: bool)
    ensures
        b == valid_content(content@),
{
    let bytes = content.as_bytes();
    !blank(content) && bytes.len() <= MAX_CONTENT_BYTES
}

/// `content` without the whitespace at either end.
pub fn sanitize_content(content: &str) -> (r: String)
    ensures
        r@ == trimmed(content@),
{
    trim(content).to_owned()
}

} // verus!
