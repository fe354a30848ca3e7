//! The search terms of a search request.

use vstd::prelude::*;
use crate::error::AppError;
use crate::text::chars_of;

verus! {

/// The query string of `GET /opds/search`.
#[derive(Debug)]
pub struct SearchQuery {
    pub q: Option<String>,
}

/// The characters with the Unicode `White_Space` property, which `char::is_whitespace` tests.
pub open spec fn is_white_space(c: char) -> bool {
    let n = c as u32;
    ||| (0x09 <= n && n <= 0x0d)
    ||| n == 0x20
    ||| n == 0x85
    ||| n == 0xa0
    ||| n == 0x1680
    ||| (0x2000 <= n && n <= 0x200a)
    ||| n == 0x2028
    ||| n == 0x2029
    ||| n == 0x202f
    ||| n == 0x205f
    ||| n == 0x3000
}

/// Every character of `s` is white space: `s.trim()` would be empty.
pub open spec fn is_blank(s: Seq<char>) -> bool {
    forall|i: int| 0 <= i < s.len() ==> is_white_space(#[trigger] s[i])
}

fn white_space(c: char) -> (r: bool)
    ensures
        r == is_white_space(c),
{
    let n: u32 = c as u32;
    (0x09 <= n && n <= 0x0d) || n == 0x20 || n == 0x85 || n == 0xa0 || n == 0x1680 || (0x2000
        <= n && n <= 0x200a) || n == 0x2028 || n == 0x2029 || n == 0x202f || n == 0x205f || n
        == 0x3000
}

/// Whether `s` holds nothing but white space.
pub fn blank(s: &str) -> (r: bool)
    ensures
        r == is_blank(s@),
{
    let v = chars_of(s);
    let mut i: usize = 0;
    while i < v.len()
        invariant
            v@ == s@,
            i <= v.len(),
            forall|j: int| 0 <= j < i ==> is_white_space(#[trigger] v@[j]),
        decreases v.len() - i,
    {
        if !white_space(v[i]) {
            return false;
        }
        i = i + 1;
    }
    true
}

/// The search terms of a request: the `q` parameter, which must hold more than white space.
pub fn search_terms(params: SearchQuery) -> (r: Result<String, AppError>)
    ensures
        match params.q {
            Some(q) => if is_blank(q@) {
                r is Err && crate::error::is_internal(r->Err_0, "search query `q` is required"@)
            } else {
                r is Ok && r->Ok_0@ == q@
            },
            None => r is Err && crate::error::is_internal(
                r->Err_0,
                "search query `q` is required"@,
            ),
        },
{
    let query = match params.q {
        Some(q) => q,
        None => String::new(),
    };
    if blank(query.as_str()) {
        return Err(AppError::Internal { message: String::from_str("search query `q` is required") });
    }
    Ok(query)
}

} // verus!
