//! Variable overrides given on the command line as `NAME=VALUE`.

use vstd::prelude::*;
use crate::template::first_from;

verus! {

/// The message for an override without `=`.
pub open spec fn override_format_message() -> Seq<char> {
    "Please specify variables using the VARIABLE=VALUE format (no spaces around '=')"@
}

/// An override splits at its `=` signs: the name is what precedes the first,
/// the value what lies between the first and the second (or the end).
pub open spec fn split_override(s: Seq<char>) -> Option<(Seq<char>, Seq<char>)> {
    let j = first_from(s, 0, '=');
    if 0 <= j < s.len() {
        Some((s.subrange(0, j), s.subrange(j + 1, first_from(s, j + 1, '='))))
    } else {
        None
    }
}

/// Parses one `NAME=VALUE` override.
pub fn parse_vars(s: &str) -> (r: Result<(String, String), String>)
    ensures
        match (r, split_override(s@)) {
            (Ok((name, value)), Some((n, v))) => name@ == n && value@ == v,
            (Err(m), None) => m@ == override_format_message(),
            _ => false,
        },
{
    let n = s.unicode_len();
    let mut j: usize = 0;
    while j < n && s.get_char(j) != '='
        invariant
            n == s@.len(),
            j <= n,
            first_from(s@, 0, '=') == first_from(s@, j as int, '='),
        decreases n - j,
    {
        j += 1;
    }
    if j == n {
        return Err(
            String::from_str(
                "Please specify variables using the VARIABLE=VALUE format (no spaces around '=')",
            ),
        );
    }
    let mut k: usize = j + 1;
    while k < n && s.get_char(k) != '='
        invariant
            n == s@.len(),
            j < n,
            j + 1 <= k <= n,
            first_from(s@, j + 1, '=') == first_from(s@, k as int, '='),
        decreases n - k,
    {
        k += 1;
    }
    let name = String::from_str(s.substring_char(0, j));
    let value = String::from_str(s.substring_char(j + 1, k));
    Ok((name, value))
}

} // verus!
