//! How files are recognised while the test data is searched: the marker file
//! of the data root, a technique's definition file, and any definition file.

use vstd::prelude::*;

verus! {

/// The ASCII lowercase form of a character; other characters stay.
pub open spec fn ascii_lower(c: char) -> char {
    if 'A' <= c && c <= 'Z' {
        (((c as u8) + 32) as u8) as char
    } else {
        c
    }
}

/// Equality of two texts when ASCII letters are compared without case.
pub open spec fn same_ignoring_ascii_case(a: Seq<char>, b: Seq<char>) -> bool {
    a.len() == b.len() && forall|i: int| 0 <= i < a.len() ==> ascii_lower(#[trigger] a[i]) == ascii_lower(b[i])
}

fn lower_char(c: char) -> (r: char)
    ensures
        r == ascii_lower(c),
{
    if 'A' <= c && c <= 'Z' {
        let code: u8 = (c as u8) + 32;
        code as char
    } else {
        c
    }
}

/// Whether `a` and `b` are equal when ASCII letters are compared without case.
pub fn eq_ignore_ascii_case(a: &str, b: &str) -> (r: bool)
    ensures
        r == same_ignoring_ascii_case(a@, b@),
{
    let n = a.unicode_len();
    if n != b.unicode_len() {
        return false;
    }
    let mut i: usize = 0;
    while i < n
        invariant
            n == a@.len(),
            n == b@.len(),
            i <= n,
            forall|m: int| 0 <= m < i ==> ascii_lower(#[trigger] a@[m]) == ascii_lower(b@[m]),
        decreases n - i,
    {
        if lower_char(a.get_char(i)) != lower_char(b.get_char(i)) {
            return false;
        }
        i += 1;
    }
    true
}

/// The name of the file that marks the data root.
pub open spec fn root_marker() -> Seq<char> {
    "used_guids.txt"@
}

/// Whether a file name is that of the data root's marker, without regard to ASCII case.
pub fn is_root_marker(file_name: &str) -> (r: bool)
    ensures
        r == same_ignoring_ascii_case(file_name@, root_marker()),
{
    eq_ignore_ascii_case(file_name, "used_guids.txt")
}

/// The name of the definition file of a technique: its identifier and `.yaml`.
pub fn definition_file_name(technique: &str) -> (r: String)
    ensures
        r@ == technique@ + ".yaml"@,
{
    let mut name = String::from_str(technique);
    name.append(".yaml");
    name
}

/// Whether a file name is that of the technique's definition file, without
/// regard to ASCII case.
pub fn is_definition_file(file_name: &str, technique: &str) -> (r: bool)
    ensures
        r == same_ignoring_ascii_case(file_name@, technique@ + ".yaml"@),
{
    let wanted = definition_file_name(technique);
    eq_ignore_ascii_case(file_name, wanted.as_str())
}

/// Whether a file name looks like a technique definition: it starts with `T`
/// and ends with `.yaml`.
pub fn is_technique_file(file_name: &str) -> (r: bool)
    ensures
        r == (file_name@.len() >= 1 && file_name@[0] == 'T' && file_name@.len() >= 5
            && file_name@.subrange(file_name@.len() - 5, file_name@.len() as int) == ".yaml"@),
{
    let suffix = ".yaml";
    proof {
        reveal_strlit(".yaml");
    }
    let n = file_name.unicode_len();
    if n < 5 || file_name.get_char(0) != 'T' {
        return false;
    }
    let mut i: usize = 0;
    while i < 5
        invariant
            n == file_name@.len(),
            n >= 5,
            suffix@ == ".yaml"@,
            suffix@.len() == 5,
            i <= 5,
            forall|m: int| 0 <= m < i ==> #[trigger] file_name@[n - 5 + m] == suffix@[m],
        decreases 5 - i,
    {
        if file_name.get_char(n - 5 + i) != suffix.get_char(i) {
            assert(file_name@.subrange(n - 5, n as int)[i as int] != suffix@[i as int]);
            return false;
        }
        i += 1;
    }
    assert forall|m: int| 0 <= m < 5 implies file_name@.subrange(n - 5, n as int)[m] == suffix@[m] by {
        assert(file_name@[n - 5 + m] == suffix@[m]);
    }
    assert(file_name@.subrange(n - 5, n as int) =~= suffix@);
    true
}

} // verus!
