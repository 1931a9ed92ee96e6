//! The template substitution engine: the reserved path token is replaced
//! first, then `#{name}` placeholders are filled from a variable store.

use vstd::prelude::*;
use crate::error::ArrError;

verus! {

/// A variable store as name/value pairs. A later pair for a name shadows an
/// earlier one, so appending overrides to defaults lets the overrides win.
pub open spec fn store_view(vars: Seq<(String, String)>) -> Seq<(Seq<char>, Seq<char>)> {
    vars.map_values(|p: (String, String)| (p.0@, p.1@))
}

/// The value that the store gives to `name`: that of its last pair with that name.
pub open spec fn lookup(vars: Seq<(Seq<char>, Seq<char>)>, name: Seq<char>) -> Option<Seq<char>>
    decreases vars.len(),
{
    if vars.len() == 0 {
        None
    } else if vars.last().0 == name {
        Some(vars.last().1)
    } else {
        lookup(vars.drop_last(), name)
    }
}

/// The length of the reserved path token.
pub const PATH_TOKEN_LEN: usize = 19;

/// The reserved token that stands for the directory holding the test data.
pub open spec fn path_token() -> Seq<char> {
    seq!['P', 'a', 't', 'h', 'T', 'o', 'A', 't', 'o', 'm', 'i', 'c', 's', 'F', 'o', 'l', 'd', 'e', 'r']
}

pub open spec fn token_at(s: Seq<char>, i: int) -> bool {
    0 <= i && i + path_token().len() <= s.len() && s.subrange(i, i + path_token().len())
        == path_token()
}

/// `s` with every occurrence of the reserved token, scanned left to right,
/// replaced by `path`.
pub open spec fn resolve_path(s: Seq<char>, path: Seq<char>) -> Seq<char>
    decreases s.len(),
{
    if s.len() == 0 {
        Seq::empty()
    } else if token_at(s, 0) {
        path + resolve_path(s.skip(path_token().len() as int), path)
    } else {
        seq![s[0]] + resolve_path(s.skip(1), path)
    }
}

/// Index of the first `c` in `s` at or after `k`, or the length of `s` where there is none.
pub open spec fn first_from(s: Seq<char>, k: int, c: char) -> int
    decreases s.len() - k,
{
    if k < 0 || k >= s.len() {
        s.len() as int
    } else if s[k] == c {
        k
    } else {
        first_from(s, k + 1, c)
    }
}

/// `s` starts with a complete placeholder: `#{`, a nonempty name, then `}`.
pub open spec fn opens_placeholder(s: Seq<char>) -> bool {
    s.len() >= 2 && s[0] == '#' && s[1] == '{' && 2 < first_from(s, 2, '}') < s.len()
}

/// Puts `pre` in front of a successful result; an error passes unchanged.
pub open spec fn prepend(pre: Seq<char>, r: Result<Seq<char>, Seq<char>>) -> Result<
    Seq<char>,
    Seq<char>,
> {
    match r {
        Ok(t) => Ok(pre + t),
        Err(n) => Err(n),
    }
}

/// The placeholder pass: each complete placeholder is replaced by the value of
/// its name; the first name with no value is the error. Every other character,
/// an unmatched `#{` included, is copied.
pub open spec fn fill(s: Seq<char>, vars: Seq<(Seq<char>, Seq<char>)>) -> Result<
    Seq<char>,
    Seq<char>,
>
    decreases s.len(),
{
    if s.len() == 0 {
        Ok(Seq::empty())
    } else if opens_placeholder(s) {
        let j = first_from(s, 2, '}');
        let name = s.subrange(2, j);
        match lookup(vars, name) {
            None => Err(name),
            Some(v) => prepend(v, fill(s.skip(j + 1), vars)),
        }
    } else {
        prepend(seq![s[0]], fill(s.skip(1), vars))
    }
}

/// The whole substitution of one line: the path pass, then the placeholder pass.
pub open spec fn substitute(s: Seq<char>, path: Seq<char>, vars: Seq<(Seq<char>, Seq<char>)>) -> Result<
    Seq<char>,
    Seq<char>,
> {
    fill(resolve_path(s, path), vars)
}

/// An executable result agrees with a modelled one: the same text, or a
/// missing-variable error naming the same variable.
pub open spec fn outcome_matches(r: Result<String, ArrError>, m: Result<Seq<char>, Seq<char>>) -> bool {
    match (r, m) {
        (Ok(a), Ok(t)) => a@ == t,
        (Err(ArrError::ArgValueNotFound(a)), Err(n)) => a@ == n,
        _ => false,
    }
}

proof fn lemma_first_from_shift(s: Seq<char>, i: int, k: int, c: char)
    requires
        0 <= i <= s.len(),
        0 <= k,
    ensures
        first_from(s.skip(i), k, c) == first_from(s, i + k, c) - i,
    decreases s.len() - i - k,
{
    if k < s.len() - i {
        assert(s.skip(i)[k] == s[i + k]);
        if s[i + k] != c {
            lemma_first_from_shift(s, i, k + 1, c);
        }
    }
}

fn chars_of(s: &str) -> (r: Vec<char>)
    ensures
        r@ == s@,
{
    let n = s.unicode_len();
    let mut r: Vec<char> = Vec::new();
    let mut i: usize = 0;
    while i < n
        invariant
            n == s@.len(),
            i <= n,
            r@ == s@.subrange(0, i as int),
        decreases n - i,
    {
        r.push(s.get_char(i));
        i += 1;
        assert(r@ =~= s@.subrange(0, i as int));
    }
    assert(r@ =~= s@);
    r
}

fn token_at_exec(s: &Vec<char>, i: usize) -> (r: bool)
    ensures
        r == token_at(s@, i as int),
{
    let token: Vec<char> = vec![
        'P', 'a', 't', 'h', 'T', 'o', 'A', 't', 'o', 'm', 'i', 'c', 's', 'F', 'o', 'l', 'd', 'e', 'r',
    ];
    assert(token@ =~= path_token());
    if i > s.len() || s.len() - i < token.len() {
        return false;
    }
    let mut k: usize = 0;
    while k < token.len()
        invariant
            token@ == path_token(),
            i + token.len() <= s.len(),
            k <= token.len(),
            forall|m: int| 0 <= m < k ==> s@[i + m] == token@[m],
        decreases token.len() - k,
    {
        if s[i + k] != token[k] {
            assert(s@.subrange(i as int, i + token.len())[k as int] != path_token()[k as int]);
            return false;
        }
        k += 1;
    }
    assert(s@.subrange(i as int, i + token.len()) =~= path_token());
    true
}

/// The path pass: replaces every reserved token in `input` by `art_path`.
pub fn update_path(art_path: &str, input: &str) -> (r: String)
    ensures
        r@ == resolve_path(input@, art_path@),
{
    let s = chars_of(input);
    let n = s.len();
    let mut out = String::new();
    let mut i: usize = 0;
    assert(s@.skip(0) =~= s@);
    assert(out@ + resolve_path(s@, art_path@) =~= resolve_path(s@, art_path@));
    while i < n
        invariant
            n == s@.len(),
            s@ == input@,
            i <= n,
            out@ + resolve_path(s@.skip(i as int), art_path@) == resolve_path(s@, art_path@),
        decreases n - i,
    {
        let ghost rest = s@.skip(i as int);
        let ghost before = out@;
        if token_at_exec(&s, i) {
            assert(rest.subrange(0, path_token().len() as int) =~= s@.subrange(
                i as int,
                i + path_token().len(),
            ));
            assert(rest.skip(path_token().len() as int) =~= s@.skip(i + path_token().len()));
            out.append(art_path);
            i += PATH_TOKEN_LEN;
            assert(before + (art_path@ + resolve_path(s@.skip(i as int), art_path@)) =~= out@
                + resolve_path(s@.skip(i as int), art_path@));
        } else {
            assert(!token_at(rest, 0)) by {
                if path_token().len() <= rest.len() {
                    assert(rest.subrange(0, path_token().len() as int) =~= s@.subrange(
                        i as int,
                        i + path_token().len(),
                    ));
                }
            }
            let piece = input.substring_char(i, i + 1);
            assert(piece@ =~= seq![rest[0]]);
            assert(rest.skip(1) =~= s@.skip(i + 1));
            out.append(piece);
            i += 1;
            assert(before + (seq![rest[0]] + resolve_path(s@.skip(i as int), art_path@)) =~= out@
                + resolve_path(s@.skip(i as int), art_path@));
        }
    }
    assert(s@.skip(n as int) =~= Seq::<char>::empty());
    assert(out@ + Seq::<char>::empty() =~= out@);
    out
}

fn find_from(s: &Vec<char>, k: usize, c: char) -> (j: usize)
    requires
        k <= s.len(),
    ensures
        j as int == first_from(s@, k as int, c),
        k <= j <= s.len(),
        j < s.len() ==> s@[j as int] == c,
{
    let mut j: usize = k;
    while j < s.len() && s[j] != c
        invariant
            k <= j <= s.len(),
            first_from(s@, k as int, c) == first_from(s@, j as int, c),
        decreases s.len() - j,
    {
        j += 1;
    }
    j
}

/// Looks a name up in a variable store; the last pair with that name wins.
pub fn lookup_value(args: &Vec<(String, String)>, name: &String) -> (r: Option<String>)
    ensures
        match r {
            Some(v) => lookup(store_view(args@), name@) == Some(v@),
            None => lookup(store_view(args@), name@) is None,
        },
{
    let ghost all = store_view(args@);
    let mut i: usize = args.len();
    assert(all.subrange(0, i as int) =~= all);
    while i > 0
        invariant
            i <= args.len(),
            all == store_view(args@),
            lookup(all, name@) == lookup(all.subrange(0, i as int), name@),
        decreases i,
    {
        let ghost pre = all.subrange(0, i as int);
        assert(pre.last() == (args@[i - 1].0@, args@[i - 1].1@));
        assert(pre.drop_last() =~= all.subrange(0, i - 1));
        if args[i - 1].0 == *name {
            return Some(args[i - 1].1.clone());
        }
        i -= 1;
    }
    None
}

/// The placeholder pass over one line: `#{name}` becomes the value of `name`.
/// A `#` that does not open a complete placeholder is copied as it is.
pub fn get_vars(args: &Vec<(String, String)>, input: &str) -> (r: Result<String, ArrError>)
    ensures
        outcome_matches(r, fill(input@, store_view(args@))),
{
    let ghost vars = store_view(args@);
    let s = chars_of(input);
    let n = s.len();
    let mut out = String::new();
    let mut i: usize = 0;
    assert(s@.skip(0) =~= s@);
    assert(prepend(out@, fill(s@, vars)) =~= fill(s@, vars)) by {
        match fill(s@, vars) {
            Ok(t) => assert(out@ + t =~= t),
            Err(_) => {},
        }
    }
    while i < n
        invariant
            n == s@.len(),
            s@ == input@,
            i <= n,
            vars == store_view(args@),
            fill(s@, vars) == prepend(out@, fill(s@.skip(i as int), vars)),
        decreases n - i,
    {
        let ghost rest = s@.skip(i as int);
        let ghost before = out@;
        let mut opened = false;
        let mut j: usize = n;
        if i + 1 < n && s[i] == '#' && s[i + 1] == '{' {
            j = find_from(&s, i + 2, '}');
            opened = i + 2 < j && j < n;
        }
        proof {
            lemma_first_from_shift(s@, i as int, 2, '}');
        }
        assert(opened == opens_placeholder(rest));
        if opened {
            assert(first_from(rest, 2, '}') == j - i);
            let name = String::from_str(input.substring_char(i + 2, j));
            assert(name@ =~= rest.subrange(2, j - i));
            match lookup_value(args, &name) {
                None => {
                    return Err(ArrError::ArgValueNotFound(name));
                },
                Some(v) => {
                    assert(rest.skip(j - i + 1) =~= s@.skip(j + 1));
                    out.append(v.as_str());
                    i = j + 1;
                    proof {
                        match fill(s@.skip(i as int), vars) {
                            Ok(t) => assert(before + (v@ + t) =~= out@ + t),
                            Err(_) => {},
                        }
                    }
                },
            }
        } else {
            let piece = input.substring_char(i, i + 1);
            assert(piece@ =~= seq![rest[0]]);
            assert(rest.skip(1) =~= s@.skip(i + 1));
            out.append(piece);
            i += 1;
            proof {
                match fill(s@.skip(i as int), vars) {
                    Ok(t) => assert(before + (seq![rest[0]] + t) =~= out@ + t),
                    Err(_) => {},
                }
            }
        }
    }
    assert(s@.skip(n as int) =~= Seq::<char>::empty());
    assert(out@ + Seq::<char>::empty() =~= out@);
    Ok(out)
}

/// Resolves one line of a command template: the path pass, then the
/// placeholder pass.
pub fn parse_command(command: &str, art_path: &str, args: &Vec<(String, String)>) -> (r: Result<
    String,
    ArrError,
>)
    ensures
        outcome_matches(r, substitute(command@, art_path@, store_view(args@))),
{
    let resolved = update_path(art_path, command);
    get_vars(args, resolved.as_str())
}

/// A line without the `\r` of a `\r\n` ending.
pub open spec fn strip_cr(l: Seq<char>) -> Seq<char> {
    if l.len() > 0 && l.last() == '\r' {
        l.drop_last()
    } else {
        l
    }
}

/// The lines of `s`: split at each `\n`, a `\r` before it dropped; a final
/// line ending adds no empty line, and an empty text has no lines.
pub open spec fn lines(s: Seq<char>) -> Seq<Seq<char>>
    decreases s.len(),
{
    if s.len() == 0 {
        Seq::empty()
    } else {
        let j = first_from(s, 0, '\n');
        if 0 <= j < s.len() {
            seq![strip_cr(s.subrange(0, j))] + lines(s.skip(j + 1))
        } else {
            seq![s]
        }
    }
}

/// The parts joined into one text with `sep` between each two.
pub open spec fn join(parts: Seq<Seq<char>>, sep: char) -> Seq<char>
    decreases parts.len(),
{
    if parts.len() == 0 {
        Seq::empty()
    } else if parts.len() == 1 {
        parts[0]
    } else {
        join(parts.drop_last(), sep) + seq![sep] + parts.last()
    }
}

/// Each line substituted in turn; the first line that fails gives the error.
pub open spec fn substitute_all(
    ls: Seq<Seq<char>>,
    path: Seq<char>,
    vars: Seq<(Seq<char>, Seq<char>)>,
) -> Result<Seq<Seq<char>>, Seq<char>>
    decreases ls.len(),
{
    if ls.len() == 0 {
        Ok(Seq::empty())
    } else {
        match substitute_all(ls.drop_last(), path, vars) {
            Err(n) => Err(n),
            Ok(done) => match substitute(ls.last(), path, vars) {
                Ok(t) => Ok(done.push(t)),
                Err(n) => Err(n),
            },
        }
    }
}

/// A whole command template: each line substituted, the results joined by `;`.
pub open spec fn resolve_commands(
    s: Seq<char>,
    path: Seq<char>,
    vars: Seq<(Seq<char>, Seq<char>)>,
) -> Result<Seq<char>, Seq<char>> {
    match substitute_all(lines(s), path, vars) {
        Ok(parts) => Ok(join(parts, ';')),
        Err(n) => Err(n),
    }
}

pub open spec fn texts_view(v: Seq<String>) -> Seq<Seq<char>> {
    v.map_values(|x: String| x@)
}

/// Splits a text into its lines.
pub fn split_lines(text: &str) -> (r: Vec<String>)
    ensures
        texts_view(r@) == lines(text@),
{
    let s = chars_of(text);
    let n = s.len();
    let mut r: Vec<String> = Vec::new();
    let mut i: usize = 0;
    assert(s@.skip(0) =~= s@);
    assert(texts_view(r@) + lines(s@) =~= lines(s@));
    while i < n
        invariant
            n == s@.len(),
            s@ == text@,
            i <= n,
            texts_view(r@) + lines(s@.skip(i as int)) == lines(s@),
        decreases n - i,
    {
        let ghost rest = s@.skip(i as int);
        let ghost before = texts_view(r@);
        let j = find_from(&s, i, '\n');
        proof {
            lemma_first_from_shift(s@, i as int, 0, '\n');
        }
        if j < n {
            let mut end: usize = j;
            if j > i && s[j - 1] == '\r' {
                end = j - 1;
            }
            let line = String::from_str(text.substring_char(i, end));
            assert(line@ =~= strip_cr(rest.subrange(0, j - i)));
            assert(rest.skip(j - i + 1) =~= s@.skip(j + 1));
            r.push(line);
            i = j + 1;
            assert(texts_view(r@) =~= before.push(line@));
            assert(before + (seq![line@] + lines(s@.skip(i as int))) =~= texts_view(r@) + lines(
                s@.skip(i as int),
            ));
        } else {
            let line = String::from_str(text.substring_char(i, n));
            assert(line@ =~= rest);
            r.push(line);
            i = n;
            assert(texts_view(r@) =~= before.push(line@));
            assert(s@.skip(i as int) =~= Seq::<char>::empty());
            assert(before + seq![rest] =~= texts_view(r@) + lines(s@.skip(i as int)));
        }
    }
    assert(s@.skip(n as int) =~= Seq::<char>::empty());
    assert(texts_view(r@) + Seq::<Seq<char>>::empty() =~= texts_view(r@));
    r
}

/// Resolves a whole command template, line by line, and joins the lines
/// into one command with `;`.
pub fn parse_commands(commands: &str, atomics_dir: &str, vars: &Vec<(String, String)>) -> (r:
    Result<String, ArrError>)
    ensures
        outcome_matches(r, resolve_commands(commands@, atomics_dir@, store_view(vars@))),
{
    let ghost store = store_view(vars@);
    let ls = split_lines(commands);
    let ghost all = texts_view(ls@);
    let mut out = String::new();
    let ghost mut done: Seq<Seq<char>> = Seq::empty();
    let mut k: usize = 0;
    assert(all.subrange(0, 0) =~= Seq::<Seq<char>>::empty());
    while k < ls.len()
        invariant
            k <= ls.len(),
            all == texts_view(ls@),
            all == lines(commands@),
            store == store_view(vars@),
            substitute_all(all.subrange(0, k as int), atomics_dir@, store) == Ok::<
                Seq<Seq<char>>,
                Seq<char>,
            >(done),
            out@ == join(done, ';'),
            done.len() == k,
        decreases ls.len() - k,
    {
        let ghost pre = all.subrange(0, k as int + 1);
        assert(pre.drop_last() =~= all.subrange(0, k as int));
        assert(pre.last() == ls@[k as int]@);
        match parse_command(ls[k].as_str(), atomics_dir, vars) {
            Err(e) => {
                proof {
                    lemma_substitute_all_prefix_err(all, k as int + 1, atomics_dir@, store);
                }
                return Err(e);
            },
            Ok(line) => {
                let ghost old_done = done;
                if k > 0 {
                    out.append(";");
                }
                out.append(line.as_str());
                proof {
                    reveal_strlit(";");
                    done = done.push(line@);
                    assert(done.drop_last() =~= old_done);
                    assert(out@ =~= join(done, ';'));
                }
                k += 1;
            },
        }
    }
    assert(all.subrange(0, ls.len() as int) =~= all);
    Ok(out)
}

/// Once a prefix of the lines fails, the whole fails with the same name.
proof fn lemma_substitute_all_prefix_err(
    ls: Seq<Seq<char>>,
    k: int,
    path: Seq<char>,
    vars: Seq<(Seq<char>, Seq<char>)>,
)
    requires
        0 <= k <= ls.len(),
        substitute_all(ls.subrange(0, k), path, vars) is Err,
    ensures
        substitute_all(ls, path, vars) == substitute_all(ls.subrange(0, k), path, vars),
    decreases ls.len() - k,
{
    if k == ls.len() {
        assert(ls.subrange(0, k) =~= ls);
    } else {
        let nxt = ls.subrange(0, k + 1);
        assert(nxt.drop_last() =~= ls.subrange(0, k));
        lemma_substitute_all_prefix_err(ls, k + 1, path, vars);
    }
}

/// The opener `#{` stands at index `i` of `s`.
pub open spec fn opener_at(s: Seq<char>, i: int) -> bool {
    0 <= i && i + 1 < s.len() && s[i] == '#' && s[i + 1] == '{'
}

/// `s` holds the opener `#{` somewhere.
pub open spec fn has_opener(s: Seq<char>) -> bool {
    exists|i: int| opener_at(s, i)
}

/// `s` holds the reserved path token somewhere.
pub open spec fn has_token(s: Seq<char>) -> bool {
    exists|i: int| token_at(s, i)
}

/// The placeholder text `#{n}`.
pub open spec fn placeholder(n: Seq<char>) -> Seq<char> {
    seq!['#', '{'] + n + seq!['}']
}

/// The variable store with the path pass applied to every value.
pub open spec fn resolve_store(vars: Seq<(Seq<char>, Seq<char>)>, path: Seq<char>) -> Seq<
    (Seq<char>, Seq<char>),
> {
    vars.map_values(|p: (Seq<char>, Seq<char>)| (p.0, resolve_path(p.1, path)))
}

proof fn lemma_no_token_skip(s: Seq<char>, d: int)
    requires
        0 <= d <= s.len(),
        !has_token(s),
    ensures
        !has_token(s.skip(d)),
{
    if has_token(s.skip(d)) {
        let i = choose|i: int| token_at(s.skip(d), i);
        assert(s.skip(d).subrange(i, i + path_token().len()) =~= s.subrange(
            i + d,
            i + d + path_token().len(),
        ));
        assert(token_at(s, i + d));
    }
}

proof fn lemma_resolve_path_plain(s: Seq<char>, path: Seq<char>)
    requires
        !has_token(s),
    ensures
        resolve_path(s, path) == s,
    decreases s.len(),
{
    if s.len() > 0 {
        assert(!token_at(s, 0));
        lemma_no_token_skip(s, 1);
        lemma_resolve_path_plain(s.skip(1), path);
        assert(seq![s[0]] + s.skip(1) =~= s);
    } else {
        assert(s =~= Seq::<char>::empty());
    }
}

proof fn lemma_fill_plain(s: Seq<char>, vars: Seq<(Seq<char>, Seq<char>)>)
    requires
        !has_opener(s),
    ensures
        fill(s, vars) == Ok::<Seq<char>, Seq<char>>(s),
    decreases s.len(),
{
    if s.len() > 0 {
        assert(!opener_at(s, 0));
        assert(!has_opener(s.skip(1))) by {
            if has_opener(s.skip(1)) {
                let i = choose|i: int| opener_at(s.skip(1), i);
                assert(opener_at(s, i + 1));
            }
        }
        lemma_fill_plain(s.skip(1), vars);
        assert(!opens_placeholder(s));
        assert(fill(s, vars) == prepend(seq![s[0]], fill(s.skip(1), vars)));
        assert(seq![s[0]] + s.skip(1) =~= s);
    } else {
        assert(s =~= Seq::<char>::empty());
    }
}

/// Text with no opener `#{` and no reserved path token comes out of
/// substitution unchanged, whatever the path and the variables.
pub proof fn lemma_plain_template_unchanged(
    s: Seq<char>,
    path: Seq<char>,
    vars: Seq<(Seq<char>, Seq<char>)>,
)
    requires
        !has_opener(s),
        !has_token(s),
    ensures
        substitute(s, path, vars) == Ok::<Seq<char>, Seq<char>>(s),
{
    lemma_resolve_path_plain(s, path);
    lemma_fill_plain(s, vars);
}

/// Substituting again a result that holds no opener and no reserved token
/// gives that result back: substitution is idempotent on resolved text.
pub proof fn lemma_substitute_idempotent(
    s: Seq<char>,
    path: Seq<char>,
    vars: Seq<(Seq<char>, Seq<char>)>,
)
    requires
        substitute(s, path, vars) is Ok,
        !has_opener(substitute(s, path, vars)->Ok_0),
        !has_token(substitute(s, path, vars)->Ok_0),
    ensures
        substitute(substitute(s, path, vars)->Ok_0, path, vars) == substitute(s, path, vars),
{
    lemma_plain_template_unchanged(substitute(s, path, vars)->Ok_0, path, vars);
}

proof fn lemma_placeholder_no_token(n: Seq<char>)
    requires
        !has_token(n),
    ensures
        !has_token(placeholder(n)),
{
    let t = placeholder(n);
    let m = path_token().len() as int;
    if has_token(t) {
        let i = choose|i: int| token_at(t, i);
        if i < 2 {
            assert(t.subrange(i, i + m)[0] == t[i]);
            assert(path_token()[0] == 'P');
        } else if i + m == t.len() {
            assert(t.subrange(i, i + m)[m - 1] == t[t.len() - 1]);
            assert(path_token()[m - 1] == 'r');
        } else {
            assert(t.subrange(i, i + m) =~= n.subrange(i - 2, i - 2 + m));
            assert(token_at(n, i - 2));
        }
    }
}

proof fn lemma_first_from_reaches(s: Seq<char>, k: int, e: int, c: char)
    requires
        0 <= k <= e < s.len(),
        s[e] == c,
        forall|m: int| k <= m < e ==> s[m] != c,
    ensures
        first_from(s, k, c) == e,
    decreases e - k,
{
    if k < e {
        lemma_first_from_reaches(s, k + 1, e, c);
    }
}

/// Substituting the bare placeholder `#{n}` gives the value of `n`, or fails
/// naming `n`, for a nonempty name free of `}` and of the reserved token.
proof fn lemma_placeholder_alone(n: Seq<char>, path: Seq<char>, vars: Seq<(Seq<char>, Seq<char>)>)
    requires
        n.len() > 0,
        !n.contains('}'),
        !has_token(n),
    ensures
        substitute(placeholder(n), path, vars) == match lookup(vars, n) {
            Some(v) => Ok::<Seq<char>, Seq<char>>(v),
            None => Err(n),
        },
{
    let t = placeholder(n);
    lemma_placeholder_no_token(n);
    lemma_resolve_path_plain(t, path);
    assert forall|m: int| 2 <= m < t.len() - 1 implies t[m] != '}' by {
        assert(t[m] == n[m - 2]);
    }
    lemma_first_from_reaches(t, 2, t.len() - 1, '}');
    assert(t.subrange(2, t.len() - 1) =~= n);
    assert(t.skip(t.len() as int) =~= Seq::<char>::empty());
    assert(opens_placeholder(t));
    assert(fill(Seq::<char>::empty(), vars) == Ok::<Seq<char>, Seq<char>>(Seq::empty()));
    match lookup(vars, n) {
        Some(v) => assert(v + Seq::<char>::empty() =~= v),
        None => {},
    }
}

/// A placeholder whose name has a value is replaced by exactly that value.
pub proof fn lemma_known_placeholder(n: Seq<char>, path: Seq<char>, vars: Seq<(Seq<char>, Seq<char>)>)
    requires
        lookup(vars, n) is Some,
        n.len() > 0,
        !n.contains('}'),
        !has_token(n),
    ensures
        substitute(placeholder(n), path, vars) == Ok::<Seq<char>, Seq<char>>(lookup(vars, n)->Some_0),
{
    lemma_placeholder_alone(n, path, vars);
}

/// A placeholder whose name has no value fails, and the failure names it.
pub proof fn lemma_unknown_placeholder(n: Seq<char>, path: Seq<char>, vars: Seq<(Seq<char>, Seq<char>)>)
    requires
        lookup(vars, n) is None,
        n.len() > 0,
        !n.contains('}'),
        !has_token(n),
    ensures
        substitute(placeholder(n), path, vars) == Err::<Seq<char>, Seq<char>>(n),
{
    lemma_placeholder_alone(n, path, vars);
}

proof fn lemma_lookup_resolved(vars: Seq<(Seq<char>, Seq<char>)>, path: Seq<char>, n: Seq<char>)
    ensures
        lookup(resolve_store(vars, path), n) == match lookup(vars, n) {
            Some(v) => Some(resolve_path(v, path)),
            None => None,
        },
    decreases vars.len(),
{
    if vars.len() > 0 {
        assert(resolve_store(vars, path).drop_last() =~= resolve_store(vars.drop_last(), path));
        lemma_lookup_resolved(vars.drop_last(), path, n);
    }
}

/// The path pass on stored values comes first: a value that holds the
/// reserved token, stored before the path pass and later reached through
/// `#{n}`, yields that value with the token already replaced by the path.
pub proof fn lemma_stored_path_resolved(
    n: Seq<char>,
    path: Seq<char>,
    vars: Seq<(Seq<char>, Seq<char>)>,
)
    requires
        lookup(vars, n) is Some,
        n.len() > 0,
        !n.contains('}'),
        !has_token(n),
    ensures
        substitute(placeholder(n), path, resolve_store(vars, path)) == Ok::<Seq<char>, Seq<char>>(
            resolve_path(lookup(vars, n)->Some_0, path),
        ),
{
    lemma_lookup_resolved(vars, path, n);
    lemma_placeholder_alone(n, path, resolve_store(vars, path));
}

} // verus!
