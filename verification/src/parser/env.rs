//! The environment resolver: variable interpolation over raw text, and
//! parsing of environment files.
//!
//! Substitution is pure and total.  Three passes run in a fixed order over
//! the whole text, each pass scanning the previous pass's output once from
//! left to right, so a reference produced by resolving a variable is never
//! itself resolved: `${NAME:-default}` first, `${NAME}` second, bare `$NAME`
//! last.

use vstd::prelude::*;

use crate::config::env_vars::EnvironmentVars;
use crate::text::{
    chars_of, find_at, first_non_space_at, is_space, lemma_find_at, split_all, split_all_vec,
    split_first, split_first_vec, string_of, subvec, trim, trim_char, trim_char_vec, trim_vec,
};

verus! {

/// Whether `c` may start a variable name: a letter or an underscore.
pub open spec fn is_ident_start(c: char) -> bool {
    (65 <= c as u32 <= 90) || (97 <= c as u32 <= 122) || c == '_'
}

/// Whether `c` may continue a variable name: a letter, digit or underscore.
pub open spec fn is_ident_char(c: char) -> bool {
    is_ident_start(c) || (48 <= c as u32 <= 57)
}

/// Executable test matching [`is_ident_start`].
pub fn ident_start(c: char) -> (r: bool)
    ensures
        r == is_ident_start(c),
{
    let v = c as u32;
    (65 <= v && v <= 90) || (97 <= v && v <= 122) || c == '_'
}

/// Executable test matching [`is_ident_char`].
pub fn ident_char(c: char) -> (r: bool)
    ensures
        r == is_ident_char(c),
{
    let v = c as u32;
    ident_start(c) || (48 <= v && v <= 57)
}

/// First index at or after `from` whose character is `a` or `b`, or the length.
pub open spec fn first_of2_at(s: Seq<char>, a: char, b: char, from: int) -> int
    recommends
        0 <= from <= s.len(),
    decreases s.len() - from when 0 <= from <= s.len()
{
    if from >= s.len() {
        s.len() as int
    } else if s[from] == a || s[from] == b {
        from
    } else {
        first_of2_at(s, a, b, from + 1)
    }
}

pub proof fn lemma_first_of2_at(s: Seq<char>, a: char, b: char, from: int)
    requires
        0 <= from <= s.len(),
    ensures
        from <= first_of2_at(s, a, b, from) <= s.len(),
        forall|k: int| from <= k < first_of2_at(s, a, b, from) ==> s[k] != a && s[k] != b,
        first_of2_at(s, a, b, from) < s.len() ==> s[first_of2_at(s, a, b, from)] == a || s[
            first_of2_at(s, a, b, from)] == b,
    decreases s.len() - from,
{
    if from < s.len() && s[from] != a && s[from] != b {
        lemma_first_of2_at(s, a, b, from + 1);
    }
}

/// Executable search matching [`first_of2_at`].
pub fn find_of2(v: &Vec<char>, a: char, b: char, from: usize) -> (r: usize)
    requires
        from <= v@.len(),
    ensures
        r == first_of2_at(v@, a, b, from as int),
{
    let n = v.len();
    let mut i: usize = from;
    while i < n && v[i] != a && v[i] != b
        invariant
            from <= i <= n,
            n == v@.len(),
            first_of2_at(v@, a, b, from as int) == first_of2_at(v@, a, b, i as int),
        decreases n - i,
    {
        i = i + 1;
    }
    i
}

/// First index at or after `from` whose character is `a`, `b` or `c`, or the
/// length.
pub open spec fn first_of3_at(s: Seq<char>, a: char, b: char, c: char, from: int) -> int
    recommends
        0 <= from <= s.len(),
    decreases s.len() - from when 0 <= from <= s.len()
{
    if from >= s.len() {
        s.len() as int
    } else if s[from] == a || s[from] == b || s[from] == c {
        from
    } else {
        first_of3_at(s, a, b, c, from + 1)
    }
}

pub proof fn lemma_first_of3_at(s: Seq<char>, a: char, b: char, c: char, from: int)
    requires
        0 <= from <= s.len(),
    ensures
        from <= first_of3_at(s, a, b, c, from) <= s.len(),
        forall|k: int|
            from <= k < first_of3_at(s, a, b, c, from) ==> s[k] != a && s[k] != b && s[k] != c,
        first_of3_at(s, a, b, c, from) < s.len() ==> s[first_of3_at(s, a, b, c, from)] == a || s[
            first_of3_at(s, a, b, c, from)] == b || s[first_of3_at(s, a, b, c, from)] == c,
    decreases s.len() - from,
{
    if from < s.len() && s[from] != a && s[from] != b && s[from] != c {
        lemma_first_of3_at(s, a, b, c, from + 1);
    }
}

/// Executable search matching [`first_of3_at`].
pub fn find_of3(v: &Vec<char>, a: char, b: char, c: char, from: usize) -> (r: usize)
    requires
        from <= v@.len(),
    ensures
        r == first_of3_at(v@, a, b, c, from as int),
{
    let n = v.len();
    let mut i: usize = from;
    while i < n && v[i] != a && v[i] != b && v[i] != c
        invariant
            from <= i <= n,
            n == v@.len(),
            first_of3_at(v@, a, b, c, from as int) == first_of3_at(v@, a, b, c, i as int),
        decreases n - i,
    {
        i = i + 1;
    }
    i
}

/// A `${NAME:-default}` reference at the very start of `s`: its name, its
/// default, and the index just after the closing brace.  `NAME` is one or
/// more characters none of which is a brace or a colon; the default is any
/// run of non-brace characters.
pub open spec fn match_default(s: Seq<char>) -> Option<(Seq<char>, Seq<char>, int)> {
    if s.len() >= 2 && s[0] == '$' && s[1] == '{' {
        let j = first_of3_at(s, '{', '}', ':', 2);
        if j < s.len() && s[j] == ':' && j > 2 && j + 1 < s.len() && s[j + 1] == '-' {
            let k = first_of2_at(s, '{', '}', j + 2);
            if k < s.len() && s[k] == '}' {
                Some((s.subrange(2, j), s.subrange(j + 2, k), k + 1))
            } else {
                None
            }
        } else {
            None
        }
    } else {
        None
    }
}

/// A `${NAME}` reference at the very start of `s`: its name and the index
/// just after the closing brace.  `NAME` is one or more non-brace characters.
pub open spec fn match_curly(s: Seq<char>) -> Option<(Seq<char>, int)> {
    if s.len() >= 2 && s[0] == '$' && s[1] == '{' {
        let j = first_of2_at(s, '{', '}', 2);
        if j < s.len() && s[j] == '}' && j > 2 {
            Some((s.subrange(2, j), j + 1))
        } else {
            None
        }
    } else {
        None
    }
}

/// First index at or after `from` whose character cannot continue a variable
/// name, or the length.
pub open spec fn first_non_ident_at(s: Seq<char>, from: int) -> int
    recommends
        0 <= from <= s.len(),
    decreases s.len() - from when 0 <= from <= s.len()
{
    if from >= s.len() {
        s.len() as int
    } else if is_ident_char(s[from]) {
        first_non_ident_at(s, from + 1)
    } else {
        from
    }
}

pub proof fn lemma_first_non_ident_at(s: Seq<char>, from: int)
    requires
        0 <= from <= s.len(),
    ensures
        from <= first_non_ident_at(s, from) <= s.len(),
        forall|k: int| from <= k < first_non_ident_at(s, from) ==> is_ident_char(s[k]),
        first_non_ident_at(s, from) < s.len() ==> !is_ident_char(s[first_non_ident_at(s, from)]),
    decreases s.len() - from,
{
    if from < s.len() && is_ident_char(s[from]) {
        lemma_first_non_ident_at(s, from + 1);
    }
}

/// A bare `$NAME` reference at the very start of `s`: its name and the index
/// just after it.  `NAME` starts with a letter or underscore and continues
/// with letters, digits and underscores, taken as far as possible.
pub open spec fn match_bare(s: Seq<char>) -> Option<(Seq<char>, int)> {
    if s.len() >= 2 && s[0] == '$' && is_ident_start(s[1]) {
        let e = first_non_ident_at(s, 2);
        Some((s.subrange(1, e), e))
    } else {
        None
    }
}

/// The replacement for `${NAME:-default}`: the variable's value when it is
/// set and non-empty, else the default.  An empty value falls back.
pub open spec fn lookup_default(
    env: Map<Seq<char>, Seq<char>>,
    name: Seq<char>,
    def: Seq<char>,
) -> Seq<char> {
    if env.contains_key(name) && env[name].len() > 0 {
        env[name]
    } else {
        def
    }
}

/// The replacement for `${NAME}` and `$NAME`: the variable's value when it is
/// set, else the empty string.
pub open spec fn lookup_empty(env: Map<Seq<char>, Seq<char>>, name: Seq<char>) -> Seq<char> {
    if env.contains_key(name) {
        env[name]
    } else {
        Seq::empty()
    }
}

/// One left-to-right pass resolving every `${NAME:-default}` reference.
pub open spec fn subst_default(s: Seq<char>, env: Map<Seq<char>, Seq<char>>) -> Seq<char>
    decreases s.len(),
    via subst_default_dec
{
    if s.len() == 0 {
        s
    } else {
        match match_default(s) {
            Some(m) => lookup_default(env, m.0, m.1) + subst_default(
                s.subrange(m.2, s.len() as int),
                env,
            ),
            None => seq![s[0]] + subst_default(s.subrange(1, s.len() as int), env),
        }
    }
}

#[via_fn]
proof fn subst_default_dec(s: Seq<char>, env: Map<Seq<char>, Seq<char>>) {
    if s.len() >= 2 && s[0] == '$' && s[1] == '{' {
        lemma_first_of3_at(s, '{', '}', ':', 2);
        let j = first_of3_at(s, '{', '}', ':', 2);
        if 2 <= j && j + 1 < s.len() {
            lemma_first_of2_at(s, '{', '}', j + 2);
        }
    }
}

/// One left-to-right pass resolving every `${NAME}` reference.
pub open spec fn subst_curly(s: Seq<char>, env: Map<Seq<char>, Seq<char>>) -> Seq<char>
    decreases s.len(),
    via subst_curly_dec
{
    if s.len() == 0 {
        s
    } else {
        match match_curly(s) {
            Some(m) => lookup_empty(env, m.0) + subst_curly(s.subrange(m.1, s.len() as int), env),
            None => seq![s[0]] + subst_curly(s.subrange(1, s.len() as int), env),
        }
    }
}

#[via_fn]
proof fn subst_curly_dec(s: Seq<char>, env: Map<Seq<char>, Seq<char>>) {
    if s.len() >= 2 && s[0] == '$' && s[1] == '{' {
        lemma_first_of2_at(s, '{', '}', 2);
    }
}

/// One left-to-right pass resolving every bare `$NAME` reference.
pub open spec fn subst_bare(s: Seq<char>, env: Map<Seq<char>, Seq<char>>) -> Seq<char>
    decreases s.len(),
    via subst_bare_dec
{
    if s.len() == 0 {
        s
    } else {
        match match_bare(s) {
            Some(m) => lookup_empty(env, m.0) + subst_bare(s.subrange(m.1, s.len() as int), env),
            None => seq![s[0]] + subst_bare(s.subrange(1, s.len() as int), env),
        }
    }
}

#[via_fn]
proof fn subst_bare_dec(s: Seq<char>, env: Map<Seq<char>, Seq<char>>) {
    if s.len() >= 2 && s[0] == '$' && is_ident_start(s[1]) {
        lemma_first_non_ident_at(s, 2);
    }
}

/// The whole substitution: the three passes in their fixed order.
pub open spec fn substituted(s: Seq<char>, env: Map<Seq<char>, Seq<char>>) -> Seq<char> {
    subst_bare(subst_curly(subst_default(s, env), env), env)
}

/// Executable match for `${NAME:-default}` at the start of `v`.
fn exec_match_default(v: &Vec<char>) -> (r: Option<(Vec<char>, Vec<char>, usize)>)
    ensures
        match r {
            Some(m) => match_default(v@) == Some((m.0@, m.1@, m.2 as int)) && 0 < m.2 <= v@.len(),
            None => match_default(v@) is None,
        },
{
    if v.len() >= 2 && v[0] == '$' && v[1] == '{' {
        let j = find_of3(v, '{', '}', ':', 2);
        proof {
            lemma_first_of3_at(v@, '{', '}', ':', 2);
        }
        if j < v.len() && v[j] == ':' && j > 2 && j + 1 < v.len() && v[j + 1] == '-' {
            let k = find_of2(v, '{', '}', j + 2);
            proof {
                lemma_first_of2_at(v@, '{', '}', j + 2);
            }
            if k < v.len() && v[k] == '}' {
                Some((subvec(v, 2, j), subvec(v, j + 2, k), k + 1))
            } else {
                None
            }
        } else {
            None
        }
    } else {
        None
    }
}

/// Executable match for `${NAME}` at the start of `v`.
fn exec_match_curly(v: &Vec<char>) -> (r: Option<(Vec<char>, usize)>)
    ensures
        match r {
            Some(m) => match_curly(v@) == Some((m.0@, m.1 as int)) && 0 < m.1 <= v@.len(),
            None => match_curly(v@) is None,
        },
{
    if v.len() >= 2 && v[0] == '$' && v[1] == '{' {
        let j = find_of2(v, '{', '}', 2);
        proof {
            lemma_first_of2_at(v@, '{', '}', 2);
        }
        if j < v.len() && v[j] == '}' && j > 2 {
            Some((subvec(v, 2, j), j + 1))
        } else {
            None
        }
    } else {
        None
    }
}

/// Executable match for a bare `$NAME` at the start of `v`.
fn exec_match_bare(v: &Vec<char>) -> (r: Option<(Vec<char>, usize)>)
    ensures
        match r {
            Some(m) => match_bare(v@) == Some((m.0@, m.1 as int)) && 0 < m.1 <= v@.len(),
            None => match_bare(v@) is None,
        },
{
    if v.len() >= 2 && v[0] == '$' && ident_start(v[1]) {
        let n = v.len();
        let mut e: usize = 2;
        while e < n && ident_char(v[e])
            invariant
                2 <= e <= n,
                n == v@.len(),
                first_non_ident_at(v@, 2) == first_non_ident_at(v@, e as int),
            decreases n - e,
        {
            e = e + 1;
        }
        proof {
            lemma_first_non_ident_at(v@, 2);
        }
        Some((subvec(v, 1, e), e))
    } else {
        None
    }
}

/// The replacement text for a resolved reference with a default.
fn exec_lookup_default(env: &EnvironmentVars, name: &Vec<char>, def: Vec<char>) -> (r: Vec<char>)
    requires
        env.wf(),
    ensures
        r@ == lookup_default(env@, name@, def@),
{
    let name_s = string_of(name);
    match env.get(name_s.as_str()) {
        Some(value) => {
            if value.as_str().unicode_len() > 0 {
                chars_of(value.as_str())
            } else {
                def
            }
        },
        None => def,
    }
}

/// The replacement text for a resolved reference without a default.
fn exec_lookup_empty(env: &EnvironmentVars, name: &Vec<char>) -> (r: Vec<char>)
    requires
        env.wf(),
    ensures
        r@ == lookup_empty(env@, name@),
{
    let name_s = string_of(name);
    match env.get(name_s.as_str()) {
        Some(value) => chars_of(value.as_str()),
        None => Vec::new(),
    }
}

/// One pass resolving `${NAME:-default}` references.
fn pass_default(v: &Vec<char>, env: &EnvironmentVars) -> (r: Vec<char>)
    requires
        env.wf(),
    ensures
        r@ == subst_default(v@, env@),
{
    let n = v.len();
    let mut out: Vec<char> = Vec::new();
    let mut i: usize = 0;
    proof {
        assert(v@.subrange(0, n as int) =~= v@);
        assert(Seq::<char>::empty() + subst_default(v@, env@) =~= subst_default(v@, env@));
    }
    while i < n
        invariant
            i <= n,
            n == v@.len(),
            env.wf(),
            subst_default(v@, env@) == out@ + subst_default(v@.subrange(i as int, n as int), env@),
        decreases n - i,
    {
        let suffix = subvec(v, i, n);
        match exec_match_default(&suffix) {
            Some(m) => {
                let mut repl = exec_lookup_default(env, &m.0, m.1);
                out.append(&mut repl);
                proof {
                    assert(v@.subrange(i as int, n as int).subrange(
                        m.2 as int,
                        v@.subrange(i as int, n as int).len() as int,
                    ) =~= v@.subrange(i + m.2, n as int));
                }
                i = i + m.2;
            },
            None => {
                out.push(suffix[0]);
                proof {
                    assert(v@.subrange(i as int, n as int).subrange(
                        1,
                        v@.subrange(i as int, n as int).len() as int,
                    ) =~= v@.subrange(i + 1, n as int));
                }
                i = i + 1;
            },
        }
    }
    proof {
        assert(v@.subrange(n as int, n as int) =~= Seq::<char>::empty());
        assert(subst_default(v@, env@) =~= out@);
    }
    out
}

/// One pass resolving `${NAME}` references.
fn pass_curly(v: &Vec<char>, env: &EnvironmentVars) -> (r: Vec<char>)
    requires
        env.wf(),
    ensures
        r@ == subst_curly(v@, env@),
{
    let n = v.len();
    let mut out: Vec<char> = Vec::new();
    let mut i: usize = 0;
    proof {
        assert(v@.subrange(0, n as int) =~= v@);
        assert(Seq::<char>::empty() + subst_curly(v@, env@) =~= subst_curly(v@, env@));
    }
    while i < n
        invariant
            i <= n,
            n == v@.len(),
            env.wf(),
            subst_curly(v@, env@) == out@ + subst_curly(v@.subrange(i as int, n as int), env@),
        decreases n - i,
    {
        let suffix = subvec(v, i, n);
        match exec_match_curly(&suffix) {
            Some(m) => {
                let mut repl = exec_lookup_empty(env, &m.0);
                out.append(&mut repl);
                proof {
                    assert(v@.subrange(i as int, n as int).subrange(
                        m.1 as int,
                        v@.subrange(i as int, n as int).len() as int,
                    ) =~= v@.subrange(i + m.1, n as int));
                }
                i = i + m.1;
            },
            None => {
                out.push(suffix[0]);
                proof {
                    assert(v@.subrange(i as int, n as int).subrange(
                        1,
                        v@.subrange(i as int, n as int).len() as int,
                    ) =~= v@.subrange(i + 1, n as int));
                }
                i = i + 1;
            },
        }
    }
    proof {
        assert(v@.subrange(n as int, n as int) =~= Seq::<char>::empty());
        assert(subst_curly(v@, env@) =~= out@);
    }
    out
}

/// One pass resolving bare `$NAME` references.
fn pass_bare(v: &Vec<char>, env: &EnvironmentVars) -> (r: Vec<char>)
    requires
        env.wf(),
    ensures
        r@ == subst_bare(v@, env@),
{
    let n = v.len();
    let mut out: Vec<char> = Vec::new();
    let mut i: usize = 0;
    proof {
        assert(v@.subrange(0, n as int) =~= v@);
        assert(Seq::<char>::empty() + subst_bare(v@, env@) =~= subst_bare(v@, env@));
    }
    while i < n
        invariant
            i <= n,
            n == v@.len(),
            env.wf(),
            subst_bare(v@, env@) == out@ + subst_bare(v@.subrange(i as int, n as int), env@),
        decreases n - i,
    {
        let suffix = subvec(v, i, n);
        match exec_match_bare(&suffix) {
            Some(m) => {
                let mut repl = exec_lookup_empty(env, &m.0);
                out.append(&mut repl);
                proof {
                    assert(v@.subrange(i as int, n as int).subrange(
                        m.1 as int,
                        v@.subrange(i as int, n as int).len() as int,
                    ) =~= v@.subrange(i + m.1, n as int));
                }
                i = i + m.1;
            },
            None => {
                out.push(suffix[0]);
                proof {
                    assert(v@.subrange(i as int, n as int).subrange(
                        1,
                        v@.subrange(i as int, n as int).len() as int,
                    ) =~= v@.subrange(i + 1, n as int));
                }
                i = i + 1;
            },
        }
    }
    proof {
        assert(v@.subrange(n as int, n as int) =~= Seq::<char>::empty());
        assert(subst_bare(v@, env@) =~= out@);
    }
    out
}

/// Substitute environment variables in a string: `${NAME:-default}`, then
/// `${NAME}`, then `$NAME`.  Pure and total; an unset variable resolves to
/// its default or to the empty string.
pub fn substitute_env_vars(content: &str, env_vars: &EnvironmentVars) -> (r: String)
    requires
        env_vars.wf(),
    ensures
        r@ == substituted(content@, env_vars@),
{
    let v = chars_of(content);
    let a = pass_default(&v, env_vars);
    let b = pass_curly(&a, env_vars);
    let c = pass_bare(&b, env_vars);
    string_of(&c)
}

/// The key/value pair contributed by one line of an environment file, if any:
/// the line is trimmed; blank lines and `#` comments contribute nothing; a
/// `KEY=VALUE` line contributes when its trimmed key is a valid variable
/// name, its value trimmed and stripped of surrounding double quotes.
pub open spec fn env_line_entry(line: Seq<char>) -> Option<(Seq<char>, Seq<char>)> {
    let t = trim(line);
    if t.len() == 0 || t[0] == '#' {
        None
    } else {
        match split_first(t, '=') {
            Some(kv) => {
                let k = trim(kv.0);
                if valid_env_key(k) {
                    Some((k, trim_char(trim(kv.1), '"')))
                } else {
                    None
                }
            },
            None => None,
        }
    }
}

/// A valid variable name: a letter or underscore, then letters, digits and
/// underscores.
pub open spec fn valid_env_key(s: Seq<char>) -> bool {
    s.len() > 0 && is_ident_start(s[0]) && forall|k: int|
        1 <= k < s.len() ==> is_ident_char(#[trigger] s[k])
}

/// The map contributed by the lines of an environment file, later lines
/// overriding earlier ones.
pub open spec fn env_file_map(lines: Seq<Seq<char>>) -> Map<Seq<char>, Seq<char>>
    decreases lines.len(),
{
    if lines.len() == 0 {
        Map::empty()
    } else {
        let m = env_file_map(lines.drop_last());
        match env_line_entry(lines.last()) {
            Some(kv) => m.insert(kv.0, kv.1),
            None => m,
        }
    }
}

/// Executable test matching [`valid_env_key`].
fn exec_valid_env_key(v: &Vec<char>) -> (r: bool)
    ensures
        r == valid_env_key(v@),
{
    if v.len() == 0 {
        return false;
    }
    if !ident_start(v[0]) {
        return false;
    }
    let mut k: usize = 1;
    while k < v.len()
        invariant
            1 <= k <= v@.len(),
            forall|j: int| 1 <= j < k ==> is_ident_char(#[trigger] v@[j]),
        decreases v@.len() - k,
    {
        if !ident_char(v[k]) {
            return false;
        }
        k = k + 1;
    }
    true
}

/// Parse an environment file into a set of variables.
///
/// Lines are separated by `\n` and trimmed; blank lines and lines starting
/// with `#` are skipped; each remaining `KEY=VALUE` line whose key is a valid
/// variable name contributes an entry (value trimmed, surrounding double
/// quotes stripped); other lines are silently skipped.
pub fn parse_env_file(content: &str) -> (r: EnvironmentVars)
    ensures
        r.wf(),
        r@ == env_file_map(split_all(content@, '\n')),
{
    let v = chars_of(content);
    let lines = split_all_vec(&v, '\n');
    let ghost lines_spec = split_all(content@, '\n');
    let mut env = EnvironmentVars::new();
    let n = lines.len();
    let mut i: usize = 0;
    while i < n
        invariant
            i <= n,
            n == lines@.len(),
            lines@.map_values(|p: Vec<char>| p@) == lines_spec,
            env.wf(),
            env@ == env_file_map(lines_spec.subrange(0, i as int)),
        decreases n - i,
    {
        let line = &lines[i];
        proof {
            assert(lines@.map_values(|p: Vec<char>| p@)[i as int] == lines_spec[i as int]);
            assert(lines_spec.subrange(0, i + 1).drop_last() =~= lines_spec.subrange(0, i as int));
            assert(lines_spec.subrange(0, i + 1).last() == lines_spec[i as int]);
        }
        let t = trim_vec(line);
        if t.len() == 0 || t[0] == '#' {
        } else {
            match split_first_vec(&t, '=') {
                Some(kv) => {
                    let k = trim_vec(&kv.0);
                    if exec_valid_env_key(&k) {
                        let value = trim_char_vec(&trim_vec(&kv.1), '"');
                        env.insert(string_of(&k), string_of(&value));
                    }
                },
                None => {},
            }
        }
        i = i + 1;
    }
    proof {
        assert(lines_spec.subrange(0, n as int) =~= lines_spec);
    }
    env
}

} // verus!
