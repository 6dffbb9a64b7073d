//! Stripping import statements of one package from WIT source text.
//!
//! Copied transitive dependencies must not import the destination's own
//! stub package, which would reintroduce the self cycle. The transform
//! drops every line that is an import statement of a given package prefix
//! and keeps all other text unchanged.

use vstd::prelude::*;
use vstd::string::StrSliceExecFns;
use vstd::string::StringExecFns;

verus! {

/// Index of the first newline at or after `i`, or the length of `s`.
pub open spec fn next_newline(s: Seq<char>, i: int) -> int
    decreases s.len() - i,
{
    if i < 0 || i >= s.len() {
        s.len() as int
    } else if s[i] == '\n' {
        i
    } else {
        next_newline(s, i + 1)
    }
}

proof fn lemma_next_newline_bounds(s: Seq<char>, i: int)
    requires
        0 <= i <= s.len(),
    ensures
        i <= next_newline(s, i) <= s.len(),
    decreases s.len() - i,
{
    if i < s.len() && s[i] != '\n' {
        lemma_next_newline_bounds(s, i + 1);
    }
}

/// `next_newline` is determined by where the newlines are.
proof fn lemma_next_newline_value(s: Seq<char>, i: int, e: int)
    requires
        0 <= i <= e <= s.len(),
        forall|m: int| i <= m < e ==> s[m] != '\n',
        e < s.len() ==> s[e] == '\n',
    ensures
        next_newline(s, i) == e,
    decreases e - i,
{
    if i < e {
        lemma_next_newline_value(s, i + 1, e);
    }
}

/// The line without its leading spaces.
pub open spec fn strip_spaces(l: Seq<char>) -> Seq<char>
    decreases l.len(),
{
    if l.len() > 0 && l[0] == ' ' {
        strip_spaces(l.skip(1))
    } else {
        l
    }
}

proof fn lemma_strip_spaces_range(s: Seq<char>, i: int, p: int, j: int)
    requires
        0 <= i <= p <= j <= s.len(),
        forall|m: int| i <= m < p ==> s[m] == ' ',
        p < j ==> s[p] != ' ',
    ensures
        strip_spaces(s.subrange(i, j)) == s.subrange(p, j),
    decreases p - i,
{
    if i == p {
        let t = s.subrange(p, j);
        if t.len() > 0 {
            assert(t[0] == s[p]);
        }
    } else {
        assert(s.subrange(i, j)[0] == s[i]);
        assert(s.subrange(i, j).skip(1) =~= s.subrange(i + 1, j));
        lemma_strip_spaces_range(s, i + 1, p, j);
    }
}

/// Whether a line is an import statement of the package `prefix`: after
/// leading spaces it reads `import <prefix>`, followed by nothing or by
/// one of `/`, `;`, `@`.
pub open spec fn line_removed(line: Seq<char>, prefix: Seq<char>) -> bool {
    let t = strip_spaces(line);
    let k = "import "@.len() as int;
    &&& t.len() >= k + prefix.len()
    &&& t.subrange(0, k) == "import "@
    &&& t.subrange(k, k + prefix.len()) == prefix
    &&& (t.len() == k + prefix.len() || t[k + prefix.len()] == '/' || t[k + prefix.len()] == ';'
        || t[k + prefix.len()] == '@')
}

/// The text with every import line of `prefix` removed, terminators
/// included; all other characters are kept in order.
pub open spec fn remove_imports_spec(s: Seq<char>, prefix: Seq<char>) -> Seq<char>
    decreases s.len(),
    via remove_imports_spec_dec
{
    if s.len() == 0 {
        Seq::empty()
    } else {
        let j = next_newline(s, 0);
        let end = if j < s.len() {
            j + 1
        } else {
            j
        };
        let rest = remove_imports_spec(s.skip(end), prefix);
        if line_removed(s.subrange(0, j), prefix) {
            rest
        } else {
            s.subrange(0, end) + rest
        }
    }
}

#[via_fn]
proof fn remove_imports_spec_dec(s: Seq<char>, prefix: Seq<char>) {
    if s.len() > 0 {
        lemma_next_newline_bounds(s, 0);
    }
}

/// Finds the first newline in `s` between `from` and `to`.
fn find_newline(s: &str, from: usize, to: usize) -> (j: usize)
    requires
        from <= to <= s@.len(),
    ensures
        from <= j <= to,
        forall|m: int| from <= m < j ==> s@[m] != '\n',
        j < to ==> s@[j as int] == '\n',
{
    let mut k = from;
    while k < to
        invariant
            from <= k <= to <= s@.len(),
            forall|m: int| from <= m < k ==> s@[m] != '\n',
        decreases to - k,
    {
        if s.get_char(k) == '\n' {
            return k;
        }
        k += 1;
    }
    k
}

/// Finds the first non-space in `s` between `from` and `to`.
fn skip_spaces_idx(s: &str, from: usize, to: usize) -> (p: usize)
    requires
        from <= to <= s@.len(),
    ensures
        from <= p <= to,
        forall|m: int| from <= m < p ==> s@[m] == ' ',
        p < to ==> s@[p as int] != ' ',
{
    let mut k = from;
    while k < to
        invariant
            from <= k <= to <= s@.len(),
            forall|m: int| from <= m < k ==> s@[m] == ' ',
        decreases to - k,
    {
        if s.get_char(k) != ' ' {
            return k;
        }
        k += 1;
    }
    k
}

/// Whether `pat` occurs in `s` at position `at`.
fn match_at(s: &str, at: usize, pat: &str) -> (r: bool)
    requires
        at + pat@.len() <= s@.len(),
        at + pat@.len() <= usize::MAX,
    ensures
        r == (s@.subrange(at as int, at + pat@.len()) == pat@),
{
    let m = pat.unicode_len();
    let mut c: usize = 0;
    while c < m
        invariant
            m == pat@.len(),
            at + m <= s@.len(),
            at + m <= usize::MAX,
            c <= m,
            forall|d: int| 0 <= d < c ==> s@[at + d] == pat@[d],
        decreases m - c,
    {
        if s.get_char(at + c) != pat.get_char(c) {
            proof {
                assert(s@.subrange(at as int, at + pat@.len())[c as int] == s@[at + c]);
            }
            return false;
        }
        c += 1;
    }
    proof {
        assert(s@.subrange(at as int, at + pat@.len()) =~= pat@);
    }
    true
}

/// Whether the line `s[i..j]` is an import statement of `prefix`.
fn line_is_import_of(s: &str, i: usize, j: usize, prefix: &str) -> (r: bool)
    requires
        i <= j <= s@.len(),
    ensures
        r == line_removed(s@.subrange(i as int, j as int), prefix@),
{
    let p = skip_spaces_idx(s, i, j);
    proof {
        lemma_strip_spaces_range(s@, i as int, p as int, j as int);
    }
    let ghost t = strip_spaces(s@.subrange(i as int, j as int));
    let kw = "import ";
    let m1 = kw.unicode_len();
    let mp = prefix.unicode_len();
    if j - p < m1 || j - p - m1 < mp {
        return false;
    }
    if !match_at(s, p, kw) {
        proof {
            assert(t.subrange(0, m1 as int) =~= s@.subrange(p as int, p + m1));
        }
        return false;
    }
    if !match_at(s, p + m1, prefix) {
        proof {
            assert(t.subrange(0, m1 as int) =~= s@.subrange(p as int, p + m1));
            assert(t.subrange(m1 as int, m1 + mp) =~= s@.subrange(p + m1, p + m1 + mp));
        }
        return false;
    }
    proof {
        assert(t.subrange(0, m1 as int) =~= s@.subrange(p as int, p + m1));
        assert(t.subrange(m1 as int, m1 + mp) =~= s@.subrange(p + m1, p + m1 + mp));
    }
    if j - p == m1 + mp {
        true
    } else {
        let c = s.get_char(p + m1 + mp);
        proof {
            assert(t[m1 + mp] == s@[p + m1 + mp]);
        }
        c == '/' || c == ';' || c == '@'
    }
}

/// Removes every import line of the package `prefix` from `text`.
pub fn remove_imports(text: &str, prefix: &str) -> (r: String)
    ensures
        r@ == remove_imports_spec(text@, prefix@),
{
    let n = text.unicode_len();
    let mut out = String::new();
    let mut i: usize = 0;
    proof {
        assert(text@.skip(0) =~= text@);
        assert(out@ + remove_imports_spec(text@, prefix@) =~= remove_imports_spec(
            text@,
            prefix@,
        ));
    }
    while i < n
        invariant
            n == text@.len(),
            i <= n,
            out@ + remove_imports_spec(text@.skip(i as int), prefix@) == remove_imports_spec(
                text@,
                prefix@,
            ),
        decreases n - i,
    {
        let j = find_newline(text, i, n);
        let end = if j < n {
            j + 1
        } else {
            j
        };
        let removed = line_is_import_of(text, i, j, prefix);
        let ghost u = text@.skip(i as int);
        proof {
            assert forall|m: int| 0 <= m < j - i implies u[m] != '\n' by {
                assert(u[m] == text@[i + m]);
            }
            if j < n {
                assert(u[j - i] == text@[j as int]);
            }
            lemma_next_newline_value(u, 0, j - i);
            assert(u.subrange(0, j - i) =~= text@.subrange(i as int, j as int));
            assert(u.subrange(0, end - i) =~= text@.subrange(i as int, end as int));
            assert(u.skip(end - i) =~= text@.skip(end as int));
        }
        if !removed {
            let chunk = text.substring_char(i, end);
            out.append(chunk);
        }
        proof {
            let rest = remove_imports_spec(text@.skip(end as int), prefix@);
            if !line_removed(text@.subrange(i as int, j as int), prefix@) {
                assert(remove_imports_spec(u, prefix@) == text@.subrange(i as int, end as int)
                    + rest);
                assert(out@ + rest =~= remove_imports_spec(text@, prefix@));
            } else {
                assert(remove_imports_spec(u, prefix@) == rest);
            }
        }
        i = end;
    }
    proof {
        assert(text@.skip(n as int) =~= Seq::<char>::empty());
        assert(out@ =~= out@ + Seq::<char>::empty());
    }
    out
}

} // verus!
