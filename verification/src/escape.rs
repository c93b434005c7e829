//! Escaping text for AppleScript double-quoted string literals.
use vstd::prelude::*;
use crate::text::{chars_of, push_char};

verus! {

/// How one character is written inside an AppleScript string literal.
pub open spec fn esc_char(c: char) -> Seq<char> {
    if c == '\\' {
        seq!['\\', '\\']
    } else if c == '"' {
        seq!['\\', '"']
    } else {
        seq![c]
    }
}

/// `s` with each backslash and each double quote preceded by a backslash.
pub open spec fn escaped(s: Seq<char>) -> Seq<char>
    decreases s.len(),
{
    if s.len() == 0 {
        Seq::<char>::empty()
    } else {
        esc_char(s[0]) + escaped(s.drop_first())
    }
}

/// The character that AppleScript reads for the escape sequence `\c`.
pub open spec fn escape_meaning(c: char) -> Option<char> {
    if c == '\\' || c == '"' {
        Some(c)
    } else if c == 'n' {
        Some('\n')
    } else if c == 't' {
        Some('\t')
    } else if c == 'r' {
        Some('\r')
    } else {
        None
    }
}

/// The text that AppleScript reads from `t` when `t` stands between the two
/// double quotes of a string literal; `None` where `t` would end the literal
/// early (an unescaped `"`) or holds an escape that AppleScript refuses.
pub open spec fn literal_value(t: Seq<char>) -> Option<Seq<char>>
    decreases t.len(),
{
    if t.len() == 0 {
        Some(Seq::<char>::empty())
    } else if t[0] == '"' {
        None
    } else if t[0] == '\\' {
        if t.len() < 2 {
            None
        } else {
            match (escape_meaning(t[1]), literal_value(t.skip(2))) {
                (Some(d), Some(r)) => Some(seq![d] + r),
                _ => None,
            }
        }
    } else {
        match literal_value(t.drop_first()) {
            Some(r) => Some(seq![t[0]] + r),
            None => None,
        }
    }
}

pub proof fn lemma_escaped_concat(a: Seq<char>, b: Seq<char>)
    ensures
        escaped(a + b) == escaped(a) + escaped(b),
    decreases a.len(),
{
    if a.len() == 0 {
        assert(a + b =~= b);
        assert(escaped(a) + escaped(b) =~= escaped(b));
    } else {
        assert((a + b).drop_first() =~= a.drop_first() + b);
        lemma_escaped_concat(a.drop_first(), b);
        assert(escaped(a + b) =~= escaped(a) + escaped(b));
    }
}

proof fn lemma_escaped_push(a: Seq<char>, c: char)
    ensures
        escaped(a.push(c)) == escaped(a) + esc_char(c),
{
    lemma_escaped_concat(a, seq![c]);
    assert(a.push(c) =~= a + seq![c]);
    assert(seq![c].drop_first() =~= Seq::<char>::empty());
    assert(escaped(Seq::<char>::empty()) =~= Seq::<char>::empty());
    assert(seq![c][0] == c);
    assert(escaped(seq![c]) =~= esc_char(c));
}

/// Escaping is exact: whatever the text, AppleScript reads the escaped text,
/// placed between double quotes, as one string literal whose value is the
/// text it started from.
pub proof fn law_escape_reads_back(s: Seq<char>)
    ensures
        literal_value(escaped(s)) == Some(s),
    decreases s.len(),
{
    if s.len() > 0 {
        law_escape_reads_back(s.drop_first());
        let t = escaped(s);
        let rest = escaped(s.drop_first());
        let c = s[0];
        if c == '\\' || c == '"' {
            assert(t.skip(2) =~= rest);
        } else {
            assert(t.drop_first() =~= rest);
        }
        assert(seq![c] + s.drop_first() =~= s);
    }
}

/// How many times `c` occurs in `s`.
pub open spec fn occurrences(s: Seq<char>, c: char) -> nat
    decreases s.len(),
{
    if s.len() == 0 {
        0
    } else {
        occurrences(s.drop_first(), c) + if s[0] == c {
            1nat
        } else {
            0nat
        }
    }
}

/// Escaping adds exactly one character for each backslash and each double
/// quote of the text.
pub proof fn law_escaped_length(s: Seq<char>)
    ensures
        escaped(s).len() == s.len() + occurrences(s, '\\') + occurrences(s, '"'),
    decreases s.len(),
{
    if s.len() > 0 {
        law_escaped_length(s.drop_first());
    }
}

/// The length of the run of backslashes that ends just before position `i`.
pub open spec fn backslashes_before(t: Seq<char>, i: int) -> nat
    decreases i,
{
    if i <= 0 || i > t.len() || t[i - 1] != '\\' {
        0
    } else {
        backslashes_before(t, i - 1) + 1
    }
}

proof fn lemma_run_in_prefix(t: Seq<char>, u: Seq<char>, i: int)
    requires
        0 <= i <= t.len(),
    ensures
        backslashes_before(t + u, i) == backslashes_before(t, i),
    decreases i,
{
    if i > 0 {
        lemma_run_in_prefix(t, u, i - 1);
        assert((t + u)[i - 1] == t[i - 1]);
    }
}

proof fn lemma_escaped_runs(s: Seq<char>)
    ensures
        backslashes_before(escaped(s), escaped(s).len() as int) % 2 == 0,
        forall|i: int|
            0 <= i < escaped(s).len() && escaped(s)[i] == '"' ==> backslashes_before(
                escaped(s),
                i,
            ) % 2 == 1,
    decreases s.len(),
{
    if s.len() == 0 {
    } else {
        let a = s.drop_last();
        let c = s.last();
        lemma_escaped_runs(a);
        lemma_escaped_push(a, c);
        assert(a.push(c) =~= s);
        let t = escaped(a);
        let u = esc_char(c);
        let t2 = t + u;
        assert(escaped(s) == t2);
        let n = t.len() as int;
        assert forall|i: int| 0 <= i <= n implies backslashes_before(t2, i) == backslashes_before(
            t,
            i,
        ) by {
            lemma_run_in_prefix(t, u, i);
        }
        assert forall|i: int|
            0 <= i < t2.len() && t2[i] == '"' implies backslashes_before(t2, i) % 2 == 1 by {
            if i < n {
                assert(t2[i] == t[i]);
            } else {
                assert(c == '"' && i == n + 1);
                assert(t2[n] == '\\');
                assert(backslashes_before(t2, n + 1) == backslashes_before(t2, n) + 1);
            }
        }
        if c == '\\' {
            assert(t2[n] == '\\' && t2[n + 1] == '\\');
            assert(backslashes_before(t2, n + 1) == backslashes_before(t2, n) + 1);
            assert(backslashes_before(t2, n + 2) == backslashes_before(t2, n + 1) + 1);
        } else if c == '"' {
            assert(t2[n + 1] == '"');
        } else {
            assert(t2[n] == c);
        }
    }
}

/// In escaped text, every double quote follows an odd run of backslashes,
/// so none of them can end an AppleScript string literal.
pub proof fn law_escaped_quotes_follow_odd_runs(s: Seq<char>)
    ensures
        forall|i: int|
            0 <= i < escaped(s).len() && escaped(s)[i] == '"' ==> backslashes_before(
                escaped(s),
                i,
            ) % 2 == 1,
{
    lemma_escaped_runs(s);
}

/// Escape a string for safe embedding in AppleScript double-quoted strings.
pub fn esc(s: &str) -> (out: String)
    ensures
        out@ == escaped(s@),
{
    let v = chars_of(s);
    let n = v.len();
    let mut out = String::new();
    assert(v@.take(0) =~= Seq::<char>::empty());
    for i in 0..n
        invariant
            n == v@.len(),
            out@ == escaped(v@.take(i as int)),
    {
        let c = v[i];
        proof {
            lemma_escaped_push(v@.take(i as int), c);
            assert(v@.take(i + 1) =~= v@.take(i as int).push(c));
        }
        if c == '\\' {
            push_char(&mut out, '\\');
            push_char(&mut out, '\\');
        } else if c == '"' {
            push_char(&mut out, '\\');
            push_char(&mut out, '"');
        } else {
            push_char(&mut out, c);
        }
        assert(out@ =~= escaped(v@.take(i + 1)));
    }
    assert(v@.take(n as int) =~= v@);
    out
}

} // verus!
