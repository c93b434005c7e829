//! Character-level text handling: whitespace, trimming, splitting and
//! line breaking, each with a mathematical definition over `Seq<char>`.
use vstd::prelude::*;

verus! {

// ---------------------------------------------------------------------------
// Definitions
// ---------------------------------------------------------------------------

/// Unicode `White_Space`: the characters that `char::is_whitespace` accepts.
pub open spec fn is_ws(c: char) -> bool {
    ||| ('\u{9}' <= c && c <= '\u{d}')
    ||| c == ' '
    ||| c == '\u{85}'
    ||| c == '\u{a0}'
    ||| c == '\u{1680}'
    ||| ('\u{2000}' <= c && c <= '\u{200a}')
    ||| c == '\u{2028}'
    ||| c == '\u{2029}'
    ||| c == '\u{202f}'
    ||| c == '\u{205f}'
    ||| c == '\u{3000}'
}

/// `s` without its leading whitespace.
pub open spec fn trim_start(s: Seq<char>) -> Seq<char>
    decreases s.len(),
{
    if s.len() > 0 && is_ws(s[0]) {
        trim_start(s.drop_first())
    } else {
        s
    }
}

/// `s` without its trailing whitespace.
pub open spec fn trim_end(s: Seq<char>) -> Seq<char>
    decreases s.len(),
{
    if s.len() > 0 && is_ws(s.last()) {
        trim_end(s.drop_last())
    } else {
        s
    }
}

/// `s` without leading and trailing whitespace (`str::trim`).
pub open spec fn trim(s: Seq<char>) -> Seq<char> {
    trim_end(trim_start(s))
}

/// The pieces of `s` between occurrences of `sep` (`str::split` on a char):
/// always at least one piece, empty pieces kept.
pub open spec fn split_on(s: Seq<char>, sep: char) -> Seq<Seq<char>>
    decreases s.len(),
{
    if s.len() == 0 {
        seq![Seq::<char>::empty()]
    } else {
        let r = split_on(s.drop_last(), sep);
        if s.last() == sep {
            r.push(Seq::<char>::empty())
        } else {
            r.update(r.len() - 1, r.last().push(s.last()))
        }
    }
}

/// The pieces of `s` split at the first `n - 1` occurrences of `sep`
/// (`str::splitn`): at most `n` pieces, the last holding the rest of `s`.
pub open spec fn splitn(s: Seq<char>, n: nat, sep: char) -> Seq<Seq<char>>
    decreases s.len(),
{
    if s.len() == 0 {
        seq![Seq::<char>::empty()]
    } else {
        let r = splitn(s.drop_last(), n, sep);
        if s.last() == sep && r.len() < n {
            r.push(Seq::<char>::empty())
        } else {
            r.update(r.len() - 1, r.last().push(s.last()))
        }
    }
}

/// A line without the carriage return that ends it, if any.
pub open spec fn strip_cr(l: Seq<char>) -> Seq<char> {
    if l.len() > 0 && l.last() == '\r' {
        l.drop_last()
    } else {
        l
    }
}

/// The lines of `s` (`str::lines`): split at `\n`, a `\r` before the `\n`
/// dropped, and no final empty line after a last `\n`.
pub open spec fn lines(s: Seq<char>) -> Seq<Seq<char>> {
    let p = split_on(s, '\n');
    let init = p.drop_last().map_values(|l: Seq<char>| strip_cr(l));
    if p.last().len() == 0 {
        init
    } else {
        init.push(p.last())
    }
}

/// The members of `ls` that are not empty, in order.
pub open spec fn non_empty(ls: Seq<Seq<char>>) -> Seq<Seq<char>>
    decreases ls.len(),
{
    if ls.len() == 0 {
        Seq::<Seq<char>>::empty()
    } else if ls.last().len() == 0 {
        non_empty(ls.drop_last())
    } else {
        non_empty(ls.drop_last()).push(ls.last())
    }
}

/// The members of `parts` with `sep` between each two of them (`join`).
pub open spec fn join(parts: Seq<Seq<char>>, sep: Seq<char>) -> Seq<char>
    decreases parts.len(),
{
    if parts.len() == 0 {
        Seq::<char>::empty()
    } else if parts.len() == 1 {
        parts[0]
    } else {
        join(parts.drop_last(), sep) + sep + parts.last()
    }
}

/// `pat` occurs in `s` at position `i`.
pub open spec fn occurs_at(s: Seq<char>, pat: Seq<char>, i: int) -> bool {
    0 <= i && i + pat.len() <= s.len() && s.subrange(i, i + pat.len()) == pat
}

/// `pat` occurs somewhere in `s` (`str::contains`).
pub open spec fn contains(s: Seq<char>, pat: Seq<char>) -> bool {
    exists|i: int| occurs_at(s, pat, i)
}

/// The views of a sequence of character vectors.
pub open spec fn seqs(v: Seq<Vec<char>>) -> Seq<Seq<char>> {
    v.map_values(|x: Vec<char>| x@)
}

/// The views of a sequence of strings.
pub open spec fn strs(v: Seq<String>) -> Seq<Seq<char>> {
    v.map_values(|x: String| x@)
}

/// The view of an optional string.
pub open spec fn opt_str(o: Option<String>) -> Option<Seq<char>> {
    match o {
        Some(s) => Some(s@),
        None => None,
    }
}

/// The decimal digits, by value.
pub const DECIMAL_DIGITS: &'static str = "0123456789";

/// A number written in decimal, without leading zeros.
pub open spec fn decimal_text(n: nat) -> Seq<char>
    decreases n,
{
    if n < 10 {
        seq![DECIMAL_DIGITS@[n as int]]
    } else {
        decimal_text(n / 10).push(DECIMAL_DIGITS@[(n % 10) as int])
    }
}

// ---------------------------------------------------------------------------
// Lemmas
// ---------------------------------------------------------------------------

proof fn lemma_seqs_push(v: Seq<Vec<char>>, x: Vec<char>)
    ensures
        seqs(v.push(x)) == seqs(v).push(x@),
{
    assert(seqs(v.push(x)) =~= seqs(v).push(x@));
}

pub proof fn lemma_split_on_len(s: Seq<char>, sep: char)
    ensures
        split_on(s, sep).len() >= 1,
    decreases s.len(),
{
    if s.len() > 0 {
        lemma_split_on_len(s.drop_last(), sep);
    }
}

pub proof fn lemma_splitn_len(s: Seq<char>, n: nat, sep: char)
    requires
        n >= 1,
    ensures
        1 <= splitn(s, n, sep).len() <= n,
    decreases s.len(),
{
    if s.len() > 0 {
        lemma_splitn_len(s.drop_last(), n, sep);
    }
}

/// `sep` does not occur in `s`.
pub open spec fn free_of(s: Seq<char>, sep: char) -> bool {
    forall|i: int| 0 <= i < s.len() ==> s[i] != sep
}

proof fn lemma_splitn_sep(a: Seq<char>, n: nat, sep: char)
    requires
        splitn(a, n, sep).len() < n,
    ensures
        splitn(a.push(sep), n, sep) == splitn(a, n, sep).push(Seq::<char>::empty()),
{
    assert(a.push(sep).drop_last() =~= a);
}

proof fn lemma_splitn_extend(a: Seq<char>, b: Seq<char>, n: nat, sep: char)
    requires
        n >= 1,
        free_of(b, sep) || splitn(a, n, sep).len() == n,
    ensures
        splitn(a + b, n, sep) == ({
            let r = splitn(a, n, sep);
            r.update(r.len() - 1, r.last() + b)
        }),
    decreases b.len(),
{
    lemma_splitn_len(a, n, sep);
    let r = splitn(a, n, sep);
    if b.len() == 0 {
        assert(a + b =~= a);
        assert(r.update(r.len() - 1, r.last() + b) =~= r);
    } else {
        let b0 = b.drop_last();
        assert(free_of(b, sep) ==> free_of(b0, sep));
        lemma_splitn_extend(a, b0, n, sep);
        assert((a + b).drop_last() =~= a + b0);
        assert((a + b).last() == b.last());
        let r0 = splitn(a + b0, n, sep);
        assert(r0.len() == r.len());
        assert(r0.last() == r.last() + b0);
        assert((r.last() + b0).push(b.last()) =~= r.last() + b);
        assert(r0.update(r0.len() - 1, r0.last().push(b.last())) =~= r.update(
            r.len() - 1,
            r.last() + b,
        ));
    }
}

/// Splitting pieces joined by a separator gives the pieces back, when no
/// piece but possibly the `n`-th holds the separator.
pub proof fn lemma_splitn_join(fields: Seq<Seq<char>>, n: nat, sep: char)
    requires
        1 <= fields.len() <= n,
        forall|i: int| 0 <= i < fields.len() - 1 ==> free_of(#[trigger] fields[i], sep),
        fields.len() < n ==> free_of(fields.last(), sep),
    ensures
        splitn(join(fields, seq![sep]), n, sep) == fields,
    decreases fields.len(),
{
    if fields.len() == 1 {
        let e = Seq::<char>::empty();
        assert(e + fields[0] =~= fields[0]);
        lemma_splitn_extend(e, fields[0], n, sep);
        assert(splitn(e, n, sep) =~= seq![e]);
        assert(seq![e].update(0, e + fields[0]) =~= fields);
    } else {
        let init = fields.drop_last();
        assert forall|i: int| 0 <= i < init.len() - 1 implies free_of(#[trigger] init[i], sep) by {
            assert(init[i] == fields[i]);
        }
        assert(free_of(init.last(), sep)) by {
            assert(init.last() == fields[fields.len() - 2]);
        }
        lemma_splitn_join(init, n, sep);
        let a = join(init, seq![sep]);
        lemma_splitn_sep(a, n, sep);
        assert(a + seq![sep] =~= a.push(sep));
        lemma_splitn_extend(a.push(sep), fields.last(), n, sep);
        assert(join(fields, seq![sep]) =~= a.push(sep) + fields.last());
        let e = Seq::<char>::empty();
        assert(init.push(e).update(init.len() as int, e + fields.last()) =~= fields);
    }
}

proof fn lemma_split_on_sep(a: Seq<char>, sep: char)
    ensures
        split_on(a.push(sep), sep) == split_on(a, sep).push(Seq::<char>::empty()),
{
    assert(a.push(sep).drop_last() =~= a);
}

proof fn lemma_split_on_extend(a: Seq<char>, b: Seq<char>, sep: char)
    requires
        free_of(b, sep),
    ensures
        split_on(a + b, sep) == ({
            let r = split_on(a, sep);
            r.update(r.len() - 1, r.last() + b)
        }),
    decreases b.len(),
{
    lemma_split_on_len(a, sep);
    let r = split_on(a, sep);
    if b.len() == 0 {
        assert(a + b =~= a);
        assert(r.update(r.len() - 1, r.last() + b) =~= r);
    } else {
        let b0 = b.drop_last();
        lemma_split_on_extend(a, b0, sep);
        assert((a + b).drop_last() =~= a + b0);
        assert((a + b).last() == b.last());
        let r0 = split_on(a + b0, sep);
        assert(r0.len() == r.len());
        assert(r0.last() == r.last() + b0);
        assert((r.last() + b0).push(b.last()) =~= r.last() + b);
        assert(r0.update(r0.len() - 1, r0.last().push(b.last())) =~= r.update(
            r.len() - 1,
            r.last() + b,
        ));
    }
}

/// Splitting pieces joined by a separator that none of them holds gives the
/// pieces back.
pub proof fn lemma_split_on_join(parts: Seq<Seq<char>>, sep: char)
    requires
        parts.len() >= 1,
        forall|i: int| 0 <= i < parts.len() ==> free_of(#[trigger] parts[i], sep),
    ensures
        split_on(join(parts, seq![sep]), sep) == parts,
    decreases parts.len(),
{
    let e = Seq::<char>::empty();
    if parts.len() == 1 {
        assert(e + parts[0] =~= parts[0]);
        lemma_split_on_extend(e, parts[0], sep);
        assert(split_on(e, sep) =~= seq![e]);
        assert(seq![e].update(0, e + parts[0]) =~= parts);
    } else {
        let init = parts.drop_last();
        assert forall|i: int| 0 <= i < init.len() implies free_of(#[trigger] init[i], sep) by {
            assert(init[i] == parts[i]);
        }
        lemma_split_on_join(init, sep);
        let a = join(init, seq![sep]);
        lemma_split_on_sep(a, sep);
        assert(free_of(parts.last(), sep));
        lemma_split_on_extend(a.push(sep), parts.last(), sep);
        assert(join(parts, seq![sep]) =~= a.push(sep) + parts.last());
        assert(init.push(e).update(init.len() as int, e + parts.last()) =~= parts);
    }
}

/// Pieces joined by a separator start with the first piece.
pub proof fn lemma_join_first(parts: Seq<Seq<char>>, sep: Seq<char>)
    requires
        parts.len() >= 1,
    ensures
        join(parts, sep).len() >= parts[0].len(),
        forall|i: int| 0 <= i < parts[0].len() ==> join(parts, sep)[i] == parts[0][i],
    decreases parts.len(),
{
    if parts.len() >= 2 {
        lemma_join_first(parts.drop_last(), sep);
    }
}

proof fn lemma_occurs_in_prefix(a: Seq<char>, b: Seq<char>, pat: Seq<char>, i: int)
    requires
        occurs_at(a, pat, i),
    ensures
        occurs_at(a + b, pat, i),
{
    assert((a + b).subrange(i, i + pat.len()) =~= a.subrange(i, i + pat.len()));
}

/// `b` occurs in `a + b + c`.
pub proof fn lemma_contains_middle(a: Seq<char>, b: Seq<char>, c: Seq<char>)
    ensures
        contains(a + b + c, b),
{
    assert((a + b + c).subrange(a.len() as int, (a.len() + b.len()) as int) =~= b);
    assert(occurs_at(a + b + c, b, a.len() as int));
}

/// What occurs in `x` occurs in `a + x + c`.
pub proof fn lemma_contains_within(a: Seq<char>, x: Seq<char>, c: Seq<char>, pat: Seq<char>)
    requires
        contains(x, pat),
    ensures
        contains(a + x + c, pat),
{
    let k = choose|k: int| occurs_at(x, pat, k);
    assert((a + x + c).subrange(a.len() + k, a.len() + k + pat.len()) =~= x.subrange(
        k,
        k + pat.len(),
    ));
    assert(occurs_at(a + x + c, pat, a.len() + k));
}

/// Every piece occurs in the pieces joined.
pub proof fn lemma_join_contains(parts: Seq<Seq<char>>, sep: Seq<char>, i: int)
    requires
        0 <= i < parts.len(),
    ensures
        contains(join(parts, sep), parts[i]),
    decreases parts.len(),
{
    if parts.len() == 1 {
        lemma_contains_middle(Seq::<char>::empty(), parts[0], Seq::<char>::empty());
        assert(Seq::<char>::empty() + parts[0] + Seq::<char>::empty() =~= parts[0]);
    } else {
        let init = parts.drop_last();
        let a = join(init, sep);
        if i == parts.len() - 1 {
            lemma_contains_middle(a + sep, parts.last(), Seq::<char>::empty());
            assert(a + sep + parts.last() + Seq::<char>::empty() =~= join(parts, sep));
        } else {
            lemma_join_contains(init, sep, i);
            assert(init[i] == parts[i]);
            let k = choose|k: int| occurs_at(a, parts[i], k);
            lemma_occurs_in_prefix(a, sep + parts.last(), parts[i], k);
            assert(a + (sep + parts.last()) =~= join(parts, sep));
        }
    }
}

/// Lines each followed by a line feed.
pub open spec fn terminated_lines(ls: Seq<Seq<char>>) -> Seq<char>
    decreases ls.len(),
{
    if ls.len() == 0 {
        Seq::<char>::empty()
    } else {
        terminated_lines(ls.drop_last()) + ls.last() + seq!['\n']
    }
}

proof fn lemma_split_terminated(ls: Seq<Seq<char>>)
    requires
        forall|i: int| 0 <= i < ls.len() ==> free_of(#[trigger] ls[i], '\n'),
    ensures
        split_on(terminated_lines(ls), '\n') == ls.push(Seq::<char>::empty()),
    decreases ls.len(),
{
    let e = Seq::<char>::empty();
    if ls.len() == 0 {
        assert(split_on(e, '\n') =~= seq![e]);
        assert(ls.push(e) =~= seq![e]);
    } else {
        let init = ls.drop_last();
        assert forall|i: int| 0 <= i < init.len() implies free_of(#[trigger] init[i], '\n') by {
            assert(init[i] == ls[i]);
        }
        lemma_split_terminated(init);
        let a = terminated_lines(init);
        assert(free_of(ls.last(), '\n'));
        lemma_split_on_extend(a, ls.last(), '\n');
        let b = a + ls.last();
        lemma_split_on_sep(b, '\n');
        assert(terminated_lines(ls) =~= b.push('\n'));
        assert(init.push(e).update(init.len() as int, init.push(e).last() + ls.last()) =~= ls);
        assert(e + ls.last() =~= ls.last());
    }
}

/// Lines each ended by a line feed read back as those lines, each without a
/// final carriage return.
pub proof fn law_lines_read_back(ls: Seq<Seq<char>>)
    requires
        forall|i: int| 0 <= i < ls.len() ==> free_of(#[trigger] ls[i], '\n'),
    ensures
        lines(terminated_lines(ls)) == ls.map_values(|l: Seq<char>| strip_cr(l)),
{
    lemma_split_terminated(ls);
    let p = ls.push(Seq::<char>::empty());
    assert(p.drop_last() =~= ls);
}

proof fn lemma_trim_start_shape(s: Seq<char>)
    ensures
        trim_start(s).len() == 0 || !is_ws(trim_start(s)[0]),
    decreases s.len(),
{
    if s.len() > 0 && is_ws(s[0]) {
        lemma_trim_start_shape(s.drop_first());
    }
}

proof fn lemma_trim_end_shape(u: Seq<char>)
    ensures
        trim_end(u).len() <= u.len(),
        trim_end(u) == u.take(trim_end(u).len() as int),
        trim_end(u).len() == 0 || !is_ws(trim_end(u).last()),
    decreases u.len(),
{
    if u.len() > 0 && is_ws(u.last()) {
        lemma_trim_end_shape(u.drop_last());
        let k = trim_end(u).len() as int;
        assert(u.drop_last().take(k) =~= u.take(k));
    } else {
        assert(u.take(u.len() as int) =~= u);
    }
}

/// Trimming trimmed text changes nothing: trimmed text neither starts nor
/// ends with whitespace.
pub proof fn law_trim_is_idempotent(s: Seq<char>)
    ensures
        trim(trim(s)) == trim(s),
        trim(s).len() > 0 ==> !is_ws(trim(s)[0]) && !is_ws(trim(s).last()),
{
    let u = trim_start(s);
    let t = trim(s);
    lemma_trim_start_shape(s);
    lemma_trim_end_shape(u);
    if t.len() > 0 {
        assert(t[0] == u[0]);
        assert(trim_start(t) == t);
        assert(trim_end(t) == t);
    } else {
        assert(trim_start(t) == t);
        assert(trim_end(t) == t);
    }
}

// ---------------------------------------------------------------------------
// Executable functions
// ---------------------------------------------------------------------------

/// Appends one character to a string, by `String::push` of std, whose
/// documentation says that it appends the character to the end of the string.
#[verifier::external_body]
pub fn push_char(s: &mut String, c: char)
    ensures
        final(s)@ == old(s)@.push(c),
{
    s.push(c);
}

/// The characters of a string slice, in order.
pub fn chars_of(s: &str) -> (out: Vec<char>)
    ensures
        out@ == s@,
{
    let mut out: Vec<char> = Vec::new();
    for c in it: s.chars()
        invariant
            out@ == it.seq().take(it.index() as int),
    {
        out.push(c);
    }
    out
}

/// Appends characters to a string.
pub fn append_chars(s: &mut String, v: &Vec<char>)
    ensures
        final(s)@ == old(s)@ + v@,
{
    let n = v.len();
    for i in 0..n
        invariant
            n == v@.len(),
            s@ == old(s)@ + v@.take(i as int),
    {
        push_char(s, v[i]);
        assert(v@.take(i + 1) =~= v@.take(i as int).push(v@[i as int]));
    }
    assert(v@.take(n as int) =~= v@);
}

/// A string made of the given characters.
pub fn string_of(v: &Vec<char>) -> (out: String)
    ensures
        out@ == v@,
{
    let mut out = String::new();
    append_chars(&mut out, v);
    out
}

/// Whether `c` is whitespace (`char::is_whitespace`).
pub fn is_ws_char(c: char) -> (r: bool)
    ensures
        r == is_ws(c),
{
    ('\u{9}' <= c && c <= '\u{d}') || c == ' ' || c == '\u{85}' || c == '\u{a0}' || c
        == '\u{1680}' || ('\u{2000}' <= c && c <= '\u{200a}') || c == '\u{2028}' || c
        == '\u{2029}' || c == '\u{202f}' || c == '\u{205f}' || c == '\u{3000}'
}

/// The characters of `v` from `a` up to (not including) `b`.
pub fn slice_chars(v: &Vec<char>, a: usize, b: usize) -> (out: Vec<char>)
    requires
        a <= b <= v@.len(),
    ensures
        out@ == v@.subrange(a as int, b as int),
{
    let mut out: Vec<char> = Vec::new();
    for i in a..b
        invariant
            a <= b <= v@.len(),
            out@ == v@.subrange(a as int, i as int),
    {
        out.push(v[i]);
        assert(v@.subrange(a as int, i + 1) =~= v@.subrange(a as int, i as int).push(v@[i as int]));
    }
    out
}

/// `v` without leading and trailing whitespace.
pub fn trimmed(v: &Vec<char>) -> (out: Vec<char>)
    ensures
        out@ == trim(v@),
{
    let n = v.len();
    let mut lo: usize = 0;
    assert(v@.skip(0) =~= v@);
    while lo < n && is_ws_char(v[lo])
        invariant
            lo <= n,
            n == v@.len(),
            trim_start(v@) == trim_start(v@.skip(lo as int)),
        decreases n - lo,
    {
        assert(v@.skip(lo as int).drop_first() =~= v@.skip(lo + 1));
        lo = lo + 1;
    }
    let ghost t = v@.skip(lo as int);
    assert(trim_start(t) == t);
    let mut hi: usize = n;
    assert(t.take((n - lo) as int) =~= t);
    while hi > lo && is_ws_char(v[hi - 1])
        invariant
            lo <= hi <= n,
            n == v@.len(),
            t == v@.skip(lo as int),
            trim_end(t) == trim_end(t.take(hi - lo)),
        decreases hi,
    {
        assert(t.take(hi - lo).drop_last() =~= t.take(hi - 1 - lo));
        hi = hi - 1;
    }
    assert(t.take(hi - lo) =~= v@.subrange(lo as int, hi as int));
    slice_chars(v, lo, hi)
}

/// The pieces of `v` between occurrences of `sep`.
pub fn split_on_char(v: &Vec<char>, sep: char) -> (out: Vec<Vec<char>>)
    ensures
        seqs(out@) == split_on(v@, sep),
{
    let n = v.len();
    let mut out: Vec<Vec<char>> = Vec::new();
    let mut cur: Vec<char> = Vec::new();
    assert(v@.take(0) =~= Seq::<char>::empty());
    assert(seqs(out@).push(cur@) =~= split_on(v@.take(0), sep));
    for i in 0..n
        invariant
            n == v@.len(),
            seqs(out@).push(cur@) == split_on(v@.take(i as int), sep),
    {
        let ghost pre = v@.take(i as int);
        assert(v@.take(i + 1).drop_last() =~= pre);
        assert(v@.take(i + 1).last() == v@[i as int]);
        let c = v[i];
        if c == sep {
            proof {
                lemma_seqs_push(out@, cur);
            }
            out.push(cur);
            cur = Vec::new();
            assert(seqs(out@).push(cur@) =~= split_on(v@.take(i + 1), sep));
        } else {
            cur.push(c);
            assert(seqs(out@).push(cur@) =~= split_on(v@.take(i + 1), sep));
        }
    }
    proof {
        lemma_seqs_push(out@, cur);
        assert(v@.take(n as int) =~= v@);
    }
    out.push(cur);
    out
}

/// The pieces of `v` split at the first `n - 1` occurrences of `sep`.
pub fn splitn_char(v: &Vec<char>, n: usize, sep: char) -> (out: Vec<Vec<char>>)
    requires
        n >= 1,
    ensures
        seqs(out@) == splitn(v@, n as nat, sep),
        1 <= out@.len() <= n,
{
    let len = v.len();
    let mut out: Vec<Vec<char>> = Vec::new();
    let mut cur: Vec<char> = Vec::new();
    assert(v@.take(0) =~= Seq::<char>::empty());
    assert(seqs(out@).push(cur@) =~= splitn(v@.take(0), n as nat, sep));
    for i in 0..len
        invariant
            len == v@.len(),
            n >= 1,
            seqs(out@).push(cur@) == splitn(v@.take(i as int), n as nat, sep),
    {
        let ghost pre = v@.take(i as int);
        assert(v@.take(i + 1).drop_last() =~= pre);
        assert(v@.take(i + 1).last() == v@[i as int]);
        proof {
            lemma_splitn_len(pre, n as nat, sep);
        }
        let c = v[i];
        if c == sep && out.len() + 1 < n {
            proof {
                lemma_seqs_push(out@, cur);
            }
            out.push(cur);
            cur = Vec::new();
            assert(seqs(out@).push(cur@) =~= splitn(v@.take(i + 1), n as nat, sep));
        } else {
            cur.push(c);
            assert(seqs(out@).push(cur@) =~= splitn(v@.take(i + 1), n as nat, sep));
        }
    }
    proof {
        lemma_seqs_push(out@, cur);
        assert(v@.take(len as int) =~= v@);
        lemma_splitn_len(v@, n as nat, sep);
    }
    out.push(cur);
    out
}



/// The first position at or after `i` where `pat` occurs in `s` (`str::find`).
pub open spec fn find_from(s: Seq<char>, pat: Seq<char>, i: int) -> Option<int>
    decreases s.len() + 1 - i,
{
    if i < 0 || i + pat.len() > s.len() {
        None
    } else if occurs_at(s, pat, i) {
        Some(i)
    } else {
        find_from(s, pat, i + 1)
    }
}

pub proof fn lemma_find_from(s: Seq<char>, pat: Seq<char>, i: int)
    requires
        0 <= i,
    ensures
        find_from(s, pat, i) matches Some(k) ==> i <= k && occurs_at(s, pat, k) && forall|j: int|
            i <= j < k ==> !occurs_at(s, pat, j),
        find_from(s, pat, i) is None ==> forall|j: int| i <= j ==> !occurs_at(s, pat, j),
    decreases s.len() + 1 - i,
{
    if i + pat.len() > s.len() {
    } else if occurs_at(s, pat, i) {
    } else {
        lemma_find_from(s, pat, i + 1);
    }
}

/// `l` without a final carriage return.
pub fn strip_cr_of(l: &Vec<char>) -> (out: Vec<char>)
    ensures
        out@ == strip_cr(l@),
{
    let n = l.len();
    if n > 0 && l[n - 1] == '\r' {
        let out = slice_chars(l, 0, n - 1);
        assert(out@ =~= l@.drop_last());
        out
    } else {
        let out = slice_chars(l, 0, n);
        assert(out@ =~= l@);
        out
    }
}

/// The lines of `v`.
pub fn lines_of(v: &Vec<char>) -> (out: Vec<Vec<char>>)
    ensures
        seqs(out@) == lines(v@),
{
    let p = split_on_char(v, '\n');
    proof {
        lemma_split_on_len(v@, '\n');
    }
    let k = p.len() - 1;
    let ghost ps = seqs(p@);
    let mut out: Vec<Vec<char>> = Vec::new();
    for i in 0..k
        invariant
            k + 1 == p@.len(),
            ps == seqs(p@),
            seqs(out@) == ps.take(i as int).map_values(|l: Seq<char>| strip_cr(l)),
    {
        let l = strip_cr_of(&p[i]);
        proof {
            lemma_seqs_push(out@, l);
        }
        out.push(l);
        assert(ps.take(i + 1).map_values(|l: Seq<char>| strip_cr(l)) =~= ps.take(i as int).map_values(
            |l: Seq<char>| strip_cr(l),
        ).push(strip_cr(ps[i as int])));
    }
    assert(ps.take(k as int) =~= ps.drop_last());
    if p[k].len() != 0 {
        let last = slice_chars(&p[k], 0, p[k].len());
        assert(last@ =~= ps.last());
        proof {
            lemma_seqs_push(out@, last);
        }
        out.push(last);
    }
    out
}

/// The members of `ls` that are not empty.
pub fn non_empty_of(ls: &Vec<Vec<char>>) -> (out: Vec<Vec<char>>)
    ensures
        seqs(out@) == non_empty(seqs(ls@)),
{
    let n = ls.len();
    let ghost s = seqs(ls@);
    let mut out: Vec<Vec<char>> = Vec::new();
    assert(s.take(0) =~= Seq::<Seq<char>>::empty());
    for i in 0..n
        invariant
            n == ls@.len(),
            s == seqs(ls@),
            seqs(out@) == non_empty(s.take(i as int)),
    {
        assert(s.take(i + 1).drop_last() =~= s.take(i as int));
        assert(s.take(i + 1).last() == s[i as int]);
        if ls[i].len() != 0 {
            let l = slice_chars(&ls[i], 0, ls[i].len());
            assert(l@ =~= s[i as int]);
            proof {
                lemma_seqs_push(out@, l);
            }
            out.push(l);
        }
    }
    assert(s.take(n as int) =~= s);
    out
}

/// Whether `v` and `w` hold the same characters.
pub fn same_chars(v: &Vec<char>, w: &Vec<char>) -> (r: bool)
    ensures
        r == (v@ == w@),
{
    if v.len() != w.len() {
        return false;
    }
    let n = v.len();
    for i in 0..n
        invariant
            n == v@.len(),
            n == w@.len(),
            forall|j: int| 0 <= j < i ==> v@[j] == w@[j],
    {
        if v[i] != w[i] {
            return false;
        }
    }
    assert(v@ =~= w@);
    true
}

/// Whether `v` holds exactly the characters of `s`.
pub fn same_text(v: &Vec<char>, s: &str) -> (r: bool)
    ensures
        r == (v@ == s@),
{
    let w = chars_of(s);
    same_chars(v, &w)
}

/// Whether `pat` occurs in `v` at position `i`.
pub fn occurs_at_chars(v: &Vec<char>, pat: &Vec<char>, i: usize) -> (r: bool)
    ensures
        r == occurs_at(v@, pat@, i as int),
{
    let n = v.len();
    let m = pat.len();
    if i > n || m > n - i {
        return false;
    }
    for j in 0..m
        invariant
            n == v@.len(),
            m == pat@.len(),
            i + m <= n,
            forall|k: int| 0 <= k < j ==> v@[i + k] == pat@[k],
    {
        if v[i + j] != pat[j] {
            assert(v@.subrange(i as int, i + m)[j as int] != pat@[j as int]);
            return false;
        }
    }
    assert(v@.subrange(i as int, i + m) =~= pat@);
    true
}

/// The first position where `pat` occurs in `v`.
pub fn find_chars(v: &Vec<char>, pat: &Vec<char>) -> (r: Option<usize>)
    ensures
        r == (match find_from(v@, pat@, 0) {
            Some(k) => Some(k as usize),
            None => None::<usize>,
        }),
{
    let n = v.len();
    let m = pat.len();
    if m > n {
        return None;
    }
    let last = n - m;
    let mut i: usize = 0;
    loop
        invariant
            n == v@.len(),
            m == pat@.len(),
            last + m == n,
            i <= last,
            find_from(v@, pat@, 0) == find_from(v@, pat@, i as int),
        decreases last - i,
    {
        if occurs_at_chars(v, pat, i) {
            return Some(i);
        }
        if i == last {
            assert(find_from(v@, pat@, i + 1) is None);
            return None;
        }
        i = i + 1;
    }
}

/// Whether `pat` occurs in `v`.
pub fn contains_chars(v: &Vec<char>, pat: &Vec<char>) -> (r: bool)
    ensures
        r == contains(v@, pat@),
{
    let f = find_chars(v, pat);
    proof {
        lemma_find_from(v@, pat@, 0);
        if let Some(k) = find_from(v@, pat@, 0) {
            assert(occurs_at(v@, pat@, k));
        }
    }
    f.is_some()
}

/// Appends the characters of a string slice to a string.
pub fn append_str(s: &mut String, t: &str)
    ensures
        final(s)@ == old(s)@ + t@,
{
    s.append(t);
}

/// The view of an optional string slice.
pub open spec fn opt_text(o: Option<&str>) -> Option<Seq<char>> {
    match o {
        Some(s) => Some(s@),
        None => None,
    }
}

/// Appends `parts` with `sep` between each two of them.
pub fn append_joined(out: &mut String, parts: &Vec<String>, sep: &str)
    ensures
        final(out)@ == old(out)@ + join(strs(parts@), sep@),
{
    let ghost ps = strs(parts@);
    let n = parts.len();
    assert(old(out)@ + join(ps.take(0), sep@) =~= old(out)@);
    for i in 0..n
        invariant
            n == parts@.len(),
            ps == strs(parts@),
            out@ == old(out)@ + join(ps.take(i as int), sep@),
    {
        if i == 0 {
            append_str(out, parts[i].as_str());
            assert(join(ps.take(1), sep@) == ps.take(1)[0]);
        } else {
            append_str(out, sep);
            append_str(out, parts[i].as_str());
            assert(ps.take(i + 1).drop_last() =~= ps.take(i as int));
        }
        assert(out@ =~= old(out)@ + join(ps.take(i + 1), sep@));
    }
    assert(ps.take(n as int) =~= ps);
}

/// Appends a number in decimal (`{}`).
pub fn append_decimal(s: &mut String, n: u64)
    ensures
        final(s)@ == old(s)@ + decimal_text(n as nat),
    decreases n,
{
    proof {
        reveal_strlit("0123456789");
    }
    let digits = chars_of(DECIMAL_DIGITS);
    assert(digits@.len() == 10);
    if n >= 10 {
        append_decimal(s, n / 10);
    }
    push_char(s, digits[(n % 10) as usize]);
    assert(s@ =~= old(s)@ + decimal_text(n as nat));
}

} // verus!
