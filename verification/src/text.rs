//! Line and field scanning over text, following the rules of `str::lines`,
//! `str::split`, `str::trim` and `str::replace`, on the characters of a
//! string.
use vstd::prelude::*;
use vstd::std_specs::iter::IteratorSpec;
use vstd::string::{StrSliceExecFns, StringExecFns};

verus! {

broadcast use vstd::string::group_string_axioms;

/// Where the first `c` in `t` stands, or `t.len()` when there is none.
pub open spec fn first_index(t: Seq<char>, c: char) -> nat
    decreases t.len(),
{
    if t.len() == 0 {
        0
    } else if t[0] == c {
        0
    } else {
        1 + first_index(t.drop_first(), c)
    }
}

/// `j` is where the first `c` in `t` stands (`t.len()` when there is none).
pub proof fn lemma_first_index(t: Seq<char>, c: char, j: int)
    requires
        0 <= j <= t.len(),
        forall|k: int| 0 <= k < j ==> t[k] != c,
        j < t.len() ==> t[j] == c,
    ensures
        first_index(t, c) == j,
    decreases j,
{
    if j > 0 {
        lemma_first_index(t.drop_first(), c, j - 1);
    }
}

/// What `first_index` gives: no `c` before it, and a `c` at it unless it is
/// the length.
pub proof fn lemma_first_index_props(t: Seq<char>, c: char)
    ensures
        first_index(t, c) <= t.len(),
        forall|k: int| 0 <= k < first_index(t, c) ==> t[k] != c,
        first_index(t, c) < t.len() ==> t[first_index(t, c) as int] == c,
    decreases t.len(),
{
    if t.len() > 0 && t[0] != c {
        lemma_first_index_props(t.drop_first(), c);
        assert forall|k: int| 0 <= k < first_index(t, c) implies t[k] != c by {
            if k > 0 {
                assert(t[k] == t.drop_first()[k - 1]);
            }
        }
    }
}

/// The characters of `s`.
pub fn chars_of(s: &str) -> (v: Vec<char>)
    ensures
        v@ == s@,
{
    let mut v: Vec<char> = Vec::new();
    let mut it = s.chars();
    loop
        invariant
            it.obeys_prophetic_iter_laws(),
            it.decrease() is Some,
            v@ + it.remaining() == s@,
        ensures
            v@ == s@,
        decreases it.decrease()->0,
    {
        match it.next() {
            Some(c) => {
                v.push(c);
            },
            None => {
                assert(v@ =~= s@);
                break;
            },
        }
    }
    v
}


/// `line` without one trailing carriage return.
pub open spec fn strip_cr(line: Seq<char>) -> Seq<char> {
    if line.len() > 0 && line.last() == '\r' {
        line.drop_last()
    } else {
        line
    }
}

/// The lines of `s` as `str::lines` yields them: split at each `'\n'`, one
/// `'\r'` before the `'\n'` removed, and no empty line after a final `'\n'`.
pub open spec fn lines(s: Seq<char>) -> Seq<Seq<char>>
    decreases s.len(),
{
    if s.len() == 0 {
        seq![]
    } else {
        let k = first_index(s, '\n');
        if k < s.len() {
            seq![strip_cr(s.take(k as int))] + lines(s.skip(k + 1 as int))
        } else {
            seq![s]
        }
    }
}

/// The first line of `ls` that satisfies `p`.
pub open spec fn first_line_where(ls: Seq<Seq<char>>, p: spec_fn(Seq<char>) -> bool) -> Option<
    Seq<char>,
>
    decreases ls.len(),
{
    if ls.len() == 0 {
        None
    } else if p(ls[0]) {
        Some(ls[0])
    } else {
        first_line_where(ls.drop_first(), p)
    }
}

/// `t` begins with `pat`.
pub open spec fn starts_with(t: Seq<char>, pat: Seq<char>) -> bool {
    t.len() >= pat.len() && t.take(pat.len() as int) == pat
}

/// `pat` occurs somewhere in `t`.
pub open spec fn contains(t: Seq<char>, pat: Seq<char>) -> bool {
    exists|i: int| 0 <= i && i + pat.len() <= t.len() && #[trigger] t.subrange(i, i + pat.len()) == pat
}

/// The piece of `t` numbered `k` (from zero) when `t` is split at each `'"'`,
/// as `t.split('"').nth(k)` gives it.
pub open spec fn quote_field(t: Seq<char>, k: nat) -> Option<Seq<char>>
    decreases k,
{
    let q = first_index(t, '"');
    if k == 0 {
        Some(t.take(q as int))
    } else if q >= t.len() {
        None
    } else {
        quote_field(t.skip(q + 1 as int), (k - 1) as nat)
    }
}

/// The line of `v` that begins at `start` ends at `end`, and the next line
/// (if any) begins at `next`.
pub fn next_line(v: &[char], start: usize) -> (r: (usize, usize))
    requires
        start < v@.len(),
    ensures
        start <= r.0 <= v@.len(),
        start < r.1 <= v@.len(),
        lines(v@.skip(start as int)) == seq![v@.subrange(start as int, r.0 as int)] + lines(
            v@.skip(r.1 as int),
        ),
{
    let n = v.len();
    let mut j = start;
    while j < n && v[j] != '\n'
        invariant
            start <= j <= n == v@.len(),
            forall|k: int| start <= k < j ==> v@[k] != '\n',
        decreases n - j,
    {
        j = j + 1;
    }
    let ghost t = v@.skip(start as int);
    proof {
        lemma_first_index(t, '\n', j - start);
    }
    if j < n {
        let end = if j > start && v[j - 1] == '\r' { j - 1 } else { j };
        assert(strip_cr(t.take(j - start)) =~= v@.subrange(start as int, end as int));
        assert(t.skip(j - start + 1) =~= v@.skip(j + 1));
        (end, j + 1)
    } else {
        assert(t =~= v@.subrange(start as int, n as int));
        assert(v@.skip(n as int) =~= Seq::<char>::empty());
        assert(lines(v@.skip(n as int)) =~= Seq::<Seq<char>>::empty());
        (n, n)
    }
}

/// Whether `pat` stands in `v` at `at`, ending no later than `end`.
pub fn matches_at(v: &[char], at: usize, end: usize, pat: &[char]) -> (b: bool)
    requires
        at <= end <= v@.len(),
    ensures
        b == (at + pat@.len() <= end && v@.subrange(at as int, at + pat@.len()) == pat@),
{
    if pat.len() > end - at {
        return false;
    }
    let mut i: usize = 0;
    while i < pat.len()
        invariant
            at + pat@.len() <= end <= v@.len(),
            i <= pat@.len(),
            forall|k: int| 0 <= k < i ==> v@[at + k] == pat@[k],
        decreases pat@.len() - i,
    {
        if v[at + i] != pat[i] {
            assert(v@.subrange(at as int, at + pat@.len())[i as int] != pat@[i as int]);
            return false;
        }
        i = i + 1;
    }
    assert(v@.subrange(at as int, at + pat@.len()) =~= pat@);
    true
}

/// Whether `pat` occurs in `v[start .. end]`.
pub fn contains_in(v: &[char], start: usize, end: usize, pat: &[char]) -> (b: bool)
    requires
        start <= end <= v@.len(),
    ensures
        b == contains(v@.subrange(start as int, end as int), pat@),
{
    let ghost t = v@.subrange(start as int, end as int);
    let mut i = start;
    loop
        invariant
            start <= i <= end <= v@.len(),
            t == v@.subrange(start as int, end as int),
            forall|k: int|
                0 <= k < i - start && k + pat@.len() <= t.len() ==> #[trigger] t.subrange(
                    k,
                    k + pat@.len(),
                ) != pat@,
        decreases end - i,
    {
        let found = matches_at(v, i, end, pat);
        proof {
            if i + pat@.len() <= end {
                assert(t.subrange(i - start, i - start + pat@.len()) =~= v@.subrange(
                    i as int,
                    i + pat@.len(),
                ));
            }
        }
        if found {
            return true;
        }
        if i == end {
            return false;
        }
        i = i + 1;
    }
}


/// Where the piece numbered `k` of `v[start .. end]`, split at each `'"'`,
/// begins and ends in `v`.
pub fn quote_field_range(v: &[char], start: usize, end: usize, k: usize) -> (r: Option<
    (usize, usize),
>)
    requires
        start <= end <= v@.len(),
    ensures
        match r {
            Some((a, b)) => start <= a <= b <= end && quote_field(
                v@.subrange(start as int, end as int),
                k as nat,
            ) == Some(v@.subrange(a as int, b as int)),
            None => quote_field(v@.subrange(start as int, end as int), k as nat) is None,
        },
{
    let ghost whole = quote_field(v@.subrange(start as int, end as int), k as nat);
    let mut cur = start;
    let mut left = k;
    loop
        invariant
            start <= cur <= end <= v@.len(),
            whole == quote_field(v@.subrange(start as int, end as int), k as nat),
            whole == quote_field(v@.subrange(cur as int, end as int), left as nat),
        decreases left,
    {
        let mut q = cur;
        while q < end && v[q] != '"'
            invariant
                cur <= q <= end <= v@.len(),
                forall|i: int| cur <= i < q ==> v@[i] != '"',
            decreases end - q,
        {
            q = q + 1;
        }
        let ghost t = v@.subrange(cur as int, end as int);
        proof {
            lemma_first_index(t, '"', q - cur);
            assert(t.take(q - cur) =~= v@.subrange(cur as int, q as int));
        }
        if left == 0 {
            return Some((cur, q));
        }
        if q == end {
            return None;
        }
        assert(t.skip(q - cur + 1) =~= v@.subrange(q + 1, end as int));
        cur = q + 1;
        left = left - 1;
    }
}

/// Whether `c` is white space in the sense of `char::is_whitespace`.
pub open spec fn is_whitespace(c: char) -> bool {
    ||| c == '\t'
    ||| c == '\n'
    ||| c == '\u{0B}'
    ||| c == '\u{0C}'
    ||| c == '\r'
    ||| c == ' '
    ||| c == '\u{85}'
    ||| c == '\u{A0}'
    ||| c == '\u{1680}'
    ||| ('\u{2000}' <= c && c <= '\u{200A}')
    ||| c == '\u{2028}'
    ||| c == '\u{2029}'
    ||| c == '\u{202F}'
    ||| c == '\u{205F}'
    ||| c == '\u{3000}'
}

/// Whether `c` is white space in the sense of `char::is_whitespace`.
pub fn char_is_whitespace(c: char) -> (b: bool)
    ensures
        b == is_whitespace(c),
{
    c == '\t' || c == '\n' || c == '\u{0B}' || c == '\u{0C}' || c == '\r' || c == ' ' || c
        == '\u{85}' || c == '\u{A0}' || c == '\u{1680}' || ('\u{2000}' <= c && c <= '\u{200A}')
        || c == '\u{2028}' || c == '\u{2029}' || c == '\u{202F}' || c == '\u{205F}' || c
        == '\u{3000}'
}

/// `t` without its leading white space.
pub open spec fn trim_start(t: Seq<char>) -> Seq<char>
    decreases t.len(),
{
    if t.len() > 0 && is_whitespace(t[0]) {
        trim_start(t.drop_first())
    } else {
        t
    }
}

/// `t` without its trailing white space.
pub open spec fn trim_end(t: Seq<char>) -> Seq<char>
    decreases t.len(),
{
    if t.len() > 0 && is_whitespace(t.last()) {
        trim_end(t.drop_last())
    } else {
        t
    }
}

/// `t` without leading and trailing white space, as `str::trim` gives it.
pub open spec fn trim(t: Seq<char>) -> Seq<char> {
    trim_end(trim_start(t))
}

/// Where `v[start .. end]` begins and ends once trimmed.
pub fn trim_range(v: &[char], start: usize, end: usize) -> (r: (usize, usize))
    requires
        start <= end <= v@.len(),
    ensures
        start <= r.0 <= r.1 <= end,
        trim(v@.subrange(start as int, end as int)) == v@.subrange(r.0 as int, r.1 as int),
{
    let mut a = start;
    while a < end && char_is_whitespace(v[a])
        invariant
            start <= a <= end <= v@.len(),
            trim_start(v@.subrange(start as int, end as int)) == trim_start(
                v@.subrange(a as int, end as int),
            ),
        decreases end - a,
    {
        assert(v@.subrange(a as int, end as int).drop_first() =~= v@.subrange(
            a + 1,
            end as int,
        ));
        a = a + 1;
    }
    let mut b = end;
    while b > a && char_is_whitespace(v[b - 1])
        invariant
            start <= a <= b <= end <= v@.len(),
            trim(v@.subrange(start as int, end as int)) == trim_end(
                v@.subrange(a as int, b as int),
            ),
        decreases b - a,
    {
        assert(v@.subrange(a as int, b as int).drop_last() =~= v@.subrange(
            a as int,
            b - 1,
        ));
        b = b - 1;
    }
    (a, b)
}

/// `s` with each occurrence of `pat`, taken from left to right without
/// overlap, replaced by `rep`, as `str::replace` gives it for a non-empty
/// pattern.
pub open spec fn replace_all(s: Seq<char>, pat: Seq<char>, rep: Seq<char>) -> Seq<char>
    decreases s.len(),
{
    if s.len() == 0 || pat.len() == 0 {
        s
    } else if starts_with(s, pat) {
        rep + replace_all(s.skip(pat.len() as int), pat, rep)
    } else {
        seq![s[0]] + replace_all(s.drop_first(), pat, rep)
    }
}

/// `s` with each occurrence of `pat` replaced by `rep`.
pub fn replace_str(s: &str, pat: &str, rep: &str) -> (out: String)
    requires
        pat@.len() > 0,
    ensures
        out@ == replace_all(s@, pat@, rep@),
{
    let v = chars_of(s);
    let p = chars_of(pat);
    let n = v.len();
    let mut out = String::new();
    let mut run: usize = 0;
    let mut i: usize = 0;
    assert(v@.skip(0) =~= v@);
    while i < n
        invariant
            n == v@.len(),
            v@ == s@,
            p@ == pat@,
            p@.len() > 0,
            run <= i <= n,
            out@ + v@.subrange(run as int, i as int) + replace_all(v@.skip(i as int), p@, rep@)
                == replace_all(s@, pat@, rep@),
        decreases n - i,
    {
        let ghost t = v@.skip(i as int);
        let found = matches_at(v.as_slice(), i, n, p.as_slice());
        assert(found == starts_with(t, p@)) by {
            if i + p@.len() <= n {
                assert(t.take(p@.len() as int) =~= v@.subrange(i as int, i + p@.len()));
            }
        }
        if found {
            let piece = s.substring_char(run, i);
            out.append(piece);
            out.append(rep);
            assert(t.skip(p@.len() as int) =~= v@.skip(i + p@.len()));
            i = i + p.len();
            run = i;
            assert(v@.subrange(run as int, i as int) =~= Seq::<char>::empty());
            assert(out@ + v@.subrange(run as int, i as int) =~= out@);
        } else {
            assert(t.drop_first() =~= v@.skip(i + 1));
            assert(v@.subrange(run as int, i + 1) =~= v@.subrange(run as int, i as int) + seq![
                t[0],
            ]);
            i = i + 1;
        }
    }
    let piece = s.substring_char(run, n);
    out.append(piece);
    assert(v@.skip(n as int) =~= Seq::<char>::empty());
    out
}

/// `trim_start` leaves nothing to trim at the start.
proof fn lemma_trim_start_done(t: Seq<char>)
    ensures
        trim_start(t).len() > 0 ==> !is_whitespace(trim_start(t)[0]),
        trim_start(trim_start(t)) == trim_start(t),
    decreases t.len(),
{
    if t.len() > 0 && is_whitespace(t[0]) {
        lemma_trim_start_done(t.drop_first());
    }
}

/// `trim_end` keeps a prefix and leaves nothing to trim at the end.
proof fn lemma_trim_end_prefix(t: Seq<char>)
    ensures
        trim_end(t).len() <= t.len(),
        trim_end(t) == t.take(trim_end(t).len() as int),
        trim_end(t).len() > 0 ==> !is_whitespace(trim_end(t).last()),
        trim_end(trim_end(t)) == trim_end(t),
    decreases t.len(),
{
    if t.len() > 0 && is_whitespace(t.last()) {
        lemma_trim_end_prefix(t.drop_last());
        assert(t.drop_last().take(trim_end(t).len() as int) =~= t.take(trim_end(t).len() as int));
    } else {
        assert(t.take(t.len() as int) =~= t);
    }
}

/// Trimming twice gives what trimming once gives.
pub proof fn law_trim_idempotent(t: Seq<char>)
    ensures
        trim(trim(t)) == trim(t),
{
    let u = trim_start(t);
    lemma_trim_start_done(t);
    lemma_trim_end_prefix(u);
    let e = trim_end(u);
    if e.len() > 0 {
        assert(e[0] == u[0]);
    }
    assert(trim_start(e) == e);
    assert(trim(e) == trim_end(e));
}

/// Replacing a one-character pattern by one character changes each
/// occurrence of that character and nothing else.
pub proof fn lemma_replace_char(s: Seq<char>, from: char, to: char)
    ensures
        replace_all(s, seq![from], seq![to]) == s.map_values(
            |c: char|
                if c == from {
                    to
                } else {
                    c
                },
        ),
    decreases s.len(),
{
    let f = |c: char|
        if c == from {
            to
        } else {
            c
        };
    if s.len() > 0 {
        lemma_replace_char(s.drop_first(), from, to);
        assert(s.take(1) =~= seq![s[0]]);
        if s[0] == from {
            assert(starts_with(s, seq![from]));
            assert(s.skip(1) =~= s.drop_first());
        } else {
            assert(s.take(1)[0] != seq![from][0]);
            assert(!starts_with(s, seq![from]));
        }
        assert(s.map_values(f) =~= seq![f(s[0])] + s.drop_first().map_values(f));
    } else {
        assert(s.map_values(f) =~= s);
    }
}

/// A text in which the pattern does not occur comes back unchanged.
pub proof fn law_replace_without_occurrence(s: Seq<char>, pat: Seq<char>, rep: Seq<char>)
    requires
        !contains(s, pat),
    ensures
        replace_all(s, pat, rep) == s,
    decreases s.len(),
{
    if s.len() > 0 && pat.len() > 0 {
        assert(!starts_with(s, pat)) by {
            if starts_with(s, pat) {
                assert(s.take(pat.len() as int) =~= s.subrange(0int, 0int + pat.len()));
                assert(s.subrange(0int, 0int + pat.len()) == pat);
            }
        }
        assert(!contains(s.drop_first(), pat)) by {
            if contains(s.drop_first(), pat) {
                let i = choose|i: int|
                    0 <= i && i + pat.len() <= s.drop_first().len() && #[trigger] s.drop_first().subrange(
                        i,
                        i + pat.len(),
                    ) == pat;
                assert(s.subrange(i + 1, i + 1 + pat.len()) =~= s.drop_first().subrange(
                    i,
                    i + pat.len(),
                ));
            }
        }
        law_replace_without_occurrence(s.drop_first(), pat, rep);
        assert(seq![s[0]] + s.drop_first() =~= s);
    }
}

} // verus!
