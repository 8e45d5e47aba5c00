//! Character-level helpers over interface text: whitespace, trimming,
//! line splitting, and the two declaration shapes that the scanner knows.

use vstd::prelude::*;
use vstd::std_specs::iter::IteratorSpec;
use vstd::string::{axiom_spec_iter, next_postcondition};

verus! {

/// The Unicode `White_Space` property, which `char::is_whitespace` follows.
pub open spec fn is_ws(c: char) -> bool {
    ('\u{9}' <= c && c <= '\u{d}') || c == ' ' || c == '\u{85}' || c == '\u{a0}'
        || c == '\u{1680}' || ('\u{2000}' <= c && c <= '\u{200a}') || c == '\u{2028}'
        || c == '\u{2029}' || c == '\u{202f}' || c == '\u{205f}' || c == '\u{3000}'
}

/// Whether `c` is whitespace, as `char::is_whitespace` decides.
pub fn is_whitespace(c: char) -> (r: bool)
    ensures
        r == is_ws(c),
{
    ('\u{9}' <= c && c <= '\u{d}') || c == ' ' || c == '\u{85}' || c == '\u{a0}'
        || c == '\u{1680}' || ('\u{2000}' <= c && c <= '\u{200a}') || c == '\u{2028}'
        || c == '\u{2029}' || c == '\u{202f}' || c == '\u{205f}' || c == '\u{3000}'
}

/// Length of the longest prefix of `s` whose characters are all whitespace
/// (`ws`) or all non-whitespace (`!ws`).
pub open spec fn run(s: Seq<char>, ws: bool) -> nat
    decreases s.len(),
{
    if s.len() == 0 {
        0
    } else if is_ws(s[0]) == ws {
        1 + run(s.drop_first(), ws)
    } else {
        0
    }
}

/// Length of the longest such suffix.
pub open spec fn back_run(s: Seq<char>, ws: bool) -> nat
    decreases s.len(),
{
    if s.len() == 0 {
        0
    } else if is_ws(s.last()) == ws {
        1 + back_run(s.drop_last(), ws)
    } else {
        0
    }
}

/// The leading whitespace of a line.
pub open spec fn indent(s: Seq<char>) -> Seq<char> {
    s.take(run(s, true) as int)
}

pub open spec fn trim_start(s: Seq<char>) -> Seq<char> {
    s.skip(run(s, true) as int)
}

/// `s` without leading and trailing whitespace.
pub open spec fn trim(s: Seq<char>) -> Seq<char> {
    let t = trim_start(s);
    t.take(t.len() - back_run(t, true))
}

pub open spec fn starts_with(s: Seq<char>, p: Seq<char>) -> bool {
    p.len() <= s.len() && s.take(p.len() as int) == p
}

/// The second whitespace-separated word of `s`, if it has two.
pub open spec fn second_word(s: Seq<char>) -> Option<Seq<char>> {
    let a = s.skip(run(s, true) as int);
    let b = a.skip(run(a, false) as int);
    let c = b.skip(run(b, true) as int);
    if c.len() == 0 {
        None
    } else {
        Some(c.take(run(c, false) as int))
    }
}

pub open spec fn unknown_name() -> Seq<char> {
    seq!['u', 'n', 'k', 'n', 'o', 'w', 'n']
}

/// The name declared by a `world <name> {` line: its second word, or
/// `unknown` where it has none.
pub open spec fn world_name(line: Seq<char>) -> Seq<char> {
    match second_word(line) {
        Some(w) => w,
        None => unknown_name(),
    }
}

/// Index of the first `c` in `s` at or after `i`.
pub open spec fn find_char(s: Seq<char>, c: char, i: int) -> Option<int>
    decreases s.len() - i,
{
    if i < 0 || i >= s.len() {
        None
    } else if s[i] == c {
        Some(i)
    } else {
        find_char(s, c, i + 1)
    }
}

/// The name declared by an `export <name>: ...` or `import <name>: ...` line:
/// the second word before its first colon.
pub open spec fn function_name(line: Seq<char>) -> Option<Seq<char>> {
    match find_char(line, ':', 0) {
        Some(k) => second_word(line.take(k)),
        None => None,
    }
}

/// The pieces of `s` between newline characters, the last one included
/// even where it is empty.
pub open spec fn pieces(s: Seq<char>) -> Seq<Seq<char>>
    decreases s.len(),
{
    if s.len() == 0 {
        seq![Seq::<char>::empty()]
    } else {
        let p = pieces(s.drop_last());
        if s.last() == '\n' {
            p.push(Seq::<char>::empty())
        } else {
            p.update(p.len() - 1, p.last().push(s.last()))
        }
    }
}

pub open spec fn strip_cr(l: Seq<char>) -> Seq<char> {
    if l.len() > 0 && l.last() == '\r' {
        l.drop_last()
    } else {
        l
    }
}

/// The lines of `s` as `str::lines` yields them: split at `\n` or `\r\n`,
/// terminators dropped, the final terminator optional.
pub open spec fn lines(s: Seq<char>) -> Seq<Seq<char>> {
    let p = pieces(s);
    let body = p.drop_last().map_values(|l: Seq<char>| strip_cr(l));
    if p.last().len() > 0 {
        body.push(p.last())
    } else {
        body
    }
}

pub open spec fn views(v: Seq<Vec<char>>) -> Seq<Seq<char>> {
    v.map_values(|x: Vec<char>| x@)
}

/// The run at the front of `s` is made of characters of its kind, and the
/// character after it, if any, is not.
pub proof fn lemma_run_exact_rev(s: Seq<char>, ws: bool)
    ensures
        run(s, ws) <= s.len(),
        forall|j: int| 0 <= j < run(s, ws) ==> is_ws(#[trigger] s[j]) == ws,
        run(s, ws) < s.len() ==> is_ws(s[run(s, ws) as int]) != ws,
    decreases s.len(),
{
    if s.len() > 0 && is_ws(s[0]) == ws {
        let t = s.drop_first();
        lemma_run_exact_rev(t, ws);
        assert forall|j: int| 0 <= j < run(s, ws) implies is_ws(#[trigger] s[j]) == ws by {
            if j > 0 {
                assert(s[j] == t[j - 1]);
            }
        }
        if run(s, ws) < s.len() {
            assert(s[run(s, ws) as int] == t[run(t, ws) as int]);
        }
    }
}

proof fn lemma_run_exact(s: Seq<char>, k: int, ws: bool)
    requires
        0 <= k <= s.len(),
        forall|j: int| 0 <= j < k ==> is_ws(#[trigger] s[j]) == ws,
        k < s.len() ==> is_ws(s[k]) != ws,
    ensures
        run(s, ws) == k,
    decreases k,
{
    if k > 0 {
        let t = s.drop_first();
        assert forall|j: int| 0 <= j < k - 1 implies is_ws(#[trigger] t[j]) == ws by {
            assert(t[j] == s[j + 1]);
        }
        if k - 1 < t.len() {
            assert(t[k - 1] == s[k]);
        }
        lemma_run_exact(t, k - 1, ws);
    }
}

proof fn lemma_back_run_exact(s: Seq<char>, k: int, ws: bool)
    requires
        0 <= k <= s.len(),
        forall|j: int| s.len() - k <= j < s.len() ==> is_ws(#[trigger] s[j]) == ws,
        k < s.len() ==> is_ws(s[s.len() - k - 1]) != ws,
    ensures
        back_run(s, ws) == k,
    decreases k,
{
    if k > 0 {
        let t = s.drop_last();
        assert forall|j: int| t.len() - (k - 1) <= j < t.len() implies is_ws(#[trigger] t[j])
            == ws by {
            assert(t[j] == s[j]);
        }
        if k - 1 < t.len() {
            assert(t[t.len() - (k - 1) - 1] == s[s.len() - k - 1]);
        }
        lemma_back_run_exact(t, k - 1, ws);
    }
}

pub proof fn lemma_pieces_nonempty(s: Seq<char>)
    ensures
        pieces(s).len() >= 1,
    decreases s.len(),
{
    if s.len() > 0 {
        lemma_pieces_nonempty(s.drop_last());
    }
}

/// End of the run of whitespace (or non-whitespace) characters that starts at `lo`.
pub(crate) fn skip_run(s: &Vec<char>, lo: usize, hi: usize, ws: bool) -> (r: usize)
    requires
        lo <= hi <= s.len(),
    ensures
        lo <= r <= hi,
        r == lo + run(s@.subrange(lo as int, hi as int), ws),
{
    let mut i: usize = lo;
    while i < hi && is_whitespace(s[i]) == ws
        invariant
            lo <= i <= hi <= s.len(),
            forall|j: int| lo <= j < i ==> is_ws(#[trigger] s@[j]) == ws,
        decreases hi - i,
    {
        i = i + 1;
    }
    proof {
        let t = s@.subrange(lo as int, hi as int);
        assert forall|j: int| 0 <= j < i - lo implies is_ws(#[trigger] t[j]) == ws by {
            assert(t[j] == s@[lo + j]);
        }
        if i < hi {
            assert(t[i - lo] == s@[i as int]);
        }
        lemma_run_exact(t, i - lo, ws);
    }
    i
}

/// Start of the run of whitespace characters that ends at `hi`.
fn back_skip_ws(s: &Vec<char>, lo: usize, hi: usize) -> (r: usize)
    requires
        lo <= hi <= s.len(),
    ensures
        lo <= r <= hi,
        r == hi - back_run(s@.subrange(lo as int, hi as int), true),
{
    let mut i: usize = hi;
    while i > lo && is_whitespace(s[i - 1])
        invariant
            lo <= i <= hi <= s.len(),
            forall|j: int| i <= j < hi ==> is_ws(#[trigger] s@[j]),
        decreases i - lo,
    {
        i = i - 1;
    }
    proof {
        let t = s@.subrange(lo as int, hi as int);
        let k = hi - i;
        assert forall|j: int| t.len() - k <= j < t.len() implies is_ws(#[trigger] t[j]) by {
            assert(t[j] == s@[lo + j]);
        }
        if k < t.len() {
            assert(t[t.len() - k - 1] == s@[i - 1]);
        }
        lemma_back_run_exact(t, k, true);
    }
    i
}

/// Bounds of the trimmed part of `s`.
pub(crate) fn trim_bounds(s: &Vec<char>) -> (r: (usize, usize))
    ensures
        r.0 <= r.1 <= s.len(),
        s@.subrange(r.0 as int, r.1 as int) == trim(s@),
        r.0 == run(s@, true),
{
    let a = skip_run(s, 0, s.len(), true);
    let b = back_skip_ws(s, a, s.len());
    proof {
        assert(s@.subrange(0, s.len() as int) =~= s@);
        assert(trim_start(s@) =~= s@.subrange(a as int, s.len() as int));
        assert(s@.subrange(a as int, b as int) =~= trim(s@));
    }
    (a, b)
}

/// Copy of `s[lo..hi]`.
pub fn copy_range(s: &Vec<char>, lo: usize, hi: usize) -> (r: Vec<char>)
    requires
        lo <= hi <= s.len(),
    ensures
        r@ == s@.subrange(lo as int, hi as int),
{
    let mut r: Vec<char> = Vec::new();
    let mut i: usize = lo;
    while i < hi
        invariant
            lo <= i <= hi <= s.len(),
            r@ == s@.subrange(lo as int, i as int),
        decreases hi - i,
    {
        r.push(s[i]);
        i = i + 1;
        proof {
            assert(r@ =~= s@.subrange(lo as int, i as int));
        }
    }
    r
}

/// Whether `s[lo..hi]` starts with `p`.
pub(crate) fn range_starts_with(s: &Vec<char>, lo: usize, hi: usize, p: &Vec<char>) -> (r: bool)
    requires
        lo <= hi <= s.len(),
    ensures
        r == starts_with(s@.subrange(lo as int, hi as int), p@),
{
    let ghost t = s@.subrange(lo as int, hi as int);
    if p.len() > hi - lo {
        return false;
    }
    let mut i: usize = 0;
    while i < p.len()
        invariant
            lo <= hi <= s.len(),
            p.len() <= hi - lo,
            t == s@.subrange(lo as int, hi as int),
            i <= p.len(),
            forall|j: int| 0 <= j < i ==> s@[lo + j] == p@[j],
        decreases p.len() - i,
    {
        if s[lo + i] != p[i] {
            proof {
                assert(t.take(p.len() as int)[i as int] != p@[i as int]);
            }
            return false;
        }
        i = i + 1;
    }
    proof {
        assert(t.take(p.len() as int) =~= p@);
    }
    true
}

/// Bounds of the second word of `s[lo..hi]`.
fn second_word_bounds(s: &Vec<char>, lo: usize, hi: usize) -> (r: Option<(usize, usize)>)
    requires
        lo <= hi <= s.len(),
    ensures
        match r {
            None => second_word(s@.subrange(lo as int, hi as int)) is None,
            Some((x, y)) => x <= y <= s.len() && second_word(s@.subrange(lo as int, hi as int))
                == Some(s@.subrange(x as int, y as int)),
        },
{
    let ghost t = s@.subrange(lo as int, hi as int);
    let a = skip_run(s, lo, hi, true);
    assert(t.skip(run(t, true) as int) =~= s@.subrange(a as int, hi as int));
    let b = skip_run(s, a, hi, false);
    let ghost ta = s@.subrange(a as int, hi as int);
    assert(ta.skip(run(ta, false) as int) =~= s@.subrange(b as int, hi as int));
    let c = skip_run(s, b, hi, true);
    let ghost tb = s@.subrange(b as int, hi as int);
    assert(tb.skip(run(tb, true) as int) =~= s@.subrange(c as int, hi as int));
    if c == hi {
        None
    } else {
        let d = skip_run(s, c, hi, false);
        let ghost tc = s@.subrange(c as int, hi as int);
        assert(tc.take(run(tc, false) as int) =~= s@.subrange(c as int, d as int));
        Some((c, d))
    }
}


fn strip_cr_vec(v: Vec<char>) -> (r: Vec<char>)
    ensures
        r@ == strip_cr(v@),
{
    let ghost orig = v@;
    let mut v = v;
    if v.len() > 0 && v[v.len() - 1] == '\r' {
        v.pop();
        assert(v@ =~= strip_cr(orig));
    }
    v
}

/// The lines of `s`, as `str::lines` splits them.
pub fn split_lines(s: &Vec<char>) -> (r: Vec<Vec<char>>)
    ensures
        views(r@) == lines(s@),
{
    let mut out: Vec<Vec<char>> = Vec::new();
    let mut cur: Vec<char> = Vec::new();
    let mut i: usize = 0;
    proof {
        assert(s@.take(0) =~= Seq::<char>::empty());
    }
    while i < s.len()
        invariant
            i <= s.len(),
            pieces(s@.take(i as int)).len() >= 1,
            out@.len() == pieces(s@.take(i as int)).len() - 1,
            forall|k: int|
                0 <= k < out@.len() ==> (#[trigger] out@[k])@ == strip_cr(
                    pieces(s@.take(i as int))[k],
                ),
            cur@ == pieces(s@.take(i as int)).last(),
        decreases s.len() - i,
    {
        let ghost before = s@.take(i as int);
        let c = s[i];
        proof {
            assert(s@.take(i + 1).drop_last() =~= before);
            assert(s@.take(i + 1).last() == c);
        }
        if c == '\n' {
            let done = strip_cr_vec(cur);
            out.push(done);
            cur = Vec::new();
        } else {
            cur.push(c);
        }
        i = i + 1;
        proof {
            lemma_pieces_nonempty(s@.take(i as int));
        }
    }
    proof {
        assert(s@.take(s.len() as int) =~= s@);
    }
    let ghost p = pieces(s@);
    let ghost body = views(out@);
    assert(body =~= p.drop_last().map_values(|l: Seq<char>| strip_cr(l)));
    if cur.len() > 0 {
        out.push(cur);
        assert(views(out@) =~= body.push(p.last()));
    }
    out
}

/// Appends `s` to `out`.
pub fn append(out: &mut Vec<char>, s: &Vec<char>)
    ensures
        final(out)@ == old(out)@ + s@,
{
    let mut i: usize = 0;
    while i < s.len()
        invariant
            i <= s@.len(),
            out@ == old(out)@ + s@.take(i as int),
        decreases s@.len() - i,
    {
        out.push(s[i]);
        i = i + 1;
        assert(out@ =~= old(out)@ + s@.take(i as int));
    }
    assert(s@.take(s@.len() as int) =~= s@);
}

/// Appends the characters of `s` to `out`.
pub fn push_str(out: &mut Vec<char>, s: &str)
    ensures
        final(out)@ == old(out)@ + s@,
{
    let v = chars_of(s);
    append(out, &v);
}

/// The characters of `s`, in order.
pub fn chars_of(s: &str) -> (r: Vec<char>)
    ensures
        r@ == s@,
{
    let mut it = s.chars();
    let mut r: Vec<char> = Vec::new();
    proof {
        axiom_spec_iter(s);
        assert(r@ + IteratorSpec::remaining(&it) =~= s@);
    }
    loop
        invariant
            r@ + IteratorSpec::remaining(&it) == s@,
            IteratorSpec::decrease(&it) is Some,
        ensures
            r@ == s@,
        decreases IteratorSpec::decrease(&it)->0,
    {
        let ghost prev = it;
        match it.next() {
            Some(c) => {
                proof {
                    next_postcondition(&prev, &it, Some(c));
                    assert(IteratorSpec::remaining(&prev).len() > 0);
                }
                r.push(c);
                proof {
                    assert(r@ + IteratorSpec::remaining(&it) =~= s@);
                }
            },
            None => {
                proof {
                    next_postcondition(&prev, &it, None);
                    assert(r@ =~= s@);
                }
                break;
            },
        }
    }
    r
}

/// Relies on `String: FromIterator<char>`: the characters in order.
#[verifier::external_body]
pub fn string_of(v: &Vec<char>) -> (r: String)
    ensures
        r@ == v@,
{
    v.iter().collect()
}

fn unknown() -> (r: Vec<char>)
    ensures
        r@ == unknown_name(),
{
    let r = vec!['u', 'n', 'k', 'n', 'o', 'w', 'n'];
    assert(r@ =~= unknown_name());
    r
}

/// The name declared by a `world <name> {` line (`unknown` where there is none).
pub fn extract_world_name(line: &str) -> (r: String)
    ensures
        r@ == world_name(line@),
{
    let s = chars_of(line);
    let r = world_name_of(&s, 0, s.len());
    proof {
        assert(s@.subrange(0, s.len() as int) =~= s@);
    }
    string_of(&r)
}

pub(crate) fn world_name_of(s: &Vec<char>, lo: usize, hi: usize) -> (r: Vec<char>)
    requires
        lo <= hi <= s.len(),
    ensures
        r@ == world_name(s@.subrange(lo as int, hi as int)),
{
    match second_word_bounds(s, lo, hi) {
        Some((x, y)) => copy_range(s, x, y),
        None => unknown(),
    }
}

/// The name declared by an `export <name>: ...` or `import <name>: ...` line.
pub fn extract_function_name(line: &str) -> (r: Option<String>)
    ensures
        match r {
            Some(n) => function_name(line@) == Some(n@),
            None => function_name(line@) is None,
        },
{
    let s = chars_of(line);
    proof {
        assert(s@.subrange(0, s.len() as int) =~= s@);
    }
    match function_name_of(&s, 0, s.len()) {
        Some(v) => Some(string_of(&v)),
        None => None,
    }
}

pub(crate) fn function_name_of(s: &Vec<char>, lo: usize, hi: usize) -> (r: Option<Vec<char>>)
    requires
        lo <= hi <= s.len(),
    ensures
        match r {
            Some(n) => function_name(s@.subrange(lo as int, hi as int)) == Some(n@),
            None => function_name(s@.subrange(lo as int, hi as int)) is None,
        },
{
    let ghost t = s@.subrange(lo as int, hi as int);
    let mut i: usize = lo;
    while i < hi && s[i] != ':'
        invariant
            lo <= i <= hi <= s.len(),
            t == s@.subrange(lo as int, hi as int),
            find_char(t, ':', 0) == find_char(t, ':', i - lo),
        decreases hi - i,
    {
        assert(t[i - lo] == s@[i as int]);
        i = i + 1;
    }
    if i == hi {
        return None;
    }
    assert(t[i - lo] == s@[i as int]);
    assert(t.take(i - lo) =~= s@.subrange(lo as int, i as int));
    match second_word_bounds(s, lo, i) {
        Some((x, y)) => Some(copy_range(s, x, y)),
        None => None,
    }
}

/// The leading whitespace of `line`.
pub fn get_indent(line: &str) -> (r: String)
    ensures
        r@ == indent(line@),
{
    let s = chars_of(line);
    let k = skip_run(&s, 0, s.len(), true);
    proof {
        assert(s@.subrange(0, s.len() as int) =~= s@);
    }
    let v = copy_range(&s, 0, k);
    string_of(&v)
}

} // verus!
