//! Weaving documentation into the textual rendering of an interface: a
//! line scanner with two states, outside any world and inside a world body.

use vstd::prelude::*;
use crate::text::{
    is_ws, lemma_run_exact_rev,
    append, chars_of, copy_range, function_name, function_name_of, indent, lines, range_starts_with,
    split_lines, starts_with, string_of, trim, trim_bounds, views, world_name, world_name_of,
};
use crate::tree::{lemma_find_world_absent, resolve_world, func_docs, get_function_docs, get_world_docs, opt_view, world_docs, DocTree};

verus! {

pub open spec fn kw_world() -> Seq<char> {
    seq!['w', 'o', 'r', 'l', 'd', ' ']
}

pub open spec fn kw_export() -> Seq<char> {
    seq!['e', 'x', 'p', 'o', 'r', 't', ' ']
}

pub open spec fn kw_import() -> Seq<char> {
    seq!['i', 'm', 'p', 'o', 'r', 't', ' ']
}

pub open spec fn doc_marker() -> Seq<char> {
    seq!['/', '/', '/', ' ']
}

pub open spec fn newline() -> Seq<char> {
    seq!['\n']
}

pub open spec fn close_brace() -> Seq<char> {
    seq!['}']
}

/// One comment line `prefix/// l` for each line `l` of `ls`.
pub open spec fn comments(prefix: Seq<char>, ls: Seq<Seq<char>>) -> Seq<char>
    decreases ls.len(),
{
    if ls.len() == 0 {
        Seq::empty()
    } else {
        comments(prefix, ls.drop_last()) + prefix + doc_marker() + ls.last() + newline()
    }
}

/// The comment block for optional documentation.
pub open spec fn doc_block(prefix: Seq<char>, d: Option<Seq<char>>) -> Seq<char> {
    match d {
        Some(x) => comments(prefix, lines(x)),
        None => Seq::empty(),
    }
}

/// What one line of the rendering produces, and the state after it: `None`
/// outside any world, `Some(name)` inside the body of world `name`.
pub open spec fn step(t: DocTree, st: Option<Seq<char>>, line: Seq<char>) -> (Seq<char>, Option<Seq<char>>) {
    let tr = trim(line);
    match st {
        None => if starts_with(tr, kw_world()) {
            let n = world_name(tr);
            (doc_block(Seq::empty(), world_docs(t, n)) + line + newline(), Some(n))
        } else {
            (line + newline(), None)
        },
        Some(n) => {
            let d = if starts_with(tr, kw_export()) || starts_with(tr, kw_import()) {
                match function_name(tr) {
                    Some(f) => doc_block(indent(line), func_docs(t, n, f)),
                    None => Seq::empty(),
                }
            } else {
                Seq::empty()
            };
            (d + line + newline(), if tr == close_brace() { None } else { Some(n) })
        },
    }
}

/// The scanner run over a sequence of lines from the outer state.
pub open spec fn scan(t: DocTree, ls: Seq<Seq<char>>) -> (Seq<char>, Option<Seq<char>>)
    decreases ls.len(),
{
    if ls.len() == 0 {
        (Seq::empty(), None)
    } else {
        let prev = scan(t, ls.drop_last());
        let next = step(t, prev.1, ls.last());
        (prev.0 + next.0, next.1)
    }
}

/// The annotated rendering of `text`.
pub open spec fn injected(t: DocTree, text: Seq<char>) -> Seq<char> {
    scan(t, lines(text)).0
}

/// The lines of `ls`, each followed by a newline.
pub open spec fn joined(ls: Seq<Seq<char>>) -> Seq<char>
    decreases ls.len(),
{
    if ls.len() == 0 {
        Seq::empty()
    } else {
        joined(ls.drop_last()) + ls.last() + newline()
    }
}

/// Where no world that the text declares is in the tree and the tree does not
/// have exactly one world, the text comes back unchanged, line by line.
pub proof fn lemma_no_matching_world(t: DocTree, text: Seq<char>)
    requires
        t.worlds@.len() != 1,
        forall|j: int, k: int|
            0 <= j < lines(text).len() && 0 <= k < t.worlds@.len() && starts_with(
                trim(#[trigger] lines(text)[j]),
                kw_world(),
            ) ==> world_name(trim(lines(text)[j])) != (#[trigger] t.worlds@[k]).name@,
    ensures
        injected(t, text) == joined(lines(text)),
{
    lemma_scan_unmatched(t, lines(text));
}

proof fn lemma_scan_unmatched(t: DocTree, ls: Seq<Seq<char>>)
    requires
        t.worlds@.len() != 1,
        forall|j: int, k: int|
            0 <= j < ls.len() && 0 <= k < t.worlds@.len() && starts_with(
                trim(#[trigger] ls[j]),
                kw_world(),
            ) ==> world_name(trim(ls[j])) != (#[trigger] t.worlds@[k]).name@,
    ensures
        scan(t, ls).0 == joined(ls),
        scan(t, ls).1 matches Some(n) ==> resolve_world(t, n) is None,
    decreases ls.len(),
{
    if ls.len() > 0 {
        let init = ls.drop_last();
        assert forall|j: int, k: int|
            0 <= j < init.len() && 0 <= k < t.worlds@.len() && starts_with(
                trim(#[trigger] init[j]),
                kw_world(),
            ) implies world_name(trim(init[j])) != (#[trigger] t.worlds@[k]).name@ by {
            assert(init[j] == ls[j]);
        }
        lemma_scan_unmatched(t, init);
        let l = ls.last();
        let n = world_name(trim(l));
        if starts_with(trim(l), kw_world()) {
            assert forall|k: int| 0 <= k < t.worlds@.len() implies (
            #[trigger] t.worlds@[k]).name@ != n by {
                assert(ls[ls.len() - 1] == l);
            }
            lemma_find_world_absent(t.worlds@, n, 0);
        }
        assert(doc_block(Seq::empty(), None) =~= Seq::<char>::empty());
        assert(Seq::<char>::empty() + l + newline() =~= l + newline());
        assert(joined(ls) =~= joined(init) + l + newline());
        assert(scan(t, ls).0 =~= joined(ls));
    }
}

/// Documentation of a function is indented exactly as its declaration line.
pub proof fn lemma_function_docs_indented(
    t: DocTree,
    world: Seq<char>,
    line: Seq<char>,
    func: Seq<char>,
    docs: Seq<char>,
)
    requires
        starts_with(trim(line), kw_export()) || starts_with(trim(line), kw_import()),
        function_name(trim(line)) == Some(func),
        func_docs(t, world, func) == Some(docs),
    ensures
        step(t, Some(world), line).0 == comments(indent(line), lines(docs)) + line + newline(),
        indent(line) == line.take(indent(line).len() as int),
        forall|j: int| 0 <= j < indent(line).len() ==> is_ws(#[trigger] line[j]),
        indent(line).len() < line.len() ==> !is_ws(line[indent(line).len() as int]),
{
    lemma_run_exact_rev(line, true);
}

/// What the scanner writes for the first lines is a prefix of what it
/// writes for them all.
pub proof fn lemma_scan_prefix(t: DocTree, ls: Seq<Seq<char>>, j: int)
    requires
        0 <= j <= ls.len(),
    ensures
        scan(t, ls.take(j)).0.is_prefix_of(scan(t, ls).0),
    decreases ls.len(),
{
    if j == ls.len() {
        assert(ls.take(j) =~= ls);
    } else {
        let init = ls.drop_last();
        assert(init.take(j) =~= ls.take(j));
        lemma_scan_prefix(t, init, j);
    }
}

/// Inside the body of world `world`, an `export` or `import` line whose
/// function has documentation `docs` is preceded in the output by one
/// comment line per line of `docs`, each indented exactly as that line.
pub proof fn lemma_docs_before_declaration(
    t: DocTree,
    text: Seq<char>,
    j: int,
    world: Seq<char>,
    func: Seq<char>,
    docs: Seq<char>,
)
    requires
        0 <= j < lines(text).len(),
        scan(t, lines(text).take(j)).1 == Some(world),
        starts_with(trim(lines(text)[j]), kw_export()) || starts_with(
            trim(lines(text)[j]),
            kw_import(),
        ),
        function_name(trim(lines(text)[j])) == Some(func),
        func_docs(t, world, func) == Some(docs),
    ensures
        (scan(t, lines(text).take(j)).0 + comments(indent(lines(text)[j]), lines(docs))
            + lines(text)[j] + newline()).is_prefix_of(injected(t, text)),
{
    let ls = lines(text);
    assert(ls.take(j + 1).drop_last() =~= ls.take(j));
    assert(ls.take(j + 1).last() == ls[j]);
    lemma_scan_prefix(t, ls, j + 1);
    let before = scan(t, ls.take(j)).0;
    assert(scan(t, ls.take(j + 1)).0 =~= before + comments(indent(ls[j]), lines(docs)) + ls[j]
        + newline());
}

fn literal(c: &[char]) -> (r: Vec<char>)
    ensures
        r@ == c@,
{
    let mut r: Vec<char> = Vec::new();
    let mut i: usize = 0;
    while i < c.len()
        invariant
            i <= c@.len(),
            r@ == c@.take(i as int),
        decreases c@.len() - i,
    {
        r.push(c[i]);
        i = i + 1;
        assert(r@ =~= c@.take(i as int));
    }
    assert(c@.take(c@.len() as int) =~= c@);
    r
}

/// Appends one comment line `prefix/// l` for each line `l` of `doc`.
fn push_comments(out: &mut Vec<char>, prefix: &Vec<char>, doc: &String)
    ensures
        final(out)@ == old(out)@ + comments(prefix@, lines(doc@)),
{
    let chars = chars_of(doc.as_str());
    let ls = split_lines(&chars);
    let marker = literal(&['/', '/', '/', ' ']);
    assert(marker@ =~= doc_marker());
    let ghost lv = views(ls@);
    let mut j: usize = 0;
    assert(lv.take(0) =~= Seq::<Seq<char>>::empty());
    while j < ls.len()
        invariant
            j <= ls@.len(),
            lv == views(ls@),
            lv == lines(doc@),
            marker@ == doc_marker(),
            out@ == old(out)@ + comments(prefix@, lv.take(j as int)),
        decreases ls@.len() - j,
    {
        assert(lv.take(j + 1).drop_last() =~= lv.take(j as int));
        assert(lv.take(j + 1).last() == ls@[j as int]@);
        append(out, prefix);
        append(out, &marker);
        append(out, &ls[j]);
        out.push('\n');
        j = j + 1;
        assert(out@ =~= old(out)@ + comments(prefix@, lv.take(j as int)));
    }
    assert(lv.take(ls@.len() as int) =~= lv);
}

/// Appends the comment block for optional documentation.
fn push_doc_block(out: &mut Vec<char>, prefix: &Vec<char>, d: &Option<String>)
    ensures
        final(out)@ == old(out)@ + doc_block(prefix@, opt_view(*d)),
{
    match d {
        Some(s) => push_comments(out, prefix, s),
        None => {
            assert(out@ =~= out@ + Seq::<char>::empty());
        },
    }
}

/// Inserts documentation comments before each world declaration and before
/// each function declared by an `export` or `import` line of a world body.
/// Every line of `wit_text` is kept as it is, and each ends in a newline.
pub fn inject_docs_into_wit(wit_text: &str, docs: &DocTree) -> (r: String)
    ensures
        r@ == injected(*docs, wit_text@),
{
    let text = chars_of(wit_text);
    let ls = split_lines(&text);
    let ghost lv = views(ls@);
    let kw_w = literal(&['w', 'o', 'r', 'l', 'd', ' ']);
    let kw_e = literal(&['e', 'x', 'p', 'o', 'r', 't', ' ']);
    let kw_i = literal(&['i', 'm', 'p', 'o', 'r', 't', ' ']);
    assert(kw_w@ =~= kw_world());
    assert(kw_e@ =~= kw_export());
    assert(kw_i@ =~= kw_import());
    let no_indent: Vec<char> = Vec::new();
    let mut out: Vec<char> = Vec::new();
    let mut world: Option<Vec<char>> = None;
    let mut i: usize = 0;
    assert(lv.take(0) =~= Seq::<Seq<char>>::empty());
    while i < ls.len()
        invariant
            i <= ls@.len(),
            lv == views(ls@),
            lv == lines(text@),
            text@ == wit_text@,
            kw_w@ == kw_world(),
            kw_e@ == kw_export(),
            kw_i@ == kw_import(),
            no_indent@ == Seq::<char>::empty(),
            out@ == scan(*docs, lv.take(i as int)).0,
            scan(*docs, lv.take(i as int)).1 == match world {
                Some(w) => Some(w@),
                None => None::<Seq<char>>,
            },
        decreases ls@.len() - i,
    {
        let line = &ls[i];
        let ghost l = line@;
        assert(lv.take(i + 1).drop_last() =~= lv.take(i as int));
        assert(lv.take(i + 1).last() == l);
        let (a, b) = trim_bounds(line);
        let ghost tr = trim(l);
        assert(line@.subrange(a as int, b as int) == tr);
        match world {
            None => {
                if range_starts_with(line, a, b, &kw_w) {
                    let name = world_name_of(line, a, b);
                    let d = get_world_docs(docs, string_of(&name).as_str());
                    push_doc_block(&mut out, &no_indent, &d);
                    world = Some(name);
                } else {
                    world = None;
                }
            },
            Some(name) => {
                if range_starts_with(line, a, b, &kw_e) || range_starts_with(line, a, b, &kw_i) {
                    match function_name_of(line, a, b) {
                        Some(f) => {
                            let d = get_function_docs(
                                docs,
                                string_of(&name).as_str(),
                                string_of(&f).as_str(),
                            );
                            let pad = copy_range(line, 0, a);
                            assert(pad@ =~= indent(l));
                            push_doc_block(&mut out, &pad, &d);
                        },
                        None => {},
                    }
                }
                if b - a == 1 && line[a] == '}' {
                    assert(tr =~= close_brace());
                    world = None;
                } else {
                    proof {
                        if tr == close_brace() {
                            assert(tr[0] == line@[a as int]);
                        }
                    }
                    world = Some(name);
                }
            },
        }
        append(&mut out, line);
        out.push('\n');
        i = i + 1;
        assert(out@ =~= scan(*docs, lv.take(i as int)).0);
    }
    assert(lv.take(ls@.len() as int) =~= lv);
    string_of(&out)
}

} // verus!
