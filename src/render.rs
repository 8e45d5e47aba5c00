//! Plain renderings of a documentation tree: a terminal listing and
//! Markdown. Each world gives its own documentation, then that of its
//! exported and its imported functions; either part can be left out.

use vstd::prelude::*;
use crate::text::{append, push_str};
use crate::tree::{DocTree, FuncDocs, WorldDocs};

verus! {

pub open spec fn nl() -> Seq<char> {
    seq!['\n']
}

/// The documentation, or `placeholder` where there is none.
pub open spec fn docs_or(d: Option<String>, placeholder: Seq<char>) -> Seq<char> {
    match d {
        Some(s) => s@,
        None => placeholder,
    }
}

pub open spec fn pretty_entry(f: FuncDocs) -> Seq<char> {
    "   🔧 "@ + f.name@ + ": "@ + docs_or(f.docs, "(no documentation)"@) + nl()
}

pub open spec fn pretty_entries(fs: Seq<FuncDocs>) -> Seq<char>
    decreases fs.len(),
{
    if fs.len() == 0 {
        Seq::empty()
    } else {
        pretty_entries(fs.drop_last()) + pretty_entry(fs.last())
    }
}

/// A function table under a title; nothing where it is absent or empty, and
/// no title where only functions are shown.
pub open spec fn pretty_funcs(title: Seq<char>, fs: Option<Vec<FuncDocs>>, functions_only: bool) -> Seq<char> {
    match fs {
        Some(v) => if v@.len() == 0 {
            Seq::empty()
        } else {
            (if functions_only {
                Seq::empty()
            } else {
                title + nl()
            }) + pretty_entries(v@) + nl()
        },
        None => Seq::empty(),
    }
}

pub open spec fn pretty_world(w: WorldDocs, functions_only: bool, worlds_only: bool) -> Seq<char> {
    (if functions_only {
        Seq::empty()
    } else {
        "🌍 World: "@ + w.name@ + nl() + "   📝 "@ + docs_or(w.docs, "(no documentation)"@) + nl()
            + nl()
    }) + (if worlds_only {
        Seq::empty()
    } else {
        pretty_funcs("📤 Exported Functions:"@, w.func_exports, functions_only) + pretty_funcs(
            "📥 Imported Functions:"@,
            w.func_imports,
            functions_only,
        )
    })
}

pub open spec fn pretty_worlds(ws: Seq<WorldDocs>, functions_only: bool, worlds_only: bool) -> Seq<char>
    decreases ws.len(),
{
    if ws.len() == 0 {
        Seq::empty()
    } else {
        pretty_worlds(ws.drop_last(), functions_only, worlds_only) + pretty_world(
            ws.last(),
            functions_only,
            worlds_only,
        )
    }
}

/// The line written in place of a listing where there is no table of worlds.
pub open spec fn no_worlds_line() -> Seq<char> {
    "No world documentation found\n"@
}

/// The terminal listing of a tree.
pub open spec fn pretty_tree(t: DocTree, functions_only: bool, worlds_only: bool) -> Seq<char> {
    if t.has_worlds {
        pretty_worlds(t.worlds@, functions_only, worlds_only)
    } else {
        no_worlds_line()
    }
}

/// The Markdown rendering of a tree.
pub open spec fn markdown_tree(t: DocTree, functions_only: bool, worlds_only: bool) -> Seq<char> {
    if t.has_worlds {
        markdown_worlds(t.worlds@, functions_only, worlds_only)
    } else {
        no_worlds_line()
    }
}

pub open spec fn markdown_entry(f: FuncDocs) -> Seq<char> {
    "### `"@ + f.name@ + "`"@ + nl() + docs_or(f.docs, "*(no documentation)*"@) + nl() + nl()
}

pub open spec fn markdown_entries(fs: Seq<FuncDocs>) -> Seq<char>
    decreases fs.len(),
{
    if fs.len() == 0 {
        Seq::empty()
    } else {
        markdown_entries(fs.drop_last()) + markdown_entry(fs.last())
    }
}

pub open spec fn markdown_funcs(title: Seq<char>, fs: Option<Vec<FuncDocs>>, functions_only: bool) -> Seq<char> {
    match fs {
        Some(v) => if v@.len() == 0 {
            Seq::empty()
        } else {
            (if functions_only {
                Seq::empty()
            } else {
                title + nl() + nl()
            }) + markdown_entries(v@)
        },
        None => Seq::empty(),
    }
}

pub open spec fn markdown_world(w: WorldDocs, functions_only: bool, worlds_only: bool) -> Seq<char> {
    (if functions_only {
        Seq::empty()
    } else {
        "# World: "@ + w.name@ + nl() + nl() + docs_or(w.docs, "*(no documentation)*"@) + nl()
            + nl()
    }) + (if worlds_only {
        Seq::empty()
    } else {
        markdown_funcs("## Exported Functions"@, w.func_exports, functions_only) + markdown_funcs(
            "## Imported Functions"@,
            w.func_imports,
            functions_only,
        )
    })
}

pub open spec fn markdown_worlds(ws: Seq<WorldDocs>, functions_only: bool, worlds_only: bool) -> Seq<char>
    decreases ws.len(),
{
    if ws.len() == 0 {
        Seq::empty()
    } else {
        markdown_worlds(ws.drop_last(), functions_only, worlds_only) + markdown_world(
            ws.last(),
            functions_only,
            worlds_only,
        )
    }
}

fn push_docs_or(out: &mut Vec<char>, d: &Option<String>, placeholder: &str)
    ensures
        final(out)@ == old(out)@ + docs_or(*d, placeholder@),
{
    match d {
        Some(s) => push_str(out, s.as_str()),
        None => push_str(out, placeholder),
    }
}

fn push_pretty_funcs(out: &mut Vec<char>, title: &str, fs: &Option<Vec<FuncDocs>>, functions_only: bool)
    ensures
        final(out)@ == old(out)@ + pretty_funcs(title@, *fs, functions_only),
{
    let v = match fs {
        Some(v) => v,
        None => {
            assert(out@ =~= out@ + Seq::<char>::empty());
            return;
        },
    };
    if v.len() == 0 {
        assert(out@ =~= out@ + Seq::<char>::empty());
        return;
    }
    let ghost start = out@;
    if !functions_only {
        push_str(out, title);
        out.push('\n');
    }
    let ghost head = out@;
    assert(head =~= start + (if functions_only {
        Seq::empty()
    } else {
        title@ + nl()
    }));
    let mut i: usize = 0;
    assert(v@.take(0) =~= Seq::<FuncDocs>::empty());
    while i < v.len()
        invariant
            i <= v@.len(),
            out@ == head + pretty_entries(v@.take(i as int)),
        decreases v@.len() - i,
    {
        let f = &v[i];
        push_str(out, "   🔧 ");
        append_name(out, &f.name);
        push_str(out, ": ");
        push_docs_or(out, &f.docs, "(no documentation)");
        out.push('\n');
        assert(v@.take(i + 1).drop_last() =~= v@.take(i as int));
        assert(v@.take(i + 1).last() == *f);
        i = i + 1;
        assert(out@ =~= head + pretty_entries(v@.take(i as int)));
    }
    assert(v@.take(v@.len() as int) =~= v@);
    out.push('\n');
    assert(out@ =~= start + pretty_funcs(title@, *fs, functions_only));
}

fn append_name(out: &mut Vec<char>, name: &String)
    ensures
        final(out)@ == old(out)@ + name@,
{
    push_str(out, name.as_str());
}

/// The terminal listing of `tree` (a single line where it has no table of
/// worlds): per world its name and documentation
/// (left out where `functions_only`), then its exported and imported
/// functions (left out where `worlds_only`).
pub fn render_pretty(tree: &DocTree, functions_only: bool, worlds_only: bool) -> (r: String)
    ensures
        r@ == pretty_tree(*tree, functions_only, worlds_only),
{
    let mut out: Vec<char> = Vec::new();
    if !tree.has_worlds {
        push_str(&mut out, "No world documentation found\n");
        return crate::text::string_of(&out);
    }
    let ws = &tree.worlds;
    let mut i: usize = 0;
    assert(ws@.take(0) =~= Seq::<WorldDocs>::empty());
    while i < ws.len()
        invariant
            i <= ws@.len(),
            out@ == pretty_worlds(ws@.take(i as int), functions_only, worlds_only),
        decreases ws@.len() - i,
    {
        let ghost before = out@;
        let w = &ws[i];
        if !functions_only {
            push_str(&mut out, "🌍 World: ");
            append_name(&mut out, &w.name);
            out.push('\n');
            push_str(&mut out, "   📝 ");
            push_docs_or(&mut out, &w.docs, "(no documentation)");
            out.push('\n');
            out.push('\n');
        }
        let ghost mid = out@;
        if !worlds_only {
            push_pretty_funcs(&mut out, "📤 Exported Functions:", &w.func_exports, functions_only);
            push_pretty_funcs(&mut out, "📥 Imported Functions:", &w.func_imports, functions_only);
        }
        assert(mid =~= before + (if functions_only {
            Seq::empty()
        } else {
            "🌍 World: "@ + w.name@ + nl() + "   📝 "@ + docs_or(w.docs, "(no documentation)"@)
                + nl() + nl()
        }));
        assert(out@ =~= before + pretty_world(*w, functions_only, worlds_only));
        assert(ws@.take(i + 1).drop_last() =~= ws@.take(i as int));
        assert(ws@.take(i + 1).last() == *w);
        i = i + 1;
    }
    assert(ws@.take(ws@.len() as int) =~= ws@);
    crate::text::string_of(&out)
}

fn push_markdown_funcs(out: &mut Vec<char>, title: &str, fs: &Option<Vec<FuncDocs>>, functions_only: bool)
    ensures
        final(out)@ == old(out)@ + markdown_funcs(title@, *fs, functions_only),
{
    let v = match fs {
        Some(v) => v,
        None => {
            assert(out@ =~= out@ + Seq::<char>::empty());
            return;
        },
    };
    if v.len() == 0 {
        assert(out@ =~= out@ + Seq::<char>::empty());
        return;
    }
    let ghost start = out@;
    if !functions_only {
        push_str(out, title);
        out.push('\n');
        out.push('\n');
    }
    let ghost head = out@;
    assert(head =~= start + (if functions_only {
        Seq::empty()
    } else {
        title@ + nl() + nl()
    }));
    let mut i: usize = 0;
    assert(v@.take(0) =~= Seq::<FuncDocs>::empty());
    while i < v.len()
        invariant
            i <= v@.len(),
            out@ == head + markdown_entries(v@.take(i as int)),
        decreases v@.len() - i,
    {
        let f = &v[i];
        push_str(out, "### `");
        append_name(out, &f.name);
        push_str(out, "`");
        out.push('\n');
        push_docs_or(out, &f.docs, "*(no documentation)*");
        out.push('\n');
        out.push('\n');
        assert(v@.take(i + 1).drop_last() =~= v@.take(i as int));
        assert(v@.take(i + 1).last() == *f);
        i = i + 1;
        assert(out@ =~= head + markdown_entries(v@.take(i as int)));
    }
    assert(v@.take(v@.len() as int) =~= v@);
    assert(out@ =~= start + markdown_funcs(title@, *fs, functions_only));
}

/// The Markdown rendering of `tree` (a single line where it has no table of
/// worlds): per world a heading and its
/// documentation (left out where `functions_only`), then its exported and
/// imported functions (left out where `worlds_only`).
pub fn render_markdown(tree: &DocTree, functions_only: bool, worlds_only: bool) -> (r: String)
    ensures
        r@ == markdown_tree(*tree, functions_only, worlds_only),
{
    let mut out: Vec<char> = Vec::new();
    if !tree.has_worlds {
        push_str(&mut out, "No world documentation found\n");
        return crate::text::string_of(&out);
    }
    let ws = &tree.worlds;
    let mut i: usize = 0;
    assert(ws@.take(0) =~= Seq::<WorldDocs>::empty());
    while i < ws.len()
        invariant
            i <= ws@.len(),
            out@ == markdown_worlds(ws@.take(i as int), functions_only, worlds_only),
        decreases ws@.len() - i,
    {
        let ghost before = out@;
        let w = &ws[i];
        if !functions_only {
            push_str(&mut out, "# World: ");
            append_name(&mut out, &w.name);
            out.push('\n');
            out.push('\n');
            push_docs_or(&mut out, &w.docs, "*(no documentation)*");
            out.push('\n');
            out.push('\n');
        }
        let ghost mid = out@;
        if !worlds_only {
            push_markdown_funcs(&mut out, "## Exported Functions", &w.func_exports, functions_only);
            push_markdown_funcs(&mut out, "## Imported Functions", &w.func_imports, functions_only);
        }
        assert(mid =~= before + (if functions_only {
            Seq::empty()
        } else {
            "# World: "@ + w.name@ + nl() + nl() + docs_or(w.docs, "*(no documentation)*"@) + nl()
                + nl()
        }));
        assert(out@ =~= before + markdown_world(*w, functions_only, worlds_only));
        assert(ws@.take(i + 1).drop_last() =~= ws@.take(i as int));
        assert(ws@.take(i + 1).last() == *w);
        i = i + 1;
    }
    assert(ws@.take(ws@.len() as int) =~= ws@);
    crate::text::string_of(&out)
}

} // verus!
