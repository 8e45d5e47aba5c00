//! The documentation tree and the rules that resolve a world or a function
//! declared in interface text to its documentation.

use vstd::prelude::*;

verus! {

/// Documentation of one function.
pub struct FuncDocs {
    pub name: String,
    pub docs: Option<String>,
}

/// Documentation of one world. `functions` is the older name of
/// `func_exports`, still read where `func_exports` is absent.
pub struct WorldDocs {
    pub name: String,
    pub docs: Option<String>,
    pub func_exports: Option<Vec<FuncDocs>>,
    pub functions: Option<Vec<FuncDocs>>,
    pub func_imports: Option<Vec<FuncDocs>>,
}

/// All the documentation of a package, world by world.
pub struct DocTree {
    /// Whether the documentation held a table of worlds at all.
    pub has_worlds: bool,
    pub worlds: Vec<WorldDocs>,
}

pub open spec fn opt_view(o: Option<String>) -> Option<Seq<char>> {
    match o {
        Some(s) => Some(s@),
        None => None,
    }
}

/// Index of the first world at or after `i` named `name`.
pub open spec fn find_world(ws: Seq<WorldDocs>, name: Seq<char>, i: int) -> Option<int>
    decreases ws.len() - i,
{
    if i < 0 || i >= ws.len() {
        None
    } else if ws[i].name@ == name {
        Some(i)
    } else {
        find_world(ws, name, i + 1)
    }
}

/// Index of the first function at or after `i` named `name`.
pub open spec fn find_func(fs: Seq<FuncDocs>, name: Seq<char>, i: int) -> Option<int>
    decreases fs.len() - i,
{
    if i < 0 || i >= fs.len() {
        None
    } else if fs[i].name@ == name {
        Some(i)
    } else {
        find_func(fs, name, i + 1)
    }
}

/// The world that a declared name stands for: the one of that name, else
/// the only world of the tree where it has exactly one.
pub open spec fn resolve_world(t: DocTree, name: Seq<char>) -> Option<int> {
    match find_world(t.worlds@, name, 0) {
        Some(i) => Some(i),
        None => if t.worlds@.len() == 1 {
            Some(0)
        } else {
            None
        },
    }
}

pub open spec fn world_docs(t: DocTree, name: Seq<char>) -> Option<Seq<char>> {
    match resolve_world(t, name) {
        Some(i) => opt_view(t.worlds@[i].docs),
        None => None,
    }
}

/// The function table that lookups read: `func_exports`, else `functions`.
pub open spec fn func_table(w: WorldDocs) -> Option<Seq<FuncDocs>> {
    match w.func_exports {
        Some(fs) => Some(fs@),
        None => match w.functions {
            Some(fs) => Some(fs@),
            None => None,
        },
    }
}

pub open spec fn func_docs_in(w: WorldDocs, name: Seq<char>) -> Option<Seq<char>> {
    match func_table(w) {
        Some(fs) => match find_func(fs, name, 0) {
            Some(k) => opt_view(fs[k].docs),
            None => None,
        },
        None => None,
    }
}

pub open spec fn func_docs(t: DocTree, world: Seq<char>, name: Seq<char>) -> Option<Seq<char>> {
    match resolve_world(t, world) {
        Some(i) => func_docs_in(t.worlds@[i], name),
        None => None,
    }
}

/// A tree with exactly one world resolves every declared world name to it,
/// for world documentation and for function documentation alike.
pub proof fn lemma_single_world_fallback(t: DocTree, world: Seq<char>, func: Seq<char>)
    requires
        t.worlds@.len() == 1,
    ensures
        world_docs(t, world) == opt_view(t.worlds@[0].docs),
        func_docs(t, world, func) == func_docs_in(t.worlds@[0], func),
{
    lemma_find_world_in(t.worlds@, world, 0);
}

proof fn lemma_find_world_in(ws: Seq<WorldDocs>, name: Seq<char>, i: int)
    ensures
        find_world(ws, name, i) matches Some(k) ==> 0 <= k < ws.len(),
    decreases ws.len() - i,
{
    if 0 <= i < ws.len() {
        lemma_find_world_in(ws, name, i + 1);
    }
}

/// A name that no world of the list has is found nowhere in it.
pub proof fn lemma_find_world_absent(ws: Seq<WorldDocs>, name: Seq<char>, i: int)
    requires
        forall|k: int| 0 <= k < ws.len() ==> (#[trigger] ws[k]).name@ != name,
    ensures
        find_world(ws, name, i) is None,
    decreases ws.len() - i,
{
    if 0 <= i < ws.len() {
        lemma_find_world_absent(ws, name, i + 1);
    }
}

/// A world that lists its functions under `functions` documents them as
/// one that lists the same functions under `func_exports`.
pub proof fn lemma_functions_alias(legacy: WorldDocs, current: WorldDocs, func: Seq<char>)
    requires
        legacy.func_exports is None,
        legacy.functions matches Some(fs) && current.func_exports matches Some(gs) && fs@ == gs@,
    ensures
        func_docs_in(legacy, func) == func_docs_in(current, func),
{
}

/// A copy of an optional documentation string.
fn copy_docs(o: &Option<String>) -> (r: Option<String>)
    ensures
        opt_view(r) == opt_view(*o),
{
    match o {
        Some(s) => Some(s.clone()),
        None => None,
    }
}

fn resolve_world_index(docs: &DocTree, world_name: &String) -> (r: Option<usize>)
    ensures
        match r {
            Some(i) => resolve_world(*docs, world_name@) == Some(i as int) && i < docs.worlds@.len(),
            None => resolve_world(*docs, world_name@) is None,
        },
{
    let mut i: usize = 0;
    while i < docs.worlds.len()
        invariant
            i <= docs.worlds@.len(),
            find_world(docs.worlds@, world_name@, 0) == find_world(
                docs.worlds@,
                world_name@,
                i as int,
            ),
        decreases docs.worlds@.len() - i,
    {
        if docs.worlds[i].name == *world_name {
            return Some(i);
        }
        i = i + 1;
    }
    if docs.worlds.len() == 1 {
        Some(0)
    } else {
        None
    }
}

/// Documentation of the world that `world_name` resolves to.
pub fn get_world_docs(docs: &DocTree, world_name: &str) -> (r: Option<String>)
    ensures
        opt_view(r) == world_docs(*docs, world_name@),
{
    let name = world_name.to_owned();
    match resolve_world_index(docs, &name) {
        Some(i) => copy_docs(&docs.worlds[i].docs),
        None => None,
    }
}

/// Documentation of function `func_name` in world `world`, read from
/// `func_exports`, or from `functions` where `func_exports` is absent.
pub fn get_function_docs_from_world(world: &WorldDocs, func_name: &str) -> (r: Option<String>)
    ensures
        opt_view(r) == func_docs_in(*world, func_name@),
{
    let name = func_name.to_owned();
    let table = match &world.func_exports {
        Some(fs) => fs,
        None => match &world.functions {
            Some(fs) => fs,
            None => {
                return None;
            },
        },
    };
    assert(func_table(*world) == Some(table@));
    let mut k: usize = 0;
    while k < table.len()
        invariant
            k <= table@.len(),
            name@ == func_name@,
            func_table(*world) == Some(table@),
            find_func(table@, name@, 0) == find_func(table@, name@, k as int),
        decreases table@.len() - k,
    {
        if table[k].name == name {
            assert(find_func(table@, name@, k as int) == Some(k as int));
            let r = copy_docs(&table[k].docs);
            return r;
        }
        k = k + 1;
    }
    None
}

/// Documentation of function `func_name` in the world that `world_name`
/// resolves to.
pub fn get_function_docs(docs: &DocTree, world_name: &str, func_name: &str) -> (r: Option<String>)
    ensures
        opt_view(r) == func_docs(*docs, world_name@, func_name@),
{
    let name = world_name.to_owned();
    match resolve_world_index(docs, &name) {
        Some(i) => get_function_docs_from_world(&docs.worlds[i], func_name),
        None => None,
    }
}

} // verus!
