use wit_docs::inject::inject_docs_into_wit;
use wit_docs::tree::{DocTree, FuncDocs, WorldDocs};

fn func(name: &str, docs: Option<&str>) -> FuncDocs {
    FuncDocs { name: name.to_string(), docs: docs.map(|d| d.to_string()) }
}

fn world(name: &str, docs: Option<&str>, exports: Vec<FuncDocs>) -> WorldDocs {
    WorldDocs {
        name: name.to_string(),
        docs: docs.map(|d| d.to_string()),
        func_exports: Some(exports),
        functions: None,
        func_imports: None,
    }
}

#[test]
fn end_to_end_annotation() {
    let tree = DocTree {
        has_worlds: true,
        worlds: vec![world("app", Some("Top level."), vec![func("run", Some("Runs it."))])],
    };
    let out = inject_docs_into_wit("world app {\n  export run: func();\n}", &tree);
    assert_eq!(out, "/// Top level.\nworld app {\n  /// Runs it.\n  export run: func();\n}\n");
}

#[test]
fn single_world_fallback_uses_only_world() {
    let tree = DocTree { has_worlds: true, worlds: vec![world("w1", None, vec![func("foo", Some("Does foo."))])] };
    let out = inject_docs_into_wit("world other {\n  export foo: func();\n}", &tree);
    assert_eq!(out, "world other {\n  /// Does foo.\n  export foo: func();\n}\n");
}

#[test]
fn two_worlds_without_match_insert_nothing() {
    let tree = DocTree {
        has_worlds: true,
        worlds: vec![
            world("a", Some("A docs."), vec![func("foo", Some("Foo."))]),
            world("b", Some("B docs."), vec![func("foo", Some("Foo."))]),
        ],
    };
    let text = "package x:y;\n\nworld other {\n  export foo: func();\n  import bar: func();\n}\n";
    assert_eq!(inject_docs_into_wit(text, &tree), text);
}

#[test]
fn exact_world_match_wins_over_others() {
    let tree = DocTree {
        has_worlds: true,
        worlds: vec![
            world("a", Some("A docs."), vec![func("foo", Some("Foo in a."))]),
            world("b", Some("B docs."), vec![func("foo", Some("Foo in b."))]),
        ],
    };
    let out = inject_docs_into_wit("world b {\n    import foo: func();\n}", &tree);
    assert_eq!(out, "/// B docs.\nworld b {\n    /// Foo in b.\n    import foo: func();\n}\n");
}

#[test]
fn indentation_follows_declaration_line() {
    let tree = DocTree { has_worlds: true, worlds: vec![world("w", None, vec![func("f", Some("one\ntwo"))])] };
    let out = inject_docs_into_wit("world w {\n\t  export f: func();\n}", &tree);
    assert_eq!(out, "world w {\n\t  /// one\n\t  /// two\n\t  export f: func();\n}\n");
}

#[test]
fn functions_alias_resolves_like_func_exports() {
    let legacy = DocTree {
        has_worlds: true,
        worlds: vec![WorldDocs {
            name: "w".to_string(),
            docs: None,
            func_exports: None,
            functions: Some(vec![func("f", Some("Eff."))]),
            func_imports: None,
        }],
    };
    let current = DocTree { has_worlds: true, worlds: vec![world("w", None, vec![func("f", Some("Eff."))])] };
    let text = "world w {\n  export f: func();\n}\n";
    assert_eq!(inject_docs_into_wit(text, &legacy), inject_docs_into_wit(text, &current));
    assert_eq!(inject_docs_into_wit(text, &legacy), "world w {\n  /// Eff.\n  export f: func();\n}\n");
}

#[test]
fn func_exports_shadows_functions() {
    let tree = DocTree {
        has_worlds: true,
        worlds: vec![WorldDocs {
            name: "w".to_string(),
            docs: None,
            func_exports: Some(vec![]),
            functions: Some(vec![func("f", Some("Eff."))]),
            func_imports: None,
        }],
    };
    let text = "world w {\n  export f: func();\n}\n";
    assert_eq!(inject_docs_into_wit(text, &tree), text);
}

#[test]
fn lines_outside_worlds_are_copied() {
    let tree = DocTree { has_worlds: true, worlds: vec![world("w", Some("W."), vec![func("f", Some("F."))])] };
    let out = inject_docs_into_wit("export f: func();\ninterface i {\n}\r\n", &tree);
    assert_eq!(out, "export f: func();\ninterface i {\n}\n");
}

#[test]
fn world_body_ends_at_closing_brace() {
    let tree = DocTree { has_worlds: true, worlds: vec![world("w", None, vec![func("f", Some("F."))])] };
    let out = inject_docs_into_wit("world w {\n}\nexport f: func();\n", &tree);
    assert_eq!(out, "world w {\n}\nexport f: func();\n");
}

#[test]
fn missing_docs_insert_nothing() {
    let tree = DocTree { has_worlds: true, worlds: vec![world("w", None, vec![func("f", None)])] };
    let text = "world w {\n  export f: func();\n  export g: func();\n  export h;\n}\n";
    assert_eq!(inject_docs_into_wit(text, &tree), text);
}

#[test]
fn empty_tree_and_empty_text() {
    let tree = DocTree { has_worlds: true, worlds: vec![] };
    assert_eq!(inject_docs_into_wit("", &tree), "");
    assert_eq!(inject_docs_into_wit("world w {\n}", &tree), "world w {\n}\n");
}
