use wit_docs::text::{chars_of, extract_function_name, extract_world_name, get_indent, split_lines};
use wit_docs::tree::{get_function_docs, get_world_docs, DocTree, FuncDocs, WorldDocs};

#[test]
fn world_name_is_second_word() {
    assert_eq!(extract_world_name("world app {"), "app");
    assert_eq!(extract_world_name("  world\tdemo  {  "), "demo");
    assert_eq!(extract_world_name("world"), "unknown");
    assert_eq!(extract_world_name(""), "unknown");
}

#[test]
fn function_name_before_colon() {
    assert_eq!(extract_function_name("export run: func();"), Some("run".to_string()));
    assert_eq!(extract_function_name("import  get-x : func() -> u32;"), Some("get-x".to_string()));
    assert_eq!(extract_function_name("export run;"), None);
    assert_eq!(extract_function_name("export: func();"), None);
    assert_eq!(extract_function_name("export a b: func();"), Some("a".to_string()));
}

#[test]
fn indent_is_leading_whitespace() {
    assert_eq!(get_indent("    export f: func();"), "    ");
    assert_eq!(get_indent("\t export"), "\t ");
    assert_eq!(get_indent("x  "), "");
    assert_eq!(get_indent("   "), "   ");
}

#[test]
fn lines_split_like_std() {
    for s in ["", "a", "a\n", "a\nb", "a\r\nb\r\n", "\n\n", "a\r", "x\ny\n\nz"] {
        let got: Vec<String> = split_lines(&chars_of(s)).iter().map(|l| l.iter().collect()).collect();
        let want: Vec<String> = s.lines().map(|l| l.to_string()).collect();
        assert_eq!(got, want, "{:?}", s);
    }
}

fn tree() -> DocTree {
    DocTree {
        has_worlds: true,
        worlds: vec![
            WorldDocs {
                name: "a".to_string(),
                docs: Some("A.".to_string()),
                func_exports: Some(vec![FuncDocs { name: "f".to_string(), docs: Some("F.".to_string()) }]),
                functions: None,
                func_imports: None,
            },
            WorldDocs {
                name: "b".to_string(),
                docs: None,
                func_exports: None,
                functions: Some(vec![FuncDocs { name: "g".to_string(), docs: Some("G.".to_string()) }]),
                func_imports: None,
            },
        ],
    }
}

#[test]
fn lookups_by_exact_name() {
    let t = tree();
    assert_eq!(get_world_docs(&t, "a"), Some("A.".to_string()));
    assert_eq!(get_world_docs(&t, "b"), None);
    assert_eq!(get_world_docs(&t, "c"), None);
    assert_eq!(get_function_docs(&t, "a", "f"), Some("F.".to_string()));
    assert_eq!(get_function_docs(&t, "b", "g"), Some("G.".to_string()));
    assert_eq!(get_function_docs(&t, "c", "f"), None);
    assert_eq!(get_function_docs(&t, "a", "g"), None);
}

#[test]
fn lookup_falls_back_to_single_world() {
    let mut t = tree();
    t.worlds.truncate(1);
    assert_eq!(get_world_docs(&t, "zzz"), Some("A.".to_string()));
    assert_eq!(get_function_docs(&t, "zzz", "f"), Some("F.".to_string()));
}
