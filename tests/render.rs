use wit_docs::render::{render_markdown, render_pretty};
use wit_docs::tree::{DocTree, FuncDocs, WorldDocs};

fn sample() -> DocTree {
    DocTree {
        has_worlds: true,
        worlds: vec![WorldDocs {
            name: "app".to_string(),
            docs: Some("Top level.".to_string()),
            func_exports: Some(vec![
                FuncDocs { name: "run".to_string(), docs: Some("Runs it.".to_string()) },
                FuncDocs { name: "stop".to_string(), docs: None },
            ]),
            functions: None,
            func_imports: Some(vec![]),
        }],
    }
}

#[test]
fn pretty_listing() {
    let want = "🌍 World: app\n   📝 Top level.\n\n📤 Exported Functions:\n   🔧 run: Runs it.\n   🔧 stop: (no documentation)\n\n";
    assert_eq!(render_pretty(&sample(), false, false), want);
}

#[test]
fn pretty_filters() {
    assert_eq!(render_pretty(&sample(), false, true), "🌍 World: app\n   📝 Top level.\n\n");
    assert_eq!(
        render_pretty(&sample(), true, false),
        "   🔧 run: Runs it.\n   🔧 stop: (no documentation)\n\n"
    );
    assert_eq!(render_pretty(&DocTree { has_worlds: true, worlds: vec![] }, false, false), "");
}

#[test]
fn markdown_listing() {
    let want = "# World: app\n\nTop level.\n\n## Exported Functions\n\n### `run`\nRuns it.\n\n### `stop`\n*(no documentation)*\n\n";
    assert_eq!(render_markdown(&sample(), false, false), want);
}

#[test]
fn markdown_without_world_docs() {
    let mut t = sample();
    t.worlds[0].docs = None;
    assert_eq!(render_markdown(&t, false, true), "# World: app\n\n*(no documentation)*\n\n");
    assert_eq!(
        render_markdown(&t, true, false),
        "### `run`\nRuns it.\n\n### `stop`\n*(no documentation)*\n\n"
    );
}

#[test]
fn missing_world_table_gives_one_line() {
    let t = DocTree { has_worlds: false, worlds: vec![] };
    assert_eq!(render_pretty(&t, false, false), "No world documentation found\n");
    assert_eq!(render_markdown(&t, true, false), "No world documentation found\n");
    let empty = DocTree { has_worlds: true, worlds: vec![] };
    assert_eq!(render_markdown(&empty, false, false), "");
}
