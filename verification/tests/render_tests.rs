use lspyx::model::{
    display_path, symbol_kind_name, DocumentSymbolNode, GotoTarget, LocationOutput,
    LocationRecord, OutlineOutput, Position, PositionSymbol, Range, ResolvedPosition,
    SymbolAtOutput, SymbolAtRecord, SymbolKindFilter, WorkspaceSymbolOutput,
    WorkspaceSymbolRecord,
};
use lspyx::render::{
    apply_limit, build_position_header, format_count, format_outline_tree, format_summary_count,
    format_workspace_position, goto_target_labels, goto_target_name, location_summary,
    no_location_result, outline_summary, render_location_output, render_outline_output,
    render_symbol_at_output, render_workspace_symbol_output, select_workspace_symbols,
    symbol_at_summary, workspace_kind_name, workspace_symbol_summary,
};

const ROOT: &str = "/repo";

fn range(line: usize, column: usize) -> Range {
    Range {
        start: Position { line, column },
        end: Position { line, column: column + 3 },
    }
}

fn position(symbol: Option<&str>) -> ResolvedPosition {
    ResolvedPosition {
        file: "/repo/pkg/mod.py".to_string(),
        line: 12,
        requested_column: 5,
        resolved_column: Some(4),
        symbol: symbol.map(|name| PositionSymbol { name: name.to_string() }),
        source_line: Some("x = helper()".to_string()),
    }
}

fn location(file: &str, line: usize, column: usize, snippet: Option<&str>) -> LocationRecord {
    LocationRecord {
        file: file.to_string(),
        range: range(line, column),
        snippet: snippet.map(|s| s.to_string()),
    }
}

fn symbol(name: &str, kind: u32, container: Option<&str>) -> WorkspaceSymbolRecord {
    WorkspaceSymbolRecord {
        name: name.to_string(),
        kind,
        file: "/repo/src/app.py".to_string(),
        range: range(3, 1),
        container_name: container.map(|c| c.to_string()),
        snippet: None,
    }
}

fn node(name: &str, kind: u32, line: usize, children: Vec<DocumentSymbolNode>) -> DocumentSymbolNode {
    DocumentSymbolNode { name: name.to_string(), kind, range: range(line, 0), children }
}

#[test]
fn counts() {
    assert_eq!(format_count(3, 3, "items"), "3");
    assert_eq!(format_count(2, 5, "items"), "2 shown of 5 items");
    assert_eq!(format_summary_count(1, 1, "usage", "usages"), "1 usage");
    assert_eq!(format_summary_count(0, 0, "usage", "usages"), "0 usages");
    assert_eq!(format_summary_count(4, 4, "usage", "usages"), "4 usages");
    assert_eq!(format_summary_count(1, 3, "usage", "usages"), "1 shown of 3 usages");
}

#[test]
fn limits_keep_a_prefix() {
    let items = [1, 2, 3, 4];
    assert_eq!(apply_limit(&items, Some(2)), &[1, 2]);
    assert_eq!(apply_limit(&items, Some(10)), &[1, 2, 3, 4]);
    assert_eq!(apply_limit(&items, Some(0)), &[] as &[i32]);
    assert_eq!(apply_limit(&items, None), &[1, 2, 3, 4]);
}

#[test]
fn paths_relative_to_root() {
    assert_eq!(display_path("/repo", "/repo/a/b.py"), "a/b.py");
    assert_eq!(display_path("/repo/", "/repo/a.py"), "a.py");
    assert_eq!(display_path("/repo", "/repo"), "");
    assert_eq!(display_path("/repo", "/repository/a.py"), "/repository/a.py");
    assert_eq!(display_path("/repo", "/other/a.py"), "/other/a.py");
    assert_eq!(display_path("", "rel.py"), "rel.py");
    assert_eq!(format_workspace_position(ROOT, "/repo/x.py", 3, Some(7)), "x.py:3:7");
    assert_eq!(format_workspace_position(ROOT, "/repo/x.py", 3, None), "x.py:3");
}

#[test]
fn names() {
    assert_eq!(goto_target_name(GotoTarget::Definition), "definition");
    assert_eq!(goto_target_name(GotoTarget::Type), "type definition");
    assert_eq!(goto_target_labels(GotoTarget::Declaration), ("declaration", "declarations"));
    for t in [GotoTarget::Definition, GotoTarget::Declaration, GotoTarget::Type] {
        assert_eq!(goto_target_labels(t).0, goto_target_name(t));
    }
    assert_eq!(workspace_kind_name(SymbolKindFilter::Method), "method");
    for (f, kind) in [
        (SymbolKindFilter::Class, 5),
        (SymbolKindFilter::Function, 12),
        (SymbolKindFilter::Method, 6),
    ] {
        assert!(f.matches(kind));
        assert_eq!(workspace_kind_name(f), symbol_kind_name(kind));
    }
    assert!(!SymbolKindFilter::Class.matches(12));
    assert_eq!(symbol_kind_name(26), "type parameter");
    assert_eq!(symbol_kind_name(0), "unknown");
    assert_eq!(symbol_kind_name(99), "unknown");
}

#[test]
fn position_header_lines() {
    let mut pos = position(Some("helper"));
    assert_eq!(
        build_position_header(ROOT, &pos),
        vec!["resolved: pkg/mod.py:12:4", "subject: helper", "source: x = helper()"]
    );
    pos.resolved_column = None;
    pos.symbol = None;
    pos.source_line = Some(String::new());
    assert!(build_position_header(ROOT, &pos).is_empty());
}

#[test]
fn goto_answer() {
    let payload = LocationOutput {
        workspace_root: ROOT.to_string(),
        position: position(Some("helper")),
        target: Some(GotoTarget::Definition),
        locations: vec![
            location("/repo/pkg/util.py", 4, 4, Some("def helper():")),
            location("/repo/pkg/other.py", 9, 0, None),
        ],
    };
    assert_eq!(
        render_location_output(None, &payload),
        "summary: 2 definitions for helper\n\
         resolved: pkg/mod.py:12:4\n\
         subject: helper\n\
         source: x = helper()\n\
         target: definition\n\
         items: 2\n\
         results:\n\
         1. pkg/util.py:4:4\n   context: def helper():\n\
         2. pkg/other.py:9:0"
    );
    assert_eq!(
        render_location_output(Some(1), &payload),
        "summary: 1 shown of 2 definitions for helper\n\
         resolved: pkg/mod.py:12:4\n\
         subject: helper\n\
         source: x = helper()\n\
         target: definition\n\
         items: 1 shown of 2 items\n\
         results:\n\
         1. pkg/util.py:4:4\n   context: def helper():"
    );
}

#[test]
fn usages_answer_single() {
    let payload = LocationOutput {
        workspace_root: ROOT.to_string(),
        position: position(Some("helper")),
        target: None,
        locations: vec![location("/elsewhere/a.py", 1, 2, None)],
    };
    assert_eq!(location_summary(1, 1, &payload), "1 usage of helper");
    assert!(render_location_output(None, &payload).ends_with("results:\n1. /elsewhere/a.py:1:2"));
}

#[test]
fn empty_location_answers() {
    let mut payload = LocationOutput {
        workspace_root: ROOT.to_string(),
        position: position(Some("hel\"per")),
        target: Some(GotoTarget::Type),
        locations: Vec::new(),
    };
    let expected = "no type definition found for symbol \"hel\\\"per\" at pkg/mod.py:12:5";
    assert_eq!(no_location_result(&payload), expected);
    let text = render_location_output(None, &payload);
    assert!(text.starts_with(&format!("summary: {expected}\n")));
    assert!(text.ends_with(&format!("items: 0\nresult: {expected}")));

    payload.target = None;
    assert_eq!(
        no_location_result(&payload),
        "no usages found for symbol \"hel\\\"per\" at pkg/mod.py:12:5"
    );
    payload.position.symbol = None;
    assert_eq!(no_location_result(&payload), "no symbol found at pkg/mod.py:12:5");
    assert_eq!(location_summary(0, 3, &payload), "no symbol found at pkg/mod.py:12:5");
    payload.locations.push(location("/repo/a.py", 1, 1, None));
    assert_eq!(
        render_location_output(Some(0), &payload),
        "summary: no symbol found at pkg/mod.py:12:5\n\
         resolved: pkg/mod.py:12:4\n\
         source: x = helper()\n\
         items: 0 shown of 1 items\n\
         result: no symbol found at pkg/mod.py:12:5"
    );
}

#[test]
fn workspace_symbols_prefer_exact_matches() {
    let records = vec![
        symbol("Config", 5, None),
        symbol("config", 12, Some("settings")),
        symbol("CONFIG", 14, None),
        symbol("configure", 12, None),
    ];
    let refs: Vec<&WorkspaceSymbolRecord> = records.iter().collect();
    let exact = select_workspace_symbols("config", refs.clone());
    assert_eq!(exact.len(), 1);
    assert_eq!(exact[0].name, "config");
    let folded = select_workspace_symbols("CoNfIg", refs.clone());
    let names: Vec<&str> = folded.iter().map(|s| s.name.as_str()).collect();
    assert_eq!(names, vec!["Config", "config", "CONFIG"]);
    let all = select_workspace_symbols("conf", refs.clone());
    assert_eq!(all.len(), 4);
    assert!(select_workspace_symbols("x", Vec::new()).is_empty());
}

#[test]
fn workspace_symbol_answer() {
    let payload = WorkspaceSymbolOutput {
        workspace_root: ROOT.to_string(),
        query: "config".to_string(),
        symbols: vec![
            symbol("Config", 5, None),
            symbol("config", 12, Some("settings")),
            symbol("configure", 12, None),
        ],
    };
    assert_eq!(
        render_workspace_symbol_output(None, &payload, None),
        "summary: 1 symbol for query \"config\"\n\
         query: config\n\
         items: 1\n\
         results:\n\
         1. config [function]\n   location: src/app.py:3:1\n   container: settings"
    );
    assert_eq!(
        render_workspace_symbol_output(None, &payload, Some(SymbolKindFilter::Class)),
        "summary: 1 symbol for query \"config\"\n\
         query: config\n\
         kind: class\n\
         items: 1\n\
         results:\n\
         1. Config [class]\n   location: src/app.py:3:1"
    );
    let mut snippet_payload = payload;
    snippet_payload.query = "conf".to_string();
    snippet_payload.symbols[0].snippet = Some("class Config:".to_string());
    assert_eq!(
        render_workspace_symbol_output(Some(1), &snippet_payload, None),
        "summary: 1 shown of 3 symbols for query \"conf\"\n\
         query: conf\n\
         items: 1 shown of 3 symbols\n\
         results:\n\
         1. Config [class]\n   location: src/app.py:3:1\n   context: class Config:"
    );
    assert_eq!(
        render_workspace_symbol_output(None, &snippet_payload, Some(SymbolKindFilter::Method)),
        "summary: no symbols found for query \"conf\"\n\
         query: conf\n\
         kind: method\n\
         items: 0\n\
         result: no symbols found for query \"conf\""
    );
    assert_eq!(workspace_symbol_summary(2, 2, "a b"), "2 symbols for query \"a b\"");
}

#[test]
fn inspect_answer() {
    let payload = SymbolAtOutput {
        workspace_root: ROOT.to_string(),
        position: position(Some("helper")),
        symbol: Some(SymbolAtRecord {
            name: "helper".to_string(),
            kind: Some(12),
            start_column: 4,
            end_column: 10,
            detail: Some("def helper() -> int".to_string()),
        }),
        hover: Some("```python\r\ndef helper() -> int\n```\n".to_string()),
    };
    assert_eq!(symbol_at_summary(ROOT, &payload), "found symbol \"helper\"");
    assert_eq!(
        render_symbol_at_output(&payload),
        "summary: found symbol \"helper\"\n\
         resolved: pkg/mod.py:12:4\n\
         subject: helper\n\
         source: x = helper()\n\
         result: found symbol \"helper\"\n\
         symbol: helper\n\
         kind: function\n\
         range: columns 4-10\n\
         detail: def helper() -> int\n\
         hover:\n  ```python\n  def helper() -> int\n  ```"
    );
}

#[test]
fn inspect_answer_blank_hover_and_missing_symbol() {
    let mut payload = SymbolAtOutput {
        workspace_root: ROOT.to_string(),
        position: position(None),
        symbol: Some(SymbolAtRecord {
            name: "x".to_string(),
            kind: None,
            start_column: 0,
            end_column: 1,
            detail: None,
        }),
        hover: Some(" \n\t ".to_string()),
    };
    assert_eq!(
        render_symbol_at_output(&payload),
        "summary: found symbol \"x\"\n\
         resolved: pkg/mod.py:12:4\n\
         source: x = helper()\n\
         result: found symbol \"x\"\n\
         symbol: x\n\
         range: columns 0-1"
    );
    payload.symbol = None;
    payload.position.resolved_column = None;
    payload.position.source_line = None;
    assert_eq!(
        render_symbol_at_output(&payload),
        "summary: no symbol found at pkg/mod.py:12:5\n\
         result: no symbol found at pkg/mod.py:12:5"
    );
}

#[test]
fn outline_answer() {
    let payload = OutlineOutput {
        workspace_root: ROOT.to_string(),
        file: "/repo/pkg/mod.py".to_string(),
        depth: Some(2),
        symbols: vec![
            node("Service", 5, 1, vec![node("run", 6, 2, vec![node("inner", 12, 3, vec![])])]),
            node("main", 12, 10, vec![]),
        ],
    };
    assert_eq!(
        render_outline_output(None, &payload),
        "summary: 2 top-level symbols in pkg/mod.py\n\
         file: pkg/mod.py\n\
         depth: 2\n\
         items: 2\n\
         tree:\n\
         - Service [class] @ 1:0\n\
         \x20 - run [method] @ 2:0\n\
         \x20   - inner [function] @ 3:0\n\
         - main [function] @ 10:0"
    );
    assert_eq!(
        format_outline_tree(&payload.symbols[1], 2),
        vec!["    - main [function] @ 10:0"]
    );
    assert_eq!(format_outline_tree(&payload.symbols[0], 0).len(), 3);
}

#[test]
fn outline_answer_limits_and_empty() {
    let mut payload = OutlineOutput {
        workspace_root: ROOT.to_string(),
        file: "/repo/one.py".to_string(),
        depth: None,
        symbols: vec![node("only", 13, 1, vec![])],
    };
    assert_eq!(
        render_outline_output(None, &payload),
        "summary: 1 top-level symbol in one.py\n\
         file: one.py\n\
         depth: full\n\
         items: 1\n\
         tree:\n\
         - only [variable] @ 1:0"
    );
    assert_eq!(
        render_outline_output(Some(0), &payload),
        "summary: no symbols found in one.py\n\
         file: one.py\n\
         depth: full\n\
         items: 0 shown of 1 top-level symbols\n\
         result: no symbols found in one.py"
    );
    payload.symbols.clear();
    assert_eq!(outline_summary(0, 0, ROOT, "/repo/one.py"), "no symbols found in one.py");
    assert!(render_outline_output(None, &payload).ends_with("items: 0\nresult: no symbols found in one.py"));
}
