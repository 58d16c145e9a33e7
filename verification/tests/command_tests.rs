use lspyx::commands::{
    run, run_doctor, run_find_symbol, run_goto, run_inspect, run_outline, run_usages,
    AdapterStatus, Cli, CommandError, CommandKind, CommandPlan, DaemonAction, DaemonRequest,
    DoctorOutput, GotoArgs, OutlineArgs, OutputFormat, PositionArgs, UsagesArgs,
    WorkspaceScope, WorkspaceSymbolArgs,
};
use lspyx::model::{GotoTarget, SymbolKindFilter};

fn pos() -> PositionArgs {
    PositionArgs { file: "a.py".to_string(), line: 3, column: 7 }
}

#[test]
fn goto_plan() {
    let plan = run_goto(
        OutputFormat::Text,
        Some(5),
        Some("/ws".to_string()),
        GotoArgs { position: pos(), kind: GotoTarget::Declaration },
    );
    match plan {
        CommandPlan::Query { workspace_override, scope, request, format } => {
            assert_eq!(workspace_override.as_deref(), Some("/ws"));
            assert!(matches!(scope, WorkspaceScope::ForFile(ref f) if f == "a.py"));
            assert_eq!(format, OutputFormat::Text);
            match request {
                DaemonRequest::Goto { file, line, column, target, limit, .. } => {
                    assert_eq!((file.as_str(), line, column), ("a.py", 3, 7));
                    assert_eq!(target, GotoTarget::Declaration);
                    assert_eq!(limit, Some(5));
                }
                _ => panic!("not a goto request"),
            }
        }
        _ => panic!("not a query"),
    }
}

#[test]
fn usages_plan_includes_declaration_unless_told() {
    for (no_declaration, expected) in [(false, true), (true, false)] {
        let plan = run_usages(OutputFormat::Json, None, None, UsagesArgs { position: pos(), no_declaration });
        match plan {
            CommandPlan::Query { request: DaemonRequest::Usages { include_declaration, format, .. }, .. } => {
                assert_eq!(include_declaration, expected);
                assert_eq!(format, OutputFormat::Json);
            }
            _ => panic!("not a usages query"),
        }
    }
}

#[test]
fn find_symbol_uses_current_directory() {
    let plan = run_find_symbol(
        OutputFormat::Count,
        None,
        None,
        WorkspaceSymbolArgs { query: "Foo".to_string(), kind: Some(SymbolKindFilter::Class) },
    );
    match plan {
        CommandPlan::Query { scope: WorkspaceScope::CurrentDirectory, request: DaemonRequest::FindSymbol { query, kind, .. }, .. } => {
            assert_eq!(query, "Foo");
            assert_eq!(kind, Some(SymbolKindFilter::Class));
        }
        _ => panic!("not a workspace query"),
    }
}

#[test]
fn inspect_plan() {
    match run_inspect(OutputFormat::Paths, None, pos()) {
        CommandPlan::Query { request: DaemonRequest::Inspect { file, line, column, format }, .. } => {
            assert_eq!((file.as_str(), line, column, format), ("a.py", 3, 7, OutputFormat::Paths));
        }
        _ => panic!("not an inspect query"),
    }
}

fn outline_depth_of(full: bool, depth: Option<usize>) -> Result<Option<usize>, CommandError> {
    match run_outline(OutputFormat::Text, None, None, OutlineArgs { file: "m.py".to_string(), full, depth })? {
        CommandPlan::Query { request: DaemonRequest::Outline { depth, .. }, .. } => Ok(depth),
        _ => panic!("not an outline query"),
    }
}

#[test]
fn outline_depth_rules() {
    assert_eq!(outline_depth_of(false, None), Ok(Some(2)));
    assert_eq!(outline_depth_of(false, Some(5)), Ok(Some(5)));
    assert_eq!(outline_depth_of(true, None), Ok(None));
    assert_eq!(outline_depth_of(true, Some(1)), Err(CommandError::DepthWithFull));
    assert_eq!(CommandError::DepthWithFull.message(), "--depth cannot be combined with --full");
}

#[test]
fn whole_command_lines() {
    let doctor = run(Cli { format: OutputFormat::Json, limit: None, workspace: None, command: CommandKind::Doctor });
    assert!(matches!(doctor, Ok(CommandPlan::Doctor { format: OutputFormat::Json, workspace_override: None })));
    let daemon = run(Cli { format: OutputFormat::Text, limit: None, workspace: Some("/w".to_string()), command: CommandKind::Daemon(DaemonAction::Stop) });
    assert!(matches!(daemon, Ok(CommandPlan::Daemon { action: DaemonAction::Stop, .. })));
    let refused = run(Cli {
        format: OutputFormat::Text,
        limit: Some(3),
        workspace: None,
        command: CommandKind::Outline(OutlineArgs { file: "m.py".to_string(), full: true, depth: Some(4) }),
    });
    assert!(matches!(refused, Err(CommandError::DepthWithFull)));
    let goto = run(Cli {
        format: OutputFormat::Text,
        limit: Some(3),
        workspace: None,
        command: CommandKind::Goto(GotoArgs { position: pos(), kind: GotoTarget::Type }),
    });
    assert!(matches!(goto, Ok(CommandPlan::Query { request: DaemonRequest::Goto { limit: Some(3), target: GotoTarget::Type, .. }, .. })));
    assert!(OutputFormat::Json.is_json());
    assert!(!OutputFormat::Count.is_json());
}

#[test]
fn doctor_text_and_report() {
    let status = AdapterStatus {
        ty_found: true,
        ty_path: Some("/usr/bin/ty".to_string()),
        daemon_running: true,
        daemon_pid: Some(4242),
    };
    match run_doctor(OutputFormat::Text, "0.3.1", "/repo", status) {
        DoctorOutput::Text(text) => assert_eq!(
            text,
            "lspyx 0.3.1\nworkspace: /repo\nty: found at /usr/bin/ty\ndaemon: running (pid 4242)"
        ),
        DoctorOutput::Json(_) => panic!("expected text"),
    }
    let unknown = AdapterStatus { ty_found: true, ty_path: None, daemon_running: true, daemon_pid: None };
    match run_doctor(OutputFormat::Count, "1", "/r", unknown) {
        DoctorOutput::Text(text) => assert_eq!(
            text,
            "lspyx 1\nworkspace: /r\nty: found at <unknown>\ndaemon: running (pid unknown)"
        ),
        DoctorOutput::Json(_) => panic!("expected text"),
    }
    let missing = AdapterStatus { ty_found: false, ty_path: None, daemon_running: false, daemon_pid: Some(1) };
    match run_doctor(OutputFormat::Text, "1", "/r", missing) {
        DoctorOutput::Text(text) => assert_eq!(text, "lspyx 1\nworkspace: /r\nty: not found\ndaemon: not running"),
        DoctorOutput::Json(_) => panic!("expected text"),
    }
    let status = AdapterStatus { ty_found: false, ty_path: None, daemon_running: false, daemon_pid: None };
    match run_doctor(OutputFormat::Json, "2.0", "/w", status) {
        DoctorOutput::Json(report) => {
            assert_eq!(report.tool, "lspyx");
            assert_eq!(report.version, "2.0");
            assert_eq!(report.workspace_root, "/w");
            assert!(!report.adapter.ty_found);
        }
        DoctorOutput::Text(_) => panic!("expected report"),
    }
}
