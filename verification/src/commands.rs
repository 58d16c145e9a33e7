//! What each command asks of the language-server daemon, decided from the command line.
use vstd::prelude::*;

use crate::model::{GotoTarget, SymbolKindFilter};
use crate::text::{decimal, push_decimal_u64};

verus! {

/// How an answer is written out.
#[derive(Clone, Copy, Debug, PartialEq, Eq, Structural)]
pub enum OutputFormat {
    Text,
    Json,
    Count,
    Paths,
}

impl OutputFormat {
    /// Whether answers (and errors) are written as JSON.
    pub fn is_json(self) -> (res: bool)
        ensures
            res == (self == OutputFormat::Json),
    {
        match self {
            OutputFormat::Json => true,
            _ => false,
        }
    }
}

/// A position in a file, as the command line gives it.
pub struct PositionArgs {
    pub file: String,
    pub line: usize,
    pub column: usize,
}

/// The arguments of `goto`.
pub struct GotoArgs {
    pub position: PositionArgs,
    pub kind: GotoTarget,
}

/// The arguments of `usages`.
pub struct UsagesArgs {
    pub position: PositionArgs,
    pub no_declaration: bool,
}

/// The arguments of `find-symbol`.
pub struct WorkspaceSymbolArgs {
    pub query: String,
    pub kind: Option<SymbolKindFilter>,
}

/// The arguments of `outline`.
pub struct OutlineArgs {
    pub file: String,
    pub full: bool,
    pub depth: Option<usize>,
}

/// What the `daemon` command is asked to do.
#[derive(Clone, Copy, Debug, PartialEq, Eq, Structural)]
pub enum DaemonAction {
    Start,
    Stop,
    Status,
}

/// The command that the command line names, with its arguments.
pub enum CommandKind {
    Doctor,
    Goto(GotoArgs),
    Usages(UsagesArgs),
    FindSymbol(WorkspaceSymbolArgs),
    Inspect(PositionArgs),
    Outline(OutlineArgs),
    Daemon(DaemonAction),
}

/// The whole command line.
pub struct Cli {
    pub format: OutputFormat,
    pub limit: Option<usize>,
    pub workspace: Option<String>,
    pub command: CommandKind,
}

/// A request to the language-server daemon.
pub enum DaemonRequest {
    Goto {
        file: String,
        line: usize,
        column: usize,
        target: GotoTarget,
        format: OutputFormat,
        limit: Option<usize>,
    },
    Usages {
        file: String,
        line: usize,
        column: usize,
        include_declaration: bool,
        format: OutputFormat,
        limit: Option<usize>,
    },
    FindSymbol {
        query: String,
        kind: Option<SymbolKindFilter>,
        format: OutputFormat,
        limit: Option<usize>,
    },
    Inspect { file: String, line: usize, column: usize, format: OutputFormat },
    Outline { file: String, depth: Option<usize>, format: OutputFormat, limit: Option<usize> },
}

/// Where the workspace root is looked for: from a file the command names, or
/// from the current directory.
pub enum WorkspaceScope {
    ForFile(String),
    CurrentDirectory,
}

/// What a command comes to: the work that is left to do with the file system,
/// the environment and the daemon.
pub enum CommandPlan {
    /// Report the tool, the workspace and the state of the language server and daemon.
    Doctor { format: OutputFormat, workspace_override: Option<String> },
    /// Send `request` to the daemon of the workspace found from `scope`
    /// (or `workspace_override`) and write its answer in `format`.
    Query {
        workspace_override: Option<String>,
        scope: WorkspaceScope,
        request: DaemonRequest,
        format: OutputFormat,
    },
    /// Start, stop or query the daemon itself.
    Daemon { format: OutputFormat, workspace_override: Option<String>, action: DaemonAction },
}

/// A command line that asks for something contradictory.
#[derive(Clone, Copy, Debug, PartialEq, Eq, Structural)]
pub enum CommandError {
    /// `outline` was given both `--depth` and `--full`.
    DepthWithFull,
}

impl CommandError {
    /// The message shown for the error.
    pub fn message(self) -> (res: String)
        ensures
            res@ == "--depth cannot be combined with --full"@,
    {
        match self {
            CommandError::DepthWithFull => String::from_str("--depth cannot be combined with --full"),
        }
    }
}

/// The plan of `goto`: ask the daemon of the file's workspace for the target of the position.
pub fn run_goto(
    format: OutputFormat,
    limit: Option<usize>,
    workspace_override: Option<String>,
    args: GotoArgs,
) -> (res: CommandPlan)
    ensures
        res == (CommandPlan::Query {
            workspace_override,
            scope: WorkspaceScope::ForFile(args.position.file),
            request: DaemonRequest::Goto {
                file: args.position.file,
                line: args.position.line,
                column: args.position.column,
                target: args.kind,
                format,
                limit,
            },
            format,
        }),
{
    let PositionArgs { file, line, column } = args.position;
    let scope = WorkspaceScope::ForFile(file.clone());
    CommandPlan::Query {
        workspace_override,
        scope,
        request: DaemonRequest::Goto { file, line, column, target: args.kind, format, limit },
        format,
    }
}

/// The plan of `usages`: ask the daemon of the file's workspace for the usages of
/// the symbol at the position, with its declaration unless `--no-declaration` is given.
pub fn run_usages(
    format: OutputFormat,
    limit: Option<usize>,
    workspace_override: Option<String>,
    args: UsagesArgs,
) -> (res: CommandPlan)
    ensures
        res == (CommandPlan::Query {
            workspace_override,
            scope: WorkspaceScope::ForFile(args.position.file),
            request: DaemonRequest::Usages {
                file: args.position.file,
                line: args.position.line,
                column: args.position.column,
                include_declaration: !args.no_declaration,
                format,
                limit,
            },
            format,
        }),
{
    let PositionArgs { file, line, column } = args.position;
    let scope = WorkspaceScope::ForFile(file.clone());
    CommandPlan::Query {
        workspace_override,
        scope,
        request: DaemonRequest::Usages {
            file,
            line,
            column,
            include_declaration: !args.no_declaration,
            format,
            limit,
        },
        format,
    }
}

/// The plan of `find-symbol`: ask the daemon of the current directory's workspace
/// for the symbols matching the query.
pub fn run_find_symbol(
    format: OutputFormat,
    limit: Option<usize>,
    workspace_override: Option<String>,
    args: WorkspaceSymbolArgs,
) -> (res: CommandPlan)
    ensures
        res == (CommandPlan::Query {
            workspace_override,
            scope: WorkspaceScope::CurrentDirectory,
            request: DaemonRequest::FindSymbol { query: args.query, kind: args.kind, format, limit },
            format,
        }),
{
    CommandPlan::Query {
        workspace_override,
        scope: WorkspaceScope::CurrentDirectory,
        request: DaemonRequest::FindSymbol { query: args.query, kind: args.kind, format, limit },
        format,
    }
}

/// The plan of `inspect`: ask the daemon of the file's workspace what is at the position.
pub fn run_inspect(
    format: OutputFormat,
    workspace_override: Option<String>,
    args: PositionArgs,
) -> (res: CommandPlan)
    ensures
        res == (CommandPlan::Query {
            workspace_override,
            scope: WorkspaceScope::ForFile(args.file),
            request: DaemonRequest::Inspect {
                file: args.file,
                line: args.line,
                column: args.column,
                format,
            },
            format,
        }),
{
    let PositionArgs { file, line, column } = args;
    let scope = WorkspaceScope::ForFile(file.clone());
    CommandPlan::Query {
        workspace_override,
        scope,
        request: DaemonRequest::Inspect { file, line, column, format },
        format,
    }
}

/// The depth an outline is cut at: none for `--full`, else `--depth` or two levels.
pub open spec fn outline_depth(full: bool, depth: Option<usize>) -> Option<usize> {
    if full {
        None
    } else {
        match depth {
            Some(d) => Some(d),
            None => Some(2),
        }
    }
}

/// The plan of `outline`: refused when both `--full` and `--depth` are given;
/// else ask the daemon of the file's workspace for the file's symbols, cut at
/// `outline_depth`.
pub fn run_outline(
    format: OutputFormat,
    limit: Option<usize>,
    workspace_override: Option<String>,
    args: OutlineArgs,
) -> (res: Result<CommandPlan, CommandError>)
    ensures
        (args.full && args.depth is Some) ==> res == Err::<CommandPlan, CommandError>(
            CommandError::DepthWithFull,
        ),
        !(args.full && args.depth is Some) ==> res == Ok::<CommandPlan, CommandError>(
            CommandPlan::Query {
                workspace_override,
                scope: WorkspaceScope::ForFile(args.file),
                request: DaemonRequest::Outline {
                    file: args.file,
                    depth: outline_depth(args.full, args.depth),
                    format,
                    limit,
                },
                format,
            },
        ),
{
    if args.full && args.depth.is_some() {
        return Err(CommandError::DepthWithFull);
    }
    let depth = if args.full {
        None
    } else {
        match args.depth {
            Some(d) => Some(d),
            None => Some(2),
        }
    };
    let file = args.file;
    let scope = WorkspaceScope::ForFile(file.clone());
    Ok(
        CommandPlan::Query {
            workspace_override,
            scope,
            request: DaemonRequest::Outline { file, depth, format, limit },
            format,
        },
    )
}

/// The plan of the whole command line: each command's own plan, with the output
/// format, the limit and the workspace override handed on.
pub fn run(cli: Cli) -> (res: Result<CommandPlan, CommandError>)
    ensures
        match cli.command {
            CommandKind::Doctor => res == Ok::<CommandPlan, CommandError>(
                CommandPlan::Doctor { format: cli.format, workspace_override: cli.workspace },
            ),
            CommandKind::Goto(args) => res == Ok::<CommandPlan, CommandError>(
                CommandPlan::Query {
                    workspace_override: cli.workspace,
                    scope: WorkspaceScope::ForFile(args.position.file),
                    request: DaemonRequest::Goto {
                        file: args.position.file,
                        line: args.position.line,
                        column: args.position.column,
                        target: args.kind,
                        format: cli.format,
                        limit: cli.limit,
                    },
                    format: cli.format,
                },
            ),
            CommandKind::Usages(args) => res == Ok::<CommandPlan, CommandError>(
                CommandPlan::Query {
                    workspace_override: cli.workspace,
                    scope: WorkspaceScope::ForFile(args.position.file),
                    request: DaemonRequest::Usages {
                        file: args.position.file,
                        line: args.position.line,
                        column: args.position.column,
                        include_declaration: !args.no_declaration,
                        format: cli.format,
                        limit: cli.limit,
                    },
                    format: cli.format,
                },
            ),
            CommandKind::FindSymbol(args) => res == Ok::<CommandPlan, CommandError>(
                CommandPlan::Query {
                    workspace_override: cli.workspace,
                    scope: WorkspaceScope::CurrentDirectory,
                    request: DaemonRequest::FindSymbol {
                        query: args.query,
                        kind: args.kind,
                        format: cli.format,
                        limit: cli.limit,
                    },
                    format: cli.format,
                },
            ),
            CommandKind::Inspect(args) => res == Ok::<CommandPlan, CommandError>(
                CommandPlan::Query {
                    workspace_override: cli.workspace,
                    scope: WorkspaceScope::ForFile(args.file),
                    request: DaemonRequest::Inspect {
                        file: args.file,
                        line: args.line,
                        column: args.column,
                        format: cli.format,
                    },
                    format: cli.format,
                },
            ),
            CommandKind::Outline(args) => if args.full && args.depth is Some {
                res == Err::<CommandPlan, CommandError>(CommandError::DepthWithFull)
            } else {
                res == Ok::<CommandPlan, CommandError>(
                    CommandPlan::Query {
                        workspace_override: cli.workspace,
                        scope: WorkspaceScope::ForFile(args.file),
                        request: DaemonRequest::Outline {
                            file: args.file,
                            depth: outline_depth(args.full, args.depth),
                            format: cli.format,
                            limit: cli.limit,
                        },
                        format: cli.format,
                    },
                )
            },
            CommandKind::Daemon(action) => res == Ok::<CommandPlan, CommandError>(
                CommandPlan::Daemon {
                    format: cli.format,
                    workspace_override: cli.workspace,
                    action,
                },
            ),
        },
{
    let Cli { format, limit, workspace, command } = cli;
    match command {
        CommandKind::Doctor => Ok(CommandPlan::Doctor { format, workspace_override: workspace }),
        CommandKind::Goto(args) => Ok(run_goto(format, limit, workspace, args)),
        CommandKind::Usages(args) => Ok(run_usages(format, limit, workspace, args)),
        CommandKind::FindSymbol(args) => Ok(run_find_symbol(format, limit, workspace, args)),
        CommandKind::Inspect(args) => Ok(run_inspect(format, workspace, args)),
        CommandKind::Outline(args) => run_outline(format, limit, workspace, args),
        CommandKind::Daemon(action) => Ok(
            CommandPlan::Daemon { format, workspace_override: workspace, action },
        ),
    }
}

} // verus!

verus! {

/// What was found of the language server and the daemon of a workspace.
pub struct AdapterStatus {
    pub ty_found: bool,
    pub ty_path: Option<String>,
    pub daemon_running: bool,
    pub daemon_pid: Option<u64>,
}

/// The report of `doctor`.
pub struct DoctorReport {
    pub tool: String,
    pub version: String,
    pub workspace_root: String,
    pub adapter: AdapterStatus,
}

/// The answer of `doctor`: the report itself for JSON output, else its text.
pub enum DoctorOutput {
    Json(DoctorReport),
    Text(String),
}

/// The line of `doctor` about the language server.
pub open spec fn ty_line(status: AdapterStatus) -> Seq<char> {
    if status.ty_found {
        "ty: found at "@ + match status.ty_path {
            Some(p) => p@,
            None => "<unknown>"@,
        }
    } else {
        "ty: not found"@
    }
}

/// The line of `doctor` about the daemon.
pub open spec fn daemon_line(status: AdapterStatus) -> Seq<char> {
    if status.daemon_running {
        "daemon: running (pid "@ + match status.daemon_pid {
            Some(pid) => decimal(pid as nat),
            None => "unknown"@,
        } + seq![')']
    } else {
        "daemon: not running"@
    }
}

/// The text of `doctor`: the tool and its version, the workspace root, and a line
/// each for the language server and the daemon.
pub open spec fn doctor_text(version: Seq<char>, workspace_root: Seq<char>, status: AdapterStatus) -> Seq<char> {
    "lspyx "@ + version + "\nworkspace: "@ + workspace_root + seq!['\n'] + ty_line(status) + seq![
        '\n',
    ] + daemon_line(status)
}

/// The answer of `doctor` for a workspace root and the state found there: the
/// report under JSON output, else its text.
pub fn run_doctor(
    format: OutputFormat,
    version: &str,
    workspace_root: &str,
    status: AdapterStatus,
) -> (res: DoctorOutput)
    ensures
        format == OutputFormat::Json ==> (res matches DoctorOutput::Json(report) && {
            &&& report.tool@ == "lspyx"@
            &&& report.version@ == version@
            &&& report.workspace_root@ == workspace_root@
            &&& report.adapter == status
        }),
        format != OutputFormat::Json ==> res is Text && res->Text_0@ == doctor_text(
            version@,
            workspace_root@,
            status,
        ),
{
    if format.is_json() {
        return DoctorOutput::Json(
            DoctorReport {
                tool: String::from_str("lspyx"),
                version: String::from_str(version),
                workspace_root: String::from_str(workspace_root),
                adapter: status,
            },
        );
    }
    let mut out = String::new();
    out.append("lspyx ");
    out.append(version);
    out.append("\nworkspace: ");
    out.append(workspace_root);
    out.push('\n');
    if status.ty_found {
        out.append("ty: found at ");
        match &status.ty_path {
            Some(path) => out.append(path.as_str()),
            None => out.append("<unknown>"),
        }
    } else {
        out.append("ty: not found");
    }
    out.push('\n');
    if status.daemon_running {
        out.append("daemon: running (pid ");
        match status.daemon_pid {
            Some(pid) => push_decimal_u64(&mut out, pid),
            None => out.append("unknown"),
        }
        out.push(')');
    } else {
        out.append("daemon: not running");
    }
    DoctorOutput::Text(out)
}

} // verus!
