//! The text form of query answers: each answer becomes lines joined by line feeds.
use vstd::prelude::*;

use crate::model::{
    display_path, display_path_text, kind_label, symbol_kind_name, DocumentSymbolNode, GotoTarget,
    LocationOutput, LocationRecord, OutlineOutput, ResolvedPosition, SymbolAtOutput,
    SymbolAtRecord, SymbolKindFilter, WorkspaceSymbolOutput, WorkspaceSymbolRecord,
};
use crate::text::{
    debug_quote, debug_quoted, decimal, indent_block, indent_prefix, indent_spaces,
    join_lines, join_with_newlines, prefixed, push_decimal, str_eq, str_eq_ignore_ascii_case,
    str_is_blank, text_lines, views, lemma_views_push, usize_to_string, labeled, push_line, push_lines, is_blank, eq_ignore_ascii_case,
};

verus! {

/// The items that a limit lets through: the first `n` of them under `Some(n)`, all under `None`.
pub open spec fn limited<T>(items: Seq<T>, limit: Option<usize>) -> Seq<T> {
    match limit {
        Some(n) => if n < items.len() {
            items.take(n as int)
        } else {
            items
        },
        None => items,
    }
}

/// The first `limit` items, or all of them when there is no limit.
pub fn apply_limit<T>(items: &[T], limit: Option<usize>) -> (res: &[T])
    ensures
        res@ == limited(items@, limit),
{
    match limit {
        Some(n) => {
            let k = if n < items.len() {
                n
            } else {
                items.len()
            };
            let (head, _) = items.split_at(k);
            proof {
                assert(items@.subrange(0, items@.len() as int) == items@);
            }
            head
        },
        None => items,
    }
}

/// How many items are shown: the total alone when all are shown,
/// else "<shown> shown of <total> <label>".
pub open spec fn count_text(shown: nat, total: nat, label: Seq<char>) -> Seq<char> {
    if shown == total {
        decimal(total)
    } else {
        decimal(shown) + " shown of "@ + decimal(total) + seq![' '] + label
    }
}

/// The count of an "items:" line.
pub fn format_count(shown: usize, total: usize, label: &str) -> (res: String)
    ensures
        res@ == count_text(shown as nat, total as nat, label@),
{
    let mut out = String::new();
    if shown == total {
        push_decimal(&mut out, total);
    } else {
        push_decimal(&mut out, shown);
        out.append(" shown of ");
        push_decimal(&mut out, total);
        out.push(' ');
        out.append(label);
    }
    out
}

/// The count of a summary line: singular for exactly one item, plural otherwise,
/// and "<shown> shown of <total> <plural>" when not all are shown.
pub open spec fn summary_count_text(
    shown: nat,
    total: nat,
    singular: Seq<char>,
    plural: Seq<char>,
) -> Seq<char> {
    if shown == total {
        if total == 1 {
            "1 "@ + singular
        } else {
            decimal(total) + seq![' '] + plural
        }
    } else {
        decimal(shown) + " shown of "@ + decimal(total) + seq![' '] + plural
    }
}

/// The count of a summary line.
pub fn format_summary_count(shown: usize, total: usize, singular: &str, plural: &str) -> (res:
    String)
    ensures
        res@ == summary_count_text(shown as nat, total as nat, singular@, plural@),
{
    let mut out = String::new();
    if shown == total {
        if total == 1 {
            out.append("1 ");
            out.append(singular);
        } else {
            push_decimal(&mut out, total);
            out.push(' ');
            out.append(plural);
        }
    } else {
        push_decimal(&mut out, shown);
        out.append(" shown of ");
        push_decimal(&mut out, total);
        out.push(' ');
        out.append(plural);
    }
    out
}

/// "<file>:<line>:<column>", or "<file>:<line>" without a column, the file shown
/// relative to the workspace root.
pub open spec fn workspace_position_text(
    root: Seq<char>,
    file: Seq<char>,
    line: usize,
    column: Option<usize>,
) -> Seq<char> {
    let head = display_path_text(root, file) + seq![':'] + decimal(line as nat);
    match column {
        Some(c) => head + seq![':'] + decimal(c as nat),
        None => head,
    }
}

/// A position in a file of the workspace, as the output shows it.
pub fn format_workspace_position(
    workspace_root: &str,
    file: &str,
    line: usize,
    column: Option<usize>,
) -> (res: String)
    ensures
        res@ == workspace_position_text(workspace_root@, file@, line, column),
{
    let mut out = display_path(workspace_root, file);
    out.push(':');
    push_decimal(&mut out, line);
    match column {
        Some(c) => {
            out.push(':');
            push_decimal(&mut out, c);
        },
        None => {},
    }
    out
}

/// The position that a query asked about, at the column it asked for.
pub open spec fn requested_position_text(root: Seq<char>, position: ResolvedPosition) -> Seq<
    char,
> {
    workspace_position_text(root, position.file@, position.line, Some(position.requested_column))
}

/// The position that a query asked about, at the column it was resolved to.
pub open spec fn resolved_position_text(root: Seq<char>, position: ResolvedPosition) -> Seq<
    char,
> {
    workspace_position_text(root, position.file@, position.line, position.resolved_column)
}

/// The start of a found location.
pub open spec fn location_text(root: Seq<char>, location: LocationRecord) -> Seq<char> {
    workspace_position_text(
        root,
        location.file@,
        location.range.start.line,
        Some(location.range.start.column),
    )
}

/// The requested position of a query.
pub fn format_requested_position(workspace_root: &str, position: &ResolvedPosition) -> (res:
    String)
    ensures
        res@ == requested_position_text(workspace_root@, *position),
{
    format_workspace_position(
        workspace_root,
        position.file.as_str(),
        position.line,
        Some(position.requested_column),
    )
}

/// The resolved position of a query.
pub fn format_resolved_position(workspace_root: &str, position: &ResolvedPosition) -> (res:
    String)
    ensures
        res@ == resolved_position_text(workspace_root@, *position),
{
    format_workspace_position(
        workspace_root,
        position.file.as_str(),
        position.line,
        position.resolved_column,
    )
}

/// The start of a found location.
pub fn format_location(workspace_root: &str, location: &LocationRecord) -> (res: String)
    ensures
        res@ == location_text(workspace_root@, *location),
{
    format_workspace_position(
        workspace_root,
        location.file.as_str(),
        location.range.start.line,
        Some(location.range.start.column),
    )
}

/// The lines that describe the position a query asked about: where it was
/// resolved (when it was), the symbol there (when there is one), and the source
/// line (when it is known and not empty).
pub open spec fn position_header(root: Seq<char>, position: ResolvedPosition) -> Seq<Seq<char>> {
    let resolved: Seq<Seq<char>> = if position.resolved_column is Some {
        seq!["resolved: "@ + resolved_position_text(root, position)]
    } else {
        Seq::empty()
    };
    let subject: Seq<Seq<char>> = match position.symbol {
        Some(symbol) => seq!["subject: "@ + symbol.name@],
        None => Seq::empty(),
    };
    let source: Seq<Seq<char>> = match position.source_line {
        Some(line) => if line@.len() > 0 {
            seq!["source: "@ + line@]
        } else {
            Seq::empty()
        },
        None => Seq::empty(),
    };
    resolved + subject + source
}

/// The header lines for a queried position.
pub fn build_position_header(workspace_root: &str, position: &ResolvedPosition) -> (res: Vec<
    String,
>)
    ensures
        views(res@) == position_header(workspace_root@, *position),
{
    let mut lines: Vec<String> = Vec::new();
    if position.resolved_column.is_some() {
        let mut line = String::new();
        line.append("resolved: ");
        let text = format_resolved_position(workspace_root, position);
        line.append(text.as_str());
        lines.push(line);
    }
    match &position.symbol {
        Some(symbol) => {
            let mut line = String::new();
            line.append("subject: ");
            line.append(symbol.name.as_str());
            lines.push(line);
        },
        None => {},
    }
    match &position.source_line {
        Some(source) => {
            if source.as_str().unicode_len() > 0 {
                let mut line = String::new();
                line.append("source: ");
                line.append(source.as_str());
                lines.push(line);
            }
        },
        None => {},
    }
    proof {
        assert(views(lines@) =~= position_header(workspace_root@, *position));
    }
    lines
}

/// The name of a goto target.
pub open spec fn target_label(target: GotoTarget) -> Seq<char> {
    match target {
        GotoTarget::Definition => "definition"@,
        GotoTarget::Declaration => "declaration"@,
        GotoTarget::Type => "type definition"@,
    }
}

/// The singular and plural names of what a goto target finds.
pub open spec fn target_labels(target: GotoTarget) -> (Seq<char>, Seq<char>) {
    match target {
        GotoTarget::Definition => ("definition"@, "definitions"@),
        GotoTarget::Declaration => ("declaration"@, "declarations"@),
        GotoTarget::Type => ("type definition"@, "type definitions"@),
    }
}

/// The name of a goto target.
pub fn goto_target_name(target: GotoTarget) -> (res: &'static str)
    ensures
        res@ == target_label(target),
{
    match target {
        GotoTarget::Definition => "definition",
        GotoTarget::Declaration => "declaration",
        GotoTarget::Type => "type definition",
    }
}

/// The singular and plural names of what a goto target finds.
pub fn goto_target_labels(target: GotoTarget) -> (res: (&'static str, &'static str))
    ensures
        (res.0@, res.1@) == target_labels(target),
{
    match target {
        GotoTarget::Definition => ("definition", "definitions"),
        GotoTarget::Declaration => ("declaration", "declarations"),
        GotoTarget::Type => ("type definition", "type definitions"),
    }
}

/// The name of a symbol kind filter.
pub open spec fn filter_label(kind: SymbolKindFilter) -> Seq<char> {
    match kind {
        SymbolKindFilter::Class => "class"@,
        SymbolKindFilter::Function => "function"@,
        SymbolKindFilter::Method => "method"@,
    }
}

/// The name of a symbol kind filter.
pub fn workspace_kind_name(kind: SymbolKindFilter) -> (res: &'static str)
    ensures
        res@ == filter_label(kind),
{
    match kind {
        SymbolKindFilter::Class => "class",
        SymbolKindFilter::Function => "function",
        SymbolKindFilter::Method => "method",
    }
}

} // verus!

verus! {

/// What a location answer says when it found nothing.
pub open spec fn no_location_text(payload: LocationOutput) -> Seq<char> {
    let requested = requested_position_text(payload.workspace_root@, payload.position);
    match payload.position.symbol {
        Some(symbol) => match payload.target {
            Some(target) => "no "@ + target_label(target) + " found for symbol "@ + debug_quoted(
                symbol.name@,
            ) + " at "@ + requested,
            None => "no usages found for symbol "@ + debug_quoted(symbol.name@) + " at "@
                + requested,
        },
        None => "no symbol found at "@ + requested,
    }
}

/// The result line of a location answer that found nothing.
pub fn no_location_result(payload: &LocationOutput) -> (res: String)
    ensures
        res@ == no_location_text(*payload),
{
    let requested = format_requested_position(payload.workspace_root.as_str(), &payload.position);
    let mut out = String::new();
    match &payload.position.symbol {
        Some(symbol) => {
            let quoted = debug_quote(symbol.name.as_str());
            match payload.target {
                Some(target) => {
                    out.append("no ");
                    out.append(goto_target_name(target));
                    out.append(" found for symbol ");
                },
                None => {
                    out.append("no usages found for symbol ");
                },
            }
            out.append(quoted.as_str());
            out.append(" at ");
        },
        None => {
            out.append("no symbol found at ");
        },
    }
    out.append(requested.as_str());
    out
}

/// The summary of a location answer showing `shown` of `total` locations.
pub open spec fn location_summary_text(shown: nat, total: nat, payload: LocationOutput) -> Seq<
    char,
> {
    if shown == 0 {
        no_location_text(payload)
    } else {
        match payload.position.symbol {
            Some(symbol) => match payload.target {
                Some(target) => summary_count_text(
                    shown,
                    total,
                    target_labels(target).0,
                    target_labels(target).1,
                ) + " for "@ + symbol.name@,
                None => summary_count_text(shown, total, "usage"@, "usages"@) + " of "@
                    + symbol.name@,
            },
            None => summary_count_text(shown, total, "location"@, "locations"@),
        }
    }
}

/// The summary of a location answer.
pub fn location_summary(shown: usize, total: usize, payload: &LocationOutput) -> (res: String)
    ensures
        res@ == location_summary_text(shown as nat, total as nat, *payload),
{
    if shown == 0 {
        return no_location_result(payload);
    }
    match &payload.position.symbol {
        Some(symbol) => match payload.target {
            Some(target) => {
                let (singular, plural) = goto_target_labels(target);
                let mut out = format_summary_count(shown, total, singular, plural);
                out.append(" for ");
                out.append(symbol.name.as_str());
                out
            },
            None => {
                let mut out = format_summary_count(shown, total, "usage", "usages");
                out.append(" of ");
                out.append(symbol.name.as_str());
                out
            },
        },
        None => format_summary_count(shown, total, "location", "locations"),
    }
}

/// The summary of a workspace symbol answer showing `shown` of `total` symbols.
pub open spec fn workspace_symbol_summary_text(shown: nat, total: nat, query: Seq<char>) -> Seq<
    char,
> {
    if shown == 0 {
        "no symbols found for query "@ + debug_quoted(query)
    } else {
        summary_count_text(shown, total, "symbol"@, "symbols"@) + " for query "@ + debug_quoted(
            query,
        )
    }
}

/// The summary of a workspace symbol answer.
pub fn workspace_symbol_summary(shown: usize, total: usize, query: &str) -> (res: String)
    ensures
        res@ == workspace_symbol_summary_text(shown as nat, total as nat, query@),
{
    let quoted = debug_quote(query);
    if shown == 0 {
        let mut out = String::new();
        out.append("no symbols found for query ");
        out.append(quoted.as_str());
        return out;
    }
    let mut out = format_summary_count(shown, total, "symbol", "symbols");
    out.append(" for query ");
    out.append(quoted.as_str());
    out
}

/// The summary of an inspect answer.
pub open spec fn symbol_at_summary_text(root: Seq<char>, payload: SymbolAtOutput) -> Seq<char> {
    match payload.symbol {
        Some(symbol) => "found symbol "@ + debug_quoted(symbol.name@),
        None => "no symbol found at "@ + requested_position_text(root, payload.position),
    }
}

/// The summary of an inspect answer.
pub fn symbol_at_summary(workspace_root: &str, payload: &SymbolAtOutput) -> (res: String)
    ensures
        res@ == symbol_at_summary_text(workspace_root@, *payload),
{
    let mut out = String::new();
    match &payload.symbol {
        Some(symbol) => {
            out.append("found symbol ");
            let quoted = debug_quote(symbol.name.as_str());
            out.append(quoted.as_str());
        },
        None => {
            out.append("no symbol found at ");
            let requested = format_requested_position(workspace_root, &payload.position);
            out.append(requested.as_str());
        },
    }
    out
}

/// The summary of an outline answer showing `shown` of `total` top-level symbols of `file`.
pub open spec fn outline_summary_text(
    shown: nat,
    total: nat,
    root: Seq<char>,
    file: Seq<char>,
) -> Seq<char> {
    let display_file = display_path_text(root, file);
    if shown == 0 {
        "no symbols found in "@ + display_file
    } else {
        summary_count_text(shown, total, "top-level symbol"@, "top-level symbols"@) + " in "@
            + display_file
    }
}

/// The summary of an outline answer.
pub fn outline_summary(shown: usize, total: usize, workspace_root: &str, file: &str) -> (res:
    String)
    ensures
        res@ == outline_summary_text(shown as nat, total as nat, workspace_root@, file@),
{
    let display_file = display_path(workspace_root, file);
    if shown == 0 {
        let mut out = String::new();
        out.append("no symbols found in ");
        out.append(display_file.as_str());
        return out;
    }
    let mut out = format_summary_count(shown, total, "top-level symbol", "top-level symbols");
    out.append(" in ");
    out.append(display_file.as_str());
    out
}

} // verus!

verus! {

/// The outline line of one symbol at nesting `depth`.
pub open spec fn outline_entry_text(symbol: DocumentSymbolNode, depth: nat) -> Seq<char> {
    indent_spaces(depth) + "- "@ + symbol.name@ + " ["@ + kind_label(symbol.kind) + "] @ "@
        + decimal(symbol.range.start.line as nat) + seq![':'] + decimal(
        symbol.range.start.column as nat,
    )
}

/// The outline lines of a symbol and, below it and one level deeper, those of its children.
pub open spec fn tree_lines(symbol: DocumentSymbolNode, depth: nat) -> Seq<Seq<char>>
    decreases symbol,
{
    seq![outline_entry_text(symbol, depth)] + forest_lines(symbol.children@, depth + 1)
}

/// The outline lines of several symbols, one after the other, at the same nesting depth.
pub open spec fn forest_lines(symbols: Seq<DocumentSymbolNode>, depth: nat) -> Seq<Seq<char>>
    decreases symbols,
{
    if symbols.len() == 0 {
        Seq::empty()
    } else {
        forest_lines(symbols.drop_last(), depth) + tree_lines(symbols.last(), depth)
    }
}

fn push_outline_tree(
    symbol: &DocumentSymbolNode,
    prefix: &String,
    Ghost(depth): Ghost<nat>,
    out: &mut Vec<String>,
)
    requires
        prefix@ == indent_spaces(depth),
    ensures
        views(final(out)@) == views(old(out)@) + tree_lines(*symbol, depth),
    decreases symbol,
{
    let mut line = String::new();
    line.append(prefix.as_str());
    line.append("- ");
    line.append(symbol.name.as_str());
    line.append(" [");
    line.append(symbol_kind_name(symbol.kind));
    line.append("] @ ");
    push_decimal(&mut line, symbol.range.start.line);
    line.push(':');
    push_decimal(&mut line, symbol.range.start.column);
    let ghost start = views(out@);
    proof {
        assert(line@ == outline_entry_text(*symbol, depth));
        lemma_views_push(out@, line);
    }
    out.push(line);
    let mut child_prefix = String::new();
    child_prefix.append(prefix.as_str());
    child_prefix.append("  ");
    proof {
        reveal_strlit("  ");
        assert(child_prefix@ =~= indent_spaces(depth + 1));
    }
    let n = symbol.children.len();
    let mut i: usize = 0;
    while i < n
        invariant
            n == symbol.children@.len(),
            i <= n,
            child_prefix@ == indent_spaces(depth + 1),
            views(out@) == start + seq![outline_entry_text(*symbol, depth)] + forest_lines(
                symbol.children@.take(i as int),
                depth + 1,
            ),
        decreases n - i,
    {
        proof {
            let t = symbol.children@.take(i + 1);
            assert(t.drop_last() == symbol.children@.take(i as int));
            assert(t.last() == symbol.children@[i as int]);
        }
        push_outline_tree(&symbol.children[i], &child_prefix, Ghost(depth + 1), out);
        i = i + 1;
        proof {
            assert(views(out@) =~= start + seq![outline_entry_text(*symbol, depth)]
                + forest_lines(symbol.children@.take(i as int), depth + 1));
        }
    }
    proof {
        assert(symbol.children@.take(n as int) == symbol.children@);
        assert(views(out@) =~= views(old(out)@) + tree_lines(*symbol, depth));
    }
}

/// The outline lines of `symbol` and its descendants, starting at nesting `indent`.
pub fn format_outline_tree(symbol: &DocumentSymbolNode, indent: usize) -> (res: Vec<String>)
    ensures
        views(res@) == tree_lines(*symbol, indent as nat),
{
    let prefix = indent_prefix(indent);
    let mut out: Vec<String> = Vec::new();
    push_outline_tree(symbol, &prefix, Ghost(indent as nat), &mut out);
    proof {
        assert(views(Seq::<String>::empty()) =~= Seq::<Seq<char>>::empty());
        assert(Seq::<Seq<char>>::empty() + tree_lines(*symbol, indent as nat) == tree_lines(
            *symbol,
            indent as nat,
        ));
    }
    out
}

} // verus!

verus! {

/// The items of `items` that satisfy `keep`, in their order.
pub open spec fn filter_by<T>(items: Seq<T>, keep: spec_fn(T) -> bool) -> Seq<T>
    decreases items.len(),
{
    if items.len() == 0 {
        Seq::empty()
    } else if keep(items.last()) {
        filter_by(items.drop_last(), keep).push(items.last())
    } else {
        filter_by(items.drop_last(), keep)
    }
}

/// Whether a symbol passes an optional kind filter.
pub open spec fn kind_admits(filter: Option<SymbolKindFilter>) -> spec_fn(WorkspaceSymbolRecord) -> bool {
    |symbol: WorkspaceSymbolRecord|
        match filter {
            Some(f) => symbol.kind == crate::model::filter_kind(f),
            None => true,
        }
}

/// Whether a symbol's name is the query, case included.
pub open spec fn name_is(query: Seq<char>) -> spec_fn(WorkspaceSymbolRecord) -> bool {
    |symbol: WorkspaceSymbolRecord| symbol.name@ == query
}

/// Whether a symbol's name is the query once ASCII case is ignored.
pub open spec fn name_is_ignoring_case(query: Seq<char>) -> spec_fn(WorkspaceSymbolRecord) -> bool {
    |symbol: WorkspaceSymbolRecord| eq_ignore_ascii_case(symbol.name@, query)
}

/// The symbols a search answer lists for `query`: those named exactly the query
/// if there are any; else those named the query up to ASCII case if there are
/// any; else all of them. The order is kept.
pub open spec fn selected_symbols(query: Seq<char>, symbols: Seq<WorkspaceSymbolRecord>) -> Seq<
    WorkspaceSymbolRecord,
> {
    let exact = filter_by(symbols, name_is(query));
    let folded = filter_by(symbols, name_is_ignoring_case(query));
    if exact.len() > 0 {
        exact
    } else if folded.len() > 0 {
        folded
    } else {
        symbols
    }
}

/// The records that a sequence of references points to.
pub open spec fn deref_all<'a>(refs: Seq<&'a WorkspaceSymbolRecord>) -> Seq<WorkspaceSymbolRecord> {
    refs.map_values(|r: &'a WorkspaceSymbolRecord| *r)
}

proof fn lemma_filter_step<T>(items: Seq<T>, keep: spec_fn(T) -> bool, i: int)
    requires
        0 <= i < items.len(),
    ensures
        filter_by(items.take(i + 1), keep) == if keep(items[i]) {
            filter_by(items.take(i), keep).push(items[i])
        } else {
            filter_by(items.take(i), keep)
        },
{
    assert(items.take(i + 1).drop_last() == items.take(i));
    assert(items.take(i + 1).last() == items[i]);
}

proof fn lemma_deref_push<'a>(refs: Seq<&'a WorkspaceSymbolRecord>, r: &'a WorkspaceSymbolRecord)
    ensures
        deref_all(refs.push(r)) == deref_all(refs).push(*r),
{
    assert(deref_all(refs.push(r)) =~= deref_all(refs).push(*r));
}

fn symbols_named<'a>(query: &str, symbols: &Vec<&'a WorkspaceSymbolRecord>, ignore_case: bool) -> (res: Vec<
    &'a WorkspaceSymbolRecord,
>)
    ensures
        deref_all(res@) == filter_by(
            deref_all(symbols@),
            if ignore_case {
                name_is_ignoring_case(query@)
            } else {
                name_is(query@)
            },
        ),
{
    let ghost keep = if ignore_case {
        name_is_ignoring_case(query@)
    } else {
        name_is(query@)
    };
    let ghost all = deref_all(symbols@);
    let mut out: Vec<&'a WorkspaceSymbolRecord> = Vec::new();
    let n = symbols.len();
    let mut i: usize = 0;
    proof {
        assert(deref_all(out@) =~= filter_by(all.take(0), keep));
    }
    while i < n
        invariant
            n == symbols@.len(),
            all == deref_all(symbols@),
            i <= n,
            keep == (if ignore_case {
                name_is_ignoring_case(query@)
            } else {
                name_is(query@)
            }),
            deref_all(out@) == filter_by(all.take(i as int), keep),
        decreases n - i,
    {
        let symbol: &'a WorkspaceSymbolRecord = symbols[i];
        proof {
            lemma_filter_step(all, keep, i as int);
            lemma_deref_push(out@, symbol);
        }
        let hit = if ignore_case {
            str_eq_ignore_ascii_case(symbol.name.as_str(), query)
        } else {
            str_eq(symbol.name.as_str(), query)
        };
        if hit {
            out.push(symbol);
        }
        i = i + 1;
    }
    proof {
        assert(all.take(n as int) == all);
    }
    out
}

/// The symbols to list for `query`: exact matches first, then matches up to ASCII case, then all.
pub fn select_workspace_symbols<'a>(query: &str, symbols: Vec<&'a WorkspaceSymbolRecord>) -> (res:
    Vec<&'a WorkspaceSymbolRecord>)
    ensures
        deref_all(res@) == selected_symbols(query@, deref_all(symbols@)),
{
    let exact_case_sensitive = symbols_named(query, &symbols, false);
    if exact_case_sensitive.len() > 0 {
        return exact_case_sensitive;
    }
    let exact_case_insensitive = symbols_named(query, &symbols, true);
    if exact_case_insensitive.len() > 0 {
        return exact_case_insensitive;
    }
    symbols
}

fn symbols_of_kind<'a>(symbols: &'a Vec<WorkspaceSymbolRecord>, filter: Option<SymbolKindFilter>) -> (res: Vec<
    &'a WorkspaceSymbolRecord,
>)
    ensures
        deref_all(res@) == filter_by(symbols@, kind_admits(filter)),
{
    let mut out: Vec<&'a WorkspaceSymbolRecord> = Vec::new();
    let n = symbols.len();
    let mut i: usize = 0;
    proof {
        assert(deref_all(out@) =~= filter_by(symbols@.take(0), kind_admits(filter)));
    }
    while i < n
        invariant
            n == symbols@.len(),
            i <= n,
            deref_all(out@) == filter_by(symbols@.take(i as int), kind_admits(filter)),
        decreases n - i,
    {
        let symbol: &'a WorkspaceSymbolRecord = &symbols[i];
        proof {
            lemma_filter_step(symbols@, kind_admits(filter), i as int);
            lemma_deref_push(out@, symbol);
        }
        let keep = match filter {
            Some(f) => f.matches(symbol.kind),
            None => true,
        };
        if keep {
            out.push(symbol);
        }
        i = i + 1;
    }
    proof {
        assert(symbols@.take(n as int) == symbols@);
    }
    out
}

} // verus!

verus! {

/// The lines of one found location: its number and place, and its context when known.
pub open spec fn location_entry_lines(root: Seq<char>, index: nat, location: LocationRecord) -> Seq<
    Seq<char>,
> {
    let head = decimal(index + 1) + ". "@ + location_text(root, location);
    match location.snippet {
        Some(snippet) => seq![head, "   context: "@ + snippet@],
        None => seq![head],
    }
}

/// The lines of the found locations, numbered from one.
pub open spec fn location_entries(root: Seq<char>, locations: Seq<LocationRecord>) -> Seq<
    Seq<char>,
>
    decreases locations.len(),
{
    if locations.len() == 0 {
        Seq::empty()
    } else {
        location_entries(root, locations.drop_last()) + location_entry_lines(
            root,
            (locations.len() - 1) as nat,
            locations.last(),
        )
    }
}

/// The lines of a location answer, of which at most `limit` locations are listed.
pub open spec fn location_output_lines(limit: Option<usize>, payload: LocationOutput) -> Seq<
    Seq<char>,
> {
    let root = payload.workspace_root@;
    let total = payload.locations@.len();
    let shown = limited(payload.locations@, limit);
    let target: Seq<Seq<char>> = match payload.target {
        Some(t) => seq!["target: "@ + target_label(t)],
        None => Seq::empty(),
    };
    let head = seq!["summary: "@ + location_summary_text(shown.len(), total, payload)]
        + position_header(root, payload.position) + target + seq![
        "items: "@ + count_text(shown.len(), total, "items"@),
    ];
    if shown.len() == 0 {
        head.push("result: "@ + no_location_text(payload))
    } else {
        head.push("results:"@) + location_entries(root, shown)
    }
}

/// The text of a `goto` or `usages` answer, listing at most `limit` locations.
pub fn render_location_output(limit: Option<usize>, payload: &LocationOutput) -> (res: String)
    ensures
        res@ == join_lines(location_output_lines(limit, *payload)),
{
    let root = payload.workspace_root.as_str();
    let total_items = payload.locations.len();
    let locations = apply_limit(payload.locations.as_slice(), limit);
    let shown = locations.len();
    let ghost shown_seq = limited(payload.locations@, limit);
    let mut lines: Vec<String> = Vec::new();
    let summary = location_summary(shown, total_items, payload);
    push_line(&mut lines, labeled("summary: ", summary.as_str()));
    push_lines(&mut lines, build_position_header(root, &payload.position));
    match payload.target {
        Some(target) => {
            push_line(&mut lines, labeled("target: ", goto_target_name(target)));
        },
        None => {},
    }
    let items = format_count(shown, total_items, "items");
    push_line(&mut lines, labeled("items: ", items.as_str()));
    let ghost head = seq!["summary: "@ + location_summary_text(shown as nat, total_items as nat, *payload)]
        + position_header(root@, payload.position) + (match payload.target {
            Some(t) => seq!["target: "@ + target_label(t)],
            None => Seq::<Seq<char>>::empty(),
        }) + seq!["items: "@ + count_text(shown as nat, total_items as nat, "items"@)];
    proof {
        assert(views(lines@) =~= head);
    }
    if shown == 0 {
        let result = no_location_result(payload);
        push_line(&mut lines, labeled("result: ", result.as_str()));
        return join_with_newlines(&lines);
    }
    push_line(&mut lines, String::from_str("results:"));
    proof {
        assert(views(lines@) =~= head.push("results:"@) + location_entries(root@, shown_seq.take(0)));
    }
    let mut i: usize = 0;
    while i < shown
        invariant
            shown == locations@.len(),
            locations@ == shown_seq,
            i <= shown,
            views(lines@) == head.push("results:"@) + location_entries(root@, shown_seq.take(i as int)),
        decreases shown - i,
    {
        let location = &locations[i];
        let mut entry = String::new();
        push_decimal(&mut entry, i + 1);
        entry.append(". ");
        let place = format_location(root, location);
        entry.append(place.as_str());
        let ghost before = views(lines@);
        push_line(&mut lines, entry);
        match &location.snippet {
            Some(snippet) => {
                push_line(&mut lines, labeled("   context: ", snippet.as_str()));
            },
            None => {},
        }
        proof {
            let t = shown_seq.take(i + 1);
            assert(t.drop_last() == shown_seq.take(i as int));
            assert(t.last() == *location);
            assert(views(lines@) =~= before + location_entry_lines(root@, i as nat, *location));
        }
        i = i + 1;
    }
    proof {
        assert(shown_seq.take(shown as int) == shown_seq);
    }
    join_with_newlines(&lines)
}

} // verus!

verus! {

/// The lines of one listed symbol: its number, name and kind; where it is; its
/// container and its context when known.
pub open spec fn symbol_entry_lines(root: Seq<char>, index: nat, symbol: WorkspaceSymbolRecord) -> Seq<
    Seq<char>,
> {
    let head = decimal(index + 1) + ". "@ + symbol.name@ + " ["@ + kind_label(symbol.kind) + seq![
        ']',
    ];
    let place = "   location: "@ + workspace_position_text(
        root,
        symbol.file@,
        symbol.range.start.line,
        Some(symbol.range.start.column),
    );
    let container: Seq<Seq<char>> = match symbol.container_name {
        Some(c) => seq!["   container: "@ + c@],
        None => Seq::empty(),
    };
    let context: Seq<Seq<char>> = match symbol.snippet {
        Some(s) => seq!["   context: "@ + s@],
        None => Seq::empty(),
    };
    seq![head, place] + container + context
}

/// The lines of the listed symbols, numbered from one.
pub open spec fn symbol_entries(root: Seq<char>, symbols: Seq<WorkspaceSymbolRecord>) -> Seq<
    Seq<char>,
>
    decreases symbols.len(),
{
    if symbols.len() == 0 {
        Seq::empty()
    } else {
        symbol_entries(root, symbols.drop_last()) + symbol_entry_lines(
            root,
            (symbols.len() - 1) as nat,
            symbols.last(),
        )
    }
}

/// The symbols a search answer selects: those the kind filter admits, narrowed to
/// the best matches of the query.
pub open spec fn matching_symbols(
    payload: WorkspaceSymbolOutput,
    kind_filter: Option<SymbolKindFilter>,
) -> Seq<WorkspaceSymbolRecord> {
    selected_symbols(payload.query@, filter_by(payload.symbols@, kind_admits(kind_filter)))
}

/// The lines of a workspace symbol answer, of which at most `limit` symbols are listed.
pub open spec fn workspace_symbol_output_lines(
    limit: Option<usize>,
    payload: WorkspaceSymbolOutput,
    kind_filter: Option<SymbolKindFilter>,
) -> Seq<Seq<char>> {
    let root = payload.workspace_root@;
    let selected = matching_symbols(payload, kind_filter);
    let total = selected.len();
    let shown = limited(selected, limit);
    let kind: Seq<Seq<char>> = match kind_filter {
        Some(k) => seq!["kind: "@ + filter_label(k)],
        None => Seq::empty(),
    };
    let head = seq![
        "summary: "@ + workspace_symbol_summary_text(shown.len(), total, payload.query@),
        "query: "@ + payload.query@,
    ] + kind + seq!["items: "@ + count_text(shown.len(), total, "symbols"@)];
    if shown.len() == 0 {
        head.push("result: no symbols found for query "@ + debug_quoted(payload.query@))
    } else {
        head.push("results:"@) + symbol_entries(root, shown)
    }
}

/// The text of a workspace symbol answer: the symbols of the kind asked for, narrowed
/// to the best matches of the query, at most `limit` of them listed.
pub fn render_workspace_symbol_output(
    limit: Option<usize>,
    payload: &WorkspaceSymbolOutput,
    kind_filter: Option<SymbolKindFilter>,
) -> (res: String)
    ensures
        res@ == join_lines(workspace_symbol_output_lines(limit, *payload, kind_filter)),
{
    let root = payload.workspace_root.as_str();
    let query = payload.query.as_str();
    let candidates = symbols_of_kind(&payload.symbols, kind_filter);
    let mut symbols = select_workspace_symbols(query, candidates);
    let total_items = symbols.len();
    let ghost selected = matching_symbols(*payload, kind_filter);
    match limit {
        Some(n) => {
            symbols.truncate(n);
        },
        None => {},
    }
    let ghost shown_seq = limited(selected, limit);
    proof {
        assert(deref_all(symbols@) =~= shown_seq);
    }
    let shown = symbols.len();
    let mut lines: Vec<String> = Vec::new();
    let summary = workspace_symbol_summary(shown, total_items, query);
    push_line(&mut lines, labeled("summary: ", summary.as_str()));
    push_line(&mut lines, labeled("query: ", query));
    match kind_filter {
        Some(k) => {
            push_line(&mut lines, labeled("kind: ", workspace_kind_name(k)));
        },
        None => {},
    }
    let items = format_count(shown, total_items, "symbols");
    push_line(&mut lines, labeled("items: ", items.as_str()));
    let ghost head = seq![
        "summary: "@ + workspace_symbol_summary_text(shown as nat, total_items as nat, query@),
        "query: "@ + query@,
    ] + (match kind_filter {
        Some(k) => seq!["kind: "@ + filter_label(k)],
        None => Seq::<Seq<char>>::empty(),
    }) + seq!["items: "@ + count_text(shown as nat, total_items as nat, "symbols"@)];
    proof {
        assert(views(lines@) =~= head);
    }
    if shown == 0 {
        let quoted = debug_quote(query);
        push_line(&mut lines, labeled("result: no symbols found for query ", quoted.as_str()));
        return join_with_newlines(&lines);
    }
    push_line(&mut lines, String::from_str("results:"));
    proof {
        assert(views(lines@) =~= head.push("results:"@) + symbol_entries(root@, shown_seq.take(0)));
    }
    let mut i: usize = 0;
    while i < shown
        invariant
            shown == symbols@.len(),
            deref_all(symbols@) == shown_seq,
            i <= shown,
            views(lines@) == head.push("results:"@) + symbol_entries(root@, shown_seq.take(i as int)),
        decreases shown - i,
    {
        let symbol: &WorkspaceSymbolRecord = symbols[i];
        let ghost before = views(lines@);
        let mut entry = String::new();
        push_decimal(&mut entry, i + 1);
        entry.append(". ");
        entry.append(symbol.name.as_str());
        entry.append(" [");
        entry.append(symbol_kind_name(symbol.kind));
        entry.push(']');
        let ghost head_line = entry@;
        push_line(&mut lines, entry);
        let place = format_workspace_position(
            root,
            symbol.file.as_str(),
            symbol.range.start.line,
            Some(symbol.range.start.column),
        );
        push_line(&mut lines, labeled("   location: ", place.as_str()));
        let ghost after_place = views(lines@);
        proof {
            assert(head_line == decimal(i as nat + 1) + ". "@ + symbol.name@ + " ["@ + kind_label(symbol.kind) + seq![']']);
            assert(after_place =~= before + seq![head_line, "   location: "@ + place@]);
        }
        match &symbol.container_name {
            Some(container) => {
                push_line(&mut lines, labeled("   container: ", container.as_str()));
            },
            None => {},
        }
        match &symbol.snippet {
            Some(snippet) => {
                push_line(&mut lines, labeled("   context: ", snippet.as_str()));
            },
            None => {},
        }
        proof {
            let t = shown_seq.take(i + 1);
            assert(t.drop_last() == shown_seq.take(i as int));
            assert(t.last() == *symbol);
            assert(views(lines@) =~= before + symbol_entry_lines(root@, i as nat, *symbol));
        }
        i = i + 1;
    }
    proof {
        assert(shown_seq.take(shown as int) == shown_seq);
    }
    join_with_newlines(&lines)
}

} // verus!

verus! {

/// The lines that describe the symbol an inspect answer found, with the hover
/// text (when it is not blank) indented below "hover:".
pub open spec fn found_symbol_lines(symbol: SymbolAtRecord, hover: Option<String>) -> Seq<Seq<char>> {
    let kind: Seq<Seq<char>> = match symbol.kind {
        Some(k) => seq!["kind: "@ + kind_label(k)],
        None => Seq::empty(),
    };
    let detail: Seq<Seq<char>> = match symbol.detail {
        Some(d) => seq!["detail: "@ + d@],
        None => Seq::empty(),
    };
    let hover_lines: Seq<Seq<char>> = match hover {
        Some(h) => if !is_blank(h@) {
            seq!["hover:"@] + prefixed("  "@, text_lines(h@))
        } else {
            Seq::empty()
        },
        None => Seq::empty(),
    };
    seq!["result: found symbol "@ + debug_quoted(symbol.name@), "symbol: "@ + symbol.name@] + kind
        + seq![
        "range: columns "@ + decimal(symbol.start_column as nat) + seq!['-'] + decimal(
            symbol.end_column as nat,
        ),
    ] + detail + hover_lines
}

/// The lines of an inspect answer.
pub open spec fn symbol_at_output_lines(payload: SymbolAtOutput) -> Seq<Seq<char>> {
    let root = payload.workspace_root@;
    let head = seq!["summary: "@ + symbol_at_summary_text(root, payload)] + position_header(
        root,
        payload.position,
    );
    match payload.symbol {
        Some(symbol) => head + found_symbol_lines(symbol, payload.hover),
        None => head.push(
            "result: no symbol found at "@ + requested_position_text(root, payload.position),
        ),
    }
}

fn push_found_symbol(lines: &mut Vec<String>, symbol: &SymbolAtRecord, hover: &Option<String>)
    ensures
        views(final(lines)@) == views(old(lines)@) + found_symbol_lines(*symbol, *hover),
{
    let ghost start = views(lines@);
    let quoted = debug_quote(symbol.name.as_str());
    push_line(lines, labeled("result: found symbol ", quoted.as_str()));
    push_line(lines, labeled("symbol: ", symbol.name.as_str()));
    let ghost after_name = views(lines@);
    match symbol.kind {
        Some(kind) => {
            push_line(lines, labeled("kind: ", symbol_kind_name(kind)));
        },
        None => {},
    }
    let ghost after_kind = views(lines@);
    let mut range = String::new();
    range.append("range: columns ");
    push_decimal(&mut range, symbol.start_column);
    range.push('-');
    push_decimal(&mut range, symbol.end_column);
    let ghost range_line = range@;
    push_line(lines, range);
    let ghost after_range = views(lines@);
    match &symbol.detail {
        Some(detail) => {
            push_line(lines, labeled("detail: ", detail.as_str()));
        },
        None => {},
    }
    let ghost after_detail = views(lines@);
    match hover {
        Some(text) => {
            if !str_is_blank(text.as_str()) {
                push_line(lines, String::from_str("hover:"));
                push_lines(lines, indent_block(text.as_str(), "  "));
            }
        },
        None => {},
    }
    proof {
        assert(range_line == "range: columns "@ + decimal(symbol.start_column as nat) + seq!['-']
            + decimal(symbol.end_column as nat));
        assert(views(lines@) =~= start + found_symbol_lines(*symbol, *hover));
    }
}

/// The text of an inspect answer: the symbol under the cursor, its kind, range,
/// detail and hover text, or that no symbol was found.
pub fn render_symbol_at_output(payload: &SymbolAtOutput) -> (res: String)
    ensures
        res@ == join_lines(symbol_at_output_lines(*payload)),
{
    let root = payload.workspace_root.as_str();
    let mut lines: Vec<String> = Vec::new();
    let summary = symbol_at_summary(root, payload);
    push_line(&mut lines, labeled("summary: ", summary.as_str()));
    push_lines(&mut lines, build_position_header(root, &payload.position));
    let ghost head = views(lines@);
    proof {
        assert(head =~= seq!["summary: "@ + symbol_at_summary_text(root@, *payload)]
            + position_header(root@, payload.position));
    }
    match &payload.symbol {
        Some(symbol) => {
            push_found_symbol(&mut lines, symbol, &payload.hover);
        },
        None => {
            let requested = format_requested_position(root, &payload.position);
            push_line(&mut lines, labeled("result: no symbol found at ", requested.as_str()));
        },
    }
    join_with_newlines(&lines)
}

/// The lines of an outline answer, of which at most `limit` top-level symbols are listed.
pub open spec fn outline_output_lines(limit: Option<usize>, payload: OutlineOutput) -> Seq<
    Seq<char>,
> {
    let root = payload.workspace_root@;
    let total = payload.symbols@.len();
    let shown = limited(payload.symbols@, limit);
    let depth = match payload.depth {
        Some(d) => decimal(d as nat),
        None => "full"@,
    };
    let head = seq![
        "summary: "@ + outline_summary_text(shown.len(), total, root, payload.file@),
        "file: "@ + display_path_text(root, payload.file@),
        "depth: "@ + depth,
        "items: "@ + count_text(shown.len(), total, "top-level symbols"@),
    ];
    if shown.len() == 0 {
        head.push("result: no symbols found in "@ + display_path_text(root, payload.file@))
    } else {
        head.push("tree:"@) + forest_lines(shown, 0)
    }
}

/// The text of an outline answer: a tree of the file's symbols, at most `limit`
/// top-level ones with all that is nested in them.
pub fn render_outline_output(limit: Option<usize>, payload: &OutlineOutput) -> (res: String)
    ensures
        res@ == join_lines(outline_output_lines(limit, *payload)),
{
    let root = payload.workspace_root.as_str();
    let file = payload.file.as_str();
    let total_items = payload.symbols.len();
    let symbols = apply_limit(payload.symbols.as_slice(), limit);
    let shown = symbols.len();
    let ghost shown_seq = limited(payload.symbols@, limit);
    let mut lines: Vec<String> = Vec::new();
    let summary = outline_summary(shown, total_items, root, file);
    push_line(&mut lines, labeled("summary: ", summary.as_str()));
    let shown_file = display_path(root, file);
    push_line(&mut lines, labeled("file: ", shown_file.as_str()));
    let depth = match payload.depth {
        Some(d) => usize_to_string(d),
        None => String::from_str("full"),
    };
    push_line(&mut lines, labeled("depth: ", depth.as_str()));
    let items = format_count(shown, total_items, "top-level symbols");
    push_line(&mut lines, labeled("items: ", items.as_str()));
    let ghost head = views(lines@);
    proof {
        assert(head =~= seq![
            "summary: "@ + outline_summary_text(shown as nat, total_items as nat, root@, file@),
            "file: "@ + display_path_text(root@, file@),
            "depth: "@ + (match payload.depth {
                Some(d) => decimal(d as nat),
                None => "full"@,
            }),
            "items: "@ + count_text(shown as nat, total_items as nat, "top-level symbols"@),
        ]);
    }
    if shown == 0 {
        push_line(&mut lines, labeled("result: no symbols found in ", shown_file.as_str()));
        proof {
            assert(shown_seq.len() == 0);
            assert(views(lines@) =~= outline_output_lines(limit, *payload));
        }
        return join_with_newlines(&lines);
    }
    push_line(&mut lines, String::from_str("tree:"));
    proof {
        assert(views(lines@) =~= head.push("tree:"@) + forest_lines(shown_seq.take(0), 0));
    }
    let mut i: usize = 0;
    while i < shown
        invariant
            shown == symbols@.len(),
            symbols@ == shown_seq,
            i <= shown,
            views(lines@) == head.push("tree:"@) + forest_lines(shown_seq.take(i as int), 0),
        decreases shown - i,
    {
        let ghost before = views(lines@);
        push_lines(&mut lines, format_outline_tree(&symbols[i], 0));
        proof {
            let t = shown_seq.take(i + 1);
            assert(t.drop_last() == shown_seq.take(i as int));
            assert(t.last() == symbols@[i as int]);
            assert(views(lines@) =~= head.push("tree:"@) + forest_lines(t, 0));
        }
        i = i + 1;
    }
    proof {
        assert(shown_seq.take(shown as int) == shown_seq);
        assert(views(lines@) =~= outline_output_lines(limit, *payload));
    }
    join_with_newlines(&lines)
}

} // verus!

verus! {

/// The singular name of what a goto target finds is the target's own name.
pub proof fn lemma_target_singular_is_name(target: GotoTarget)
    ensures
        target_labels(target).0 == target_label(target),
{
}

/// A kind filter and the symbols it admits carry the same name.
pub proof fn lemma_filter_named_as_its_kind(filter: SymbolKindFilter, kind: u32)
    requires
        kind == crate::model::filter_kind(filter),
    ensures
        filter_label(filter) == kind_label(kind),
{
}

/// A limit keeps the first items: `min(n, len)` of them under `Some(n)`, all under `None`.
pub proof fn lemma_limit_keeps_a_prefix<T>(items: Seq<T>, limit: Option<usize>)
    ensures
        limited(items, limit).len() == match limit {
            Some(n) => if n < items.len() {
                n as nat
            } else {
                items.len()
            },
            None => items.len(),
        },
        forall|i: int|
            0 <= i < limited(items, limit).len() ==> #[trigger] limited(items, limit)[i]
                == items[i],
{
}

proof fn lemma_filter_by_facts<T>(items: Seq<T>, keep: spec_fn(T) -> bool)
    ensures
        forall|i: int|
            0 <= i < filter_by(items, keep).len() ==> keep(#[trigger] filter_by(items, keep)[i]),
        forall|i: int|
            0 <= i < filter_by(items, keep).len() ==> items.contains(
                #[trigger] filter_by(items, keep)[i],
            ),
        (exists|i: int| 0 <= i < items.len() && keep(#[trigger] items[i])) ==> filter_by(
            items,
            keep,
        ).len() > 0,
    decreases items.len(),
{
    if items.len() > 0 {
        let p = items.drop_last();
        lemma_filter_by_facts(p, keep);
        let f = filter_by(items, keep);
        let fp = filter_by(p, keep);
        assert forall|i: int| 0 <= i < f.len() implies items.contains(#[trigger] f[i]) by {
            if i < fp.len() {
                assert(f[i] == fp[i]);
                let j = choose|j: int| 0 <= j < p.len() && p[j] == fp[i];
                assert(items[j] == p[j]);
            } else {
                assert(f[i] == items[items.len() - 1]);
            }
        }
        assert forall|i: int| 0 <= i < f.len() implies keep(#[trigger] f[i]) by {
            if i < fp.len() {
                assert(f[i] == fp[i]);
            }
        }
        if exists|i: int| 0 <= i < items.len() && keep(#[trigger] items[i]) {
            let i = choose|i: int| 0 <= i < items.len() && keep(#[trigger] items[i]);
            if i < items.len() - 1 {
                assert(p[i] == items[i]);
            }
        }
    }
}

/// The symbols a search lists are symbols of the answer; the list is empty only
/// when the answer has no symbols at all; and when some symbol is named exactly
/// the query, only such symbols are listed.
pub proof fn lemma_selection(query: Seq<char>, symbols: Seq<WorkspaceSymbolRecord>)
    ensures
        forall|i: int|
            0 <= i < selected_symbols(query, symbols).len() ==> symbols.contains(
                #[trigger] selected_symbols(query, symbols)[i],
            ),
        selected_symbols(query, symbols).len() == 0 <==> symbols.len() == 0,
        (exists|i: int| 0 <= i < symbols.len() && (#[trigger] symbols[i]).name@ == query) ==> forall|
            i: int,
        |
            0 <= i < selected_symbols(query, symbols).len() ==> (#[trigger] selected_symbols(
                query,
                symbols,
            )[i]).name@ == query,
{
    lemma_filter_by_facts(symbols, name_is(query));
    lemma_filter_by_facts(symbols, name_is_ignoring_case(query));
    let sel = selected_symbols(query, symbols);
    assert forall|i: int| 0 <= i < sel.len() implies symbols.contains(#[trigger] sel[i]) by {
        if filter_by(symbols, name_is(query)).len() == 0 && filter_by(symbols, name_is_ignoring_case(query)).len() == 0 {
            assert(symbols[i] == sel[i]);
        }
    }
    if exists|i: int| 0 <= i < symbols.len() && (#[trigger] symbols[i]).name@ == query {
        let i = choose|i: int| 0 <= i < symbols.len() && (#[trigger] symbols[i]).name@ == query;
        assert(name_is(query)(symbols[i]));
        assert forall|j: int| 0 <= j < sel.len() implies (#[trigger] sel[j]).name@ == query by {
            assert(name_is(query)(filter_by(symbols, name_is(query))[j]));
        }
    }
    if symbols.len() == 0 {
        assert(filter_by(symbols, name_is(query)).len() == 0);
        assert(filter_by(symbols, name_is_ignoring_case(query)).len() == 0);
    }
}

} // verus!

verus! {

/// When a location answer lists nothing, its summary and its result say the same thing.
pub proof fn lemma_empty_location_answer(limit: Option<usize>, payload: LocationOutput)
    requires
        limited(payload.locations@, limit).len() == 0,
    ensures
        location_output_lines(limit, payload)[0] == "summary: "@ + no_location_text(payload),
        location_output_lines(limit, payload).last() == "result: "@ + no_location_text(payload),
{
}

/// An inspect answer's result line repeats its summary.
pub proof fn lemma_inspect_result_repeats_summary(payload: SymbolAtOutput)
    ensures
        symbol_at_output_lines(payload)[0] == "summary: "@ + symbol_at_summary_text(
            payload.workspace_root@,
            payload,
        ),
        symbol_at_output_lines(payload)[1 + position_header(
            payload.workspace_root@,
            payload.position,
        ).len() as int] == "result: "@ + symbol_at_summary_text(payload.workspace_root@, payload),
{
    reveal_strlit("result: ");
    reveal_strlit("result: found symbol ");
    reveal_strlit("found symbol ");
    reveal_strlit("result: no symbol found at ");
    reveal_strlit("no symbol found at ");
    assert("result: found symbol "@ =~= "result: "@ + "found symbol "@);
    assert("result: no symbol found at "@ =~= "result: "@ + "no symbol found at "@);
    let root = payload.workspace_root@;
    let h = position_header(root, payload.position);
    let head = seq!["summary: "@ + symbol_at_summary_text(root, payload)] + h;
    match payload.symbol {
        Some(symbol) => {
            let found = found_symbol_lines(symbol, payload.hover);
            assert(found[0] == "result: found symbol "@ + debug_quoted(symbol.name@));
            assert((head + found)[1 + h.len() as int] == found[0]);
            assert("result: found symbol "@ + debug_quoted(symbol.name@) =~= "result: "@ + (
            "found symbol "@ + debug_quoted(symbol.name@)));
        },
        None => {
            let requested = requested_position_text(root, payload.position);
            assert("result: no symbol found at "@ + requested =~= "result: "@ + (
            "no symbol found at "@ + requested));
        },
    }
}

/// When a workspace symbol answer lists nothing, its summary and its result say the same thing.
pub proof fn lemma_empty_symbol_answer(
    limit: Option<usize>,
    payload: WorkspaceSymbolOutput,
    kind_filter: Option<SymbolKindFilter>,
)
    requires
        limited(matching_symbols(payload, kind_filter), limit).len() == 0,
    ensures
        workspace_symbol_output_lines(limit, payload, kind_filter)[0] == "summary: "@
            + workspace_symbol_summary_text(
            0,
            matching_symbols(payload, kind_filter).len(),
            payload.query@,
        ),
        workspace_symbol_output_lines(limit, payload, kind_filter).last() == "result: "@
            + workspace_symbol_summary_text(
            0,
            matching_symbols(payload, kind_filter).len(),
            payload.query@,
        ),
{
    reveal_strlit("result: ");
    reveal_strlit("result: no symbols found for query ");
    reveal_strlit("no symbols found for query ");
    let q = debug_quoted(payload.query@);
    assert("result: no symbols found for query "@ + q =~= "result: "@ + (
    "no symbols found for query "@ + q));
}

/// When an outline answer lists nothing, its summary and its result say the same thing.
pub proof fn lemma_empty_outline_answer(limit: Option<usize>, payload: OutlineOutput)
    requires
        limited(payload.symbols@, limit).len() == 0,
    ensures
        outline_output_lines(limit, payload)[0] == "summary: "@ + outline_summary_text(
            0,
            payload.symbols@.len(),
            payload.workspace_root@,
            payload.file@,
        ),
        outline_output_lines(limit, payload).last() == "result: "@ + outline_summary_text(
            0,
            payload.symbols@.len(),
            payload.workspace_root@,
            payload.file@,
        ),
{
    reveal_strlit("result: ");
    reveal_strlit("result: no symbols found in ");
    reveal_strlit("no symbols found in ");
    let f = display_path_text(payload.workspace_root@, payload.file@);
    assert("result: no symbols found in "@ + f =~= "result: "@ + ("no symbols found in "@ + f));
}

/// The number of symbols in a tree: the symbol and all that is nested in it.
pub open spec fn tree_size(symbol: DocumentSymbolNode) -> nat
    decreases symbol,
{
    1 + forest_size(symbol.children@)
}

/// The number of symbols in several trees.
pub open spec fn forest_size(symbols: Seq<DocumentSymbolNode>) -> nat
    decreases symbols,
{
    if symbols.len() == 0 {
        0
    } else {
        forest_size(symbols.drop_last()) + tree_size(symbols.last())
    }
}

/// An outline has one line for each symbol, nested ones included.
pub proof fn lemma_outline_line_per_symbol(symbols: Seq<DocumentSymbolNode>, depth: nat)
    ensures
        forest_lines(symbols, depth).len() == forest_size(symbols),
    decreases symbols,
{
    if symbols.len() > 0 {
        lemma_outline_line_per_symbol(symbols.drop_last(), depth);
        lemma_tree_line_per_symbol(symbols.last(), depth);
    }
}

/// A symbol's outline has one line for it and one for each symbol nested in it.
pub proof fn lemma_tree_line_per_symbol(symbol: DocumentSymbolNode, depth: nat)
    ensures
        tree_lines(symbol, depth).len() == tree_size(symbol),
    decreases symbol,
{
    lemma_outline_line_per_symbol(symbol.children@, depth + 1);
}

proof fn lemma_join_starts_with_first(lines: Seq<Seq<char>>)
    requires
        lines.len() > 0,
    ensures
        join_lines(lines).take(lines[0].len() as int) == lines[0],
        join_lines(lines).len() >= lines[0].len(),
    decreases lines.len(),
{
    if lines.len() > 1 {
        let p = lines.drop_last();
        lemma_join_starts_with_first(p);
        assert(p[0] == lines[0]);
        let j = join_lines(lines);
        assert(j == join_lines(p) + seq!['\n'] + lines.last());
        assert(j.take(lines[0].len() as int) =~= join_lines(p).take(lines[0].len() as int));
    }
}

/// Every answer's text begins with its summary line.
pub proof fn lemma_answers_open_with_summary(
    limit: Option<usize>,
    locations: LocationOutput,
    symbols: WorkspaceSymbolOutput,
    kind_filter: Option<SymbolKindFilter>,
    inspected: SymbolAtOutput,
    outline: OutlineOutput,
)
    ensures
        ({
            let s = "summary: "@ + location_summary_text(
                limited(locations.locations@, limit).len(),
                locations.locations@.len(),
                locations,
            );
            join_lines(location_output_lines(limit, locations)).take(s.len() as int) == s
        }),
        ({
            let sel = matching_symbols(symbols, kind_filter);
            let s = "summary: "@ + workspace_symbol_summary_text(
                limited(sel, limit).len(),
                sel.len(),
                symbols.query@,
            );
            join_lines(workspace_symbol_output_lines(limit, symbols, kind_filter)).take(
                s.len() as int,
            ) == s
        }),
        ({
            let s = "summary: "@ + symbol_at_summary_text(inspected.workspace_root@, inspected);
            join_lines(symbol_at_output_lines(inspected)).take(s.len() as int) == s
        }),
        ({
            let s = "summary: "@ + outline_summary_text(
                limited(outline.symbols@, limit).len(),
                outline.symbols@.len(),
                outline.workspace_root@,
                outline.file@,
            );
            join_lines(outline_output_lines(limit, outline)).take(s.len() as int) == s
        }),
{
    lemma_join_starts_with_first(location_output_lines(limit, locations));
    lemma_join_starts_with_first(workspace_symbol_output_lines(limit, symbols, kind_filter));
    lemma_join_starts_with_first(symbol_at_output_lines(inspected));
    lemma_join_starts_with_first(outline_output_lines(limit, outline));
}

} // verus!

verus! {

/// When some symbol is named exactly the query, a search lists exactly the
/// symbols named the query: all of them, in the order the answer gives them,
/// and nothing else.
pub proof fn lemma_exact_matches_are_all_listed(query: Seq<char>, symbols: Seq<WorkspaceSymbolRecord>)
    requires
        exists|i: int| 0 <= i < symbols.len() && (#[trigger] symbols[i]).name@ == query,
    ensures
        selected_symbols(query, symbols) == symbols.filter(
            |symbol: WorkspaceSymbolRecord| symbol.name@ == query,
        ),
{
    lemma_filter_by_facts(symbols, name_is(query));
    lemma_filter_by_is_filter(symbols, name_is(query));
    assert(name_is(query) =~= (|symbol: WorkspaceSymbolRecord| symbol.name@ == query));
}

proof fn lemma_filter_by_is_filter<T>(items: Seq<T>, keep: spec_fn(T) -> bool)
    ensures
        filter_by(items, keep) == items.filter(keep),
    decreases items.len(),
{
    reveal(Seq::filter);
    if items.len() > 0 {
        lemma_filter_by_is_filter(items.drop_last(), keep);
    }
}

/// The outline of several symbols is their own outlines one after the other, in
/// the order the symbols are given.
pub proof fn lemma_forest_in_order(symbols: Seq<DocumentSymbolNode>, depth: nat)
    ensures
        forest_lines(symbols, depth) == symbols.map_values(
            |s: DocumentSymbolNode| tree_lines(s, depth),
        ).flatten(),
    decreases symbols.len(),
{
    let f = |s: DocumentSymbolNode| tree_lines(s, depth);
    if symbols.len() == 0 {
        assert(symbols.map_values(f) =~= Seq::<Seq<Seq<char>>>::empty());
    } else {
        let p = symbols.drop_last();
        lemma_forest_in_order(p, depth);
        assert(symbols.map_values(f) =~= p.map_values(f).push(f(symbols.last())));
        p.map_values(f).lemma_flatten_push(f(symbols.last()));
    }
}

/// A symbol's outline is its own line followed by the outlines of its children,
/// one level deeper, in the order the children are given.
pub proof fn lemma_children_in_order(symbol: DocumentSymbolNode, depth: nat)
    ensures
        tree_lines(symbol, depth) == seq![outline_entry_text(symbol, depth)]
            + symbol.children@.map_values(|c: DocumentSymbolNode| tree_lines(c, depth + 1)).flatten(),
{
    lemma_forest_in_order(symbol.children@, depth + 1);
}

/// An outline answer shows the trees of its listed top-level symbols one after
/// the other, in the order the symbols are given.
pub proof fn lemma_outline_answer_in_order(limit: Option<usize>, payload: OutlineOutput)
    requires
        limited(payload.symbols@, limit).len() > 0,
    ensures
        outline_output_lines(limit, payload).skip(5) == limited(payload.symbols@, limit).map_values(
            |s: DocumentSymbolNode| tree_lines(s, 0),
        ).flatten(),
{
    lemma_forest_in_order(limited(payload.symbols@, limit), 0);
    let lines = outline_output_lines(limit, payload);
    assert(lines.skip(5) =~= forest_lines(limited(payload.symbols@, limit), 0));
}

/// Whatever else an inspect answer holds, when it found a symbol and the hover
/// text is not blank, it ends with "hover:" and then each line of the hover text
/// after two spaces.
pub proof fn lemma_hover_always_shown(payload: SymbolAtOutput)
    requires
        payload.symbol is Some,
        payload.hover is Some,
        !is_blank(payload.hover->0@),
    ensures
        ({
            let lines = symbol_at_output_lines(payload);
            let hover = text_lines(payload.hover->0@);
            &&& lines.len() >= hover.len() + 1
            &&& lines[lines.len() - hover.len() - 1] == "hover:"@
            &&& forall|i: int|
                0 <= i < hover.len() ==> #[trigger] lines[lines.len() - hover.len() + i] == "  "@
                    + hover[i]
        }),
{
    let lines = symbol_at_output_lines(payload);
    let hover = text_lines(payload.hover->0@);
    let tail = seq!["hover:"@] + prefixed("  "@, hover);
    let symbol = payload.symbol->0;
    let root = payload.workspace_root@;
    let head = seq!["summary: "@ + symbol_at_summary_text(root, payload)] + position_header(
        root,
        payload.position,
    );
    let found = found_symbol_lines(symbol, payload.hover);
    assert(found == found.subrange(0, found.len() - tail.len()) + tail) by {
        assert(found.subrange(0, found.len() - tail.len()) + tail =~= found);
    }
    assert(lines == head + found);
    assert forall|i: int| 0 <= i < hover.len() implies #[trigger] lines[lines.len() - hover.len() + i]
        == "  "@ + hover[i] by {
        assert(lines[lines.len() - hover.len() + i] == tail[1 + i]);
    }
    assert(lines[lines.len() - hover.len() - 1] == tail[0]);
}

/// The words a location summary counts with: the target's name for a goto, "usage"
/// for usages, "location" when no symbol was found, and "s" after it for more than one.
pub open spec fn counted_noun(payload: LocationOutput) -> Seq<char> {
    match payload.position.symbol {
        Some(_) => match payload.target {
            Some(t) => target_label(t),
            None => "usage"@,
        },
        None => "location"@,
    }
}

/// The summary of a location answer that lists something counts with the
/// payload's own target (or "usage", or "location") and reports the total found:
/// "1 <noun>" when the one location found is listed, "<total> <noun>s" when all of
/// several are, and "<shown> shown of <total> <noun>s" when the limit cut the
/// list, followed by " for <symbol>" for a goto and " of <symbol>" for usages.
pub proof fn lemma_location_summary_counts(limit: Option<usize>, payload: LocationOutput)
    requires
        limited(payload.locations@, limit).len() > 0,
    ensures
        ({
            let shown = limited(payload.locations@, limit).len();
            let total = payload.locations@.len();
            let noun = counted_noun(payload);
            let count = if shown == total {
                if total == 1 {
                    "1 "@ + noun
                } else {
                    decimal(total) + " "@ + noun + "s"@
                }
            } else {
                decimal(shown) + " shown of "@ + decimal(total) + " "@ + noun + "s"@
            };
            let tail = match payload.position.symbol {
                Some(s) => match payload.target {
                    Some(_) => " for "@ + s.name@,
                    None => " of "@ + s.name@,
                },
                None => Seq::<char>::empty(),
            };
            location_output_lines(limit, payload)[0] == "summary: "@ + count + tail
        }),
{
    reveal_strlit(" ");
    reveal_strlit("s");
    reveal_strlit("definition");
    reveal_strlit("definitions");
    reveal_strlit("declaration");
    reveal_strlit("declarations");
    reveal_strlit("type definition");
    reveal_strlit("type definitions");
    reveal_strlit("usage");
    reveal_strlit("usages");
    reveal_strlit("location");
    reveal_strlit("locations");
    let noun = counted_noun(payload);
    let plural = match payload.position.symbol {
        Some(_) => match payload.target {
            Some(t) => target_labels(t).1,
            None => "usages"@,
        },
        None => "locations"@,
    };
    let singular = match payload.position.symbol {
        Some(_) => match payload.target {
            Some(t) => target_labels(t).0,
            None => "usage"@,
        },
        None => "location"@,
    };
    assert(plural =~= noun + "s"@);
    assert(singular == noun);
    let shown = limited(payload.locations@, limit).len();
    let total = payload.locations@.len();
    assert(decimal(total) + seq![' '] + plural =~= decimal(total) + " "@ + noun + "s"@);
    assert(decimal(shown) + " shown of "@ + decimal(total) + seq![' '] + plural =~= decimal(shown)
        + " shown of "@ + decimal(total) + " "@ + noun + "s"@);
    match payload.position.symbol {
        Some(s) => match payload.target {
            Some(t) => {
                assert(location_summary_text(shown, total, payload) == summary_count_text(
                    shown,
                    total,
                    singular,
                    plural,
                ) + " for "@ + s.name@);
            },
            None => {
                assert(location_summary_text(shown, total, payload) == summary_count_text(
                    shown,
                    total,
                    singular,
                    plural,
                ) + " of "@ + s.name@);
            },
        },
        None => {
            assert(location_summary_text(shown, total, payload) == summary_count_text(
                shown,
                total,
                singular,
                plural,
            ));
            assert(summary_count_text(shown, total, singular, plural) + Seq::<char>::empty()
                =~= summary_count_text(shown, total, singular, plural));
        },
    }
}

} // verus!
