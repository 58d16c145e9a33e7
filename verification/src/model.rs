//! The records that navigation queries produce, and the names the text output gives them.
use vstd::prelude::*;

use crate::text::chars_of;

verus! {

/// Which kind of target a `goto` query jumps to.
#[derive(Clone, Copy, Debug, PartialEq, Eq, Structural)]
pub enum GotoTarget {
    Definition,
    Declaration,
    Type,
}

/// A restriction of a workspace symbol search to one kind of symbol.
#[derive(Clone, Copy, Debug, PartialEq, Eq, Structural)]
pub enum SymbolKindFilter {
    Class,
    Function,
    Method,
}

/// The language-server code of a class symbol.
pub const KIND_CLASS: u32 = 5;

/// The language-server code of a method symbol.
pub const KIND_METHOD: u32 = 6;

/// The language-server code of a function symbol.
pub const KIND_FUNCTION: u32 = 12;

/// The symbol kind code that a filter admits.
pub open spec fn filter_kind(filter: SymbolKindFilter) -> u32 {
    match filter {
        SymbolKindFilter::Class => KIND_CLASS,
        SymbolKindFilter::Function => KIND_FUNCTION,
        SymbolKindFilter::Method => KIND_METHOD,
    }
}

impl SymbolKindFilter {
    /// Whether a symbol of kind `kind` passes this filter.
    pub fn matches(self, kind: u32) -> (res: bool)
        ensures
            res == (kind == filter_kind(self)),
    {
        match self {
            SymbolKindFilter::Class => kind == KIND_CLASS,
            SymbolKindFilter::Function => kind == KIND_FUNCTION,
            SymbolKindFilter::Method => kind == KIND_METHOD,
        }
    }
}

/// A line and column in a file.
#[derive(Clone, Copy, Debug, PartialEq, Eq, Structural)]
pub struct Position {
    pub line: usize,
    pub column: usize,
}

/// A span between two positions.
#[derive(Clone, Copy, Debug, PartialEq, Eq, Structural)]
pub struct Range {
    pub start: Position,
    pub end: Position,
}

/// The symbol found at a requested position.
pub struct PositionSymbol {
    pub name: String,
}

/// A position that a query asked about, and what was found there.
pub struct ResolvedPosition {
    pub file: String,
    pub line: usize,
    pub requested_column: usize,
    pub resolved_column: Option<usize>,
    pub symbol: Option<PositionSymbol>,
    pub source_line: Option<String>,
}

/// One location that a `goto` or `usages` query found.
pub struct LocationRecord {
    pub file: String,
    pub range: Range,
    pub snippet: Option<String>,
}

/// The answer to a `goto` query (with a target) or a `usages` query (without one).
pub struct LocationOutput {
    pub workspace_root: String,
    pub position: ResolvedPosition,
    pub target: Option<GotoTarget>,
    pub locations: Vec<LocationRecord>,
}

/// One symbol that a workspace symbol search found.
pub struct WorkspaceSymbolRecord {
    pub name: String,
    pub kind: u32,
    pub file: String,
    pub range: Range,
    pub container_name: Option<String>,
    pub snippet: Option<String>,
}

/// The answer to a workspace symbol search.
pub struct WorkspaceSymbolOutput {
    pub workspace_root: String,
    pub query: String,
    pub symbols: Vec<WorkspaceSymbolRecord>,
}

/// The symbol under the cursor, as an `inspect` query reports it.
pub struct SymbolAtRecord {
    pub name: String,
    pub kind: Option<u32>,
    pub start_column: usize,
    pub end_column: usize,
    pub detail: Option<String>,
}

/// The answer to an `inspect` query.
pub struct SymbolAtOutput {
    pub workspace_root: String,
    pub position: ResolvedPosition,
    pub symbol: Option<SymbolAtRecord>,
    pub hover: Option<String>,
}

/// A symbol of a file's outline, with the symbols nested in it.
pub struct DocumentSymbolNode {
    pub name: String,
    pub kind: u32,
    pub range: Range,
    pub children: Vec<DocumentSymbolNode>,
}

/// The answer to an `outline` query.
pub struct OutlineOutput {
    pub workspace_root: String,
    pub file: String,
    pub depth: Option<usize>,
    pub symbols: Vec<DocumentSymbolNode>,
}

/// The name that the text output gives a symbol kind code.
pub open spec fn kind_label(kind: u32) -> Seq<char> {
    if kind == 1 {
        "file"@
    } else if kind == 2 {
        "module"@
    } else if kind == 3 {
        "namespace"@
    } else if kind == 4 {
        "package"@
    } else if kind == 5 {
        "class"@
    } else if kind == 6 {
        "method"@
    } else if kind == 7 {
        "property"@
    } else if kind == 8 {
        "field"@
    } else if kind == 9 {
        "constructor"@
    } else if kind == 10 {
        "enum"@
    } else if kind == 11 {
        "interface"@
    } else if kind == 12 {
        "function"@
    } else if kind == 13 {
        "variable"@
    } else if kind == 14 {
        "constant"@
    } else if kind == 15 {
        "string"@
    } else if kind == 16 {
        "number"@
    } else if kind == 17 {
        "boolean"@
    } else if kind == 18 {
        "array"@
    } else if kind == 19 {
        "object"@
    } else if kind == 20 {
        "key"@
    } else if kind == 21 {
        "null"@
    } else if kind == 22 {
        "enum member"@
    } else if kind == 23 {
        "struct"@
    } else if kind == 24 {
        "event"@
    } else if kind == 25 {
        "operator"@
    } else if kind == 26 {
        "type parameter"@
    } else {
        "unknown"@
    }
}

/// The name of a symbol kind code.
pub fn symbol_kind_name(kind: u32) -> (res: &'static str)
    ensures
        res@ == kind_label(kind),
{
    if kind == 1 {
        "file"
    } else if kind == 2 {
        "module"
    } else if kind == 3 {
        "namespace"
    } else if kind == 4 {
        "package"
    } else if kind == 5 {
        "class"
    } else if kind == 6 {
        "method"
    } else if kind == 7 {
        "property"
    } else if kind == 8 {
        "field"
    } else if kind == 9 {
        "constructor"
    } else if kind == 10 {
        "enum"
    } else if kind == 11 {
        "interface"
    } else if kind == 12 {
        "function"
    } else if kind == 13 {
        "variable"
    } else if kind == 14 {
        "constant"
    } else if kind == 15 {
        "string"
    } else if kind == 16 {
        "number"
    } else if kind == 17 {
        "boolean"
    } else if kind == 18 {
        "array"
    } else if kind == 19 {
        "object"
    } else if kind == 20 {
        "key"
    } else if kind == 21 {
        "null"
    } else if kind == 22 {
        "enum member"
    } else if kind == 23 {
        "struct"
    } else if kind == 24 {
        "event"
    } else if kind == 25 {
        "operator"
    } else if kind == 26 {
        "type parameter"
    } else {
        "unknown"
    }
}

/// How a file path is shown relative to the workspace root: the part after the
/// root and its separator when the file lies under the root, the empty text for
/// the root itself, and the whole path otherwise.
pub open spec fn display_path_text(root: Seq<char>, file: Seq<char>) -> Seq<char> {
    let n = root.len();
    if n > 0 && n <= file.len() && file.take(n as int) == root {
        if file.len() == n {
            Seq::empty()
        } else if file[n as int] == '/' {
            file.skip(n + 1int)
        } else if root.last() == '/' {
            file.skip(n as int)
        } else {
            file
        }
    } else {
        file
    }
}

/// The path of `file` as shown in the output, relative to `workspace_root` when it lies under it.
pub fn display_path(workspace_root: &str, file: &str) -> (res: String)
    ensures
        res@ == display_path_text(workspace_root@, file@),
{
    let root = chars_of(workspace_root);
    let f = chars_of(file);
    let n = root.len();
    let mut under = n > 0 && n <= f.len();
    let mut i: usize = 0;
    while under && i < n
        invariant
            root@ == workspace_root@,
            f@ == file@,
            n == root.len(),
            i <= n,
            under ==> 0 < n <= f.len(),
            under ==> forall|j: int| 0 <= j < i ==> root@[j] == f@[j],
            !under ==> !(n > 0 && n <= file@.len() && file@.take(n as int) == workspace_root@),
        decreases n - i,
    {
        if root[i] != f[i] {
            proof {
                assert(file@.take(n as int)[i as int] != workspace_root@[i as int]);
            }
            under = false;
        }
        i = i + 1;
    }
    if !under {
        return String::from_str(file);
    }
    proof {
        assert(file@.take(n as int) =~= workspace_root@);
    }
    let start: usize = if f.len() == n {
        n
    } else if f[n] == '/' {
        n + 1
    } else if root[n - 1] == '/' {
        n
    } else {
        0
    };
    let mut out = String::new();
    let mut k: usize = start;
    while k < f.len()
        invariant
            f@ == file@,
            start <= k <= f.len(),
            out@ == file@.subrange(start as int, k as int),
        decreases f.len() - k,
    {
        out.push(f[k]);
        k = k + 1;
        proof {
            assert(file@.subrange(start as int, k as int) == file@.subrange(start as int, k - 1).push(
                file@[k - 1],
            ));
        }
    }
    proof {
        assert(file@.skip(start as int) == file@.subrange(start as int, file@.len() as int));
        assert(file@.skip(0) == file@);
        if file@.len() == n {
            assert(file@.subrange(start as int, k as int) =~= Seq::<char>::empty());
        }
    }
    out
}

} // verus!

verus! {

/// A file named by the workspace root, a separator and a relative path is shown
/// as that relative path.
pub proof fn lemma_display_path_under_root(root: Seq<char>, relative: Seq<char>)
    requires
        root.len() > 0,
    ensures
        display_path_text(root, root + seq!['/'] + relative) == relative,
{
    let file = root + seq!['/'] + relative;
    assert(file.take(root.len() as int) =~= root);
    assert(file[root.len() as int] == '/');
    assert(file.skip(root.len() + 1int) =~= relative);
}

/// A file outside the workspace root is shown by its whole path.
pub proof fn lemma_display_path_outside_root(root: Seq<char>, file: Seq<char>)
    requires
        !(root.len() <= file.len() && file.take(root.len() as int) == root),
    ensures
        display_path_text(root, file) == file,
{
}

} // verus!
