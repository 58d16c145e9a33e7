//! Plain-text building blocks: decimal numbers, quoting, line splitting and joining.
use vstd::prelude::*;

verus! {

/// `String::push` appends one character at the end of the string.
pub assume_specification[ String::push ](string: &mut String, ch: char)
    ensures
        final(string)@ == old(string)@.push(ch),
;

/// The character of a decimal digit `d` (`0 <= d < 10`).
pub open spec fn digit_char(d: nat) -> char {
    (d + 48) as char
}

/// The decimal representation of `n`, most significant digit first, without leading zeros.
pub open spec fn decimal(n: nat) -> Seq<char>
    decreases n,
{
    if n < 10 {
        seq![digit_char(n)]
    } else {
        decimal(n / 10).push(digit_char(n % 10))
    }
}

/// Appends the decimal representation of `n` to `out`.
pub fn push_decimal(out: &mut String, n: usize)
    ensures
        final(out)@ == old(out)@ + decimal(n as nat),
    decreases n,
{
    if n >= 10 {
        push_decimal(out, n / 10);
    }
    let d: u8 = (n % 10) as u8;
    let c: char = (d + 48u8) as char;
    out.push(c);
}

/// Appends the decimal representation of `n` to `out`.
pub fn push_decimal_u64(out: &mut String, n: u64)
    ensures
        final(out)@ == old(out)@ + decimal(n as nat),
    decreases n,
{
    if n >= 10 {
        push_decimal_u64(out, n / 10);
    }
    let d: u8 = (n % 10) as u8;
    let c: char = (d + 48u8) as char;
    out.push(c);
}

/// The decimal representation of `n` as a new string.
pub fn usize_to_string(n: usize) -> (res: String)
    ensures
        res@ == decimal(n as nat),
{
    let mut s = String::new();
    push_decimal(&mut s, n);
    s
}

} // verus!

verus! {

/// The character of a hexadecimal digit `d` (`0 <= d < 16`), lower case.
pub open spec fn hex_digit_char(d: nat) -> char {
    if d < 10 {
        (d + 48) as char
    } else {
        (d + 87) as char
    }
}

/// The lower-case hexadecimal representation of `n`, without leading zeros.
pub open spec fn hex(n: nat) -> Seq<char>
    decreases n,
{
    if n < 16 {
        seq![hex_digit_char(n)]
    } else {
        hex(n / 16).push(hex_digit_char(n % 16))
    }
}

/// How the debug form of a string writes one ASCII character.
pub open spec fn ascii_debug_escape(c: char) -> Seq<char> {
    if c == '\t' {
        seq!['\\', 't']
    } else if c == '\r' {
        seq!['\\', 'r']
    } else if c == '\n' {
        seq!['\\', 'n']
    } else if c == '\0' {
        seq!['\\', '0']
    } else if c == '"' {
        seq!['\\', '"']
    } else if c == '\\' {
        seq!['\\', '\\']
    } else if (c as u32) < 0x20 || (c as u32) == 0x7f {
        seq!['\\', 'u', '{'] + hex(c as nat) + seq!['}']
    } else {
        seq![c]
    }
}

/// Name for what `char::escape_debug` yields for the character `c`.
pub uninterp spec fn char_escape_debug(c: char) -> Seq<char>;

/// How the debug form of a string writes the character `c`: ASCII characters
/// as `ascii_debug_escape` says, all others as `char::escape_debug` does.
pub open spec fn debug_char(c: char) -> Seq<char> {
    if (c as u32) < 0x80 {
        ascii_debug_escape(c)
    } else {
        char_escape_debug(c)
    }
}

/// The escaped characters of `s`, without the surrounding quotes.
pub open spec fn debug_body(s: Seq<char>) -> Seq<char>
    decreases s.len(),
{
    if s.len() == 0 {
        Seq::empty()
    } else {
        debug_body(s.drop_last()) + debug_char(s.last())
    }
}

/// The debug form of the string `s`: its escaped characters between double quotes.
pub open spec fn debug_quoted(s: Seq<char>) -> Seq<char> {
    seq!['"'] + debug_body(s) + seq!['"']
}

/// `char::escape_debug`: the escape sequence that the debug form of a `char`
/// writes for `c`. The contract names the result and says nothing more of it.
#[verifier::external_body]
fn escape_debug_char(c: char) -> (res: String)
    ensures
        res@ == char_escape_debug(c),
{
    c.escape_debug().to_string()
}

/// Appends the lower-case hexadecimal representation of `n` to `out`.
fn push_hex(out: &mut String, n: u32)
    ensures
        final(out)@ == old(out)@ + hex(n as nat),
    decreases n,
{
    if n >= 16 {
        push_hex(out, n / 16);
    }
    let d: u8 = (n % 16) as u8;
    let c: char = if d < 10 {
        (d + 48u8) as char
    } else {
        (d + 87u8) as char
    };
    out.push(c);
}

/// Appends the debug form of one character to `out`.
fn push_debug_char(out: &mut String, c: char)
    ensures
        final(out)@ == old(out)@ + debug_char(c),
{
    let code: u32 = c as u32;
    if code >= 0x80 {
        let esc = escape_debug_char(c);
        out.append(esc.as_str());
    } else if c == '\t' {
        out.push('\\');
        out.push('t');
    } else if c == '\r' {
        out.push('\\');
        out.push('r');
    } else if c == '\n' {
        out.push('\\');
        out.push('n');
    } else if c == '\0' {
        out.push('\\');
        out.push('0');
    } else if c == '"' {
        out.push('\\');
        out.push('"');
    } else if c == '\\' {
        out.push('\\');
        out.push('\\');
    } else if code < 0x20 || code == 0x7f {
        out.push('\\');
        out.push('u');
        out.push('{');
        push_hex(out, code);
        out.push('}');
    } else {
        out.push(c);
    }
}

/// The debug form of `s`, as `format!("{:?}", s)` writes it.
pub fn debug_quote(s: &str) -> (res: String)
    ensures
        res@ == debug_quoted(s@),
{
    broadcast use vstd::string::group_string_axioms;
    let mut out = String::new();
    out.push('"');
    for c in it: s.chars()
        invariant
            it.seq() == s@,
            out@ == seq!['"'] + debug_body(s@.take(it.index())),
    {
        proof {
            assert(s@.take(it.index() + 1).drop_last() == s@.take(it.index()));
        }
        push_debug_char(&mut out, c);
    }
    out.push('"');
    proof {
        assert(s@.take(s@.len() as int) == s@);
    }
    out
}

} // verus!

verus! {

/// The characters of a string, in order.
pub fn chars_of(s: &str) -> (res: Vec<char>)
    ensures
        res@ == s@,
{
    broadcast use vstd::string::group_string_axioms;
    let mut out: Vec<char> = Vec::new();
    for c in it: s.chars()
        invariant
            it.seq() == s@,
            out@ == s@.take(it.index()),
    {
        proof {
            assert(s@.take(it.index() + 1) == s@.take(it.index()).push(c));
        }
        out.push(c);
    }
    proof {
        assert(s@.take(s@.len() as int) == s@);
    }
    out
}

/// Whether two strings hold the same characters.
pub fn str_eq(a: &str, b: &str) -> (res: bool)
    ensures
        res == (a@ == b@),
{
    let x = chars_of(a);
    let y = chars_of(b);
    if x.len() != y.len() {
        return false;
    }
    let n = x.len();
    let mut i: usize = 0;
    while i < n
        invariant
            x@ == a@,
            y@ == b@,
            n == x.len(),
            n == y.len(),
            i <= n,
            forall|j: int| 0 <= j < i ==> x@[j] == y@[j],
        decreases n - i,
    {
        if x[i] != y[i] {
            return false;
        }
        i = i + 1;
    }
    proof {
        assert(a@ =~= b@);
    }
    true
}

/// The ASCII lower-case form of `c`; other characters stay as they are.
pub open spec fn ascii_lower(c: char) -> char {
    if 'A' <= c <= 'Z' {
        ((c as u32) + 32) as char
    } else {
        c
    }
}

/// Whether `a` and `b` are equal once ASCII letters are compared without case,
/// as `str::eq_ignore_ascii_case` decides.
pub open spec fn eq_ignore_ascii_case(a: Seq<char>, b: Seq<char>) -> bool {
    &&& a.len() == b.len()
    &&& forall|i: int| 0 <= i < a.len() ==> ascii_lower(#[trigger] a[i]) == ascii_lower(b[i])
}

fn lower_ascii_char(c: char) -> (res: char)
    ensures
        res == ascii_lower(c),
{
    if 'A' <= c && c <= 'Z' {
        let code: u32 = c as u32;
        let lowered: u8 = (code + 32) as u8;
        lowered as char
    } else {
        c
    }
}

/// Whether `a` and `b` are equal once ASCII letters are compared without case.
pub fn str_eq_ignore_ascii_case(a: &str, b: &str) -> (res: bool)
    ensures
        res == eq_ignore_ascii_case(a@, b@),
{
    let x = chars_of(a);
    let y = chars_of(b);
    if x.len() != y.len() {
        return false;
    }
    let n = x.len();
    let mut i: usize = 0;
    while i < n
        invariant
            x@ == a@,
            y@ == b@,
            n == x.len(),
            n == y.len(),
            i <= n,
            forall|j: int| 0 <= j < i ==> ascii_lower(#[trigger] x@[j]) == ascii_lower(y@[j]),
        decreases n - i,
    {
        if lower_ascii_char(x[i]) != lower_ascii_char(y[i]) {
            return false;
        }
        i = i + 1;
    }
    true
}

/// Whether `c` has the Unicode `White_Space` property, as `char::is_whitespace` decides.
pub open spec fn is_whitespace(c: char) -> bool {
    let n = c as u32;
    ||| 0x09 <= n <= 0x0d
    ||| n == 0x20
    ||| n == 0x85
    ||| n == 0xa0
    ||| n == 0x1680
    ||| 0x2000 <= n <= 0x200a
    ||| n == 0x2028
    ||| n == 0x2029
    ||| n == 0x202f
    ||| n == 0x205f
    ||| n == 0x3000
}

fn char_is_whitespace(c: char) -> (res: bool)
    ensures
        res == is_whitespace(c),
{
    let n: u32 = c as u32;
    (0x09 <= n && n <= 0x0d) || n == 0x20 || n == 0x85 || n == 0xa0 || n == 0x1680 || (0x2000
        <= n && n <= 0x200a) || n == 0x2028 || n == 0x2029 || n == 0x202f || n == 0x205f || n
        == 0x3000
}

/// Whether `s` is empty once surrounding whitespace is trimmed: every character is whitespace.
pub open spec fn is_blank(s: Seq<char>) -> bool {
    forall|i: int| 0 <= i < s.len() ==> is_whitespace(#[trigger] s[i])
}

/// Whether `s.trim()` is empty.
pub fn str_is_blank(s: &str) -> (res: bool)
    ensures
        res == is_blank(s@),
{
    let x = chars_of(s);
    let n = x.len();
    let mut i: usize = 0;
    while i < n
        invariant
            x@ == s@,
            n == x.len(),
            i <= n,
            forall|j: int| 0 <= j < i ==> is_whitespace(#[trigger] x@[j]),
        decreases n - i,
    {
        if !char_is_whitespace(x[i]) {
            return false;
        }
        i = i + 1;
    }
    true
}

} // verus!

verus! {

/// `line` without one trailing carriage return, if it ends in one.
pub open spec fn strip_cr(line: Seq<char>) -> Seq<char> {
    if line.len() > 0 && line.last() == '\r' {
        line.drop_last()
    } else {
        line
    }
}

/// Splits `s` at line feeds, reading left to right: the lines that a line feed
/// has ended (each without its line feed and without one carriage return just
/// before it), and the characters after the last line feed.
pub open spec fn line_scan(s: Seq<char>) -> (Seq<Seq<char>>, Seq<char>)
    decreases s.len(),
{
    if s.len() == 0 {
        (Seq::empty(), Seq::empty())
    } else {
        let (done, cur) = line_scan(s.drop_last());
        if s.last() == '\n' {
            (done.push(strip_cr(cur)), Seq::empty())
        } else {
            (done, cur.push(s.last()))
        }
    }
}

/// The lines of `s`, as `str::lines` yields them: a line ends at a line feed or
/// at a carriage return and line feed; the last line need not end in one, and an
/// empty text after the last line feed is no line.
pub open spec fn text_lines(s: Seq<char>) -> Seq<Seq<char>> {
    let (done, cur) = line_scan(s);
    if cur.len() == 0 {
        done
    } else {
        done.push(cur)
    }
}

/// The lines joined with line feeds between them.
pub open spec fn join_lines(lines: Seq<Seq<char>>) -> Seq<char>
    decreases lines.len(),
{
    if lines.len() == 0 {
        Seq::empty()
    } else if lines.len() == 1 {
        lines[0]
    } else {
        join_lines(lines.drop_last()) + seq!['\n'] + lines.last()
    }
}

/// The views of a vector of strings.
pub open spec fn views(v: Seq<String>) -> Seq<Seq<char>> {
    v.map_values(|s: String| s@)
}

/// Each line of `lines` with `prefix` in front.
pub open spec fn prefixed(prefix: Seq<char>, lines: Seq<Seq<char>>) -> Seq<Seq<char>> {
    lines.map_values(|l: Seq<char>| prefix + l)
}

/// Adding a string to a vector adds its view to the views.
pub proof fn lemma_views_push(v: Seq<String>, s: String)
    ensures
        views(v.push(s)) == views(v).push(s@),
{
    assert(views(v.push(s)) =~= views(v).push(s@));
}

/// Adding a line and then prefixing is prefixing and then adding the prefixed line.
pub proof fn lemma_prefixed_push(prefix: Seq<char>, lines: Seq<Seq<char>>, line: Seq<char>)
    ensures
        prefixed(prefix, lines.push(line)) == prefixed(prefix, lines).push(prefix + line),
{
    assert(prefixed(prefix, lines.push(line)) =~= prefixed(prefix, lines).push(prefix + line));
}

/// A new string holding `prefix` followed by `s`.
pub fn concat(prefix: &str, s: &str) -> (res: String)
    ensures
        res@ == prefix@ + s@,
{
    let mut out = String::new();
    out.append(prefix);
    out.append(s);
    out
}

/// Each line of `text` (as `str::lines` splits it) with `prefix` in front.
pub fn indent_block(text: &str, prefix: &str) -> (res: Vec<String>)
    ensures
        views(res@) == prefixed(prefix@, text_lines(text@)),
{
    let x = chars_of(text);
    let n = x.len();
    let mut lines: Vec<String> = Vec::new();
    let mut cur = concat(prefix, "");
    let mut pending_cr = false;
    let mut nonempty = false;
    let mut i: usize = 0;
    assert(prefix@ + ""@ == prefix@) by {
        reveal_strlit("");
    }
    while i < n
        invariant
            x@ == text@,
            n == x.len(),
            i <= n,
            ({
                let (done, c) = line_scan(text@.take(i as int));
                &&& views(lines@) == prefixed(prefix@, done)
                &&& nonempty == (c.len() > 0)
                &&& pending_cr == (c.len() > 0 && c.last() == '\r')
                &&& cur@ == prefix@ + (if pending_cr { c.drop_last() } else { c })
            }),
        decreases n - i,
    {
        let ch = x[i];
        let ghost before = text@.take(i as int);
        proof {
            assert(text@.take(i + 1).drop_last() == before);
            assert(text@.take(i + 1).last() == ch);
        }
        if ch == '\n' {
            let ghost (done, c) = line_scan(before);
            let ghost old_lines = lines@;
            proof {
                lemma_views_push(old_lines, cur);
                lemma_prefixed_push(prefix@, done, strip_cr(c));
            }
            lines.push(cur);
            cur = concat(prefix, "");
            proof {
                reveal_strlit("");
                assert(prefix@ + ""@ == prefix@);
            }
            pending_cr = false;
            nonempty = false;
        } else {
            if pending_cr {
                cur.push('\r');
            }
            if ch == '\r' {
                pending_cr = true;
            } else {
                cur.push(ch);
                pending_cr = false;
            }
            nonempty = true;
            proof {
                let (done, c) = line_scan(before);
                if ch == '\r' {
                    assert(c.push(ch).drop_last() == c);
                    if c.len() > 0 && c.last() == '\r' {
                        assert(c.drop_last().push('\r') == c);
                    }
                } else {
                    if c.len() > 0 && c.last() == '\r' {
                        assert(c.drop_last().push('\r') == c);
                    }
                }
            }
        }
        i = i + 1;
    }
    proof {
        assert(text@.take(n as int) == text@);
    }
    if nonempty {
        if pending_cr {
            cur.push('\r');
        }
        let ghost (done, c) = line_scan(text@);
        proof {
            if c.len() > 0 && c.last() == '\r' {
                assert(c.drop_last().push('\r') == c);
            }
        }
        proof {
            lemma_views_push(lines@, cur);
            lemma_prefixed_push(prefix@, done, c);
        }
        lines.push(cur);
    }
    lines
}

/// The lines joined with line feeds between them, as `[String]::join("\n")` builds it.
pub fn join_with_newlines(lines: &Vec<String>) -> (res: String)
    ensures
        res@ == join_lines(views(lines@)),
{
    let mut out = String::new();
    let n = lines.len();
    let mut i: usize = 0;
    while i < n
        invariant
            n == lines.len(),
            i <= n,
            out@ == join_lines(views(lines@).take(i as int)),
        decreases n - i,
    {
        proof {
            let t = views(lines@).take(i + 1);
            assert(t.drop_last() == views(lines@).take(i as int));
            assert(t.last() == lines@[i as int]@);
        }
        if i > 0 {
            out.push('\n');
        }
        out.append(lines[i].as_str());
        i = i + 1;
    }
    proof {
        assert(views(lines@).take(n as int) == views(lines@));
    }
    out
}

/// Two spaces for each level of `depth`.
pub open spec fn indent_spaces(depth: nat) -> Seq<char> {
    Seq::new(2 * depth, |i: int| ' ')
}

/// `"  ".repeat(depth)`: two spaces for each level.
pub fn indent_prefix(depth: usize) -> (res: String)
    ensures
        res@ == indent_spaces(depth as nat),
{
    let mut out = String::new();
    let mut i: usize = 0;
    while i < depth
        invariant
            i <= depth,
            out@ == indent_spaces(i as nat),
        decreases depth - i,
    {
        out.push(' ');
        out.push(' ');
        i = i + 1;
        proof {
            assert(out@ == indent_spaces(i as nat));
        }
    }
    out
}

} // verus!

verus! {

/// The views of two vectors one after the other are the views of their concatenation.
pub proof fn lemma_views_concat(a: Seq<String>, b: Seq<String>)
    ensures
        views(a + b) == views(a) + views(b),
{
    assert(views(a + b) =~= views(a) + views(b));
}

/// Moves the lines of `more` to the end of `lines`.
pub fn push_lines(lines: &mut Vec<String>, more: Vec<String>)
    ensures
        views(final(lines)@) == views(old(lines)@) + views(more@),
{
    let mut more = more;
    let ghost more_view = more@;
    proof {
        lemma_views_concat(lines@, more@);
    }
    lines.append(&mut more);
}

/// A line made of a label and a value.
pub fn labeled(label: &str, value: &str) -> (res: String)
    ensures
        res@ == label@ + value@,
{
    concat(label, value)
}

} // verus!

verus! {

/// Adds one line at the end of `lines`.
pub fn push_line(lines: &mut Vec<String>, line: String)
    ensures
        views(final(lines)@) == views(old(lines)@).push(line@),
{
    proof {
        lemma_views_push(lines@, line);
    }
    lines.push(line);
}

} // verus!

verus! {

/// The number that a string of decimal digits stands for.
pub open spec fn decimal_value(digits: Seq<char>) -> int
    decreases digits.len(),
{
    if digits.len() == 0 {
        0
    } else {
        decimal_value(digits.drop_last()) * 10 + ((digits.last() as int) - 48)
    }
}

/// Whether `c` is one of the digits `0` to `9`.
pub open spec fn is_digit(c: char) -> bool {
    '0' <= c <= '9'
}

/// Numbers are written in decimal: the text of `n` is made of digits, has no
/// leading zero (unless it is `0` itself), and reads back as `n`.
pub proof fn lemma_decimal_reads_back(n: nat)
    ensures
        decimal_value(decimal(n)) == n,
        decimal(n).len() > 0,
        forall|i: int| 0 <= i < decimal(n).len() ==> is_digit(#[trigger] decimal(n)[i]),
        decimal(n)[0] == '0' ==> n == 0,
    decreases n,
{
    let digit = n % 10;
    assert((((digit + 48) as char) as int) == digit + 48);
    let d = decimal(n);
    if n >= 10 {
        lemma_decimal_reads_back(n / 10);
        assert(d.drop_last() == decimal(n / 10));
        assert(d.last() == digit_char(digit));
        assert(decimal_value(d) == decimal_value(decimal(n / 10)) * 10 + digit);
        assert((n / 10) * 10 + n % 10 == n);
        assert(d[0] == decimal(n / 10)[0]);
        assert forall|i: int| 0 <= i < d.len() implies is_digit(#[trigger] d[i]) by {
            if i < d.len() - 1 {
                assert(d[i] == decimal(n / 10)[i]);
            }
        }
    } else {
        assert(n % 10 == n);
        assert(d.drop_last() =~= Seq::<char>::empty());
        assert(d.last() == digit_char(n));
        assert(decimal_value(d) == decimal_value(d.drop_last()) * 10 + ((d.last() as int) - 48));
    }
}

/// The lines of `lines`, each followed by a line feed.
pub open spec fn terminated(lines: Seq<Seq<char>>) -> Seq<char>
    decreases lines.len(),
{
    if lines.len() == 0 {
        Seq::empty()
    } else {
        terminated(lines.drop_last()) + lines.last() + seq!['\n']
    }
}

/// Whether `s` holds no carriage return.
pub open spec fn has_no_cr(s: Seq<char>) -> bool {
    forall|i: int| 0 <= i < s.len() ==> s[i] != '\r'
}

proof fn lemma_line_scan_rebuilds(s: Seq<char>)
    requires
        has_no_cr(s),
    ensures
        s == terminated(line_scan(s).0) + line_scan(s).1,
        forall|i: int| 0 <= i < line_scan(s).1.len() ==> line_scan(s).1[i] != '\n',
    decreases s.len(),
{
    if s.len() > 0 {
        let p = s.drop_last();
        assert(has_no_cr(p)) by {
            assert forall|i: int| 0 <= i < p.len() implies p[i] != '\r' by {
                assert(p[i] == s[i]);
            }
        }
        lemma_line_scan_rebuilds(p);
        let (done, cur) = line_scan(p);
        assert(s == p.push(s.last()));
        if s.last() == '\n' {
            assert(strip_cr(cur) == cur) by {
                if cur.len() > 0 {
                    assert(p == terminated(done) + cur);
                    assert(cur.last() == p[p.len() - 1]);
                }
            }
            let nd = done.push(cur);
            assert(nd.drop_last() == done);
            assert(s =~= terminated(nd) + Seq::<char>::empty());
        } else {
            assert(s =~= terminated(done) + cur.push(s.last()));
        }
    }
}

proof fn lemma_join_terminated(lines: Seq<Seq<char>>)
    requires
        lines.len() > 0,
    ensures
        terminated(lines) == join_lines(lines) + seq!['\n'],
    decreases lines.len(),
{
    if lines.len() > 1 {
        let p = lines.drop_last();
        lemma_join_terminated(p);
        assert(terminated(lines) == terminated(p) + lines.last() + seq!['\n']);
        assert(join_lines(lines) == join_lines(p) + seq!['\n'] + lines.last());
        let a = join_lines(p);
        let b = lines.last();
        assert(terminated(lines) == (a + seq!['\n']) + b + seq!['\n']);
        assert((a + seq!['\n']) + b + seq!['\n'] =~= (a + seq!['\n'] + b) + seq!['\n']);
    } else {
        assert(lines.drop_last() =~= Seq::<Seq<char>>::empty());
        assert(terminated(lines.drop_last()) =~= Seq::<char>::empty());
        assert(lines.last() == lines[0]);
        assert(terminated(lines) =~= join_lines(lines) + seq!['\n']);
    }
}

proof fn lemma_join_push(lines: Seq<Seq<char>>, last: Seq<char>)
    ensures
        join_lines(lines.push(last)) == if lines.len() == 0 {
            last
        } else {
            terminated(lines) + last
        },
{
    let l = lines.push(last);
    assert(l.drop_last() == lines);
    if lines.len() > 0 {
        lemma_join_terminated(lines);
        assert(join_lines(l) =~= terminated(lines) + last);
    }
}

/// Splitting a text into lines and joining them again with line feeds gives the
/// text back, without the line feed that may end it (for texts without carriage
/// returns, which `str::lines` would drop before a line feed).
pub proof fn lemma_lines_join_round_trip(s: Seq<char>)
    requires
        has_no_cr(s),
    ensures
        join_lines(text_lines(s)) == if s.len() > 0 && s.last() == '\n' {
            s.drop_last()
        } else {
            s
        },
{
    lemma_line_scan_rebuilds(s);
    let (done, cur) = line_scan(s);
    if cur.len() > 0 {
        lemma_join_push(done, cur);
        if done.len() == 0 {
            assert(terminated(done) =~= Seq::<char>::empty());
            assert(s =~= cur);
        }
        assert(s.last() == cur.last());
    } else {
        assert(s =~= terminated(done));
        if done.len() > 0 {
            lemma_join_terminated(done);
            assert(s.last() == '\n');
            assert(s.drop_last() =~= join_lines(done));
        } else {
            assert(s.len() == 0);
        }
    }
}

/// Whether `c` is written as itself inside quotes: printable ASCII other than
/// the double quote and the backslash.
pub open spec fn is_plain_char(c: char) -> bool {
    &&& 0x20 <= (c as u32) < 0x7f
    &&& c != '"'
    &&& c != '\\'
}

proof fn lemma_plain_body(s: Seq<char>)
    requires
        forall|i: int| 0 <= i < s.len() ==> is_plain_char(#[trigger] s[i]),
    ensures
        debug_body(s) == s,
    decreases s.len(),
{
    if s.len() > 0 {
        let p = s.drop_last();
        assert forall|i: int| 0 <= i < p.len() implies is_plain_char(#[trigger] p[i]) by {
            assert(p[i] == s[i]);
        }
        lemma_plain_body(p);
        assert(is_plain_char(s[s.len() - 1]));
        assert(debug_char(s.last()) == seq![s.last()]);
        assert(debug_body(s) =~= s);
    } else {
        assert(debug_body(s) =~= s);
    }
}

/// A text of plain characters is quoted as itself between double quotes.
pub proof fn lemma_plain_text_quotes_as_itself(s: Seq<char>)
    requires
        forall|i: int| 0 <= i < s.len() ==> is_plain_char(#[trigger] s[i]),
    ensures
        debug_quoted(s) == seq!['"'] + s + seq!['"'],
{
    lemma_plain_body(s);
}

} // verus!
