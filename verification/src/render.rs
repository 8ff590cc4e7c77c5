//! Rendering entries as text: decimal sizes and the long-format line.
//!
//! A long-format line is `<permissions> <name> <size> <modified>` with a
//! single space between fields; a field whose value is absent renders as
//! the placeholder `?` rather than failing.

use crate::entry::LsFile;
use crate::layout::{display_default, effective_width, file_names, layout_rows, max_name_len, views_of};
use crate::Cli;
use vstd::prelude::*;
use vstd::string::StringExecFns;

verus! {

/// The decimal digit character for `d`.
pub open spec fn dec_digit(d: int) -> char {
    if d == 0 {
        '0'
    } else if d == 1 {
        '1'
    } else if d == 2 {
        '2'
    } else if d == 3 {
        '3'
    } else if d == 4 {
        '4'
    } else if d == 5 {
        '5'
    } else if d == 6 {
        '6'
    } else if d == 7 {
        '7'
    } else if d == 8 {
        '8'
    } else {
        '9'
    }
}

/// The decimal rendering of `n`, most significant digit first, with no
/// leading zeroes (a lone zero for zero itself).
pub open spec fn dec_rep(n: nat) -> Seq<char>
    decreases n,
{
    if n < 10 {
        seq![dec_digit(n as int)]
    } else {
        dec_rep(n / 10) + seq![dec_digit((n % 10) as int)]
    }
}

/// Appends the character for one decimal digit.
fn push_digit(out: &mut String, d: u64)
    requires
        d < 10,
    ensures
        final(out)@ == old(out)@ + seq![dec_digit(d as int)],
{
    if d == 0 {
        out.append("0");
    } else if d == 1 {
        out.append("1");
    } else if d == 2 {
        out.append("2");
    } else if d == 3 {
        out.append("3");
    } else if d == 4 {
        out.append("4");
    } else if d == 5 {
        out.append("5");
    } else if d == 6 {
        out.append("6");
    } else if d == 7 {
        out.append("7");
    } else if d == 8 {
        out.append("8");
    } else {
        out.append("9");
    }
    proof {
        reveal_strlit("0");
        reveal_strlit("1");
        reveal_strlit("2");
        reveal_strlit("3");
        reveal_strlit("4");
        reveal_strlit("5");
        reveal_strlit("6");
        reveal_strlit("7");
        reveal_strlit("8");
        reveal_strlit("9");
        assert(out@ =~= old(out)@ + seq![dec_digit(d as int)]);
    }
}

/// Appends the decimal rendering of `n`.
fn push_u64(out: &mut String, n: u64)
    ensures
        final(out)@ == old(out)@ + dec_rep(n as nat),
    decreases n,
{
    if n >= 10 {
        push_u64(out, n / 10);
        push_digit(out, n % 10);
        proof {
            assert(out@ =~= old(out)@ + dec_rep(n as nat));
        }
    } else {
        push_digit(out, n);
    }
}

/// The decimal rendering of `n` as a string.
pub fn decimal_string(n: u64) -> (s: String)
    ensures
        s@ == dec_rep(n as nat),
{
    let mut s = String::new();
    push_u64(&mut s, n);
    proof {
        assert(s@ =~= dec_rep(n as nat));
    }
    s
}

/// The placeholder shown for a field whose value is absent.
pub open spec fn placeholder() -> Seq<char> {
    seq!['?']
}

/// The long-format line for one entry: permissions, name, size and
/// modification time, space-separated, each absent field a placeholder.
pub open spec fn long_line_of(f: LsFile) -> Seq<char> {
    (match f.privileges {
        Some(p) => p@,
        None => placeholder(),
    }) + seq![' '] + f.filename@ + seq![' '] + (match f.size {
        Some(n) => dec_rep(n as nat),
        None => placeholder(),
    }) + seq![' '] + (match f.last_edit_time {
        Some(t) => t@,
        None => placeholder(),
    })
}

/// Renders one entry in the long format.
pub fn format_long_line(file: &LsFile) -> (line: String)
    ensures
        line@ == long_line_of(*file),
{
    let mut line = String::new();
    match &file.privileges {
        Some(p) => line.append(p.as_str()),
        None => line.append("?"),
    }
    line.append(" ");
    line.append(file.filename.as_str());
    line.append(" ");
    match file.size {
        Some(n) => push_u64(&mut line, n),
        None => line.append("?"),
    }
    line.append(" ");
    match &file.last_edit_time {
        Some(t) => line.append(t.as_str()),
        None => line.append("?"),
    }
    proof {
        reveal_strlit("?");
        reveal_strlit(" ");
        assert(("?"@) =~= placeholder());
        assert((" "@) =~= seq![' ']);
        assert(line@ =~= long_line_of(*file));
    }
    line
}

/// Renders every entry in the long format, one line per entry, in order.
pub fn render_long(files: &Vec<LsFile>) -> (lines: Vec<String>)
    ensures
        lines@.len() == files@.len(),
        forall|i: int| 0 <= i < files@.len() ==> (#[trigger] lines@[i])@ == long_line_of(
            files@[i],
        ),
{
    let mut lines: Vec<String> = Vec::new();
    let mut i: usize = 0;
    while i < files.len()
        invariant
            i <= files@.len(),
            lines@.len() == i,
            forall|k: int| 0 <= k < i ==> (#[trigger] lines@[k])@ == long_line_of(files@[k]),
        decreases files@.len() - i,
    {
        let line = format_long_line(&files[i]);
        lines.push(line);
        i += 1;
    }
    lines
}

/// The display rows for the chosen output mode: one long-format line per
/// entry when the long flag is set, and the column layout of the names
/// otherwise.
pub fn render_files(files: &Vec<LsFile>, cli: &Cli, width: Option<usize>) -> (rows: Vec<String>)
    requires
        max_name_len(file_names(files@)) + 4 <= usize::MAX,
        width matches Some(w) ==> w >= 1,
    ensures
        cli.long ==> rows@.len() == files@.len() && forall|i: int|
            0 <= i < files@.len() ==> (#[trigger] rows@[i])@ == long_line_of(files@[i]),
        !cli.long ==> views_of(rows@) == layout_rows(
            file_names(files@),
            effective_width(file_names(files@), width),
        ),
{
    if cli.long {
        render_long(files)
    } else {
        display_default(files, width)
    }
}

} // verus!
