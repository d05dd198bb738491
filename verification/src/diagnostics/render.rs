//! The deterministic human projection of one diagnostic: status,
//! severity, `[LEK-CODE]`, dotted id, optional `path:line:column`,
//! then the registry message.

use vstd::prelude::*;
use vstd::string::StringExecFns;
use super::item::{Diagnostic, DiagnosticView};
use crate::text::{decimal, push_decimal};

verus! {

/// The location suffix ` path:line:column`, when the diagnostic has
/// both a path and a span.
pub open spec fn location_suffix(d: DiagnosticView) -> Seq<char> {
    match (d.path, d.range) {
        (Some(path), Some(range)) => " "@ + path + ":"@ + decimal(range.start.line as nat) + ":"@
            + decimal(range.start.column as nat),
        _ => Seq::empty(),
    }
}

/// The header line of one diagnostic under an envelope status.
pub open spec fn header_line(status: Seq<char>, d: DiagnosticView) -> Seq<char> {
    status + " "@ + d.severity.spec_text() + " ["@ + d.code + "] "@ + d.id + location_suffix(d)
        + ": "@ + d.message
}

/// Render one diagnostic with its envelope status as human text, one
/// line per item.
pub fn diagnostic_lines(status: &str, diagnostic: &Diagnostic) -> (r: Vec<String>)
    ensures
        r@.len() == 1,
        r@[0]@ == header_line(status@, diagnostic@),
{
    let mut line = String::new();
    line.append(status);
    line.append(" ");
    line.append(diagnostic.severity().as_str());
    line.append(" [");
    line.append(diagnostic.code());
    line.append("] ");
    line.append(diagnostic.id());
    let ghost before = line@;
    match (diagnostic.path(), diagnostic.start()) {
        (Some(path), Some(start)) => {
            line.append(" ");
            line.append(path);
            line.append(":");
            push_decimal(&mut line, start.line as u64);
            line.append(":");
            push_decimal(&mut line, start.column as u64);
            assert(line@ =~= before + location_suffix(diagnostic@));
        },
        _ => {
            assert(line@ =~= before + location_suffix(diagnostic@));
        },
    }
    line.append(": ");
    line.append(diagnostic.message());
    let mut lines = Vec::new();
    lines.push(line);
    assert(lines@[0]@ =~= header_line(status@, diagnostic@));
    lines
}

} // verus!
