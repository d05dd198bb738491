//! The wire-level refusals of the data-flow report surface: bound
//! violations, malformed re-read documents, and the canonical export
//! limit. Every refusal is the registered `classification.unknown-kind`
//! wire rule with a `report-` detail tag.

use vstd::prelude::*;
use vstd::string::StringExecFns;
use crate::diagnostics::set::DiagnosticSet;
use crate::classification::diagnostic::classification_set;

verus! {

/// One `report-`-tagged refusal set; the subject, if any, is not
/// carried.
pub fn document_invalid(detail: &str, subject: Option<&str>) -> (r: DiagnosticSet)
    ensures
        classification_set(r@, "classification.unknown-kind"@, "report-"@ + detail@, None),
{
    let mut tag = String::new();
    tag.append("report-");
    tag.append(detail);
    crate::classification::diagnostic::document_invalid(tag.as_str(), None)
}

} // verus!
