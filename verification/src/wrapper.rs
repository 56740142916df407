//! The auxiliary header that wraps the header to be read.

use vstd::prelude::*;
use vstd::string::StringExecFns;

verus! {

/// The text of the auxiliary header: the preamble, then on a line of its own
/// the inclusion of the header at `header_path`.
pub open spec fn aux_header_text(preamble: Seq<char>, header_path: Seq<char>) -> Seq<char> {
    preamble + "\n#include \""@ + header_path + "\""@
}

/// Composes the auxiliary header that is handed to the front end in place of
/// the header itself: the preamble declares the marker types, and the
/// inclusion brings in the header at `header_path`.
pub fn aux_header(preamble: &str, header_path: &str) -> (text: String)
    ensures
        text@ == aux_header_text(preamble@, header_path@),
{
    String::from_str(preamble).concat("\n#include \"").concat(header_path).concat("\"")
}

} // verus!
