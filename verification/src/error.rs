//! The error of the capture analysis.

use vstd::prelude::*;

verus! {

/// Why a capture could not be analysed. The message of `Parse` is the whole
/// text shown to the user after "parse error: ".
pub enum TaplootError {
    Parse(String),
}

/// Whether an error is a parse error whose message starts with `prefix`.
pub open spec fn parse_error_with_prefix(e: TaplootError, prefix: Seq<char>) -> bool {
    e matches TaplootError::Parse(m) && prefix.is_prefix_of(m@)
}

/// A parse error whose message is `prefix` followed by `detail`.
pub fn parse_error(prefix: &str, detail: &str) -> (e: TaplootError)
    ensures
        e matches TaplootError::Parse(m) && m@ == prefix@ + detail@ && prefix@.is_prefix_of(m@),
{
    let mut m = String::from_str(prefix);
    m.append(detail);
    proof {
        assert((prefix@ + detail@).subrange(0, prefix@.len() as int) =~= prefix@);
    }
    TaplootError::Parse(m)
}

} // verus!
