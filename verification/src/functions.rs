//! Choice of a time-dependent loading function by its configured type.

use vstd::prelude::*;
use vstd::string::StringExecFns;
use crate::text::str_eq;

verus! {

/// The kinds of loading function a configuration can ask for.
#[derive(Debug, Clone, Copy, PartialEq, Eq, Structural)]
pub enum FunctionKind {
    /// Linear interpolation of tabulated values.
    Linear,
    /// A sine over a range.
    Sin,
}

/// The kind of function a configured type names: `Linear` or `Sin`; any
/// other type is refused with the message `Unknown function type: <type>`.
pub fn function_kind(function_type: &str) -> (r: Result<FunctionKind, String>)
    ensures
        function_type@ == "Linear"@ ==> r == Ok::<FunctionKind, String>(FunctionKind::Linear),
        function_type@ == "Sin"@ ==> r == Ok::<FunctionKind, String>(FunctionKind::Sin),
        function_type@ != "Linear"@ && function_type@ != "Sin"@ ==> (r matches Err(e) && e@ == "Unknown function type: "@ + function_type@),
{
    proof {
        reveal_strlit("Linear");
        reveal_strlit("Sin");
        assert("Linear"@ != "Sin"@) by { assert("Linear"@.len() != "Sin"@.len()); }
    }
    if str_eq(function_type, "Linear") {
        Ok(FunctionKind::Linear)
    } else if str_eq(function_type, "Sin") {
        Ok(FunctionKind::Sin)
    } else {
        let mut message = String::from_str("Unknown function type: ");
        message.append(function_type);
        Err(message)
    }
}

} // verus!
