//! Choice of the analysis to run by its configured type.

use vstd::prelude::*;
use vstd::string::StringExecFns;
use crate::text::str_eq;

verus! {

/// The spatial dimension of the analysis a configured type names:
/// `MPMExplicit2D` runs in 2 dimensions and `MPMExplicit3D` in 3; any other
/// type is refused with the message `Unknown analysis type: <type>`.
pub fn analysis_dimension(analysis_type: &str) -> (r: Result<usize, String>)
    ensures
        analysis_type@ == "MPMExplicit2D"@ ==> r == Ok::<usize, String>(2),
        analysis_type@ == "MPMExplicit3D"@ ==> r == Ok::<usize, String>(3),
        analysis_type@ != "MPMExplicit2D"@ && analysis_type@ != "MPMExplicit3D"@ ==> (r matches Err(e) && e@ == "Unknown analysis type: "@ + analysis_type@),
{
    proof {
        reveal_strlit("MPMExplicit2D");
        reveal_strlit("MPMExplicit3D");
        assert("MPMExplicit2D"@ != "MPMExplicit3D"@) by { assert("MPMExplicit2D"@[11] != "MPMExplicit3D"@[11]); }
    }
    if str_eq(analysis_type, "MPMExplicit2D") {
        Ok(2)
    } else if str_eq(analysis_type, "MPMExplicit3D") {
        Ok(3)
    } else {
        let mut message = String::from_str("Unknown analysis type: ");
        message.append(analysis_type);
        Err(message)
    }
}

} // verus!
