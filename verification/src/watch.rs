//! The watch that feeds the engine: which pods it covers.

use vstd::prelude::*;
use vstd::string::*;

verus! {

/// The field selector's fixed part: it names the pod field that holds the
/// node a pod is assigned to.
pub open spec fn selector_prefix() -> Seq<char> {
    "spec.nodeName="@
}

/// The field selector that narrows a watch to the pods assigned to
/// `node_name`.
pub fn field_selector(node_name: &str) -> (selector: String)
    ensures
        selector@ == selector_prefix() + node_name@,
{
    let mut selector = "spec.nodeName=".to_owned();
    selector.append(node_name);
    selector
}

} // verus!
