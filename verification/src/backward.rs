use vstd::prelude::*;

verus! {

use crate::kv::KV;

/// Capabilities a response-path propagation store offers to the hop that
/// writes it: `transient` entries are valid for exactly the preceding hop,
/// while `downstream` entries travel toward increasingly distant callers.
/// A persistent channel makes no sense in the response direction, so none
/// is offered.
pub trait Backward {
    fn get_backward_transient(&self, key: &str) -> Option<&str>;

    fn get_backward_downstream(&self, key: &str) -> Option<&str>;

    fn get_all_backward_transients(&self) -> Option<&Vec<KV>>;

    fn get_all_backward_downstreams(&self) -> Option<&Vec<KV>>;

    fn set_backward_transient(&mut self, key: String, value: String);

    fn set_backward_downstream(&mut self, key: String, value: String);

    fn strip_rpc_prefix_and_set_backward_downstream(&mut self, key: String, value: String);

    fn strip_http_prefix_and_set_backward_downstream(&mut self, key: String, value: String);

    fn del_backward_transient(&mut self, key: &str);

    fn del_backward_downstream(&mut self, key: &str);
}

} // verus!
