use vstd::prelude::*;

verus! {

use crate::kv::KV;

/// Capabilities a request-path propagation store offers to the hop that
/// writes it: `persistent` entries are re-forwarded at every hop,
/// `transient` entries are valid for exactly the next hop, and `upstream`
/// entries are staged here to travel back toward the origin with the
/// eventual response. The `strip_..._prefix` writers accept a wire-level
/// key carrying a transport prefix and store it under the remaining key.
pub trait Forward {
    fn get_persistent(&self, key: &str) -> Option<String>;

    fn get_transient(&self, key: &str) -> Option<String>;

    fn get_upstream(&self, key: &str) -> Option<String>;

    fn get_all_persistents(&self) -> Option<&Vec<KV>>;

    fn get_all_transients(&self) -> Option<&Vec<KV>>;

    fn get_all_upstreams(&self) -> Option<&Vec<KV>>;

    fn set_persistent(&mut self, key: String, value: String);

    fn set_transient(&mut self, key: String, value: String);

    fn set_upstream(&mut self, key: String, value: String);

    fn strip_rpc_prefix_and_set_persistent(&mut self, key: String, value: String);

    fn strip_rpc_prefix_and_set_upstream(&mut self, key: String, value: String);

    fn strip_http_prefix_and_set_persistent(&mut self, key: String, value: String);

    fn strip_http_prefix_and_set_upstream(&mut self, key: String, value: String);

    fn del_persistent(&mut self, key: &str);

    fn del_transient(&mut self, key: &str);

    fn del_upstream(&mut self, key: &str);
}

} // verus!
