//! The `info` command family.

use vstd::prelude::*;
use crate::json::json_string;
use crate::json::write_json_string;

verus! {

/// The one command of the `info` root.
#[derive(Debug, Clone, Copy, PartialEq, Eq)]
pub enum InfoCommand {
    GetVersion,
}

/// The payload under the `info` root key.
#[derive(Debug, Clone, PartialEq, Eq)]
pub struct InfoPayload {
    pub sequence_id: String,
    pub command: InfoCommand,
}

/// The JSON object an `info` payload serializes to.
pub open spec fn spec_info_payload_json(p: &InfoPayload) -> Seq<char> {
    "{\"sequence_id\":"@ + json_string(p.sequence_id@) + ",\"command\":\"get_version\"}"@
}

impl InfoPayload {
    /// Appends this payload's JSON object to `out`.
    pub fn write_json(&self, out: &mut String)
        ensures
            final(out)@ == old(out)@ + spec_info_payload_json(self),
    {
        out.append("{\"sequence_id\":");
        write_json_string(out, self.sequence_id.as_str());
        out.append(",\"command\":\"get_version\"}");
    }
}

} // verus!
