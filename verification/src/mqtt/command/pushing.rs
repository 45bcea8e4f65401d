//! The `pushing` command family.

use vstd::prelude::*;
use crate::json::json_string;
use crate::json::write_json_string;
use crate::text::dec_chars;
use crate::text::u64_to_string;

verus! {

/// The commands of the `pushing` root.
#[derive(Debug, Clone, PartialEq, Eq)]
pub enum PushingCommand {
    PushAll { push_target: u64, version: u64 },
    Start,
}

/// The payload under the `pushing` root key.
#[derive(Debug, Clone, PartialEq, Eq)]
pub struct PushingPayload {
    pub sequence_id: String,
    pub command: PushingCommand,
}

/// The command discriminator and parameter fields of a `pushing` command.
pub open spec fn spec_pushing_command_json(c: &PushingCommand) -> Seq<char> {
    match c {
        PushingCommand::PushAll { push_target, version } =>
            "\"command\":\"pushall\",\"push_target\":"@ + dec_chars(*push_target as int)
            + ",\"version\":"@ + dec_chars(*version as int),
        PushingCommand::Start => "\"command\":\"start\""@,
    }
}

/// The JSON object a `pushing` payload serializes to.
pub open spec fn spec_pushing_payload_json(p: &PushingPayload) -> Seq<char> {
    "{\"sequence_id\":"@ + json_string(p.sequence_id@) + ","@ + spec_pushing_command_json(
        &p.command,
    ) + "}"@
}

impl PushingPayload {
    /// Appends this payload's JSON object to `out`.
    pub fn write_json(&self, out: &mut String)
        ensures
            final(out)@ == old(out)@ + spec_pushing_payload_json(self),
    {
        out.append("{\"sequence_id\":");
        write_json_string(out, self.sequence_id.as_str());
        out.append(",");
        match &self.command {
            PushingCommand::PushAll { push_target, version } => {
                out.append("\"command\":\"pushall\",\"push_target\":");
                let t = u64_to_string(*push_target);
                out.append(t.as_str());
                out.append(",\"version\":");
                let v = u64_to_string(*version);
                out.append(v.as_str());
            },
            PushingCommand::Start => {
                out.append("\"command\":\"start\"");
            },
        }
        out.append("}");
        proof {
            assert(out@ =~= old(out)@ + spec_pushing_payload_json(self));
        }
    }
}

} // verus!
