//! Outbound MQTT commands: one JSON root key per family, each payload
//! tagged with its sequence id and a `command` discriminator.

pub mod info;
pub mod print;
pub mod pushing;
pub mod system;

use vstd::prelude::*;
use vstd::utf8::encode_utf8;
use vstd::string::StrSliceExecFns;
use info::InfoPayload;
use info::spec_info_payload_json;
use print::PrintPayload;
use print::spec_print_payload_json;
use pushing::PushingPayload;
use pushing::spec_pushing_payload_json;
use system::SystemPayload;
use system::spec_system_payload_json;

verus! {

/// A command to the device: one JSON root key per variant.
#[derive(Debug, Clone, PartialEq, Eq)]
pub enum Command {
    Info { info: InfoPayload },
    Print { print: PrintPayload },
    Pushing { pushing: PushingPayload },
    System { system: SystemPayload },
}

/// The sequence id a command carries.
pub open spec fn spec_sequence_id(c: &Command) -> Seq<char> {
    match c {
        Command::Info { info } => info.sequence_id@,
        Command::Print { print } => print.sequence_id@,
        Command::Pushing { pushing } => pushing.sequence_id@,
        Command::System { system } => system.sequence_id@,
    }
}

/// The JSON document a command serializes to.
pub open spec fn spec_command_json(c: &Command) -> Seq<char> {
    match c {
        Command::Info { info } => "{\"info\":"@ + spec_info_payload_json(info) + "}"@,
        Command::Print { print } => "{\"print\":"@ + spec_print_payload_json(print) + "}"@,
        Command::Pushing { pushing } => "{\"pushing\":"@ + spec_pushing_payload_json(pushing)
            + "}"@,
        Command::System { system } => "{\"system\":"@ + spec_system_payload_json(system)
            + "}"@,
    }
}

impl Command {
    /// The sequence id this command carries.
    pub fn sequence_id(&self) -> (r: &String)
        ensures
            r@ == spec_sequence_id(self),
    {
        match self {
            Command::Info { info } => &info.sequence_id,
            Command::Print { print } => &print.sequence_id,
            Command::Pushing { pushing } => &pushing.sequence_id,
            Command::System { system } => &system.sequence_id,
        }
    }

    /// Renders this command as its JSON document.
    pub fn to_json(&self) -> (r: String)
        ensures
            r@ == spec_command_json(self),
    {
        let mut out = String::new();
        match self {
            Command::Info { info } => {
                out.append("{\"info\":");
                info.write_json(&mut out);
            },
            Command::Print { print } => {
                out.append("{\"print\":");
                print.write_json(&mut out);
            },
            Command::Pushing { pushing } => {
                out.append("{\"pushing\":");
                pushing.write_json(&mut out);
            },
            Command::System { system } => {
                out.append("{\"system\":");
                system.write_json(&mut out);
            },
        }
        out.append("}");
        proof {
            assert(out@ =~= spec_command_json(self));
        }
        out
    }

    /// The UTF-8 bytes of this command's JSON document, ready to publish.
    pub fn to_payload_bytes(&self) -> (r: Vec<u8>)
        ensures
            r@ == encode_utf8(spec_command_json(self)),
    {
        let s = self.to_json();
        s.as_str().as_bytes_vec()
    }
}

} // verus!
