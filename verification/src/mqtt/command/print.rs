//! The `print` command family.

use vstd::prelude::*;
use crate::json::json_string;
use crate::json::write_json_string;

verus! {

/// The commands of the `print` root; some carry parameters.
#[derive(Debug, Clone, PartialEq, Eq)]
pub enum PrintCommand {
    Pause,
    Resume,
    Stop,
    PrintSpeed { param: String },
    GcodeLine { param: String },
    ExtrusionCalibrationGet { filament_id: String, nozzle_diameter: String },
}

/// The payload under the `print` root key.
#[derive(Debug, Clone, PartialEq, Eq)]
pub struct PrintPayload {
    pub sequence_id: String,
    pub command: PrintCommand,
}

/// The command discriminator and parameter fields of a `print` command.
pub open spec fn spec_print_command_json(c: &PrintCommand) -> Seq<char> {
    match c {
        PrintCommand::Pause => "\"command\":\"pause\""@,
        PrintCommand::Resume => "\"command\":\"resume\""@,
        PrintCommand::Stop => "\"command\":\"stop\""@,
        PrintCommand::PrintSpeed { param } => "\"command\":\"print_speed\",\"param\":"@
            + json_string(param@),
        PrintCommand::GcodeLine { param } => "\"command\":\"gcode_line\",\"param\":"@
            + json_string(param@),
        PrintCommand::ExtrusionCalibrationGet { filament_id, nozzle_diameter } =>
            "\"command\":\"extrusion_cali_get\",\"filament_id\":"@ + json_string(filament_id@)
            + ",\"nozzle_diameter\":"@ + json_string(nozzle_diameter@),
    }
}

/// The JSON object a `print` payload serializes to.
pub open spec fn spec_print_payload_json(p: &PrintPayload) -> Seq<char> {
    "{\"sequence_id\":"@ + json_string(p.sequence_id@) + ","@ + spec_print_command_json(
        &p.command,
    ) + "}"@
}

impl PrintPayload {
    /// Appends this payload's JSON object to `out`.
    pub fn write_json(&self, out: &mut String)
        ensures
            final(out)@ == old(out)@ + spec_print_payload_json(self),
    {
        out.append("{\"sequence_id\":");
        write_json_string(out, self.sequence_id.as_str());
        out.append(",");
        match &self.command {
            PrintCommand::Pause => {
                out.append("\"command\":\"pause\"");
            },
            PrintCommand::Resume => {
                out.append("\"command\":\"resume\"");
            },
            PrintCommand::Stop => {
                out.append("\"command\":\"stop\"");
            },
            PrintCommand::PrintSpeed { param } => {
                out.append("\"command\":\"print_speed\",\"param\":");
                write_json_string(out, param.as_str());
            },
            PrintCommand::GcodeLine { param } => {
                out.append("\"command\":\"gcode_line\",\"param\":");
                write_json_string(out, param.as_str());
            },
            PrintCommand::ExtrusionCalibrationGet { filament_id, nozzle_diameter } => {
                out.append("\"command\":\"extrusion_cali_get\",\"filament_id\":");
                write_json_string(out, filament_id.as_str());
                out.append(",\"nozzle_diameter\":");
                write_json_string(out, nozzle_diameter.as_str());
            },
        }
        out.append("}");
        proof {
            assert(out@ =~= old(out)@ + spec_print_payload_json(self));
        }
    }
}

} // verus!
