//! The `system` command family: light control and accessory queries.

use vstd::prelude::*;
use crate::json::json_string;
use crate::json::write_json_string;
use crate::text::dec_chars;
use crate::text::u64_to_string;

verus! {

/// The LED that can be controlled.
#[derive(Debug, Clone, Copy, PartialEq, Eq)]
pub enum LedNode {
    ChamberLight,
}

/// The LED mode.
#[derive(Debug, Clone, Copy, PartialEq, Eq)]
pub enum LedMode {
    On,
    Off,
}

/// The accessory selector.
#[derive(Debug, Clone, Copy, PartialEq, Eq)]
pub enum AccessoryType {
    NoAccessory,
}

/// The `ledctrl` parameters.
#[derive(Debug, Clone, Copy, PartialEq, Eq)]
pub struct LedCtrl {
    pub led_node: LedNode,
    pub led_mode: LedMode,
    pub led_on_time: u32,
    pub led_off_time: u32,
    pub loop_times: u32,
    pub interval_time: u32,
}

/// The commands of the `system` root.
#[derive(Debug, Clone, Copy, PartialEq, Eq)]
pub enum SystemCommand {
    LedCtrl(LedCtrl),
    GetAccessories { accessory_type: AccessoryType },
}

/// The payload under the `system` root key.
#[derive(Debug, Clone, PartialEq, Eq)]
pub struct SystemPayload {
    pub sequence_id: String,
    pub command: SystemCommand,
}

/// The snake_case name of an LED mode.
pub open spec fn spec_led_mode_json(m: LedMode) -> Seq<char> {
    match m {
        LedMode::On => "\"on\""@,
        LedMode::Off => "\"off\""@,
    }
}

/// The fields of a `ledctrl` command, after the discriminator.
pub open spec fn spec_led_ctrl_fields_json(c: &LedCtrl) -> Seq<char> {
    "\"led_node\":\"chamber_light\",\"led_mode\":"@ + spec_led_mode_json(c.led_mode)
        + ",\"led_on_time\":"@ + dec_chars(c.led_on_time as int) + ",\"led_off_time\":"@
        + dec_chars(c.led_off_time as int) + ",\"loop_times\":"@ + dec_chars(
        c.loop_times as int,
    ) + ",\"interval_time\":"@ + dec_chars(c.interval_time as int)
}

/// The command discriminator and parameter fields of a `system` command.
pub open spec fn spec_system_command_json(c: &SystemCommand) -> Seq<char> {
    match c {
        SystemCommand::LedCtrl(led) => "\"command\":\"ledctrl\","@ + spec_led_ctrl_fields_json(
            led,
        ),
        SystemCommand::GetAccessories { accessory_type } =>
            "\"command\":\"get_accessories\",\"accessory_type\":\"none\""@,
    }
}

/// The JSON object a `system` payload serializes to.
pub open spec fn spec_system_payload_json(p: &SystemPayload) -> Seq<char> {
    "{\"sequence_id\":"@ + json_string(p.sequence_id@) + ","@ + spec_system_command_json(
        &p.command,
    ) + "}"@
}

impl SystemPayload {
    /// Appends this payload's JSON object to `out`.
    pub fn write_json(&self, out: &mut String)
        ensures
            final(out)@ == old(out)@ + spec_system_payload_json(self),
    {
        out.append("{\"sequence_id\":");
        write_json_string(out, self.sequence_id.as_str());
        out.append(",");
        match &self.command {
            SystemCommand::LedCtrl(led) => {
                out.append("\"command\":\"ledctrl\",");
                out.append("\"led_node\":\"chamber_light\",\"led_mode\":");
                match led.led_mode {
                    LedMode::On => out.append("\"on\""),
                    LedMode::Off => out.append("\"off\""),
                }
                out.append(",\"led_on_time\":");
                let t1 = u64_to_string(led.led_on_time as u64);
                out.append(t1.as_str());
                out.append(",\"led_off_time\":");
                let t2 = u64_to_string(led.led_off_time as u64);
                out.append(t2.as_str());
                out.append(",\"loop_times\":");
                let t3 = u64_to_string(led.loop_times as u64);
                out.append(t3.as_str());
                out.append(",\"interval_time\":");
                let t4 = u64_to_string(led.interval_time as u64);
                out.append(t4.as_str());
            },
            SystemCommand::GetAccessories { accessory_type } => {
                out.append("\"command\":\"get_accessories\",\"accessory_type\":\"none\"");
            },
        }
        out.append("}");
        proof {
            assert(out@ =~= old(out)@ + spec_system_payload_json(self));
        }
    }
}

} // verus!
