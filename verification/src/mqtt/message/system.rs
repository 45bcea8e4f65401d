//! The `system` reply: the echoed `ledctrl` command with its outcome.

use vstd::prelude::*;
use crate::mqtt::command::system::LedCtrl;

verus! {

/// A `system` reply.
#[derive(Debug, Clone, PartialEq, Eq)]
pub struct System {
    pub sequence_id: String,
    pub command: LedCtrl,
    pub reason: String,
    pub result: String,
}

/// The model of a `system` reply.
pub struct SystemModel {
    pub sequence_id: Seq<char>,
    pub command: LedCtrl,
    pub reason: Seq<char>,
    pub result: Seq<char>,
}

/// `s` denotes the model `model`.
pub open spec fn system_models(s: &System, model: SystemModel) -> bool {
    &&& s.sequence_id@ == model.sequence_id
    &&& s.command == model.command
    &&& s.reason@ == model.reason
    &&& s.result@ == model.result
}

} // verus!
