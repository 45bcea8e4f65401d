//! The `print` reply: printer status.  The temperatures arrive as JSON
//! numbers; they are kept as their raw decimal text here.

use vstd::prelude::*;

verus! {

/// A `print` reply.
#[derive(Debug, Clone, PartialEq, Eq)]
pub struct Print {
    pub bed_temper: Option<String>,
    pub nozzle_temper: Option<String>,
    pub command: String,
    pub msg: u64,
    pub sequence_id: String,
}

/// The model of a `print` reply.
pub struct PrintModel {
    pub bed_temper: Option<Seq<char>>,
    pub nozzle_temper: Option<Seq<char>>,
    pub command: Seq<char>,
    pub msg: int,
    pub sequence_id: Seq<char>,
}

/// `p` denotes the model `model`.
pub open spec fn print_models(p: &Print, model: PrintModel) -> bool {
    &&& match (&p.bed_temper, model.bed_temper) {
        (Some(s), Some(t)) => s@ == t,
        (None, None) => true,
        _ => false,
    }
    &&& match (&p.nozzle_temper, model.nozzle_temper) {
        (Some(s), Some(t)) => s@ == t,
        (None, None) => true,
        _ => false,
    }
    &&& p.command@ == model.command
    &&& p.msg as int == model.msg
    &&& p.sequence_id@ == model.sequence_id
}

} // verus!
