//! The `info` reply: firmware/module inventory.

use vstd::prelude::*;

verus! {

/// One hardware/firmware module entry.
#[derive(Debug, Clone, PartialEq, Eq)]
pub struct Module {
    pub name: String,
    pub project_name: String,
    pub sw_ver: String,
    pub hw_ver: String,
    pub sn: String,
    pub flag: u8,
    pub loader_ver: Option<String>,
    pub ota_ver: Option<String>,
}

/// The model of a module entry.
pub struct ModuleModel {
    pub name: Seq<char>,
    pub project_name: Seq<char>,
    pub sw_ver: Seq<char>,
    pub hw_ver: Seq<char>,
    pub sn: Seq<char>,
    pub flag: int,
    pub loader_ver: Option<Seq<char>>,
    pub ota_ver: Option<Seq<char>>,
}

/// An `info` reply.
#[derive(Debug, Clone, PartialEq, Eq)]
pub struct Info {
    pub command: String,
    pub sequence_id: String,
    pub module: Vec<Module>,
    pub result: String,
    pub reason: String,
}

/// The model of an `info` reply.
pub struct InfoModel {
    pub command: Seq<char>,
    pub sequence_id: Seq<char>,
    pub module: Seq<ModuleModel>,
    pub result: Seq<char>,
    pub reason: Seq<char>,
}

/// `m` denotes the model `model`.
pub open spec fn module_models(m: &Module, model: ModuleModel) -> bool {
    &&& m.name@ == model.name
    &&& m.project_name@ == model.project_name
    &&& m.sw_ver@ == model.sw_ver
    &&& m.hw_ver@ == model.hw_ver
    &&& m.sn@ == model.sn
    &&& m.flag as int == model.flag
    &&& match (&m.loader_ver, model.loader_ver) {
        (Some(s), Some(t)) => s@ == t,
        (None, None) => true,
        _ => false,
    }
    &&& match (&m.ota_ver, model.ota_ver) {
        (Some(s), Some(t)) => s@ == t,
        (None, None) => true,
        _ => false,
    }
}

/// `i` denotes the model `model`.
pub open spec fn info_models(i: &Info, model: InfoModel) -> bool {
    &&& i.command@ == model.command
    &&& i.sequence_id@ == model.sequence_id
    &&& i.module@.len() == model.module.len()
    &&& forall|k: int|
        0 <= k < model.module.len() ==> module_models(&i.module@[k], #[trigger] model.module[k])
    &&& i.result@ == model.result
    &&& i.reason@ == model.reason
}

} // verus!
