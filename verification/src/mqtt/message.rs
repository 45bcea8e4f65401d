//! Inbound MQTT replies: JSON documents tagged at the root by `print`,
//! `info` or `system`, decoded against closed models.

pub mod info;
pub mod print;
pub mod system;

use vstd::prelude::*;
use crate::json::Json;
use crate::json::JsonValue;
use crate::json::models;
use crate::json::obj_models;
use crate::json::arr_models;
use crate::json::sp_document;
use crate::json::parse_document;
use crate::text::all_dec_digits;
use crate::text::dec_value;
use crate::text::utf8_str;
use vstd::string::StrSliceExecFns;
use crate::text::str_eq;
use crate::mqtt::command::system::LedCtrl;
use crate::mqtt::command::system::LedMode;
use crate::mqtt::command::system::LedNode;
use info::Info;
use info::InfoModel;
use info::Module;
use info::ModuleModel;
use info::info_models;
use info::module_models;
use print::Print;
use print::PrintModel;
use print::print_models;
use system::System;
use system::SystemModel;
use system::system_models;

verus! {

/// A decoded reply.
#[derive(Debug, Clone, PartialEq)]
pub enum Message {
    Print(Print),
    Info(Info),
    System(System),
}

/// The model of a reply.
pub enum MessageModel {
    Print(PrintModel),
    Info(InfoModel),
    System(SystemModel),
}

/// The reply was not of the expected shape.
#[derive(Debug, Clone, Copy, PartialEq, Eq)]
pub struct TryFromMessageError {
}

/// The payload did not decode to a reply.
#[derive(Debug, Clone, Copy, PartialEq, Eq)]
pub struct MessageDecodeError {
}

/// `msg` denotes the model `model`.
pub open spec fn message_models(msg: &Message, model: MessageModel) -> bool {
    match model {
        MessageModel::Print(p) => msg matches Message::Print(x) && print_models(x, p),
        MessageModel::Info(i) => msg matches Message::Info(x) && info_models(x, i),
        MessageModel::System(s) => msg matches Message::System(x) && system_models(x, s),
    }
}

/// The sequence id a reply carries.
pub open spec fn spec_message_sequence_id(msg: &Message) -> Seq<char> {
    match msg {
        Message::Print(p) => p.sequence_id@,
        Message::Info(i) => i.sequence_id@,
        Message::System(s) => s.sequence_id@,
    }
}

/// The sequence id of a reply model.
pub open spec fn spec_model_sequence_id(model: MessageModel) -> Seq<char> {
    match model {
        MessageModel::Print(p) => p.sequence_id,
        MessageModel::Info(i) => i.sequence_id,
        MessageModel::System(s) => s.sequence_id,
    }
}

/// The value of the first member of `ms` named `k`.
pub open spec fn obj_get(ms: Seq<(Seq<char>, JsonValue)>, k: Seq<char>) -> Option<JsonValue>
    decreases ms.len(),
{
    if ms.len() == 0 {
        None
    } else if ms[0].0 == k {
        Some(ms[0].1)
    } else {
        obj_get(ms.drop_first(), k)
    }
}

/// A required string field.
pub open spec fn req_str(ms: Seq<(Seq<char>, JsonValue)>, k: Seq<char>) -> Option<Seq<char>> {
    match obj_get(ms, k) {
        Some(JsonValue::Str(t)) => Some(t),
        _ => None,
    }
}

/// A required unsigned integer field: a JSON number written as plain
/// digits, at most `max`.
pub open spec fn req_uint(ms: Seq<(Seq<char>, JsonValue)>, k: Seq<char>, max: int) -> Option<
    int,
> {
    match obj_get(ms, k) {
        Some(JsonValue::Num(raw)) => {
            if raw.len() > 0 && all_dec_digits(raw) && dec_value(raw) <= max {
                Some(dec_value(raw))
            } else {
                None
            }
        },
        _ => None,
    }
}

/// An optional string field: absent or `null` is `None`.
pub open spec fn opt_str(ms: Seq<(Seq<char>, JsonValue)>, k: Seq<char>) -> Result<
    Option<Seq<char>>,
    (),
> {
    match obj_get(ms, k) {
        None => Ok(None),
        Some(JsonValue::Null) => Ok(None),
        Some(JsonValue::Str(t)) => Ok(Some(t)),
        _ => Err(()),
    }
}

/// An optional number field, kept as raw text: absent or `null` is
/// `None`.
pub open spec fn opt_num(ms: Seq<(Seq<char>, JsonValue)>, k: Seq<char>) -> Result<
    Option<Seq<char>>,
    (),
> {
    match obj_get(ms, k) {
        None => Ok(None),
        Some(JsonValue::Null) => Ok(None),
        Some(JsonValue::Num(raw)) => Ok(Some(raw)),
        _ => Err(()),
    }
}

/// What a `print` payload decodes to.
pub open spec fn spec_print_of(ms: Seq<(Seq<char>, JsonValue)>) -> Result<PrintModel, ()> {
    match (req_str(ms, "command"@), req_str(ms, "sequence_id"@), req_uint(
        ms,
        "msg"@,
        u64::MAX as int,
    ), opt_num(ms, "bed_temper"@), opt_num(ms, "nozzle_temper"@)) {
        (Some(command), Some(sequence_id), Some(msg), Ok(bed_temper), Ok(nozzle_temper)) => Ok(
            PrintModel { bed_temper, nozzle_temper, command, msg, sequence_id },
        ),
        _ => Err(()),
    }
}

/// What one module entry decodes to.
pub open spec fn spec_module_of(v: JsonValue) -> Result<ModuleModel, ()> {
    match v {
        JsonValue::Obj(ms) => match (req_str(ms, "name"@), req_str(ms, "project_name"@), req_str(
            ms,
            "sw_ver"@,
        ), req_str(ms, "hw_ver"@), req_str(ms, "sn"@), req_uint(ms, "flag"@, 255), opt_str(
            ms,
            "loader_ver"@,
        ), opt_str(ms, "ota_ver"@)) {
            (
                Some(name),
                Some(project_name),
                Some(sw_ver),
                Some(hw_ver),
                Some(sn),
                Some(flag),
                Ok(loader_ver),
                Ok(ota_ver),
            ) => Ok(
                ModuleModel {
                    name,
                    project_name,
                    sw_ver,
                    hw_ver,
                    sn,
                    flag,
                    loader_ver,
                    ota_ver,
                },
            ),
            _ => Err(()),
        },
        _ => Err(()),
    }
}

/// What a module list decodes to.
pub open spec fn spec_modules_of(vs: Seq<JsonValue>) -> Result<Seq<ModuleModel>, ()>
    decreases vs.len(),
{
    if vs.len() == 0 {
        Ok(Seq::empty())
    } else {
        match spec_module_of(vs[0]) {
            Err(e) => Err(e),
            Ok(m) => match spec_modules_of(vs.drop_first()) {
                Err(e) => Err(e),
                Ok(rest) => Ok(seq![m] + rest),
            },
        }
    }
}

/// What an `info` payload decodes to.
pub open spec fn spec_info_of(ms: Seq<(Seq<char>, JsonValue)>) -> Result<InfoModel, ()> {
    match (req_str(ms, "command"@), req_str(ms, "sequence_id"@), req_str(ms, "result"@), req_str(
        ms,
        "reason"@,
    ), obj_get(ms, "module"@)) {
        (Some(command), Some(sequence_id), Some(result), Some(reason), Some(
            JsonValue::Arr(vs),
        )) => match spec_modules_of(vs) {
            Ok(module) => Ok(InfoModel { command, sequence_id, module, result, reason }),
            Err(e) => Err(e),
        },
        _ => Err(()),
    }
}

/// What a `system` payload decodes to: the echoed `ledctrl` command
/// with its outcome, against the closed node and mode enums.
pub open spec fn spec_system_of(ms: Seq<(Seq<char>, JsonValue)>) -> Result<SystemModel, ()> {
    match (req_str(ms, "sequence_id"@), req_str(ms, "command"@), req_str(ms, "led_node"@),
    req_str(ms, "led_mode"@), req_uint(ms, "led_on_time"@, u32::MAX as int), req_uint(
        ms,
        "led_off_time"@,
        u32::MAX as int,
    ), req_uint(ms, "loop_times"@, u32::MAX as int), req_uint(
        ms,
        "interval_time"@,
        u32::MAX as int,
    ), req_str(ms, "reason"@), req_str(ms, "result"@)) {
        (
            Some(sequence_id),
            Some(command),
            Some(led_node),
            Some(led_mode),
            Some(led_on_time),
            Some(led_off_time),
            Some(loop_times),
            Some(interval_time),
            Some(reason),
            Some(result),
        ) => {
            if command == "ledctrl"@ && led_node == "chamber_light"@ && (led_mode == "on"@
                || led_mode == "off"@) {
                Ok(
                    SystemModel {
                        sequence_id,
                        command: LedCtrl {
                            led_node: LedNode::ChamberLight,
                            led_mode: if led_mode == "on"@ {
                                LedMode::On
                            } else {
                                LedMode::Off
                            },
                            led_on_time: led_on_time as u32,
                            led_off_time: led_off_time as u32,
                            loop_times: loop_times as u32,
                            interval_time: interval_time as u32,
                        },
                        reason,
                        result,
                    },
                )
            } else {
                Err(())
            }
        },
        _ => Err(()),
    }
}

/// What a whole reply document decodes to: an object with exactly one
/// root key, `print`, `info` or `system`, over an object payload.
pub open spec fn spec_message_of(v: JsonValue) -> Result<MessageModel, ()> {
    match v {
        JsonValue::Obj(root) => {
            if root.len() != 1 {
                Err(())
            } else {
                let key = root[0].0;
                match root[0].1 {
                    JsonValue::Obj(ms) => {
                        if key == "print"@ {
                            match spec_print_of(ms) {
                                Ok(p) => Ok(MessageModel::Print(p)),
                                Err(e) => Err(e),
                            }
                        } else if key == "info"@ {
                            match spec_info_of(ms) {
                                Ok(i) => Ok(MessageModel::Info(i)),
                                Err(e) => Err(e),
                            }
                        } else if key == "system"@ {
                            match spec_system_of(ms) {
                                Ok(s) => Ok(MessageModel::System(s)),
                                Err(e) => Err(e),
                            }
                        } else {
                            Err(())
                        }
                    },
                    _ => Err(()),
                }
            }
        },
        _ => Err(()),
    }
}

/// The decode outcome of a payload text: the parse result of the JSON
/// document, then the message extraction.
pub open spec fn spec_message_from_chars(s: Seq<char>) -> Result<MessageModel, ()> {
    match sp_document(s) {
        None => Err(()),
        Some(v) => spec_message_of(v),
    }
}

/// Looks up the first member of `fs` named `key`.
fn obj_get_exec<'a>(
    fs: &'a Vec<(String, Json)>,
    key: &str,
    Ghost(ms): Ghost<Seq<(Seq<char>, JsonValue)>>,
) -> (r: Option<&'a Json>)
    requires
        obj_models(fs@, ms),
    ensures
        match r {
            Some(j) => obj_get(ms, key@) matches Some(mv) && models(*j, mv),
            None => obj_get(ms, key@) is None,
        },
{
    let mut i: usize = 0;
    proof {
        assert(ms.skip(0) =~= ms);
    }
    while i < fs.len()
        invariant
            i <= fs@.len(),
            obj_models(fs@, ms),
            obj_get(ms, key@) == obj_get(ms.skip(i as int), key@),
        decreases fs@.len() - i,
    {
        let ghost tail = ms.skip(i as int);
        proof {
            assert(tail[0] == ms[i as int]);
            assert(tail.drop_first() =~= ms.skip(i + 1));
        }
        if str_eq(fs[i].0.as_str(), key) {
            return Some(&fs[i].1);
        }
        i = i + 1;
    }
    proof {
        assert(ms.skip(ms.len() as int).len() == 0);
    }
    None
}

/// Reads a required string field.
fn req_str_exec(
    fs: &Vec<(String, Json)>,
    key: &str,
    Ghost(ms): Ghost<Seq<(Seq<char>, JsonValue)>>,
) -> (r: Option<String>)
    requires
        obj_models(fs@, ms),
    ensures
        match r {
            Some(s) => req_str(ms, key@) == Some(s@),
            None => req_str(ms, key@) is None,
        },
{
    match obj_get_exec(fs, key, Ghost(ms)) {
        Some(Json::Str(s)) => Some(s.clone()),
        _ => None,
    }
}

/// Reads a required unsigned integer field.
fn req_uint_exec(
    fs: &Vec<(String, Json)>,
    key: &str,
    max: u64,
    Ghost(ms): Ghost<Seq<(Seq<char>, JsonValue)>>,
) -> (r: Option<u64>)
    requires
        obj_models(fs@, ms),
    ensures
        match r {
            Some(v) => req_uint(ms, key@, max as int) == Some(v as int),
            None => req_uint(ms, key@, max as int) is None,
        },
{
    match obj_get_exec(fs, key, Ghost(ms)) {
        Some(Json::Num(raw)) => {
            let n = raw.as_str().unicode_len();
            let v = crate::text::parse_dec_range(raw.as_str(), 0, n, max);
            proof {
                assert(raw@.subrange(0, n as int) =~= raw@);
            }
            v
        },
        _ => None,
    }
}

/// Reads an optional string field.
fn opt_str_exec(
    fs: &Vec<(String, Json)>,
    key: &str,
    Ghost(ms): Ghost<Seq<(Seq<char>, JsonValue)>>,
) -> (r: Result<Option<String>, MessageDecodeError>)
    requires
        obj_models(fs@, ms),
    ensures
        match r {
            Ok(Some(s)) => opt_str(ms, key@) == Ok::<Option<Seq<char>>, ()>(Some(s@)),
            Ok(None) => opt_str(ms, key@) == Ok::<Option<Seq<char>>, ()>(
                None::<Seq<char>>,
            ),
            Err(e) => opt_str(ms, key@) is Err,
        },
{
    match obj_get_exec(fs, key, Ghost(ms)) {
        None => Ok(None),
        Some(Json::Null) => Ok(None),
        Some(Json::Str(s)) => Ok(Some(s.clone())),
        _ => Err(MessageDecodeError {  }),
    }
}

/// Reads an optional number field, keeping the raw text.
fn opt_num_exec(
    fs: &Vec<(String, Json)>,
    key: &str,
    Ghost(ms): Ghost<Seq<(Seq<char>, JsonValue)>>,
) -> (r: Result<Option<String>, MessageDecodeError>)
    requires
        obj_models(fs@, ms),
    ensures
        match r {
            Ok(Some(s)) => opt_num(ms, key@) == Ok::<Option<Seq<char>>, ()>(Some(s@)),
            Ok(None) => opt_num(ms, key@) == Ok::<Option<Seq<char>>, ()>(
                None::<Seq<char>>,
            ),
            Err(e) => opt_num(ms, key@) is Err,
        },
{
    match obj_get_exec(fs, key, Ghost(ms)) {
        None => Ok(None),
        Some(Json::Null) => Ok(None),
        Some(Json::Num(s)) => Ok(Some(s.clone())),
        _ => Err(MessageDecodeError {  }),
    }
}

/// Decodes a `print` payload.
fn print_of_exec(
    fs: &Vec<(String, Json)>,
    Ghost(ms): Ghost<Seq<(Seq<char>, JsonValue)>>,
) -> (r: Result<Print, MessageDecodeError>)
    requires
        obj_models(fs@, ms),
    ensures
        match r {
            Ok(p) => spec_print_of(ms) matches Ok(model) && print_models(&p, model),
            Err(e) => spec_print_of(ms) is Err,
        },
{
    let command = match req_str_exec(fs, "command", Ghost(ms)) {
        Some(s) => s,
        None => {
            return Err(MessageDecodeError {  });
        },
    };
    let sequence_id = match req_str_exec(fs, "sequence_id", Ghost(ms)) {
        Some(s) => s,
        None => {
            return Err(MessageDecodeError {  });
        },
    };
    let msg = match req_uint_exec(fs, "msg", u64::MAX, Ghost(ms)) {
        Some(v) => v,
        None => {
            return Err(MessageDecodeError {  });
        },
    };
    let bed_temper = match opt_num_exec(fs, "bed_temper", Ghost(ms)) {
        Ok(v) => v,
        Err(e) => {
            return Err(e);
        },
    };
    let nozzle_temper = match opt_num_exec(fs, "nozzle_temper", Ghost(ms)) {
        Ok(v) => v,
        Err(e) => {
            return Err(e);
        },
    };
    Ok(Print { bed_temper, nozzle_temper, command, msg, sequence_id })
}

/// Decodes one module entry.
fn module_of_exec(j: &Json, Ghost(mv): Ghost<JsonValue>) -> (r: Result<
    Module,
    MessageDecodeError,
>)
    requires
        models(*j, mv),
    ensures
        match r {
            Ok(m) => spec_module_of(mv) matches Ok(model) && module_models(&m, model),
            Err(e) => spec_module_of(mv) is Err,
        },
{
    let fs = match j {
        Json::Obj(fs) => fs,
        _ => {
            return Err(MessageDecodeError {  });
        },
    };
    let ghost ms = mv->Obj_0;
    let name = match req_str_exec(fs, "name", Ghost(ms)) {
        Some(s) => s,
        None => {
            return Err(MessageDecodeError {  });
        },
    };
    let project_name = match req_str_exec(fs, "project_name", Ghost(ms)) {
        Some(s) => s,
        None => {
            return Err(MessageDecodeError {  });
        },
    };
    let sw_ver = match req_str_exec(fs, "sw_ver", Ghost(ms)) {
        Some(s) => s,
        None => {
            return Err(MessageDecodeError {  });
        },
    };
    let hw_ver = match req_str_exec(fs, "hw_ver", Ghost(ms)) {
        Some(s) => s,
        None => {
            return Err(MessageDecodeError {  });
        },
    };
    let sn = match req_str_exec(fs, "sn", Ghost(ms)) {
        Some(s) => s,
        None => {
            return Err(MessageDecodeError {  });
        },
    };
    let flag = match req_uint_exec(fs, "flag", 255, Ghost(ms)) {
        Some(v) => v,
        None => {
            return Err(MessageDecodeError {  });
        },
    };
    let loader_ver = match opt_str_exec(fs, "loader_ver", Ghost(ms)) {
        Ok(v) => v,
        Err(e) => {
            return Err(e);
        },
    };
    let ota_ver = match opt_str_exec(fs, "ota_ver", Ghost(ms)) {
        Ok(v) => v,
        Err(e) => {
            return Err(e);
        },
    };
    Ok(
        Module {
            name,
            project_name,
            sw_ver,
            hw_ver,
            sn,
            flag: flag as u8,
            loader_ver,
            ota_ver,
        },
    )
}

/// Decodes the module list from index `i` on.
fn modules_from_exec(v: &Vec<Json>, i: usize, Ghost(vs): Ghost<Seq<JsonValue>>) -> (r: Result<
    Vec<Module>,
    MessageDecodeError,
>)
    requires
        i <= v@.len(),
        arr_models(v@, vs),
    ensures
        match r {
            Ok(out) => spec_modules_of(vs.skip(i as int)) matches Ok(models_out)
                && out@.len() == models_out.len() && forall|k: int|
                0 <= k < models_out.len() ==> module_models(
                    &out@[k],
                    #[trigger] models_out[k],
                ),
            Err(e) => spec_modules_of(vs.skip(i as int)) is Err,
        },
    decreases v@.len() - i,
{
    if i == v.len() {
        proof {
            assert(vs.skip(i as int).len() == 0);
        }
        return Ok(Vec::new());
    }
    proof {
        assert(vs.skip(i as int)[0] == vs[i as int]);
        assert(vs.skip(i as int).drop_first() =~= vs.skip(i + 1));
    }
    let head = match module_of_exec(&v[i], Ghost(vs[i as int])) {
        Ok(m) => m,
        Err(e) => {
            return Err(e);
        },
    };
    let rest = match modules_from_exec(v, i + 1, Ghost(vs)) {
        Ok(r) => r,
        Err(e) => {
            return Err(e);
        },
    };
    let mut out: Vec<Module> = Vec::new();
    out.push(head);
    let mut rest = rest;
    let ghost rest_view = rest@;
    out.append(&mut rest);
    proof {
        let models_rest = spec_modules_of(vs.skip(i + 1))->Ok_0;
        let models_out = spec_modules_of(vs.skip(i as int))->Ok_0;
        assert(models_out == seq![spec_module_of(vs[i as int])->Ok_0] + models_rest);
        assert forall|k: int| 0 <= k < models_out.len() implies module_models(
            &out@[k],
            #[trigger] models_out[k],
        ) by {
            if k == 0 {
                assert(out@[0] == head);
                assert(models_out[0] == spec_module_of(vs[i as int])->Ok_0);
            } else {
                assert(out@[k] == rest_view[k - 1]);
                assert(models_out[k] == models_rest[k - 1]);
            }
        }
    }
    Ok(out)
}

/// Decodes an `info` payload.
fn info_of_exec(
    fs: &Vec<(String, Json)>,
    Ghost(ms): Ghost<Seq<(Seq<char>, JsonValue)>>,
) -> (r: Result<Info, MessageDecodeError>)
    requires
        obj_models(fs@, ms),
    ensures
        match r {
            Ok(p) => spec_info_of(ms) matches Ok(model) && info_models(&p, model),
            Err(e) => spec_info_of(ms) is Err,
        },
{
    let command = match req_str_exec(fs, "command", Ghost(ms)) {
        Some(s) => s,
        None => {
            return Err(MessageDecodeError {  });
        },
    };
    let sequence_id = match req_str_exec(fs, "sequence_id", Ghost(ms)) {
        Some(s) => s,
        None => {
            return Err(MessageDecodeError {  });
        },
    };
    let result = match req_str_exec(fs, "result", Ghost(ms)) {
        Some(s) => s,
        None => {
            return Err(MessageDecodeError {  });
        },
    };
    let reason = match req_str_exec(fs, "reason", Ghost(ms)) {
        Some(s) => s,
        None => {
            return Err(MessageDecodeError {  });
        },
    };
    let marr = match obj_get_exec(fs, "module", Ghost(ms)) {
        Some(j) => j,
        None => {
            return Err(MessageDecodeError {  });
        },
    };
    let mvec = match marr {
        Json::Arr(v) => v,
        _ => {
            return Err(MessageDecodeError {  });
        },
    };
    let ghost vs = obj_get(ms, "module"@)->Some_0->Arr_0;
    let module = match modules_from_exec(mvec, 0, Ghost(vs)) {
        Ok(m) => m,
        Err(e) => {
            proof {
                assert(vs.skip(0) =~= vs);
            }
            return Err(e);
        },
    };
    proof {
        assert(vs.skip(0) =~= vs);
    }
    Ok(Info { command, sequence_id, module, result, reason })
}

/// Decodes a `system` payload.
fn system_of_exec(
    fs: &Vec<(String, Json)>,
    Ghost(ms): Ghost<Seq<(Seq<char>, JsonValue)>>,
) -> (r: Result<System, MessageDecodeError>)
    requires
        obj_models(fs@, ms),
    ensures
        match r {
            Ok(p) => spec_system_of(ms) matches Ok(model) && system_models(&p, model),
            Err(e) => spec_system_of(ms) is Err,
        },
{
    let sequence_id = match req_str_exec(fs, "sequence_id", Ghost(ms)) {
        Some(s) => s,
        None => {
            return Err(MessageDecodeError {  });
        },
    };
    let command = match req_str_exec(fs, "command", Ghost(ms)) {
        Some(s) => s,
        None => {
            return Err(MessageDecodeError {  });
        },
    };
    let led_node = match req_str_exec(fs, "led_node", Ghost(ms)) {
        Some(s) => s,
        None => {
            return Err(MessageDecodeError {  });
        },
    };
    let led_mode = match req_str_exec(fs, "led_mode", Ghost(ms)) {
        Some(s) => s,
        None => {
            return Err(MessageDecodeError {  });
        },
    };
    let led_on_time = match req_uint_exec(fs, "led_on_time", u32::MAX as u64, Ghost(ms)) {
        Some(v) => v,
        None => {
            return Err(MessageDecodeError {  });
        },
    };
    let led_off_time = match req_uint_exec(fs, "led_off_time", u32::MAX as u64, Ghost(ms)) {
        Some(v) => v,
        None => {
            return Err(MessageDecodeError {  });
        },
    };
    let loop_times = match req_uint_exec(fs, "loop_times", u32::MAX as u64, Ghost(ms)) {
        Some(v) => v,
        None => {
            return Err(MessageDecodeError {  });
        },
    };
    let interval_time = match req_uint_exec(fs, "interval_time", u32::MAX as u64, Ghost(ms)) {
        Some(v) => v,
        None => {
            return Err(MessageDecodeError {  });
        },
    };
    let reason = match req_str_exec(fs, "reason", Ghost(ms)) {
        Some(s) => s,
        None => {
            return Err(MessageDecodeError {  });
        },
    };
    let result = match req_str_exec(fs, "result", Ghost(ms)) {
        Some(s) => s,
        None => {
            return Err(MessageDecodeError {  });
        },
    };
    if !str_eq(command.as_str(), "ledctrl") {
        return Err(MessageDecodeError {  });
    }
    if !str_eq(led_node.as_str(), "chamber_light") {
        return Err(MessageDecodeError {  });
    }
    let mode = if str_eq(led_mode.as_str(), "on") {
        LedMode::On
    } else if str_eq(led_mode.as_str(), "off") {
        LedMode::Off
    } else {
        return Err(MessageDecodeError {  });
    };
    Ok(
        System {
            sequence_id,
            command: LedCtrl {
                led_node: LedNode::ChamberLight,
                led_mode: mode,
                led_on_time: led_on_time as u32,
                led_off_time: led_off_time as u32,
                loop_times: loop_times as u32,
                interval_time: interval_time as u32,
            },
            reason,
            result,
        },
    )
}

impl Message {
    /// The sequence id this reply carries.
    pub fn sequence_id(&self) -> (r: &String)
        ensures
            r@ == spec_message_sequence_id(self),
    {
        match self {
            Message::Print(p) => &p.sequence_id,
            Message::Info(i) => &i.sequence_id,
            Message::System(s) => &s.sequence_id,
        }
    }

    /// Decodes a reply from its JSON text.
    pub fn from_json_str(s: &str) -> (r: Result<Message, MessageDecodeError>)
        ensures
            match r {
                Ok(msg) => spec_message_from_chars(s@) matches Ok(model) && message_models(
                    &msg,
                    model,
                ),
                Err(e) => spec_message_from_chars(s@) is Err,
            },
    {
        let doc = match parse_document(s) {
            Some(j) => j,
            None => {
                return Err(MessageDecodeError {  });
            },
        };
        let ghost dm = sp_document(s@)->Some_0;
        let root = match &doc {
            Json::Obj(fs) => fs,
            _ => {
                return Err(MessageDecodeError {  });
            },
        };
        let ghost rootm = dm->Obj_0;
        if root.len() != 1 {
            return Err(MessageDecodeError {  });
        }
        let key = &root[0].0;
        proof {
            assert(root@[0].0@ == rootm[0].0 && models(root@[0].1, rootm[0].1));
        }
        let payload = match &root[0].1 {
            Json::Obj(fs) => fs,
            _ => {
                return Err(MessageDecodeError {  });
            },
        };
        let ghost pm = rootm[0].1->Obj_0;
        proof {
            assert(root@[0].0@ == rootm[0].0 && models(root@[0].1, rootm[0].1));
        }
        if str_eq(key.as_str(), "print") {
            match print_of_exec(payload, Ghost(pm)) {
                Ok(p) => Ok(Message::Print(p)),
                Err(e) => Err(e),
            }
        } else if str_eq(key.as_str(), "info") {
            match info_of_exec(payload, Ghost(pm)) {
                Ok(p) => Ok(Message::Info(p)),
                Err(e) => Err(e),
            }
        } else if str_eq(key.as_str(), "system") {
            match system_of_exec(payload, Ghost(pm)) {
                Ok(p) => Ok(Message::System(p)),
                Err(e) => Err(e),
            }
        } else {
            Err(MessageDecodeError {  })
        }
    }

    /// Decodes a reply from the raw payload bytes of a publish packet.
    pub fn from_payload(bytes: &[u8]) -> (r: Result<Message, MessageDecodeError>)
        ensures
            ({
                let b = bytes@;
                if vstd::utf8::valid_utf8(b) {
                    match r {
                        Ok(msg) => spec_message_from_chars(vstd::utf8::decode_utf8(b))
                            matches Ok(model) && message_models(&msg, model),
                        Err(e) => spec_message_from_chars(vstd::utf8::decode_utf8(b)) is Err,
                    }
                } else {
                    r is Err
                }
            }),
    {
        match utf8_str(bytes) {
            Some(text) => Message::from_json_str(text),
            None => Err(MessageDecodeError {  }),
        }
    }
}

impl Print {
    /// Downcasts a reply to a `print` reply.
    pub fn try_from_message(message: Message) -> (r: Result<Print, TryFromMessageError>)
        ensures
            match message {
                Message::Print(p) => r == Ok::<Print, TryFromMessageError>(p),
                _ => r is Err,
            },
    {
        match message {
            Message::Print(p) => Ok(p),
            _ => Err(TryFromMessageError {  }),
        }
    }
}

impl Info {
    /// Downcasts a reply to an `info` reply.
    pub fn try_from_message(message: Message) -> (r: Result<Info, TryFromMessageError>)
        ensures
            match message {
                Message::Info(i) => r == Ok::<Info, TryFromMessageError>(i),
                _ => r is Err,
            },
    {
        match message {
            Message::Info(i) => Ok(i),
            _ => Err(TryFromMessageError {  }),
        }
    }
}

impl System {
    /// Downcasts a reply to a `system` reply.
    pub fn try_from_message(message: Message) -> (r: Result<System, TryFromMessageError>)
        ensures
            match message {
                Message::System(s) => r == Ok::<System, TryFromMessageError>(s),
                _ => r is Err,
            },
    {
        match message {
            Message::System(s) => Ok(s),
            _ => Err(TryFromMessageError {  }),
        }
    }
}

} // verus!
