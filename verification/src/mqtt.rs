//! The MQTT correlation core: the inflight table that matches replies to
//! outstanding commands, the monotonic sequence ids, and the decisions
//! of the background event pump.  The broker connection itself lives
//! outside this crate; it performs the actions these functions decide.

pub mod command;
pub mod message;

use vstd::prelude::*;
use vstd::utf8::decode_utf8;
use vstd::utf8::encode_utf8;
use vstd::utf8::valid_utf8;
use crate::text::dec_chars;
use crate::text::str_eq;
use crate::text::u64_to_string;
use command::Command;
use command::spec_command_json;
use command::spec_sequence_id;
use command::info::InfoCommand;
use command::info::InfoPayload;
use command::system::LedCtrl;
use command::system::LedMode;
use command::system::LedNode;
use command::system::SystemCommand;
use command::system::SystemPayload;
use message::Message;
use message::MessageModel;
use message::message_models;
use message::spec_message_from_chars;
use message::spec_message_sequence_id;
use message::spec_model_sequence_id;

verus! {

/// The map a list of `(sequence id, ticket)` entries denotes; a later
/// entry for the same id wins.
pub open spec fn entries_map(es: Seq<(String, u64)>) -> Map<Seq<char>, u64>
    decreases es.len(),
{
    if es.len() == 0 {
        Map::empty()
    } else {
        entries_map(es.drop_last()).insert(es.last().0@, es.last().1)
    }
}

/// The inflight table: a mapping from the sequence id of a published
/// command to the ticket of the waiter its reply is delivered through.
pub struct InflightTable {
    entries: Vec<(String, u64)>,
}

impl View for InflightTable {
    type V = Map<Seq<char>, u64>;

    closed spec fn view(&self) -> Map<Seq<char>, u64> {
        entries_map(self.entries@)
    }
}

proof fn lemma_entries_map_contains(es: Seq<(String, u64)>, k: Seq<char>)
    ensures
        entries_map(es).contains_key(k) <==> exists|i: int|
            0 <= i < es.len() && (#[trigger] es[i]).0@ == k,
    decreases es.len(),
{
    if es.len() > 0 {
        lemma_entries_map_contains(es.drop_last(), k);
        if entries_map(es).contains_key(k) {
            if es.last().0@ != k {
                let i = choose|i: int|
                    0 <= i < es.drop_last().len() && (#[trigger] es.drop_last()[i]).0@ == k;
                assert(es[i].0@ == k);
            }
        }
        if exists|i: int| 0 <= i < es.len() && (#[trigger] es[i]).0@ == k {
            let i = choose|i: int| 0 <= i < es.len() && (#[trigger] es[i]).0@ == k;
            if i < es.len() - 1 {
                assert(es.drop_last()[i].0@ == k);
            }
        }
    }
}

impl InflightTable {
    /// An empty table.
    pub fn new() -> (r: Self)
        ensures
            r@ == Map::<Seq<char>, u64>::empty(),
    {
        InflightTable { entries: Vec::new() }
    }

    /// Creates or replaces the entry for `key`.
    pub fn insert(&mut self, key: String, ticket: u64)
        ensures
            final(self)@ == old(self)@.insert(key@, ticket),
    {
        let ghost before = self.entries@;
        self.entries.push((key, ticket));
        proof {
            assert(self.entries@.drop_last() =~= before);
        }
    }

    /// Whether an entry for `key` is present.
    pub fn contains(&self, key: &str) -> (r: bool)
        ensures
            r == self@.contains_key(key@),
    {
        let mut i: usize = 0;
        let mut found = false;
        while i < self.entries.len()
            invariant
                i <= self.entries@.len(),
                found == exists|j: int|
                    0 <= j < i && (#[trigger] self.entries@[j]).0@ == key@,
            decreases self.entries@.len() - i,
        {
            if str_eq(self.entries[i].0.as_str(), key) {
                found = true;
            }
            i = i + 1;
        }
        proof {
            lemma_entries_map_contains(self.entries@, key@);
        }
        found
    }

    /// Removes the entry for `key`, returning its ticket.
    pub fn remove(&mut self, key: &str) -> (r: Option<u64>)
        ensures
            final(self)@ == old(self)@.remove(key@),
            match r {
                Some(v) => old(self)@.contains_key(key@) && old(self)@[key@] == v,
                None => !old(self)@.contains_key(key@),
            },
    {
        let ghost es = self.entries@;
        let mut kept: Vec<(String, u64)> = Vec::new();
        let mut found: Option<u64> = None;
        let mut i: usize = 0;
        proof {
            assert(es.subrange(0, 0).len() == 0);
            assert(entries_map(kept@) =~= entries_map(es.subrange(0, 0)).remove(key@));
        }
        while i < self.entries.len()
            invariant
                i <= es.len(),
                es == self.entries@,
                entries_map(kept@) == entries_map(es.subrange(0, i as int)).remove(key@),
                match found {
                    Some(v) => entries_map(es.subrange(0, i as int)).contains_key(key@)
                        && entries_map(es.subrange(0, i as int))[key@] == v,
                    None => !entries_map(es.subrange(0, i as int)).contains_key(key@),
                },
            decreases es.len() - i,
        {
            let ghost pre = es.subrange(0, i as int);
            let ghost post = es.subrange(0, i + 1);
            proof {
                assert(post.drop_last() =~= pre);
                assert(post.last() == es[i as int]);
            }
            let entry_key = self.entries[i].0.clone();
            let entry_val = self.entries[i].1;
            if str_eq(entry_key.as_str(), key) {
                found = Some(entry_val);
                proof {
                    assert(entries_map(kept@) =~= entries_map(post).remove(key@));
                }
            } else {
                let ghost kept_before = kept@;
                kept.push((entry_key, entry_val));
                proof {
                    assert(kept@.drop_last() =~= kept_before);
                    assert(entries_map(kept@) =~= entries_map(post).remove(key@));
                }
            }
            i = i + 1;
        }
        proof {
            assert(es.subrange(0, es.len() as int) =~= es);
        }
        self.entries = kept;
        found
    }
}

/// The transport parameters `start()` uses, as plain values.
#[derive(Debug, Clone, PartialEq, Eq)]
pub struct MqttTransportOptions {
    pub client_id: String,
    pub port: u16,
    pub username: String,
    pub keep_alive_secs: u64,
    pub capacity: usize,
}

/// A broker event, as the pump sees it.
#[derive(Debug)]
pub enum PumpEvent {
    Connected,
    Published { payload: Vec<u8> },
    OtherIncoming,
    Outgoing,
    ConnectionError,
    StopRequested,
}

/// Where a decoded reply goes.
#[derive(Debug)]
pub enum RouteDecision {
    /// A waiter holds the ticket: deliver the reply through it.
    Deliver { ticket: u64, message: Message },
    /// A `print` reply with command `push_status`: never matched.
    UnsolicitedPush { message: Message },
    /// No waiter for this sequence id: log and drop.
    UnknownSequence { message: Message },
    /// The payload did not decode: log and drop.
    DecodeFailed,
}

/// What the pump must do next.
#[derive(Debug)]
pub enum PumpStep {
    /// Subscribe to the report topic, then signal that connecting
    /// succeeded.
    SubscribeAndSignal { topic: String },
    /// Act on a routed reply.
    Route(RouteDecision),
    /// Nothing to do.
    Ignore,
    /// Signal that connecting failed, then exit the pump.
    SignalFailureAndExit,
    /// Exit the pump and disconnect.
    ExitAndDisconnect,
}

/// The reply model is a `print` reply with command `push_status`: an
/// unsolicited push, never matched against the inflight table.
pub open spec fn spec_is_push_status(model: MessageModel) -> bool {
    model matches MessageModel::Print(p) && p.command == "push_status"@
}

/// The MQTT client core: connection parameters, the inflight table, the
/// sequence counter, the waiter-ticket counter and the stop flag.
pub struct MqttClient {
    hostname: String,
    access_code: String,
    serial: String,
    inflight: InflightTable,
    sequence_id: u64,
    next_ticket: u64,
    stopped: bool,
}

impl MqttClient {
    /// The configured hostname.
    pub closed spec fn spec_hostname(&self) -> Seq<char> {
        self.hostname@
    }

    /// The configured access code.
    pub closed spec fn spec_access_code(&self) -> Seq<char> {
        self.access_code@
    }

    /// The configured device serial.
    pub closed spec fn spec_serial(&self) -> Seq<char> {
        self.serial@
    }

    /// The inflight table.
    pub closed spec fn spec_inflight(&self) -> Map<Seq<char>, u64> {
        self.inflight@
    }

    /// The sequence counter.
    pub closed spec fn spec_sequence_counter(&self) -> u64 {
        self.sequence_id
    }

    /// The waiter-ticket counter.
    pub closed spec fn spec_next_ticket(&self) -> u64 {
        self.next_ticket
    }

    /// The stop flag.
    pub closed spec fn spec_stopped(&self) -> bool {
        self.stopped
    }

    /// Everything but the inflight table is unchanged.
    pub open spec fn same_but_inflight(&self, other: &Self) -> bool {
        &&& self.spec_hostname() == other.spec_hostname()
        &&& self.spec_access_code() == other.spec_access_code()
        &&& self.spec_serial() == other.spec_serial()
        &&& self.spec_sequence_counter() == other.spec_sequence_counter()
        &&& self.spec_next_ticket() == other.spec_next_ticket()
        &&& self.spec_stopped() == other.spec_stopped()
    }

    /// Creates a client for the device at `hostname` with the given
    /// credentials; nothing is inflight, the counters start at zero.
    pub fn new(hostname: &str, access_code: &str, serial: &str) -> (r: Self)
        ensures
            r.spec_hostname() == hostname@,
            r.spec_access_code() == access_code@,
            r.spec_serial() == serial@,
            r.spec_inflight() == Map::<Seq<char>, u64>::empty(),
            r.spec_sequence_counter() == 0,
            r.spec_next_ticket() == 0,
            !r.spec_stopped(),
    {
        MqttClient {
            hostname: String::from_str(hostname),
            access_code: String::from_str(access_code),
            serial: String::from_str(serial),
            inflight: InflightTable::new(),
            sequence_id: 0,
            next_ticket: 0,
            stopped: false,
        }
    }

    /// The hostname, for the transport.
    pub fn hostname(&self) -> (r: &String)
        ensures
            r@ == self.spec_hostname(),
    {
        &self.hostname
    }

    /// The transport options `start()` dials with: client id
    /// `bblp_client`, port 8883, username `bblp` with the access code as
    /// password, a 60 s keep-alive and an outbound queue of 10; the stop
    /// flag is cleared.
    pub fn start_options(&mut self) -> (r: (MqttTransportOptions, String))
        ensures
            r.0.client_id@ == "bblp_client"@,
            r.0.port == 8883,
            r.0.username@ == "bblp"@,
            r.0.keep_alive_secs == 60,
            r.0.capacity == 10,
            r.1@ == old(self).spec_access_code(),
            !final(self).spec_stopped(),
            final(self).spec_hostname() == old(self).spec_hostname(),
            final(self).spec_access_code() == old(self).spec_access_code(),
            final(self).spec_serial() == old(self).spec_serial(),
            final(self).spec_inflight() == old(self).spec_inflight(),
            final(self).spec_sequence_counter() == old(self).spec_sequence_counter(),
            final(self).spec_next_ticket() == old(self).spec_next_ticket(),
    {
        self.stopped = false;
        (
            MqttTransportOptions {
                client_id: String::from_str("bblp_client"),
                port: 8883,
                username: String::from_str("bblp"),
                keep_alive_secs: 60,
                capacity: 10,
            },
            self.access_code.clone(),
        )
    }

    /// Sets the stop flag; the pump observes it and exits.
    pub fn stop(&mut self)
        ensures
            final(self).spec_stopped(),
            final(self).spec_hostname() == old(self).spec_hostname(),
            final(self).spec_access_code() == old(self).spec_access_code(),
            final(self).spec_serial() == old(self).spec_serial(),
            final(self).spec_inflight() == old(self).spec_inflight(),
            final(self).spec_sequence_counter() == old(self).spec_sequence_counter(),
            final(self).spec_next_ticket() == old(self).spec_next_ticket(),
    {
        self.stopped = true;
    }

    /// The sequence counter's current value.
    pub fn sequence_counter(&self) -> (r: u64)
        ensures
            r == self.spec_sequence_counter(),
    {
        self.sequence_id
    }

    /// The ticket counter's current value.
    pub fn ticket_counter(&self) -> (r: u64)
        ensures
            r == self.spec_next_ticket(),
    {
        self.next_ticket
    }

    /// Whether the stop flag is set.
    pub fn stopped(&self) -> (r: bool)
        ensures
            r == self.spec_stopped(),
    {
        self.stopped
    }

    /// The topic the pump subscribes to on CONNACK.
    pub fn report_topic(&self) -> (r: String)
        ensures
            r@ == "device/"@ + self.spec_serial() + "/report"@,
    {
        let mut t = String::from_str("device/");
        t.append(self.serial.as_str());
        t.append("/report");
        t
    }

    /// The topic commands are published to.
    pub fn request_topic(&self) -> (r: String)
        ensures
            r@ == "device/"@ + self.spec_serial() + "/request"@,
    {
        let mut t = String::from_str("device/");
        t.append(self.serial.as_str());
        t.append("/request");
        t
    }

    /// The next sequence id: the counter rendered decimally, after which
    /// the counter advances, so successive calls return `"0"`, `"1"`,
    /// `"2"`, ... without gaps.
    pub fn next_sequence_id(&mut self) -> (r: String)
        requires
            old(self).spec_sequence_counter() < u64::MAX,
        ensures
            r@ == dec_chars(old(self).spec_sequence_counter() as int),
            final(self).spec_sequence_counter() == old(self).spec_sequence_counter() + 1,
            final(self).spec_hostname() == old(self).spec_hostname(),
            final(self).spec_access_code() == old(self).spec_access_code(),
            final(self).spec_serial() == old(self).spec_serial(),
            final(self).spec_inflight() == old(self).spec_inflight(),
            final(self).spec_next_ticket() == old(self).spec_next_ticket(),
            final(self).spec_stopped() == old(self).spec_stopped(),
    {
        let r = u64_to_string(self.sequence_id);
        self.sequence_id = self.sequence_id + 1;
        r
    }

    /// Readies a command for publication: the request topic, the JSON
    /// payload bytes, and a fresh waiter ticket recorded in the inflight
    /// table under the command's sequence id — the entry exists before
    /// anything is published.
    pub fn prepare_send(&mut self, command: &Command) -> (r: (String, Vec<u8>, u64))
        requires
            old(self).spec_next_ticket() < u64::MAX,
        ensures
            r.0@ == "device/"@ + old(self).spec_serial() + "/request"@,
            r.1@ == encode_utf8(spec_command_json(command)),
            r.2 == old(self).spec_next_ticket(),
            final(self).spec_inflight() == old(self).spec_inflight().insert(
                spec_sequence_id(command),
                old(self).spec_next_ticket(),
            ),
            final(self).spec_next_ticket() == old(self).spec_next_ticket() + 1,
            final(self).spec_hostname() == old(self).spec_hostname(),
            final(self).spec_access_code() == old(self).spec_access_code(),
            final(self).spec_serial() == old(self).spec_serial(),
            final(self).spec_sequence_counter() == old(self).spec_sequence_counter(),
            final(self).spec_stopped() == old(self).spec_stopped(),
    {
        let topic = self.request_topic();
        let payload = command.to_payload_bytes();
        let ticket = self.next_ticket;
        self.next_ticket = self.next_ticket + 1;
        let key = command.sequence_id().clone();
        self.inflight.insert(key, ticket);
        (topic, payload, ticket)
    }

    /// Routes one published payload: a decodable reply that is not a
    /// `push_status` push is matched against the inflight table, whose
    /// entry is removed exactly when a waiter existed.
    pub fn route_reply(&mut self, payload: &[u8]) -> (r: RouteDecision)
        ensures
            ({
                let decode = if valid_utf8(payload@) {
                    spec_message_from_chars(decode_utf8(payload@))
                } else {
                    Err(())
                };
                match decode {
                    Err(e) => r is DecodeFailed && *final(self) == *old(self),
                    Ok(model) => {
                        if spec_is_push_status(model) {
                            r matches RouteDecision::UnsolicitedPush { message }
                                && message_models(&message, model) && *final(self) == *old(self)
                        } else {
                            let seq = spec_model_sequence_id(model);
                            if old(self).spec_inflight().contains_key(seq) {
                                r matches RouteDecision::Deliver { ticket, message }
                                    && message_models(&message, model) && ticket == old(self).spec_inflight()[seq] && final(self).spec_inflight() == old(self).spec_inflight().remove(seq) && final(self).same_but_inflight(
                                    old(self),
                                )
                            } else {
                                r matches RouteDecision::UnknownSequence { message }
                                    && message_models(&message, model) && final(
                                    self).spec_inflight() == old(self).spec_inflight()
                                    && final(self).same_but_inflight(old(self))
                            }
                        }
                    },
                }
            }),
    {
        let message = match Message::from_payload(payload) {
            Ok(m) => m,
            Err(e) => {
                return RouteDecision::DecodeFailed;
            },
        };
        let is_push = match &message {
            Message::Print(p) => str_eq(p.command.as_str(), "push_status"),
            _ => false,
        };
        proof {
            let model = spec_message_from_chars(decode_utf8(payload@))->Ok_0;
            assert(message_models(&message, model));
            match model {
                MessageModel::Print(pm) => {
                    assert(is_push == (pm.command == "push_status"@));
                    assert(spec_message_sequence_id(&message) == pm.sequence_id);
                },
                MessageModel::Info(im) => {
                    assert(spec_message_sequence_id(&message) == im.sequence_id);
                },
                MessageModel::System(sm) => {
                    assert(spec_message_sequence_id(&message) == sm.sequence_id);
                },
            }
            assert(is_push == spec_is_push_status(model));
            assert(spec_message_sequence_id(&message) == spec_model_sequence_id(model));
        }
        if is_push {
            return RouteDecision::UnsolicitedPush { message };
        }
        let seq = message.sequence_id().clone();
        match self.inflight.remove(seq.as_str()) {
            Some(ticket) => RouteDecision::Deliver { ticket, message },
            None => {
                proof {
                    assert(self.inflight@ =~= old(self).spec_inflight());
                }
                RouteDecision::UnknownSequence { message }
            },
        }
    }

    /// Decides the pump's reaction to one event: subscribe and signal on
    /// CONNACK, route on a publish, signal failure and exit on a
    /// transport error, exit and disconnect once stop was requested, and
    /// otherwise keep polling.
    pub fn pump_step(&mut self, event: PumpEvent) -> (r: PumpStep)
        ensures
            match event {
                PumpEvent::Connected => r matches PumpStep::SubscribeAndSignal { topic }
                    && topic@ == "device/"@ + old(self).spec_serial() + "/report"@ && *final(self) == *old(self),
                PumpEvent::Published { payload } => r is Route,
                PumpEvent::OtherIncoming => r is Ignore && *final(self) == *old(self),
                PumpEvent::Outgoing => r is Ignore && *final(self) == *old(self),
                PumpEvent::ConnectionError => r is SignalFailureAndExit && *final(self) == *old(self),
                PumpEvent::StopRequested => r is ExitAndDisconnect && *final(self) == *old(self),
            },
    {
        match event {
            PumpEvent::Connected => PumpStep::SubscribeAndSignal { topic: self.report_topic() },
            PumpEvent::Published { payload } => PumpStep::Route(
                self.route_reply(payload.as_slice()),
            ),
            PumpEvent::OtherIncoming => PumpStep::Ignore,
            PumpEvent::Outgoing => PumpStep::Ignore,
            PumpEvent::ConnectionError => PumpStep::SignalFailureAndExit,
            PumpEvent::StopRequested => PumpStep::ExitAndDisconnect,
        }
    }

    /// Builds the `get_version` command, drawing the next sequence id.
    pub fn get_version_command(&mut self) -> (r: Command)
        requires
            old(self).spec_sequence_counter() < u64::MAX,
        ensures
            r matches Command::Info { info } && info.sequence_id@ == dec_chars(
                old(self).spec_sequence_counter() as int,
            ) && info.command == InfoCommand::GetVersion,
            final(self).spec_sequence_counter() == old(self).spec_sequence_counter() + 1,
            final(self).spec_inflight() == old(self).spec_inflight(),
            final(self).spec_hostname() == old(self).spec_hostname(),
            final(self).spec_access_code() == old(self).spec_access_code(),
            final(self).spec_serial() == old(self).spec_serial(),
            final(self).spec_next_ticket() == old(self).spec_next_ticket(),
            final(self).spec_stopped() == old(self).spec_stopped(),
    {
        let sequence_id = self.next_sequence_id();
        Command::Info { info: InfoPayload { sequence_id, command: InfoCommand::GetVersion } }
    }

    /// Builds the `ledctrl` command that switches the chamber light,
    /// with the fixed 500/500/0/0 timing, drawing the next sequence id.
    pub fn set_led_command(&mut self, on: bool) -> (r: Command)
        requires
            old(self).spec_sequence_counter() < u64::MAX,
        ensures
            r matches Command::System { system } && system.sequence_id@ == dec_chars(
                old(self).spec_sequence_counter() as int,
            ) && system.command == SystemCommand::LedCtrl(
                LedCtrl {
                    led_node: LedNode::ChamberLight,
                    led_mode: if on {
                        LedMode::On
                    } else {
                        LedMode::Off
                    },
                    led_on_time: 500,
                    led_off_time: 500,
                    loop_times: 0,
                    interval_time: 0,
                },
            ),
            final(self).spec_sequence_counter() == old(self).spec_sequence_counter() + 1,
            final(self).spec_inflight() == old(self).spec_inflight(),
            final(self).spec_hostname() == old(self).spec_hostname(),
            final(self).spec_access_code() == old(self).spec_access_code(),
            final(self).spec_serial() == old(self).spec_serial(),
            final(self).spec_next_ticket() == old(self).spec_next_ticket(),
            final(self).spec_stopped() == old(self).spec_stopped(),
    {
        let sequence_id = self.next_sequence_id();
        let led_mode = if on {
            LedMode::On
        } else {
            LedMode::Off
        };
        Command::System {
            system: SystemPayload {
                sequence_id,
                command: SystemCommand::LedCtrl(
                    LedCtrl {
                        led_node: LedNode::ChamberLight,
                        led_mode,
                        led_on_time: 500,
                        led_off_time: 500,
                        loop_times: 0,
                        interval_time: 0,
                    },
                ),
            },
        }
    }
}

} // verus!
