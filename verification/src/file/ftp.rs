//! The FTPS control dialogue: the line codec, the PASV laws, the
//! listing-line parser, and the client state machine that decides each
//! step of the welcome, USER, PASS, PBSZ, PROT, PWD, PASV, LIST, QUIT
//! dialogue.  The TLS connections themselves live outside this crate;
//! they send the requests and feed back the responses this machine
//! decides on.

pub mod codec;
pub mod laws;
pub mod metadata;

use vstd::prelude::*;
use vstd::string::StrSliceExecFns;
use crate::text::all_dec_digits;
use crate::text::dec_value;
use crate::text::find_char_in;
use crate::text::find_char_pos;
use crate::text::lemma_find_char_in;
use crate::text::parse_dec_range;
use codec::FtpRequest;
use codec::FtpResponse;
use codec::SocketAddressV4;

verus! {

/// Where the control dialogue stands.
#[derive(Debug, Clone, Copy, PartialEq, Eq)]
pub enum FtpsState {
    /// Connected; awaiting the 220 banner.
    Connected,
    /// USER sent; awaiting 331.
    AwaitUser,
    /// PASS sent; awaiting 230.
    AwaitPass,
    /// PBSZ 0 sent; awaiting 200.
    AwaitPbsz,
    /// PROT P sent; awaiting 200.
    AwaitProt,
    /// Authenticated; a listing or quit may start.
    Ready,
    /// PWD sent; awaiting 257.
    AwaitPwd,
    /// PASV sent; awaiting 227.
    AwaitPasv,
    /// LIST sent; awaiting 150.
    AwaitList,
    /// Data connection open; draining the listing.
    Draining,
    /// QUIT sent; awaiting 221 or 226.
    AwaitQuit,
    /// The dialogue ended.
    Closed,
    /// A response did not match the state; the dialogue is dead.
    Failed,
}

/// What the transport must do after a response.
#[derive(Debug, Clone, PartialEq)]
pub enum FtpAction {
    /// Send this request on the control connection.
    Send(FtpRequest),
    /// Authentication is complete.
    AuthDone,
    /// Open the TLS data connection to this address and read it to EOF.
    OpenData(SocketAddressV4),
    /// The control connection is closed.
    ConnectionClosed,
}

/// The response did not match the state.
#[derive(Debug, Clone, Copy, PartialEq, Eq)]
pub struct UnexpectedResponse {
}

/// The PASV NAT fixup: an advertised unspecified address (0.0.0.0) is
/// replaced by the control connection's address, keeping the advertised
/// port.
pub open spec fn spec_fixup_pasv(
    advertised: SocketAddressV4,
    control: SocketAddressV4,
) -> SocketAddressV4 {
    if advertised.spec_is_unspecified() {
        SocketAddressV4 {
            a: control.a,
            b: control.b,
            c: control.c,
            d: control.d,
            port: advertised.port,
        }
    } else {
        advertised
    }
}

/// Applies the PASV NAT fixup.
pub fn fixup_pasv(advertised: SocketAddressV4, control: SocketAddressV4) -> (r:
    SocketAddressV4)
    ensures
        r == spec_fixup_pasv(advertised, control),
{
    if advertised.is_unspecified() {
        SocketAddressV4 {
            a: control.a,
            b: control.b,
            c: control.c,
            d: control.d,
            port: advertised.port,
        }
    } else {
        advertised
    }
}

/// What a dotted-quad IPv4 field denotes: one to three digits, no
/// leading zero except `0` itself, at most 255.
pub open spec fn spec_ipv4_field(f: Seq<char>) -> Option<int> {
    if 1 <= f.len() <= 3 && all_dec_digits(f) && dec_value(f) <= 255 && (f.len() == 1 || f[0]
        != '0') {
        Some(dec_value(f))
    } else {
        None
    }
}

/// The address a dotted-quad IPv4 text denotes.
pub open spec fn spec_parse_ipv4(s: Seq<char>) -> Option<(int, int, int, int)> {
    let n = s.len() as int;
    match find_char_in(s, '.', 0, n) {
        None => None,
        Some(d1) => match find_char_in(s, '.', d1 + 1, n) {
            None => None,
            Some(d2) => match find_char_in(s, '.', d2 + 1, n) {
                None => None,
                Some(d3) => {
                    if find_char_in(s, '.', d3 + 1, n) is Some {
                        None
                    } else {
                        match (spec_ipv4_field(s.subrange(0, d1)), spec_ipv4_field(
                            s.subrange(d1 + 1, d2),
                        ), spec_ipv4_field(s.subrange(d2 + 1, d3)), spec_ipv4_field(
                            s.subrange(d3 + 1, n),
                        )) {
                            (Some(a), Some(b), Some(c), Some(d)) => Some((a, b, c, d)),
                            _ => None,
                        }
                    }
                },
            },
        },
    }
}

fn parse_ipv4_field(s: &str, from: usize, to: usize) -> (r: Option<u8>)
    requires
        from <= to <= s@.len(),
    ensures
        match r {
            Some(v) => spec_ipv4_field(s@.subrange(from as int, to as int)) == Some(v as int),
            None => spec_ipv4_field(s@.subrange(from as int, to as int)) is None,
        },
{
    if to - from < 1 || to - from > 3 {
        return None;
    }
    if to - from > 1 && s.get_char(from) == '0' {
        proof {
            assert(s@.subrange(from as int, to as int)[0] == s@[from as int]);
        }
        return None;
    }
    proof {
        assert(s@.subrange(from as int, to as int)[0] == s@[from as int]);
    }
    match parse_dec_range(s, from, to, 255) {
        Some(v) => Some(v as u8),
        None => {
            proof {
                let f = s@.subrange(from as int, to as int);
                if all_dec_digits(f) {
                    crate::text::lemma_dec_value_nonneg(f);
                }
            }
            None
        },
    }
}

/// Reads a dotted-quad IPv4 address such as `192.0.2.5`.
pub fn parse_ipv4(s: &str) -> (r: Option<(u8, u8, u8, u8)>)
    ensures
        match r {
            Some(q) => spec_parse_ipv4(s@) == Some(
                (q.0 as int, q.1 as int, q.2 as int, q.3 as int),
            ),
            None => spec_parse_ipv4(s@) is None,
        },
{
    let n = s.unicode_len();
    let d1 = match find_char_pos(s, '.', 0, n) {
        Some(i) => i,
        None => {
            return None;
        },
    };
    proof {
        lemma_find_char_in(s@, '.', 0, n as int);
    }
    let d2 = match find_char_pos(s, '.', d1 + 1, n) {
        Some(i) => i,
        None => {
            return None;
        },
    };
    proof {
        lemma_find_char_in(s@, '.', d1 + 1, n as int);
    }
    let d3 = match find_char_pos(s, '.', d2 + 1, n) {
        Some(i) => i,
        None => {
            return None;
        },
    };
    proof {
        lemma_find_char_in(s@, '.', d2 + 1, n as int);
    }
    if find_char_pos(s, '.', d3 + 1, n).is_some() {
        return None;
    }
    let a = match parse_ipv4_field(s, 0, d1) {
        Some(v) => v,
        None => {
            return None;
        },
    };
    let b = match parse_ipv4_field(s, d1 + 1, d2) {
        Some(v) => v,
        None => {
            return None;
        },
    };
    let c = match parse_ipv4_field(s, d2 + 1, d3) {
        Some(v) => v,
        None => {
            return None;
        },
    };
    let d = match parse_ipv4_field(s, d3 + 1, n) {
        Some(v) => v,
        None => {
            return None;
        },
    };
    Some((a, b, c, d))
}

/// The FTPS client state machine over one control connection.
pub struct FtpSession {
    username: String,
    password: String,
    control: SocketAddressV4,
    state: FtpsState,
    data_addr: Option<SocketAddressV4>,
    pending_dir: Option<String>,
}

impl FtpSession {
    /// The current state.
    pub closed spec fn spec_state(&self) -> FtpsState {
        self.state
    }

    /// The configured username.
    pub closed spec fn spec_username(&self) -> Seq<char> {
        self.username@
    }

    /// The configured password.
    pub closed spec fn spec_password(&self) -> Seq<char> {
        self.password@
    }

    /// The control connection's address.
    pub closed spec fn spec_control(&self) -> SocketAddressV4 {
        self.control
    }

    /// The data address remembered from the PASV reply.
    pub closed spec fn spec_data_addr(&self) -> Option<SocketAddressV4> {
        self.data_addr
    }

    /// The directory a pending listing asked for.
    pub closed spec fn spec_pending_dir(&self) -> Option<Seq<char>> {
        match self.pending_dir {
            Some(d) => Some(d@),
            None => None,
        }
    }

    /// The current state, for the transport's control flow.
    pub fn state(&self) -> (r: FtpsState)
        ensures
            r == self.spec_state(),
    {
        self.state
    }

    /// The credentials and connection stay as configured.
    pub open spec fn same_config(&self, other: &Self) -> bool {
        &&& self.spec_username() == other.spec_username()
        &&& self.spec_password() == other.spec_password()
        &&& self.spec_control() == other.spec_control()
    }

    /// A fresh session on a control connection to `control`, awaiting
    /// the banner.
    pub fn new(username: String, password: String, control: SocketAddressV4) -> (r: Self)
        ensures
            r.spec_state() == FtpsState::Connected,
            r.spec_username() == username@,
            r.spec_password() == password@,
            r.spec_control() == control,
            r.spec_data_addr() is None,
            r.spec_pending_dir() is None,
    {
        FtpSession {
            username,
            password,
            control,
            state: FtpsState::Connected,
            data_addr: None,
            pending_dir: None,
        }
    }

    /// Starts a listing: allowed only in `Ready`; sends PWD first and
    /// remembers the directory.
    pub fn start_list(&mut self, directory: &str) -> (r: Result<FtpAction, UnexpectedResponse>)
        ensures
            final(self).same_config(old(self)),
            ({
                if old(self).spec_state() == FtpsState::Ready {
                    &&& final(self).spec_state() == FtpsState::AwaitPwd
                    &&& final(self).spec_pending_dir() == Some(directory@)
                    &&& final(self).spec_data_addr() == old(self).spec_data_addr()
                    &&& r matches Ok(a) && a matches FtpAction::Send(q) && q matches
                        FtpRequest::Pwd
                } else {
                    &&& r is Err
                    &&& final(self).spec_state() == FtpsState::Failed
                }
            }),
    {
        match self.state {
            FtpsState::Ready => {
                self.pending_dir = Some(String::from_str(directory));
                self.state = FtpsState::AwaitPwd;
                Ok(FtpAction::Send(FtpRequest::Pwd))
            },
            _ => {
                self.state = FtpsState::Failed;
                Err(UnexpectedResponse {  })
            },
        }
    }

    /// Starts the shutdown: sends QUIT from any state.
    pub fn start_quit(&mut self) -> (r: FtpAction)
        ensures
            final(self).same_config(old(self)),
            r matches FtpAction::Send(q) && q matches FtpRequest::Quit,
            final(self).spec_state() == FtpsState::AwaitQuit,
    {
        self.state = FtpsState::AwaitQuit;
        FtpAction::Send(FtpRequest::Quit)
    }

    /// The listing data connection reached EOF: the session is ready
    /// again.
    pub fn data_finished(&mut self) -> (r: Result<(), UnexpectedResponse>)
        ensures
            final(self).same_config(old(self)),
            ({
                if old(self).spec_state() == FtpsState::Draining {
                    r is Ok && final(self).spec_state() == FtpsState::Ready
                } else {
                    r is Err && final(self).spec_state() == FtpsState::Failed
                }
            }),
    {
        match self.state {
            FtpsState::Draining => {
                self.state = FtpsState::Ready;
                Ok(())
            },
            _ => {
                self.state = FtpsState::Failed;
                Err(UnexpectedResponse {  })
            },
        }
    }

    /// Whether `response` is the one the state `st` expects.
    pub open spec fn spec_expected(&self, st: FtpsState, response: &FtpResponse) -> bool {
        ||| (st == FtpsState::Connected && response is ServiceReady)
        ||| (st == FtpsState::AwaitUser && response is UserNameOkayNeedPassword)
        ||| (st == FtpsState::AwaitPass && response is UserLoggedIn)
        ||| (st == FtpsState::AwaitPbsz && response is CommandOkay)
        ||| (st == FtpsState::AwaitProt && response is CommandOkay)
        ||| (st == FtpsState::AwaitPwd && response is DirectoryActionOkay)
        ||| (st == FtpsState::AwaitPasv && response is EnteringPassiveMode
            && self.spec_pending_dir() is Some)
        ||| (st == FtpsState::AwaitList && response is FileStatusOkay
            && self.spec_data_addr() is Some)
        ||| (st == FtpsState::AwaitQuit && (response is ClosingControlConnection
            || response is ClosingDataConnection))
    }

    /// Advances the dialogue on one control-channel response, following
    /// the table: 220 starts authentication, 331 asks for the password,
    /// 230 negotiates PBSZ 0, each 200 advances the protection
    /// handshake, 257 triggers PASV, 227 (with the NAT fixup) triggers
    /// LIST, 150 opens the data connection, 221/226 close; any other
    /// response in a given state is a fatal protocol error.
    pub fn on_response(&mut self, response: &FtpResponse) -> (r: Result<
        FtpAction,
        UnexpectedResponse,
    >)
        ensures
            final(self).same_config(old(self)),
            r is Ok <==> old(self).spec_expected(old(self).spec_state(), response),
            ({
                let st = old(self).spec_state();
                match r {
                    Ok(action) => {
                        if st == FtpsState::Connected {
                            &&& final(self).spec_state() == FtpsState::AwaitUser
                            &&& action matches FtpAction::Send(q) && q matches
                                FtpRequest::User(u) && u@ == old(self).spec_username()
                        } else if st == FtpsState::AwaitUser {
                            &&& final(self).spec_state() == FtpsState::AwaitPass
                            &&& action matches FtpAction::Send(q) && q matches
                                FtpRequest::Pass(p) && p@ == old(self).spec_password()
                        } else if st == FtpsState::AwaitPass {
                            &&& final(self).spec_state() == FtpsState::AwaitPbsz
                            &&& action matches FtpAction::Send(q) && q matches
                                FtpRequest::ProtectionBufferSize(z) && z == 0u32
                        } else if st == FtpsState::AwaitPbsz {
                            &&& final(self).spec_state() == FtpsState::AwaitProt
                            &&& action matches FtpAction::Send(q) && q matches
                                FtpRequest::ProtectionLevel(l) && l@ == "P"@
                        } else if st == FtpsState::AwaitProt {
                            &&& final(self).spec_state() == FtpsState::Ready
                            &&& action matches FtpAction::AuthDone
                        } else if st == FtpsState::AwaitPwd {
                            &&& final(self).spec_state() == FtpsState::AwaitPasv
                            &&& action matches FtpAction::Send(q) && q matches
                                FtpRequest::EnterPassiveMode
                        } else if st == FtpsState::AwaitPasv {
                            &&& final(self).spec_state() == FtpsState::AwaitList
                            &&& old(self).spec_pending_dir() is Some
                            &&& response matches FtpResponse::EnteringPassiveMode(addr)
                                && final(self).spec_data_addr() == Some(
                                spec_fixup_pasv(*addr, old(self).spec_control()),
                            )
                            &&& action matches FtpAction::Send(q) && q matches
                                FtpRequest::List(d) && d@ == old(
                                self,
                            ).spec_pending_dir()->Some_0
                        } else if st == FtpsState::AwaitList {
                            &&& final(self).spec_state() == FtpsState::Draining
                            &&& old(self).spec_data_addr() is Some
                            &&& action matches FtpAction::OpenData(got) && got == old(
                                self,
                            ).spec_data_addr()->Some_0
                        } else {
                            &&& final(self).spec_state() == FtpsState::Closed
                            &&& action matches FtpAction::ConnectionClosed
                        }
                    },
                    Err(e) => final(self).spec_state() == FtpsState::Failed,
                }
            }),
    {
        match (self.state, response) {
            (FtpsState::Connected, FtpResponse::ServiceReady(_m)) => {
                self.state = FtpsState::AwaitUser;
                Ok(FtpAction::Send(FtpRequest::User(self.username.clone())))
            },
            (FtpsState::AwaitUser, FtpResponse::UserNameOkayNeedPassword(_m)) => {
                self.state = FtpsState::AwaitPass;
                Ok(FtpAction::Send(FtpRequest::Pass(self.password.clone())))
            },
            (FtpsState::AwaitPass, FtpResponse::UserLoggedIn(_m)) => {
                self.state = FtpsState::AwaitPbsz;
                Ok(FtpAction::Send(FtpRequest::ProtectionBufferSize(0)))
            },
            (FtpsState::AwaitPbsz, FtpResponse::CommandOkay(_m)) => {
                self.state = FtpsState::AwaitProt;
                Ok(FtpAction::Send(FtpRequest::ProtectionLevel(String::from_str("P"))))
            },
            (FtpsState::AwaitProt, FtpResponse::CommandOkay(_m)) => {
                self.state = FtpsState::Ready;
                Ok(FtpAction::AuthDone)
            },
            (FtpsState::AwaitPwd, FtpResponse::DirectoryActionOkay(_m)) => {
                self.state = FtpsState::AwaitPasv;
                Ok(FtpAction::Send(FtpRequest::EnterPassiveMode))
            },
            (FtpsState::AwaitPasv, FtpResponse::EnteringPassiveMode(addr)) => {
                match &self.pending_dir {
                    Some(dir) => {
                        let request = FtpRequest::List(dir.clone());
                        let fixed = fixup_pasv(*addr, self.control);
                        self.data_addr = Some(fixed);
                        self.state = FtpsState::AwaitList;
                        Ok(FtpAction::Send(request))
                    },
                    None => {
                        self.state = FtpsState::Failed;
                        Err(UnexpectedResponse {  })
                    },
                }
            },
            (FtpsState::AwaitList, FtpResponse::FileStatusOkay(_m)) => {
                match self.data_addr {
                    Some(addr) => {
                        self.state = FtpsState::Draining;
                        Ok(FtpAction::OpenData(addr))
                    },
                    None => {
                        self.state = FtpsState::Failed;
                        Err(UnexpectedResponse {  })
                    },
                }
            },
            (FtpsState::AwaitQuit, FtpResponse::ClosingControlConnection(_m)) => {
                self.state = FtpsState::Closed;
                Ok(FtpAction::ConnectionClosed)
            },
            (FtpsState::AwaitQuit, FtpResponse::ClosingDataConnection(_m)) => {
                self.state = FtpsState::Closed;
                Ok(FtpAction::ConnectionClosed)
            },
            _ => {
                self.state = FtpsState::Failed;
                Err(UnexpectedResponse {  })
            },
        }
    }
}

} // verus!
