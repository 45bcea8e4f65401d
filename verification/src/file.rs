//! The file-server client: connection parameters for the FTPS dialogue.
//! The dialogue itself is decided by [`ftp::FtpSession`]; the transport
//! that dials port 990 and runs the session lives outside this crate.

pub mod ftp;

use vstd::prelude::*;
use ftp::FtpSession;
use ftp::codec::SocketAddressV4;

verus! {

/// The port the FTPS control connection dials.
pub const FTPS_PORT: u16 = 990;

/// Connection parameters for the file server.
pub struct FileClient {
    hostname: String,
    access_code: String,
}

impl FileClient {
    /// The configured hostname.
    pub closed spec fn spec_hostname(&self) -> Seq<char> {
        self.hostname@
    }

    /// The configured access code.
    pub closed spec fn spec_access_code(&self) -> Seq<char> {
        self.access_code@
    }

    /// Creates a client for the file server at `hostname`, port 990,
    /// authenticating as `bblp` with the access code.
    pub fn new(hostname: &str, access_code: &str) -> (r: Self)
        ensures
            r.spec_hostname() == hostname@,
            r.spec_access_code() == access_code@,
    {
        FileClient {
            hostname: String::from_str(hostname),
            access_code: String::from_str(access_code),
        }
    }

    /// The hostname, for the transport that dials the connection.
    pub fn hostname(&self) -> (r: &String)
        ensures
            r@ == self.spec_hostname(),
    {
        &self.hostname
    }

    /// A fresh control session over a connection to `control`: username
    /// `bblp`, this client's access code as password.
    pub fn session(&self, control: SocketAddressV4) -> (r: FtpSession)
        ensures
            r.spec_state() == ftp::FtpsState::Connected,
            r.spec_username() == "bblp"@,
            r.spec_password() == self.spec_access_code(),
            r.spec_control() == control,
    {
        FtpSession::new(String::from_str("bblp"), self.access_code.clone(), control)
    }
}

} // verus!
