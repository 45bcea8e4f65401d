//! The camera client: connection parameters and the auth packet that
//! opens the stream.  The TCP/TLS transport itself lives outside this
//! crate; it sends what [`CameraClient::auth_packet`] builds and feeds
//! received bytes through [`codec::JpegCodec`].

pub mod codec;
pub mod laws;

use vstd::prelude::*;
use codec::CameraPacket;

verus! {

/// The username every camera connection authenticates with.
pub open spec fn spec_camera_username() -> Seq<char> {
    "bblp"@
}

/// Connection parameters for the camera stream.
pub struct CameraClient {
    hostname: String,
    access_code: String,
    port: u16,
}

impl CameraClient {
    /// The configured hostname.
    pub closed spec fn spec_hostname(&self) -> Seq<char> {
        self.hostname@
    }

    /// The configured access code.
    pub closed spec fn spec_access_code(&self) -> Seq<char> {
        self.access_code@
    }

    /// The configured port.
    pub closed spec fn spec_port(&self) -> u16 {
        self.port
    }

    /// Creates a client for the camera at `hostname:port`.
    pub fn new(hostname: &str, access_code: &str, port: u16) -> (r: Self)
        ensures
            r.spec_hostname() == hostname@,
            r.spec_access_code() == access_code@,
            r.spec_port() == port,
    {
        CameraClient {
            hostname: String::from_str(hostname),
            access_code: String::from_str(access_code),
            port,
        }
    }

    /// The hostname, for the transport that dials the connection.
    pub fn hostname(&self) -> (r: &String)
        ensures
            r@ == self.spec_hostname(),
    {
        &self.hostname
    }

    /// The port, for the transport that dials the connection.
    pub fn port(&self) -> (r: u16)
        ensures
            r == self.spec_port(),
    {
        self.port
    }

    /// The packet a fresh connection must send first: the fixed username
    /// `bblp` with this client's access code.
    pub fn auth_packet(&self) -> (r: CameraPacket)
        ensures
            r matches CameraPacket::Auth { username, access_code }
                && username@ == spec_camera_username()
                && access_code@ == self.spec_access_code(),
    {
        CameraPacket::Auth {
            username: String::from_str("bblp"),
            access_code: self.access_code.clone(),
        }
    }
}

} // verus!
