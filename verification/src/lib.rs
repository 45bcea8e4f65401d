//! Client-side protocol core for a networked 3D printer.
//!
//! Three independent wire protocols are modelled and verified here: the
//! framed JPEG camera stream with its authentication preamble, the FTPS
//! control dialogue with its PASV and directory-listing parsers, and the
//! MQTT command/reply correlation core.  All transport I/O (TCP, TLS,
//! the MQTT event loop) lives outside this crate; the functions here are
//! the codecs, parsers and decisions that drive those transports.  The
//! devices present self-signed certificates, so the transports are
//! expected to skip peer verification; that policy is part of the
//! protocol, not of this crate.

pub mod scan;
pub mod text;
pub mod camera;
pub mod file;
pub mod json;
pub mod mqtt;

pub use camera::codec::CameraPacket;
pub use camera::codec::JpegCodec;
pub use camera::codec::JpegCodec as CameraCodec;
pub use camera::CameraClient;
pub use file::FileClient;
pub use mqtt::command;
pub use mqtt::message;
pub use mqtt::MqttClient;
