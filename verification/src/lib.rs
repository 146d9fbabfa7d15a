//! Random passwords with a strength score, random port numbers, UUIDs and
//! base64 text, with the rules that decide them stated as contracts.

pub mod args;
pub mod charset;
pub mod codec;
pub mod identifier;
pub mod password;
pub mod port;
pub mod pwd_info;
pub mod range;

pub use crate::codec::base64_decode;
pub use crate::codec::base64_encode;
pub use crate::identifier::generate_uuid;
pub use crate::password::generate_pwd;
pub use crate::port::generate_port;
pub use crate::range::parse_range;
pub use crate::range::DEFAULT_PORT_END;
pub use crate::range::DEFAULT_PORT_RANGE;
pub use crate::range::DEFAULT_PORT_STAR;
