//! Turns the links of a proxy subscription into configuration documents:
//! each link is parsed into an outbound, the outbound is placed into a
//! template, and the run says which files it writes and which go.

pub mod batch;
pub mod codec;
pub mod json;
pub mod merge;
pub mod name;
pub mod outbound;
pub mod port;
pub mod reader;
pub mod subscription;
pub mod text;
pub mod vless;
pub mod vmess;
