//! Verified core of a low-latency file synchronisation service: change
//! deltas between file versions, the byte framing that carries them between
//! client and server and the server's reading and application of it, the
//! client's in-memory file store, the paths the kernel probes write and the
//! decoding of the events they report, the datagram receiver, and the
//! planning of the client's connections.
#![allow(non_camel_case_types)]
#![allow(non_snake_case)]

pub mod byte_util;
pub mod hashing;
pub mod delta;
pub mod wire;
pub mod decode;
pub mod server_update;
pub mod file_store;
pub mod packet;
pub mod text;
pub mod paths;
pub mod events;
pub mod requests;
pub mod sync;
pub mod sender;
pub mod ignore_rules;
pub mod client_filter;
pub mod server_filter;
pub mod watch_filter;
pub mod receiver;
pub mod connections;
pub mod client;
pub mod probes;
pub mod probe_reports;
