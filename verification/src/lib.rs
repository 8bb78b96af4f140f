//! Commlib: the protocol and bookkeeping core of a service/network library.
//!
//! Framing of length-prefixed packets, packet header encoding and XOR
//! obfuscation, the Redis wire protocol (replies and commands), a timer in
//! virtual time, and the small value types that the network layer passes
//! around, each with a machine-checked contract.

pub mod packet;
pub mod framing;
pub mod packet_builder;
pub mod resp;
pub mod redis_reply;
pub mod buffer;
pub mod reply_builder;
pub mod redis_commander;
pub mod redis_cmds;
pub mod net_packet_encdec;
pub mod rand_bytes;
pub mod ids;
pub mod wheel_timer;
pub mod base64_codec;
pub mod md5_hash;
pub mod blowfish_cipher;
pub mod stop_watch;
pub mod thread_pool;
pub mod http_client;
pub mod response_writer;
pub mod request_parser;
pub mod db_value;
pub mod client_link;
pub mod tcp_server;
pub mod db_addr;
pub mod node_state;
pub mod static_files;
