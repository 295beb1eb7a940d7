//! Wire-level engine of a protocol-aware reverse proxy for a Minecraft-style
//! client/server protocol: primitive codecs, framing, optional compression,
//! the packet table, per-connection pipelines, the routing table and the
//! per-session state machines.

pub mod buffer;
pub mod framing;
pub mod compressor;
pub mod protocol;
pub mod packets;
pub mod wire_codec;
pub mod pipeline;
pub mod server_state;
pub mod manager;
pub mod proxy_server_manager;
pub mod status_server_manager;
pub mod proxy_client_manager;
