//! Peer-to-peer address discovery and room bookkeeping over UDP messages.

pub mod conf;
pub mod cover;
pub mod digest;
pub mod domain;
pub mod json;
pub mod net_ip;
pub mod p2p_ip_map;
pub mod p2p_link;
pub mod p2p_value;
pub mod player;
pub mod player_net_ipaddr;
pub mod public_net_ipaddr;
pub mod queue;
pub mod receive_process;
pub mod room;
pub mod table;
pub mod text;
pub mod wire;
