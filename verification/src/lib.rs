//! Wake-on-LAN: validation of a hardware address, construction of the magic
//! packet that wakes the device behind it, and the order of the socket
//! operations that send the packet.
//!
//! The library computes and decides; it opens no socket. A caller runs the
//! operations that `transmit` names and reports how each one ended.

pub mod destination;
pub mod groups;
pub mod hex;
pub mod mac;
pub mod packet;
pub mod transmit;

pub use crate::destination::{Destination, DEFAULT_ADDRESS, DEFAULT_PORT};
pub use crate::mac::{parse_mac, validate_mac, INVALID_MAC_FORMAT};
pub use crate::packet::{build_magic_packet, magic_packet_of, MAGIC_PACKET_LEN};
pub use crate::transmit::{
    confirmation, exit_code, first_stage, next_step, SendError, Stage, Step, EXIT_FAILED,
    EXIT_SENT, LOCAL_ADDRESS,
};
