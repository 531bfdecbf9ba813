//! Protocol and cryptographic engine of a two-phase secured tunnel.
//!
//! A reliable control channel carries a four-message handshake that agrees on
//! session keys; the session then moves to encrypted, authenticated
//! datagrams.

pub mod config;
pub mod crypto;
pub mod cursor;
pub mod encframe;
pub mod error;
pub mod frame;
pub mod handshake;
pub mod reader;
pub mod text;
pub mod tracing;
pub mod udp;
pub mod utils;
pub mod uuid;
pub mod wire;

pub use crate::config::{FileLayer, Layer, Mps, Tracing};
pub use crate::crypto::SessionKeys;
pub use crate::cursor::{get_bytes, get_nonce, get_u8, get_usize, Cursor};
pub use crate::frame::{Decoded, Frame};
pub use crate::handshake::{derive_session_keys, ClientHandshake, RelayHandshake};
pub use crate::reader::{AfterRead, ReceiveBuffer};
pub use crate::encframe::{EncryptedFrame, Rejected};
pub use crate::error::{exit_report, success, Ending, Error, Stream};
pub use crate::tracing::{directives, directives_from, Level, LevelFilter, TracingConfigExt};
pub use crate::udp::{Promotion, SessionTable, UdpClient, UdpState};
pub use crate::utils::to_path_buf;
pub use crate::uuid::UuidWrapper;
