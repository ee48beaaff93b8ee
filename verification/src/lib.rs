//! Session layer for a FIX-style tag=value messaging protocol.
//!
//! The crate frames checksum-verified messages out of a raw byte stream,
//! builds outbound messages (header, body, trailer with checksum), and keeps
//! per-session sequencing, replay storage and heartbeat state.

pub mod application_message;
pub mod attribute_enums;
pub mod countdown_actor;
pub mod encrypt_method_enum;
pub mod fix_decoder;
pub mod fix_message;
pub mod fix_msg_builder;
pub mod fix_msg_handler;
pub mod id_source;
pub mod ord_status;
pub mod side;
pub mod tags;
pub mod time_in_force;
pub mod value_types;
