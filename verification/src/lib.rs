//! Client side of RDPEI, the touch input extension of the Remote Desktop Protocol.
//!
//! [`RdpeiClient`] follows what the server says about touch input and encodes touch contacts for
//! the dynamic virtual channel. The modules below it hold the parts: the variable-length integers
//! of the wire ([`varint`]), contacts and frames ([`touch`]), the PDUs ([`pdu`]), how the peer reads
//! them ([`reader`]), what they are byte by byte ([`layout`]), and what holds of all of it
//! ([`laws`]).

pub mod client;
pub mod constants;
pub mod dvc;
pub mod endian;
pub mod error;
pub mod laws;
pub mod layout;
pub mod pdu;
pub mod rdp_core;
pub mod reader;
pub mod touch;
pub mod varint;

pub use crate::client::RdpeiClient;
pub use crate::constants::{
    CHANNEL_NAME, CONTACT_DATA_CONTACTRECT_PRESENT, CONTACT_DATA_ORIENTATION_PRESENT,
    CONTACT_DATA_PRESSURE_PRESENT, CS_READY_FLAGS_DISABLE_TIMESTAMP_INJECTION,
    CS_READY_FLAGS_ENABLE_MULTIPEN_INJECTION, CS_READY_FLAGS_SHOW_TOUCH_VISUALS,
    RDPINPUT_CONTACT_FLAG_CANCELED, RDPINPUT_CONTACT_FLAG_DOWN, RDPINPUT_CONTACT_FLAG_INCONTACT,
    RDPINPUT_CONTACT_FLAG_INRANGE, RDPINPUT_CONTACT_FLAG_UP, RDPINPUT_CONTACT_FLAG_UPDATE,
    RDPINPUT_PROTOCOL_V10, RDPINPUT_PROTOCOL_V101, RDPINPUT_PROTOCOL_V200, RDPINPUT_PROTOCOL_V300,
    SC_READY_MULTIPEN_INJECTION_SUPPORTED,
};
pub use crate::error::{DecodeError, EncodeError};
pub use crate::pdu::{RdpeiClientPdu, ServerPdu};
pub use crate::touch::{TouchContact, TouchFrame};
