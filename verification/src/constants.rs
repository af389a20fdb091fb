//! Constants of the RDPEI (Remote Desktop Protocol: Input) extension.

use vstd::prelude::*;

verus! {

/// Name under which the dynamic virtual channel is opened.
pub const CHANNEL_NAME: &'static str = "Microsoft::Windows::RDS::Input";

/// Length of the header that precedes every RDPEI PDU: event identifier and PDU length.
pub const RDPINPUT_HEADER_LENGTH: usize = 6;

pub const EVENTID_SC_READY: u16 = 0x0001;

pub const EVENTID_CS_READY: u16 = 0x0002;

pub const EVENTID_TOUCH: u16 = 0x0003;

pub const EVENTID_SUSPEND_TOUCH: u16 = 0x0004;

pub const EVENTID_RESUME_TOUCH: u16 = 0x0005;

pub const RDPINPUT_PROTOCOL_V10: u32 = 0x0001_0000;

pub const RDPINPUT_PROTOCOL_V101: u32 = 0x0001_0001;

pub const RDPINPUT_PROTOCOL_V200: u32 = 0x0002_0000;

pub const RDPINPUT_PROTOCOL_V300: u32 = 0x0003_0000;

pub const SC_READY_MULTIPEN_INJECTION_SUPPORTED: u32 = 0x0001;

pub const CS_READY_FLAGS_SHOW_TOUCH_VISUALS: u32 = 0x0000_0001;

pub const CS_READY_FLAGS_DISABLE_TIMESTAMP_INJECTION: u32 = 0x0000_0002;

pub const CS_READY_FLAGS_ENABLE_MULTIPEN_INJECTION: u32 = 0x0000_0004;

pub const CONTACT_DATA_CONTACTRECT_PRESENT: u16 = 0x0001;

pub const CONTACT_DATA_ORIENTATION_PRESENT: u16 = 0x0002;

pub const CONTACT_DATA_PRESSURE_PRESENT: u16 = 0x0004;

pub const RDPINPUT_CONTACT_FLAG_DOWN: u32 = 0x0001;

pub const RDPINPUT_CONTACT_FLAG_UPDATE: u32 = 0x0002;

pub const RDPINPUT_CONTACT_FLAG_UP: u32 = 0x0004;

pub const RDPINPUT_CONTACT_FLAG_INRANGE: u32 = 0x0008;

pub const RDPINPUT_CONTACT_FLAG_INCONTACT: u32 = 0x0010;

pub const RDPINPUT_CONTACT_FLAG_CANCELED: u32 = 0x0020;

/// Number of simultaneous contacts that a client announces unless told otherwise.
pub const DEFAULT_MAX_TOUCH_CONTACTS: u16 = 64;

/// Distance from a contact's position to each side of its contact rectangle.
pub const TOUCH_RECT_SIZE: i32 = 2;

} // verus!
