//! Device identities and status-frame decoding.
//!
//! The printer answers a status request with a fixed 32-byte frame.  The
//! decoder reads the frame by field position: the status-type byte selects a
//! phase, and two independent error bit-sets report fault conditions.
//! Reserved and vendor-specific bytes are carried through untouched.

use vstd::prelude::*;

verus! {

/// Supported label maker model, named by its USB product id.
#[derive(Clone, Copy, PartialEq, Eq, Structural, Debug)]
pub enum PTouchDevice {
    PtP710Bt,
}

impl PTouchDevice {
    pub open spec fn spec_pid(self) -> u16 {
        match self {
            PTouchDevice::PtP710Bt => 0x20AF,
        }
    }

    /// USB product id of this model.
    pub fn pid(&self) -> (r: u16)
        ensures
            r == self.spec_pid(),
    {
        match self {
            PTouchDevice::PtP710Bt => 0x20AF,
        }
    }
}

/// First error bit-set of a status frame.  Media faults live here.
pub const ERROR1_NO_MEDIA: u8 = 0x01;

pub const ERROR1_END_OF_MEDIA: u8 = 0x02;

pub const ERROR1_CUTTER_JAM: u8 = 0x04;

pub const ERROR1_WEAK_BATTERIES: u8 = 0x08;

pub const ERROR1_PRINTER_IN_USE: u8 = 0x10;

pub const ERROR1_HIGH_VOLTAGE_ADAPTER: u8 = 0x40;

/// Second error bit-set of a status frame.  Transmission faults live here.
pub const ERROR2_REPLACE_MEDIA: u8 = 0x01;

pub const ERROR2_EXPANSION_BUFFER_FULL: u8 = 0x02;

pub const ERROR2_COMM_ERROR: u8 = 0x04;

pub const ERROR2_COMM_BUFFER_FULL: u8 = 0x08;

pub const ERROR2_COVER_OPEN: u8 = 0x10;

pub const ERROR2_OVERHEATING: u8 = 0x20;

/// The first error bit-set, preserved bit-for-bit from the frame.
#[derive(Clone, Copy, PartialEq, Eq, Structural, Debug)]
pub struct Error1 {
    pub bits: u8,
}

impl Error1 {
    /// No error bit is raised.
    pub fn is_empty(&self) -> (r: bool)
        ensures
            r == (self.bits == 0),
    {
        self.bits == 0
    }
}

/// The second error bit-set, preserved bit-for-bit from the frame.
#[derive(Clone, Copy, PartialEq, Eq, Structural, Debug)]
pub struct Error2 {
    pub bits: u8,
}

impl Error2 {
    /// No error bit is raised.
    pub fn is_empty(&self) -> (r: bool)
        ensures
            r == (self.bits == 0),
    {
        self.bits == 0
    }
}

/// Interpretation of the status-type byte of a frame.
#[derive(Clone, Copy, PartialEq, Eq, Structural, Debug)]
pub enum DeviceStatus {
    PhaseChange,
    Completed,
    ErrorOccurred,
    Notification,
    Other,
}

/// Which phase a status-type byte announces.
pub open spec fn spec_status_type(b: u8) -> DeviceStatus {
    if b == 0x01 {
        DeviceStatus::Completed
    } else if b == 0x02 {
        DeviceStatus::ErrorOccurred
    } else if b == 0x05 {
        DeviceStatus::Notification
    } else if b == 0x06 {
        DeviceStatus::PhaseChange
    } else {
        DeviceStatus::Other
    }
}

/// Decode the status-type byte.
pub fn status_type(b: u8) -> (r: DeviceStatus)
    ensures
        r == spec_status_type(b),
{
    if b == 0x01 {
        DeviceStatus::Completed
    } else if b == 0x02 {
        DeviceStatus::ErrorOccurred
    } else if b == 0x05 {
        DeviceStatus::Notification
    } else if b == 0x06 {
        DeviceStatus::PhaseChange
    } else {
        DeviceStatus::Other
    }
}

/// Structured view of one 32-byte status frame.
#[derive(Clone, Copy, PartialEq, Eq, Structural, Debug)]
pub struct Status {
    pub model: u8,
    pub error1: Error1,
    pub error2: Error2,
    pub media_width: u8,
    pub media_kind: u8,
    pub status_type: DeviceStatus,
    pub phase_type: u8,
    pub phase_number: u16,
    pub tape_color: u8,
    pub text_color: u8,
}

/// What each field of the decoded status is, by byte position in the frame.
pub open spec fn spec_decode_status(d: Seq<u8>) -> Status
    recommends
        d.len() == 32,
{
    Status {
        model: d[4],
        error1: Error1 { bits: d[8] },
        error2: Error2 { bits: d[9] },
        media_width: d[10],
        media_kind: d[11],
        status_type: spec_status_type(d[18]),
        phase_type: d[19],
        phase_number: (d[20] * 256 + d[21]) as u16,
        tape_color: d[24],
        text_color: d[25],
    }
}

impl Status {
    /// Decode a raw 32-byte status frame by field position.
    pub fn from_frame(d: &[u8; 32]) -> (r: Status)
        ensures
            r == spec_decode_status(d@),
    {
        Status {
            model: d[4],
            error1: Error1 { bits: d[8] },
            error2: Error2 { bits: d[9] },
            media_width: d[10],
            media_kind: d[11],
            status_type: status_type(d[18]),
            phase_type: d[19],
            phase_number: (d[20] as u16) * 256 + (d[21] as u16),
            tape_color: d[24],
            text_color: d[25],
        }
    }
}

} // verus!
