//! Protocol engine for a thermal label printer driven over USB bulk
//! transfers.
//!
//! The modules below hold the pure, verified heart of the driver: device
//! selection and endpoint discovery ([`session`]), run-length compression of
//! raster lines ([`tiff`]), byte-exact command frames ([`commands`]),
//! status-frame decoding ([`device`]), and the ordered print sequence with
//! its completion-poll state machine ([`print`]).  The transport layer that
//! owns the USB handle performs the transfers and hands plain values — byte
//! frames, descriptor fields, transfer counts — to and from this crate.

pub mod commands;
pub mod device;
pub mod print;
pub mod session;
pub mod tiff;

use vstd::prelude::*;
use crate::device::Error1;
use crate::device::Error2;
use crate::device::PTouchDevice;

verus! {

/// USB vendor identifier shared by all supported label printers.
pub const BROTHER_VID: u16 = 0x04F9;

/// Default per-operation transfer timeout, in milliseconds.
pub const DEFAULT_TIMEOUT_MS: u64 = 500;

/// Everything that can go wrong while driving the printer.
#[derive(Clone, Copy, PartialEq, Eq, Structural, Debug)]
pub enum Error {
    /// A lower-level USB transport failure, not further classified here.
    Usb,
    /// The device index selects no enumerated device.
    InvalidIndex,
    /// The device advertises no string-descriptor language.
    NoLanguages,
    /// The expected bulk endpoint pair was not found.
    InvalidEndpoints,
    /// A rendering collaborator failed; never produced by this crate.
    Render,
    /// A short transfer, or the completion poll ran out of attempts.
    Timeout,
    /// The device reported a print error, both bit-sets carried verbatim.
    PTouch(Error1, Error2),
}

/// Filter selecting one attached label maker.
#[derive(Clone, Copy, PartialEq, Eq, Structural, Debug)]
pub struct Filter {
    /// Label maker device kind.
    pub device: PTouchDevice,
    /// Index among the matching devices, if several are connected.
    pub index: usize,
}

/// String descriptors identifying an opened device.
#[derive(Clone, PartialEq, Debug)]
pub struct Info {
    pub manufacturer: String,
    pub product: String,
    pub serial: String,
}

/// Outcome of one bulk transfer that was asked to move `expected` bytes and
/// moved `actual`: anything short is a timeout, never a partial success.
pub fn transfer_complete(expected: usize, actual: usize) -> (r: Result<(), Error>)
    ensures
        actual == expected ==> r == Result::<(), Error>::Ok(()),
        actual != expected ==> r == Result::<(), Error>::Err(Error::Timeout),
{
    if actual == expected {
        Result::Ok(())
    } else {
        Result::Err(Error::Timeout)
    }
}

} // verus!
