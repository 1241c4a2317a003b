//! Byte-exact builders for the raster-print command frames.
//!
//! Every builder is a pure function from typed parameters to the frame that
//! goes out on the command endpoint, and its contract states each byte of
//! that frame.  Transmission is left to the transport layer.

use vstd::prelude::*;

verus! {

/// Communication mode selected by the mode-switch command.
#[derive(Clone, Copy, PartialEq, Eq, Structural, Debug)]
pub enum Mode {
    EscP,
    Raster,
    Template,
}

impl Mode {
    pub open spec fn spec_byte(self) -> u8 {
        match self {
            Mode::EscP => 0x00,
            Mode::Raster => 0x01,
            Mode::Template => 0x03,
        }
    }

    pub fn byte(&self) -> (r: u8)
        ensures
            r == self.spec_byte(),
    {
        match self {
            Mode::EscP => 0x00,
            Mode::Raster => 0x01,
            Mode::Template => 0x03,
        }
    }
}

/// Bit raised in `VariousMode` to cut the tape automatically.
pub const VARIOUS_MODE_AUTO_CUT: u8 = 0x40;

/// Bit raised in `VariousMode` to print mirrored.
pub const VARIOUS_MODE_MIRROR: u8 = 0x80;

/// Bit-flag set carried by the various-mode command.
#[derive(Clone, Copy, PartialEq, Eq, Structural, Debug)]
pub struct VariousMode {
    pub bits: u8,
}

/// Bit raised in `AdvancedMode` to suppress chain printing.
pub const ADVANCED_MODE_NO_CHAIN: u8 = 0x08;

/// Bit raised in `AdvancedMode` for special tape.
pub const ADVANCED_MODE_SPECIAL_TAPE: u8 = 0x10;

/// Bit-flag set carried by the advanced-mode command.
#[derive(Clone, Copy, PartialEq, Eq, Structural, Debug)]
pub struct AdvancedMode {
    pub bits: u8,
}

/// Raster-data compression selected by the compression-mode command.
#[derive(Clone, Copy, PartialEq, Eq, Structural, Debug)]
pub enum CompressionMode {
    Uncompressed,
    Tiff,
}

impl CompressionMode {
    pub open spec fn spec_byte(self) -> u8 {
        match self {
            CompressionMode::Uncompressed => 0x00,
            CompressionMode::Tiff => 0x02,
        }
    }

    pub fn byte(&self) -> (r: u8)
        ensures
            r == self.spec_byte(),
    {
        match self {
            CompressionMode::Uncompressed => 0x00,
            CompressionMode::Tiff => 0x02,
        }
    }
}

/// Media carried by the printer, as named in the print-info command.
#[derive(Clone, Copy, PartialEq, Eq, Structural, Debug)]
pub enum MediaKind {
    LaminatedTape,
    NonLaminatedTape,
    HeatShrinkTube,
    IncompatibleTape,
}

impl MediaKind {
    pub open spec fn spec_byte(self) -> u8 {
        match self {
            MediaKind::LaminatedTape => 0x01,
            MediaKind::NonLaminatedTape => 0x03,
            MediaKind::HeatShrinkTube => 0x11,
            MediaKind::IncompatibleTape => 0xFF,
        }
    }

    pub fn byte(&self) -> (r: u8)
        ensures
            r == self.spec_byte(),
    {
        match self {
            MediaKind::LaminatedTape => 0x01,
            MediaKind::NonLaminatedTape => 0x03,
            MediaKind::HeatShrinkTube => 0x11,
            MediaKind::IncompatibleTape => 0xFF,
        }
    }
}

/// Job configuration sent once, before any raster line.  A field left unset
/// clears its validity flag and encodes as zero.
#[derive(Clone, Copy, PartialEq, Eq, Structural, Debug)]
pub struct PrintInfo {
    /// Media kind, if the job pins it down.
    pub kind: Option<MediaKind>,
    /// Media width in millimetres, if the job pins it down.
    pub width: Option<u8>,
    /// Media length in millimetres, if the job pins it down.
    pub length: Option<u8>,
    /// Number of raster lines in the job.
    pub raster_no: u32,
    /// Ask the printer to recover gracefully from errors.
    pub recover: bool,
}

/// Validity-flag byte of the print-info command: one disjoint bit per
/// field that the job pins down, plus the recovery bit.
pub open spec fn spec_print_info_flags(i: PrintInfo) -> u8 {
    ((if i.kind is Some {
        0x02int
    } else {
        0x00int
    }) + (if i.width is Some {
        0x04int
    } else {
        0x00int
    }) + (if i.length is Some {
        0x08int
    } else {
        0x00int
    }) + (if i.recover {
        0x80int
    } else {
        0x00int
    })) as u8
}

pub open spec fn spec_print_info_kind_byte(i: PrintInfo) -> u8 {
    match i.kind {
        Option::Some(k) => k.spec_byte(),
        Option::None => 0x00,
    }
}

pub open spec fn spec_option_byte(o: Option<u8>) -> u8 {
    match o {
        Option::Some(b) => b,
        Option::None => 0x00,
    }
}

/// The session-invalidation preamble: a hundred empty bytes that flush any
/// partial command left in the printer's receive buffer.
pub open spec fn spec_invalidate() -> Seq<u8> {
    Seq::new(100, |i: int| 0u8)
}

/// The initialization command.
pub open spec fn spec_init() -> Seq<u8> {
    seq![0x1B, 0x40]
}

/// The mode-switch command frame.
pub open spec fn spec_switch_mode(m: Mode) -> Seq<u8> {
    seq![0x1B, 0x69, 0x61, m.spec_byte()]
}

/// The status-notification command frame; zero enables notification.
pub open spec fn spec_status_notify(enabled: bool) -> Seq<u8> {
    seq![0x1B, 0x69, 0x21, if enabled { 0x00u8 } else { 0x01u8 }]
}

/// The print-info command frame: validity flags, media fields, and the
/// raster-line count in little-endian order.
pub open spec fn spec_print_info(i: PrintInfo) -> Seq<u8> {
    seq![
        0x1B,
        0x69,
        0x7A,
        spec_print_info_flags(i),
        spec_print_info_kind_byte(i),
        spec_option_byte(i.width),
        spec_option_byte(i.length),
        (i.raster_no & 0xFF) as u8,
        ((i.raster_no >> 8) & 0xFF) as u8,
        ((i.raster_no >> 16) & 0xFF) as u8,
        ((i.raster_no >> 24) & 0xFF) as u8,
        0x00,
        0x00,
    ]
}

/// The various-mode command frame.
pub open spec fn spec_various_mode(m: VariousMode) -> Seq<u8> {
    seq![0x1B, 0x69, 0x4D, m.bits]
}

/// The advanced-mode command frame.
pub open spec fn spec_advanced_mode(m: AdvancedMode) -> Seq<u8> {
    seq![0x1B, 0x69, 0x4B, m.bits]
}

/// The margin command frame, amount in little-endian order.
pub open spec fn spec_margin(amount: u16) -> Seq<u8> {
    seq![0x1B, 0x69, 0x64, (amount & 0xFF) as u8, ((amount >> 8) & 0xFF) as u8]
}

/// The compression-mode command frame.
pub open spec fn spec_compression_mode(m: CompressionMode) -> Seq<u8> {
    seq![0x4D, m.spec_byte()]
}

/// The raster-transfer command frame: header with the payload length in
/// little-endian order, then the compressed line verbatim.
pub open spec fn spec_raster_transfer(data: Seq<u8>) -> Seq<u8>
    recommends
        data.len() <= 0xFFFF,
{
    seq![0x47, (data.len() as u16 & 0xFF) as u8, ((data.len() as u16 >> 8) & 0xFF) as u8] + data
}

/// The empty-raster-line command frame.
pub open spec fn spec_raster_zero() -> Seq<u8> {
    seq![0x5A]
}

/// The print-and-feed command frame, sent once after the last raster line.
pub open spec fn spec_print_and_feed() -> Seq<u8> {
    seq![0x1A]
}

/// The status-request command frame.
pub open spec fn spec_status_request() -> Seq<u8> {
    seq![0x1B, 0x69, 0x53]
}

pub fn encode_invalidate() -> (r: Vec<u8>)
    ensures
        r@ == spec_invalidate(),
{
    let mut out: Vec<u8> = Vec::new();
    let mut k: usize = 0;
    while k < 100
        invariant
            k <= 100,
            out@ =~= Seq::new(k as nat, |i: int| 0u8),
        decreases 100 - k,
    {
        out.push(0x00);
        proof {
            assert(out@ =~= Seq::new((k + 1) as nat, |i: int| 0u8));
        }
        k += 1;
    }
    proof {
        assert(out@ =~= spec_invalidate());
    }
    out
}

pub fn encode_init() -> (r: Vec<u8>)
    ensures
        r@ == spec_init(),
{
    let out: Vec<u8> = vec![0x1B, 0x40];
    proof {
        assert(out@ =~= spec_init());
    }
    out
}

pub fn encode_switch_mode(m: Mode) -> (r: Vec<u8>)
    ensures
        r@ == spec_switch_mode(m),
{
    let out: Vec<u8> = vec![0x1B, 0x69, 0x61, m.byte()];
    proof {
        assert(out@ =~= spec_switch_mode(m));
    }
    out
}

pub fn encode_status_notify(enabled: bool) -> (r: Vec<u8>)
    ensures
        r@ == spec_status_notify(enabled),
{
    let flag: u8 = if enabled {
        0x00
    } else {
        0x01
    };
    let out: Vec<u8> = vec![0x1B, 0x69, 0x21, flag];
    proof {
        assert(out@ =~= spec_status_notify(enabled));
    }
    out
}

pub fn encode_print_info(i: &PrintInfo) -> (r: Vec<u8>)
    ensures
        r@ == spec_print_info(*i),
{
    let mut flags: u8 = 0x00;
    let mut kind_byte: u8 = 0x00;
    if let Option::Some(k) = &i.kind {
        flags = flags + 0x02;
        kind_byte = k.byte();
    }
    let width: u8 = match &i.width {
        Option::Some(w) => {
            flags = flags + 0x04;
            *w
        },
        Option::None => 0x00,
    };
    let length: u8 = match &i.length {
        Option::Some(l) => {
            flags = flags + 0x08;
            *l
        },
        Option::None => 0x00,
    };
    if i.recover {
        flags = flags + 0x80;
    }
    let out: Vec<u8> = vec![
        0x1B,
        0x69,
        0x7A,
        flags,
        kind_byte,
        width,
        length,
        (i.raster_no & 0xFF) as u8,
        ((i.raster_no >> 8) & 0xFF) as u8,
        ((i.raster_no >> 16) & 0xFF) as u8,
        ((i.raster_no >> 24) & 0xFF) as u8,
        0x00,
        0x00,
    ];
    proof {
        assert(flags == spec_print_info_flags(*i));
        assert(out@ =~= spec_print_info(*i));
    }
    out
}

pub fn encode_various_mode(m: VariousMode) -> (r: Vec<u8>)
    ensures
        r@ == spec_various_mode(m),
{
    let out: Vec<u8> = vec![0x1B, 0x69, 0x4D, m.bits];
    proof {
        assert(out@ =~= spec_various_mode(m));
    }
    out
}

pub fn encode_advanced_mode(m: AdvancedMode) -> (r: Vec<u8>)
    ensures
        r@ == spec_advanced_mode(m),
{
    let out: Vec<u8> = vec![0x1B, 0x69, 0x4B, m.bits];
    proof {
        assert(out@ =~= spec_advanced_mode(m));
    }
    out
}

pub fn encode_margin(amount: u16) -> (r: Vec<u8>)
    ensures
        r@ == spec_margin(amount),
{
    let out: Vec<u8> = vec![0x1B, 0x69, 0x64, (amount & 0xFF) as u8, ((amount >> 8) & 0xFF) as u8];
    proof {
        assert(out@ =~= spec_margin(amount));
    }
    out
}

pub fn encode_compression_mode(m: CompressionMode) -> (r: Vec<u8>)
    ensures
        r@ == spec_compression_mode(m),
{
    let out: Vec<u8> = vec![0x4D, m.byte()];
    proof {
        assert(out@ =~= spec_compression_mode(m));
    }
    out
}

pub fn encode_raster_transfer(data: &Vec<u8>) -> (r: Vec<u8>)
    requires
        data@.len() <= 0xFFFF,
    ensures
        r@ == spec_raster_transfer(data@),
{
    let len: u16 = data.len() as u16;
    let mut out: Vec<u8> = vec![0x47, (len & 0xFF) as u8, ((len >> 8) & 0xFF) as u8];
    let ghost head = out@;
    let mut k: usize = 0;
    while k < data.len()
        invariant
            k <= data@.len(),
            out@ == head + data@.take(k as int),
        decreases data@.len() - k,
    {
        out.push(data[k]);
        proof {
            assert(out@ =~= head + data@.take(k + 1));
        }
        k += 1;
    }
    proof {
        assert(data@.take(data@.len() as int) =~= data@);
        assert(out@ =~= spec_raster_transfer(data@));
    }
    out
}

pub fn encode_raster_zero() -> (r: Vec<u8>)
    ensures
        r@ == spec_raster_zero(),
{
    let out: Vec<u8> = vec![0x5A];
    proof {
        assert(out@ =~= spec_raster_zero());
    }
    out
}

pub fn encode_print_and_feed() -> (r: Vec<u8>)
    ensures
        r@ == spec_print_and_feed(),
{
    let out: Vec<u8> = vec![0x1A];
    proof {
        assert(out@ =~= spec_print_and_feed());
    }
    out
}

pub fn encode_status_request() -> (r: Vec<u8>)
    ensures
        r@ == spec_status_request(),
{
    let out: Vec<u8> = vec![0x1B, 0x69, 0x53];
    proof {
        assert(out@ =~= spec_status_request());
    }
    out
}

} // verus!
