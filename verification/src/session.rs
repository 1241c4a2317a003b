//! Device selection and endpoint discovery.
//!
//! The transport layer enumerates USB devices and interface descriptors and
//! hands their identifying fields to these functions, which decide — exactly
//! and deterministically — which device a filter selects and which endpoint
//! pair a session claims.

use vstd::prelude::*;
use crate::BROTHER_VID;
use crate::Error;

verus! {

/// Vendor and product identifiers of one enumerated USB device.
#[derive(Clone, Copy, PartialEq, Eq, Structural, Debug)]
pub struct DeviceIds {
    pub vendor_id: u16,
    pub product_id: u16,
}

/// Whether one enumerated device is a label maker of the wanted model.
pub open spec fn spec_matches(d: DeviceIds, pid: u16) -> bool {
    d.vendor_id == BROTHER_VID && d.product_id == pid
}

/// How many of the enumerated devices match the filter.
pub open spec fn spec_match_count(devs: Seq<DeviceIds>, pid: u16) -> int
    decreases devs.len(),
{
    if devs.len() == 0 {
        0
    } else {
        spec_match_count(devs.drop_last(), pid) + if spec_matches(devs.last(), pid) {
            1int
        } else {
            0int
        }
    }
}

/// A prefix never holds more matches than the whole enumeration.
pub proof fn lemma_match_count_prefix(devs: Seq<DeviceIds>, pid: u16, m: int)
    requires
        0 <= m <= devs.len(),
    ensures
        spec_match_count(devs.take(m), pid) <= spec_match_count(devs, pid),
    decreases devs.len(),
{
    if m < devs.len() {
        assert(devs.drop_last().take(m) =~= devs.take(m));
        lemma_match_count_prefix(devs.drop_last(), pid, m);
    } else {
        assert(devs.take(m) =~= devs);
    }
}

/// Pick the `index`-th (0-based, in enumeration order) device whose vendor
/// and product identifiers match.  Fails with `InvalidIndex` exactly when
/// fewer than `index + 1` devices match — in particular whenever none does.
pub fn select_device(devices: &Vec<DeviceIds>, pid: u16, index: usize) -> (r: Result<usize, Error>)
    ensures
        match r {
            Result::Ok(pos) => {
                &&& pos < devices@.len()
                &&& spec_matches(devices@[pos as int], pid)
                &&& spec_match_count(devices@.take(pos as int), pid) == index
                &&& index < spec_match_count(devices@, pid)
            },
            Result::Err(e) => {
                &&& e == Error::InvalidIndex
                &&& spec_match_count(devices@, pid) <= index
            },
        },
{
    let mut k: usize = 0;
    let mut found: usize = 0;
    proof {
        assert(devices@.take(0) =~= Seq::<DeviceIds>::empty());
    }
    while k < devices.len()
        invariant
            k <= devices@.len(),
            found <= index,
            found == spec_match_count(devices@.take(k as int), pid),
        decreases devices@.len() - k,
    {
        let d = devices[k];
        proof {
            assert(devices@.take(k + 1).drop_last() =~= devices@.take(k as int));
            assert(devices@.take(k + 1).last() == devices@[k as int]);
        }
        if d.vendor_id == BROTHER_VID && d.product_id == pid {
            if found == index {
                proof {
                    lemma_match_count_prefix(devices@, pid, k + 1);
                }
                return Result::Ok(k);
            }
            found += 1;
        }
        k += 1;
    }
    proof {
        assert(devices@.take(devices@.len() as int) =~= devices@);
    }
    Result::Err(Error::InvalidIndex)
}

/// Direction of a USB endpoint, seen from the host.
#[derive(Clone, Copy, PartialEq, Eq, Structural, Debug)]
pub enum Direction {
    In,
    Out,
}

/// Transfer type of a USB endpoint.
#[derive(Clone, Copy, PartialEq, Eq, Structural, Debug)]
pub enum TransferType {
    Control,
    Isochronous,
    Bulk,
    Interrupt,
}

/// Identifying fields of one endpoint descriptor of the first interface.
#[derive(Clone, Copy, PartialEq, Eq, Structural, Debug)]
pub struct EndpointDesc {
    pub address: u8,
    pub transfer_type: TransferType,
    pub direction: Direction,
}

/// The claimed endpoint pair: `cmd` carries commands out, `stat` carries
/// status frames back in.
#[derive(Clone, Copy, PartialEq, Eq, Structural, Debug)]
pub struct Endpoints {
    pub cmd: u8,
    pub stat: u8,
}

/// Address of the last bulk endpoint of the given direction, if any.
pub open spec fn spec_last_bulk(eps: Seq<EndpointDesc>, dir: Direction) -> Option<u8>
    decreases eps.len(),
{
    if eps.len() == 0 {
        Option::None
    } else if eps.last().transfer_type == TransferType::Bulk && eps.last().direction == dir {
        Option::Some(eps.last().address)
    } else {
        spec_last_bulk(eps.drop_last(), dir)
    }
}

/// Locate the bulk endpoint pair among the interface's endpoint descriptors.
/// Succeeds exactly when a bulk-OUT and a bulk-IN endpoint are both present,
/// recording the address of the last of each; no other transfer type is
/// accepted.  Fails with `InvalidEndpoints` otherwise.
pub fn find_endpoints(eps: &Vec<EndpointDesc>) -> (r: Result<Endpoints, Error>)
    ensures
        match r {
            Result::Ok(e) => {
                &&& spec_last_bulk(eps@, Direction::Out) == Option::Some(e.cmd)
                &&& spec_last_bulk(eps@, Direction::In) == Option::Some(e.stat)
            },
            Result::Err(err) => {
                &&& err == Error::InvalidEndpoints
                &&& (spec_last_bulk(eps@, Direction::Out) is None || spec_last_bulk(
                    eps@,
                    Direction::In,
                ) is None)
            },
        },
{
    let mut cmd: Option<u8> = Option::None;
    let mut stat: Option<u8> = Option::None;
    let mut k: usize = 0;
    proof {
        assert(eps@.take(0) =~= Seq::<EndpointDesc>::empty());
    }
    while k < eps.len()
        invariant
            k <= eps@.len(),
            cmd == spec_last_bulk(eps@.take(k as int), Direction::Out),
            stat == spec_last_bulk(eps@.take(k as int), Direction::In),
        decreases eps@.len() - k,
    {
        let e = eps[k];
        proof {
            assert(eps@.take(k + 1).drop_last() =~= eps@.take(k as int));
            assert(eps@.take(k + 1).last() == eps@[k as int]);
        }
        match (e.transfer_type, e.direction) {
            (TransferType::Bulk, Direction::In) => {
                stat = Option::Some(e.address);
            },
            (TransferType::Bulk, Direction::Out) => {
                cmd = Option::Some(e.address);
            },
            (_, _) => {},
        }
        k += 1;
    }
    proof {
        assert(eps@.take(eps@.len() as int) =~= eps@);
    }
    match (cmd, stat) {
        (Option::Some(c), Option::Some(s)) => Result::Ok(Endpoints { cmd: c, stat: s }),
        _ => Result::Err(Error::InvalidEndpoints),
    }
}

/// Pick the string-descriptor language: the first one the device advertises.
/// Fails with `NoLanguages` exactly when the device advertises none.
pub fn pick_language(languages: &Vec<u16>) -> (r: Result<u16, Error>)
    ensures
        match r {
            Result::Ok(l) => languages@.len() > 0 && l == languages@[0],
            Result::Err(e) => e == Error::NoLanguages && languages@.len() == 0,
        },
{
    if languages.len() == 0 {
        Result::Err(Error::NoLanguages)
    } else {
        Result::Ok(languages[0])
    }
}

} // verus!
