use ptouch::session::{
    find_endpoints, pick_language, select_device, DeviceIds, Direction, EndpointDesc,
    TransferType,
};
use ptouch::device::PTouchDevice;
use ptouch::{transfer_complete, Error, BROTHER_VID};

fn dev(vendor_id: u16, product_id: u16) -> DeviceIds {
    DeviceIds { vendor_id, product_id }
}

#[test]
fn zero_matches_fails_for_any_index() {
    let pid = PTouchDevice::PtP710Bt.pid();
    let devices = vec![dev(0x1234, pid), dev(BROTHER_VID, 0x0001)];
    assert_eq!(select_device(&devices, pid, 0), Err(Error::InvalidIndex));
    assert_eq!(select_device(&devices, pid, 7), Err(Error::InvalidIndex));
    assert_eq!(select_device(&Vec::new(), pid, 0), Err(Error::InvalidIndex));
}

#[test]
fn index_beyond_matches_fails() {
    let pid = PTouchDevice::PtP710Bt.pid();
    let devices = vec![dev(BROTHER_VID, pid), dev(BROTHER_VID, pid)];
    assert_eq!(select_device(&devices, pid, 2), Err(Error::InvalidIndex));
    assert_eq!(select_device(&devices, pid, 3), Err(Error::InvalidIndex));
}

#[test]
fn indexed_match_is_selected_in_enumeration_order() {
    let pid = PTouchDevice::PtP710Bt.pid();
    let devices = vec![
        dev(0x1234, 0x5678),
        dev(BROTHER_VID, pid),
        dev(BROTHER_VID, 0x9999),
        dev(BROTHER_VID, pid),
    ];
    assert_eq!(select_device(&devices, pid, 0), Ok(1));
    assert_eq!(select_device(&devices, pid, 1), Ok(3));
}

fn ep(address: u8, transfer_type: TransferType, direction: Direction) -> EndpointDesc {
    EndpointDesc { address, transfer_type, direction }
}

#[test]
fn bulk_pair_is_discovered() {
    let eps = vec![
        ep(0x81, TransferType::Bulk, Direction::In),
        ep(0x02, TransferType::Bulk, Direction::Out),
    ];
    let found = find_endpoints(&eps).unwrap();
    assert_eq!(found.stat, 0x81);
    assert_eq!(found.cmd, 0x02);
}

#[test]
fn missing_bulk_endpoint_is_rejected() {
    let only_in = vec![ep(0x81, TransferType::Bulk, Direction::In)];
    assert_eq!(find_endpoints(&only_in), Err(Error::InvalidEndpoints));
    let only_out = vec![ep(0x02, TransferType::Bulk, Direction::Out)];
    assert_eq!(find_endpoints(&only_out), Err(Error::InvalidEndpoints));
    assert_eq!(find_endpoints(&Vec::new()), Err(Error::InvalidEndpoints));
}

#[test]
fn non_bulk_endpoints_are_ignored() {
    let eps = vec![
        ep(0x83, TransferType::Interrupt, Direction::In),
        ep(0x81, TransferType::Bulk, Direction::In),
        ep(0x04, TransferType::Control, Direction::Out),
        ep(0x02, TransferType::Bulk, Direction::Out),
        ep(0x85, TransferType::Isochronous, Direction::In),
    ];
    let found = find_endpoints(&eps).unwrap();
    assert_eq!(found.stat, 0x81);
    assert_eq!(found.cmd, 0x02);
}

#[test]
fn first_language_is_picked() {
    assert_eq!(pick_language(&vec![0x0409, 0x0407]), Ok(0x0409));
    assert_eq!(pick_language(&Vec::new()), Err(Error::NoLanguages));
}

#[test]
fn short_transfers_are_timeouts() {
    assert_eq!(transfer_complete(32, 32), Ok(()));
    assert_eq!(transfer_complete(32, 31), Err(Error::Timeout));
    assert_eq!(transfer_complete(5, 0), Err(Error::Timeout));
}
