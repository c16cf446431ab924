use ruuvitag_listener::mac_address::MacAddress;
use ruuvitag_listener::scanner::hci::{
    advertising_filter, contains_vendor_id, find_advertisement, hci_command_packet, loop_step,
    parse_advertising_report, process_datagram, scan_commands, HciFilter, LeSetScanEnableCmd,
    LeSetScanParametersCmd, LoopAction, LoopState, SocketEvent, EVT_LE_META_EVENT, HCI_EVENT_PKT,
    OCF_LE_SET_SCAN_ENABLE, OGF_LE_CTL,
};
use ruuvitag_listener::scanner::DecodeError;

#[test]
fn test_hci_filter_setup() {
    let mut filter = HciFilter::new();
    filter.set_ptype(HCI_EVENT_PKT);
    filter.set_event(EVT_LE_META_EVENT);

    // Verify filter is set correctly
    // HCI_EVENT_PKT (0x04) sets bit 4 in type_mask
    assert_eq!(filter.type_mask, 1 << HCI_EVENT_PKT);
    // EVT_LE_META_EVENT (0x3E = 62) sets bit 30 in event_mask[1]
    assert_eq!(filter.event_mask[1], 1 << (EVT_LE_META_EVENT % 32));
}

#[test]
fn test_hci_command_packet() {
    let packet = hci_command_packet(OGF_LE_CTL, OCF_LE_SET_SCAN_ENABLE, &[0x01, 0x00]);

    assert_eq!(packet[0], 0x01); // Command packet type
    assert_eq!(packet.len(), 6); // Header + 2 params
}

#[test]
fn command_packet_bytes() {
    let packet = hci_command_packet(OGF_LE_CTL, OCF_LE_SET_SCAN_ENABLE, &[0x01, 0x00]);
    assert_eq!(packet, vec![0x01, 0x0C, 0x20, 0x02, 0x01, 0x00]);
    let empty = hci_command_packet(0x3F, 0x3FF, &[]);
    assert_eq!(empty, vec![0x01, 0xFF, 0xFF, 0x00]);
}

#[test]
fn scan_commands_are_parameters_then_enable() {
    let (parameters, enable) = scan_commands();
    assert_eq!(
        parameters,
        vec![0x01, 0x0B, 0x20, 0x07, 0x00, 0x10, 0x00, 0x10, 0x00, 0x00, 0x00]
    );
    assert_eq!(enable, vec![0x01, 0x0C, 0x20, 0x02, 0x01, 0x00]);
}

#[test]
fn command_parameters_are_little_endian() {
    let p = LeSetScanParametersCmd {
        scan_type: 1,
        interval: 0x1234,
        window: 0xABCD,
        own_address_type: 2,
        filter_policy: 3,
    };
    assert_eq!(p.to_bytes(), vec![1, 0x34, 0x12, 0xCD, 0xAB, 2, 3]);
    let e = LeSetScanEnableCmd { enable: 1, filter_dup: 0 };
    assert_eq!(e.to_bytes(), vec![1, 0]);
}

#[test]
fn advertising_filter_lets_le_meta_events_through() {
    let f = advertising_filter();
    assert_eq!(f.type_mask, 0x10);
    assert_eq!(f.event_mask, [0, 0x4000_0000]);
    assert_eq!(f.opcode, 0);
    let mut low = HciFilter::new();
    low.set_event(5);
    low.set_event(0);
    assert_eq!(low.event_mask, [0b10_0001, 0]);
}

fn v5_payload() -> Vec<u8> {
    vec![
        0x05, 0x12, 0xFC, 0x53, 0x94, 0xC3, 0x7C, 0x00, 0x04, 0xFF, 0xFC, 0x04, 0x0C, 0xAC, 0x36,
        0x42, 0x00, 0xCD, 0xCB, 0xB8, 0x33, 0x4C, 0x88, 0x4F,
    ]
}

/// An event packet with one report: flags, then vendor data.
fn advertisement_packet(payload: &[u8]) -> Vec<u8> {
    let mut ad = vec![0x02, 0x01, 0x06];
    ad.push((payload.len() + 3) as u8);
    ad.extend_from_slice(&[0xFF, 0x99, 0x04]);
    ad.extend_from_slice(payload);
    let mut packet = vec![0x04, 0x3E, 0x00, 0x02];
    packet.push(0x01); // one report
    packet.push(0x00); // event type
    packet.push(0x00); // address type
    packet.extend_from_slice(&[0x4F, 0x88, 0x4C, 0x33, 0xB8, 0xCB]); // address, reversed
    packet.push(ad.len() as u8);
    packet.extend_from_slice(&ad);
    packet.push(0xC4); // signal strength
    packet[2] = (packet.len() - 3) as u8;
    packet
}

#[test]
fn report_gives_address_and_payload() {
    let packet = advertisement_packet(&v5_payload());
    let (mac, payload) = find_advertisement(&packet).unwrap();
    assert_eq!(mac, MacAddress([0xCB, 0xB8, 0x33, 0x4C, 0x88, 0x4F]));
    assert_eq!(payload, &v5_payload()[..]);
}

#[test]
fn report_is_decoded_for_its_sender() {
    let packet = advertisement_packet(&v5_payload());
    let m = parse_advertising_report(&packet, false).unwrap().unwrap();
    assert_eq!(m.mac.to_string(), "CB:B8:33:4C:88:4F");
    assert_eq!(m.movement_counter, Some(66));
    assert_eq!(m.measurement_sequence, Some(205));
}

#[test]
fn short_report_is_reported_only_when_verbose() {
    let packet = vec![0x04, 0x3E, 0x08, 0x02, 0x01, 0x00, 0x00, 0x99, 0x04, 0x00, 0x00];
    assert_eq!(parse_advertising_report(&packet, false), None);
    assert_eq!(
        parse_advertising_report(&packet, true),
        Some(Err(DecodeError::InvalidData(
            "Advertising report too short".to_string()
        )))
    );
    assert_eq!(process_datagram(&packet, false), None);
    assert_eq!(
        process_datagram(&packet, true),
        Some(Err(DecodeError::InvalidData(
            "Advertising report too short".to_string()
        )))
    );
}

#[test]
fn malformed_structures_end_the_walk() {
    // no reports
    let mut none = advertisement_packet(&v5_payload());
    none[4] = 0;
    assert_eq!(find_advertisement(&none), None);
    // data length runs past the end of the packet
    let mut long = advertisement_packet(&v5_payload());
    long[13] = 0xFF;
    assert_eq!(find_advertisement(&long), None);
    // first structure has length zero
    let mut zero = advertisement_packet(&v5_payload());
    zero[14] = 0;
    assert_eq!(find_advertisement(&zero), None);
    // vendor structure runs past the end of the advertising data
    let mut over = advertisement_packet(&v5_payload());
    over[17] = 0x40;
    assert_eq!(find_advertisement(&over), None);
    // another vendor
    let mut other = advertisement_packet(&v5_payload());
    other[19] = 0x4C;
    other[20] = 0x00;
    assert_eq!(find_advertisement(&other), None);
    // a packet of exactly the least length holds no advertising data
    let least = vec![0x04, 0x3E, 0x09, 0x02, 0x01, 0, 0, 1, 2, 3, 4, 5];
    assert_eq!(find_advertisement(&least), None);
    // nor does a shorter one
    assert_eq!(find_advertisement(&least[..11]), None);
    assert_eq!(find_advertisement(&[]), None);
}

#[test]
fn vendor_data_without_flags_is_found() {
    let payload = v5_payload();
    let mut packet = vec![0x04, 0x3E, 0x00, 0x02, 0x01, 0x00, 0x00, 6, 5, 4, 3, 2, 1];
    packet.push((payload.len() + 4) as u8);
    packet.push((payload.len() + 3) as u8);
    packet.extend_from_slice(&[0xFF, 0x99, 0x04]);
    packet.extend_from_slice(&payload);
    let (mac, found) = find_advertisement(&packet).unwrap();
    assert_eq!(mac, MacAddress([1, 2, 3, 4, 5, 6]));
    assert_eq!(found, &payload[..]);
}

#[test]
fn vendor_test_looks_at_every_offset() {
    assert!(!contains_vendor_id(&[]));
    assert!(!contains_vendor_id(&[0x99]));
    assert!(!contains_vendor_id(&[0x04, 0x99]));
    assert!(contains_vendor_id(&[0x99, 0x04]));
    assert!(contains_vendor_id(&[0, 0, 0x99, 0x04]));
    assert!(contains_vendor_id(&[0, 0x99, 0x04, 0]));
    assert!(!contains_vendor_id(&[0x99, 0, 0x04, 0x99]));
}

#[test]
fn datagrams_that_are_no_reports_give_nothing() {
    let good = advertisement_packet(&v5_payload());
    assert!(matches!(process_datagram(&good, false), Some(Ok(_))));
    let mut command = good.clone();
    command[0] = 0x01;
    assert_eq!(process_datagram(&command, true), None);
    let mut other_event = good.clone();
    other_event[1] = 0x0E;
    assert_eq!(process_datagram(&other_event, true), None);
    let mut other_subevent = good.clone();
    other_subevent[3] = 0x01;
    assert_eq!(process_datagram(&other_subevent, true), None);
    assert_eq!(process_datagram(&[0x04, 0x3E, 0x00], true), None);
    assert_eq!(process_datagram(&[], true), None);
}

#[test]
fn decode_errors_pass_only_when_verbose() {
    let packet = advertisement_packet(&[0x03, 0x01, 0x02]);
    assert_eq!(process_datagram(&packet, false), None);
    assert_eq!(
        process_datagram(&packet, true),
        Some(Err(DecodeError::UnsupportedFormat(
            "RuuviTag data format 3 (only V5 and V6 supported)".to_string()
        )))
    );
}

#[test]
fn event_loop_drains_before_it_waits_again() {
    assert_eq!(
        loop_step(LoopState::Waiting, SocketEvent::Readable),
        (LoopState::Draining, LoopAction::Read)
    );
    assert_eq!(
        loop_step(LoopState::Draining, SocketEvent::Datagram(40)),
        (LoopState::Draining, LoopAction::Process(40))
    );
    assert_eq!(
        loop_step(LoopState::Draining, SocketEvent::Datagram(0)),
        (LoopState::Waiting, LoopAction::Wait)
    );
    assert_eq!(
        loop_step(LoopState::Draining, SocketEvent::NothingRead),
        (LoopState::Waiting, LoopAction::Wait)
    );
    assert_eq!(
        loop_step(LoopState::Waiting, SocketEvent::WaitFailed),
        (LoopState::Stopped, LoopAction::Close)
    );
    assert_eq!(
        loop_step(LoopState::Stopped, SocketEvent::Readable),
        (LoopState::Stopped, LoopAction::Close)
    );
}
