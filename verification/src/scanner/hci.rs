//! The raw-socket backend's logic: controller commands, the socket's event
//! filter, and the parsing of advertising reports.
//!
//! An event packet is `[packet type][event code][parameter length][subevent]`
//! followed by the report: `[number of reports][event type][address type]`,
//! six address bytes in reverse order, the length of the advertising data and
//! the data itself, a run of `[length][type][value...]` structures.

use crate::mac_address::MacAddress;
use crate::measurement::Measurement;
use crate::scanner::decode::{decode_ruuvi_data, is_decoding};
use crate::scanner::{DecodeError, DecodeErrorView};
use vstd::prelude::*;

verus! {

/// Packet type of a command sent to the controller.
pub const HCI_COMMAND_PKT: u8 = 0x01;

/// Packet type of an event from the controller.
pub const HCI_EVENT_PKT: u8 = 0x04;

/// Event code of the LE meta event.
pub const EVT_LE_META_EVENT: u8 = 0x3E;

/// Subevent code of an LE advertising report.
pub const EVT_LE_ADVERTISING_REPORT: u8 = 0x02;

/// Command group of the LE controller commands.
pub const OGF_LE_CTL: u16 = 0x08;

/// LE Set Scan Parameters.
pub const OCF_LE_SET_SCAN_PARAMETERS: u16 = 0x000B;

/// LE Set Scan Enable.
pub const OCF_LE_SET_SCAN_ENABLE: u16 = 0x000C;

/// Passive scanning: listen only, never ask a device for more.
pub const LE_SCAN_PASSIVE: u8 = 0x00;

/// Scan with the controller's public address.
pub const LE_PUBLIC_ADDRESS: u8 = 0x00;

/// Accept advertisements from every device.
pub const FILTER_POLICY_ACCEPT_ALL: u8 = 0x00;

/// Scan interval and scan window in units of 0.625 ms: 10 ms each, so the
/// controller listens all the time.
pub const SCAN_INTERVAL: u16 = 0x0010;

/// See `SCAN_INTERVAL`.
pub const SCAN_WINDOW: u16 = 0x0010;

/// Type of the advertising structure that holds vendor data.
pub const AD_TYPE_MANUFACTURER_DATA: u8 = 0xFF;

/// Low byte of the vendor identifier `0x0499`, which comes first on the wire.
pub const VENDOR_ID_LOW: u8 = 0x99;

/// High byte of the vendor identifier `0x0499`.
pub const VENDOR_ID_HIGH: u8 = 0x04;

/// The shortest event packet that can hold a report.
pub const MIN_REPORT_LENGTH: usize = 12;

/// Where the advertising data begins in an event packet.
pub const AD_DATA_START: usize = 14;

/// The event filter of a raw controller socket: a bit for each packet type
/// and each event code that the socket lets through.
#[derive(Debug, Clone, Copy, PartialEq, Eq)]
pub struct HciFilter {
    pub type_mask: u32,
    pub event_mask: [u32; 2],
    pub opcode: u16,
}

impl HciFilter {
    /// A filter that lets nothing through.
    pub fn new() -> (f: HciFilter)
        ensures
            f.type_mask == 0,
            f.event_mask@ == seq![0u32, 0u32],
            f.opcode == 0,
    {
        let f = HciFilter { type_mask: 0, event_mask: [0, 0], opcode: 0 };
        assert(f.event_mask@ =~= seq![0u32, 0u32]);
        f
    }

    /// Lets the packet type `ptype` through.
    pub fn set_ptype(&mut self, ptype: u8)
        requires
            ptype < 32,
        ensures
            final(self).type_mask == old(self).type_mask | (1u32 << ptype),
            final(self).event_mask == old(self).event_mask,
            final(self).opcode == old(self).opcode,
    {
        self.type_mask = self.type_mask | (1u32 << ptype);
    }

    /// Lets the event code `event` through.
    pub fn set_event(&mut self, event: u8)
        requires
            event < 64,
        ensures
            final(self).type_mask == old(self).type_mask,
            final(self).opcode == old(self).opcode,
            final(self).event_mask@ == old(self).event_mask@.update(
                event as int / 32,
                old(self).event_mask@[event as int / 32] | (1u32 << (event % 32)),
            ),
    {
        let word: usize = (event / 32) as usize;
        let bit: u8 = event % 32;
        let previous: u32 = self.event_mask[word];
        self.event_mask[word] = previous | (1u32 << bit);
    }
}

/// The filter that lets LE meta events through and nothing else.
pub fn advertising_filter() -> (f: HciFilter)
    ensures
        f.type_mask == 0x10,
        f.event_mask@ == seq![0u32, 0x4000_0000u32],
        f.opcode == 0,
{
    let mut f = HciFilter::new();
    f.set_ptype(HCI_EVENT_PKT);
    f.set_event(EVT_LE_META_EVENT);
    assert(0u32 | (1u32 << 4u8) == 0x10) by (bit_vector);
    assert(0u32 | (1u32 << 30u8) == 0x4000_0000) by (bit_vector);
    assert(f.event_mask@ =~= seq![0u32, 0x4000_0000u32]);
    f
}

/// The 16-bit opcode of the command `ocf` in the group `ogf`: the group in
/// the upper six bits, the command in the lower ten.
pub open spec fn opcode_of(ogf: u16, ocf: u16) -> u16 {
    (ogf << 10) | ocf
}

/// A command packet: packet type, opcode in little-endian order, parameter
/// length, parameters.
pub open spec fn command_packet(ogf: u16, ocf: u16, params: Seq<u8>) -> Seq<u8> {
    seq![
        HCI_COMMAND_PKT,
        (opcode_of(ogf, ocf) & 0xFF) as u8,
        (opcode_of(ogf, ocf) >> 8) as u8,
        params.len() as u8,
    ] + params
}

/// Builds the packet of a controller command.
pub fn hci_command_packet(ogf: u16, ocf: u16, params: &[u8]) -> (packet: Vec<u8>)
    requires
        params@.len() <= 255,
    ensures
        packet@ == command_packet(ogf, ocf, params@),
{
    let opcode: u16 = (ogf << 10) | ocf;
    let low: u16 = opcode & 0xFF;
    let high: u16 = opcode >> 8;
    assert(low < 256 && high < 256) by (bit_vector)
        requires
            low == opcode & 0xFF && high == opcode >> 8,
    ;
    let mut packet: Vec<u8> = Vec::with_capacity(4 + params.len());
    packet.push(HCI_COMMAND_PKT);
    packet.push(low as u8);
    packet.push(high as u8);
    packet.push(params.len() as u8);
    let mut i: usize = 0;
    while i < params.len()
        invariant
            i <= params@.len(),
            packet@ == command_packet(ogf, ocf, params@).take(4 + i),
            params@.len() <= 255,
        decreases params@.len() - i,
    {
        packet.push(params[i]);
        i += 1;
    }
    assert(command_packet(ogf, ocf, params@).take(4 + params@.len() as int) == command_packet(
        ogf,
        ocf,
        params@,
    ));
    packet
}

/// Parameters of LE Set Scan Parameters.
#[derive(Debug, Clone, Copy, PartialEq, Eq)]
pub struct LeSetScanParametersCmd {
    pub scan_type: u8,
    pub interval: u16,
    pub window: u16,
    pub own_address_type: u8,
    pub filter_policy: u8,
}

/// Parameters of LE Set Scan Enable.
#[derive(Debug, Clone, Copy, PartialEq, Eq)]
pub struct LeSetScanEnableCmd {
    pub enable: u8,
    pub filter_dup: u8,
}

impl LeSetScanParametersCmd {
    /// The parameters on the wire: the fields in order, without padding,
    /// 16-bit fields low byte first.
    pub open spec fn wire(&self) -> Seq<u8> {
        seq![
            self.scan_type,
            (self.interval % 256) as u8,
            (self.interval / 256) as u8,
            (self.window % 256) as u8,
            (self.window / 256) as u8,
            self.own_address_type,
            self.filter_policy,
        ]
    }

    /// The parameters as they go on the wire.
    pub fn to_bytes(&self) -> (b: Vec<u8>)
        ensures
            b@ == self.wire(),
    {
        let mut b: Vec<u8> = Vec::with_capacity(7);
        b.push(self.scan_type);
        b.push((self.interval % 256) as u8);
        b.push((self.interval / 256) as u8);
        b.push((self.window % 256) as u8);
        b.push((self.window / 256) as u8);
        b.push(self.own_address_type);
        b.push(self.filter_policy);
        assert(b@ =~= self.wire());
        b
    }
}

impl LeSetScanEnableCmd {
    /// The parameters on the wire.
    pub open spec fn wire(&self) -> Seq<u8> {
        seq![self.enable, self.filter_dup]
    }

    /// The parameters as they go on the wire.
    pub fn to_bytes(&self) -> (b: Vec<u8>)
        ensures
            b@ == self.wire(),
    {
        let mut b: Vec<u8> = Vec::with_capacity(2);
        b.push(self.enable);
        b.push(self.filter_dup);
        assert(b@ =~= self.wire());
        b
    }
}

/// The scan parameters of this listener: passive scanning, a scan window as
/// long as the scan interval, the public address, every advertiser accepted.
pub open spec fn scan_parameters() -> LeSetScanParametersCmd {
    LeSetScanParametersCmd {
        scan_type: LE_SCAN_PASSIVE,
        interval: SCAN_INTERVAL,
        window: SCAN_WINDOW,
        own_address_type: LE_PUBLIC_ADDRESS,
        filter_policy: FILTER_POLICY_ACCEPT_ALL,
    }
}

/// Scanning switched on, with repeated advertisements of one device let
/// through.
pub open spec fn scan_enable() -> LeSetScanEnableCmd {
    LeSetScanEnableCmd { enable: 0x01, filter_dup: 0x00 }
}

/// The two command packets that start scanning, in the order in which they
/// are sent: the scan parameters, then the switch.
pub fn scan_commands() -> (commands: (Vec<u8>, Vec<u8>))
    ensures
        commands.0@ == command_packet(
            OGF_LE_CTL,
            OCF_LE_SET_SCAN_PARAMETERS,
            scan_parameters().wire(),
        ),
        commands.1@ == command_packet(OGF_LE_CTL, OCF_LE_SET_SCAN_ENABLE, scan_enable().wire()),
        commands.0@ == seq![0x01u8, 0x0B, 0x20, 7, 0x00, 0x10, 0x00, 0x10, 0x00, 0x00, 0x00],
        commands.1@ == seq![0x01u8, 0x0C, 0x20, 2, 0x01, 0x00],
{
    let params = LeSetScanParametersCmd {
        scan_type: LE_SCAN_PASSIVE,
        interval: SCAN_INTERVAL,
        window: SCAN_WINDOW,
        own_address_type: LE_PUBLIC_ADDRESS,
        filter_policy: FILTER_POLICY_ACCEPT_ALL,
    };
    let enable = LeSetScanEnableCmd { enable: 0x01, filter_dup: 0x00 };
    let p = params.to_bytes();
    let e = enable.to_bytes();
    let first = hci_command_packet(OGF_LE_CTL, OCF_LE_SET_SCAN_PARAMETERS, p.as_slice());
    let second = hci_command_packet(OGF_LE_CTL, OCF_LE_SET_SCAN_ENABLE, e.as_slice());
    proof {
        assert(((0x08u16 << 10) | 0x000Bu16) & 0xFF == 0x0B) by (bit_vector);
        assert(((0x08u16 << 10) | 0x000Bu16) >> 8 == 0x20) by (bit_vector);
        assert(((0x08u16 << 10) | 0x000Cu16) & 0xFF == 0x0C) by (bit_vector);
        assert(((0x08u16 << 10) | 0x000Cu16) >> 8 == 0x20) by (bit_vector);
        assert(first@ =~= seq![0x01u8, 0x0B, 0x20, 7, 0x00, 0x10, 0x00, 0x10, 0x00, 0x00, 0x00]);
        assert(second@ =~= seq![0x01u8, 0x0C, 0x20, 2, 0x01, 0x00]);
    }
    (first, second)
}

/// Whether the vendor identifier's two bytes stand at `i` in `buf`.
pub open spec fn vendor_id_at(buf: Seq<u8>, i: int) -> bool {
    0 <= i && i + 1 < buf.len() && buf[i] == VENDOR_ID_LOW && buf[i + 1] == VENDOR_ID_HIGH
}

/// Whether the vendor identifier's two bytes stand anywhere in `buf`.
pub open spec fn has_vendor_id(buf: Seq<u8>) -> bool {
    exists|i: int| vendor_id_at(buf, i)
}

/// A cheap test that comes before parsing: whether the vendor identifier's
/// two bytes stand anywhere in the packet.
pub fn contains_vendor_id(buf: &[u8]) -> (r: bool)
    ensures
        r == has_vendor_id(buf@),
{
    if buf.len() < 2 {
        assert(forall|i: int| !vendor_id_at(buf@, i));
        return false;
    }
    let last: usize = buf.len() - 1;
    let mut i: usize = 0;
    while i < last
        invariant
            i <= last,
            last + 1 == buf@.len(),
            forall|j: int| 0 <= j < i ==> !vendor_id_at(buf@, j),
        decreases last - i,
    {
        if buf[i] == VENDOR_ID_LOW && buf[i + 1] == VENDOR_ID_HIGH {
            assert(vendor_id_at(buf@, i as int));
            return true;
        }
        i += 1;
    }
    assert(forall|j: int| !vendor_id_at(buf@, j));
    false
}

/// The vendor payload of the first vendor-data structure with this vendor's
/// identifier among the advertising structures of `ad` from `offset` on.
///
/// A structure is `[length][type][value...]`, its length counting the type
/// and the value. A structure of length zero, or one that runs past the
/// end, ends the walk.
pub open spec fn vendor_payload(ad: Seq<u8>, offset: int) -> Option<Seq<u8>>
    decreases ad.len() - offset,
{
    if offset < 0 || offset + 2 > ad.len() {
        None
    } else {
        let len = ad[offset] as int;
        if len == 0 || offset + 1 + len > ad.len() {
            None
        } else if ad[offset + 1] == AD_TYPE_MANUFACTURER_DATA && len >= 3 && ad[offset + 2]
            == VENDOR_ID_LOW && ad[offset + 3] == VENDOR_ID_HIGH {
            Some(ad.subrange(offset + 4, offset + 1 + len))
        } else {
            vendor_payload(ad, offset + 1 + len)
        }
    }
}

/// The device address of the first report: the six bytes after the report's
/// three-byte head, which come in reverse order.
pub open spec fn report_address(data: Seq<u8>) -> Seq<u8> {
    seq![data[12], data[11], data[10], data[9], data[8], data[7]]
}

/// The advertising data of the first report of an event packet; `None` when
/// the packet is shorter than `MIN_REPORT_LENGTH`, holds no report, or ends
/// before the data does.
pub open spec fn advertising_data(data: Seq<u8>) -> Option<Seq<u8>> {
    if data.len() < MIN_REPORT_LENGTH || data[4] == 0 || data.len() < AD_DATA_START || data.len()
        < AD_DATA_START + data[13] {
        None
    } else {
        Some(data.subrange(AD_DATA_START as int, AD_DATA_START + data[13]))
    }
}

/// The sender's address and the vendor payload of an event packet. Only the
/// first report is read.
pub open spec fn advertisement(data: Seq<u8>) -> Option<(Seq<u8>, Seq<u8>)> {
    match advertising_data(data) {
        Some(ad) => match vendor_payload(ad, 0) {
            Some(payload) => Some((report_address(data), payload)),
            None => None,
        },
        None => None,
    }
}

/// The sender's address and the vendor payload of an event packet, if it
/// holds a report with this vendor's data.
pub fn find_advertisement(data: &[u8]) -> (r: Option<(MacAddress, &[u8])>)
    ensures
        match r {
            Some((mac, payload)) => advertisement(data@) == Some((mac@, payload@)),
            None => advertisement(data@) is None,
        },
{
    if data.len() < MIN_REPORT_LENGTH || data[4] == 0 {
        return None;
    }
    if data.len() < AD_DATA_START {
        return None;
    }
    let data_len: usize = data[13] as usize;
    if data.len() < AD_DATA_START + data_len {
        return None;
    }
    let mac = MacAddress([data[12], data[11], data[10], data[9], data[8], data[7]]);
    assert(mac@ =~= report_address(data@));
    let ad = &data[AD_DATA_START..AD_DATA_START + data_len];
    assert(ad@ == advertising_data(data@)->0);
    let mut offset: usize = 0;
    while offset + 2 <= ad.len()
        invariant
            ad@.len() <= 255,
            offset <= ad@.len(),
            advertising_data(data@) == Some(ad@),
            mac@ == report_address(data@),
            vendor_payload(ad@, 0) == vendor_payload(ad@, offset as int),
        decreases ad@.len() - offset,
    {
        let len: usize = ad[offset] as usize;
        if len == 0 || offset + 1 + len > ad.len() {
            return None;
        }
        if ad[offset + 1] == AD_TYPE_MANUFACTURER_DATA && len >= 3 && ad[offset + 2]
            == VENDOR_ID_LOW && ad[offset + 3] == VENDOR_ID_HIGH {
            let payload = &ad[offset + 4..offset + 1 + len];
            return Some((mac, payload));
        }
        offset += 1 + len;
    }
    None
}

/// The message of the error for an event packet too short to hold a report.
pub open spec fn too_short_text() -> Seq<char> {
    "Advertising report too short"@
}

/// Whether `r` is the error for an event packet too short to hold a report.
pub open spec fn is_too_short(r: Option<Result<Measurement, DecodeError>>) -> bool {
    match r {
        Some(Err(e)) => e@ == DecodeErrorView::InvalidData(too_short_text()),
        _ => false,
    }
}

/// Whether `res` is what decoding `payload` gives for the device whose
/// address bytes are `address`.
pub open spec fn is_decoding_for(
    res: Result<Measurement, DecodeError>,
    address: Seq<u8>,
    payload: Seq<u8>,
) -> bool {
    exists|mac: MacAddress| mac@ == address && #[trigger] is_decoding(res, mac, payload)
}

/// Parses an LE advertising report and decodes the vendor payload in it.
///
/// A packet too short to hold a report gives nothing, or, when `verbose`,
/// an invalid-data error. A packet without this vendor's data gives nothing.
/// Otherwise the result is that of decoding the payload for the sender.
pub fn parse_advertising_report(data: &[u8], verbose: bool) -> (r: Option<
    Result<Measurement, DecodeError>,
>)
    ensures
        data@.len() < MIN_REPORT_LENGTH ==> if verbose {
            is_too_short(r)
        } else {
            r is None
        },
        data@.len() >= MIN_REPORT_LENGTH ==> match advertisement(data@) {
            None => r is None,
            Some((address, payload)) => r is Some && is_decoding_for(r->0, address, payload),
        },
{
    if data.len() < MIN_REPORT_LENGTH {
        return if verbose {
            Some(Err(DecodeError::InvalidData("Advertising report too short".to_owned())))
        } else {
            None
        };
    }
    match find_advertisement(data) {
        Some((mac, payload)) => {
            let res = decode_ruuvi_data(mac, payload);
            assert(is_decoding(res, mac, payload@));
            Some(res)
        },
        None => None,
    }
}

/// Any packet in which a report with this vendor's data is found passes the
/// cheap test too.
pub proof fn lemma_advertisement_has_vendor_id(data: Seq<u8>)
    requires
        advertisement(data) is Some,
    ensures
        has_vendor_id(data),
{
    let ad = advertising_data(data)->0;
    let i = lemma_payload_has_vendor_id(ad, 0);
    assert(ad[i] == data[AD_DATA_START + i]);
    assert(ad[i + 1] == data[AD_DATA_START + i + 1]);
    assert(vendor_id_at(data, AD_DATA_START + i));
}

proof fn lemma_payload_has_vendor_id(ad: Seq<u8>, offset: int) -> (i: int)
    requires
        vendor_payload(ad, offset) is Some,
    ensures
        vendor_id_at(ad, i),
    decreases ad.len() - offset,
{
    let len = ad[offset] as int;
    if ad[offset + 1] == AD_TYPE_MANUFACTURER_DATA && len >= 3 && ad[offset + 2] == VENDOR_ID_LOW
        && ad[offset + 3] == VENDOR_ID_HIGH {
        offset + 2
    } else {
        lemma_payload_has_vendor_id(ad, offset + 1 + len)
    }
}

/// What one datagram read from the socket gives to send on: a measurement,
/// or, when `verbose`, a decode error, or nothing.
///
/// Nothing comes of a datagram that is not an LE advertising report, that
/// fails the cheap vendor test, or in which no vendor payload is found.
/// A decode error is passed on only when `verbose`.
pub fn process_datagram(buf: &[u8], verbose: bool) -> (r: Option<Result<Measurement, DecodeError>>)
    ensures
        !is_advertising_report(buf@) || !has_vendor_id(buf@) ==> r is None,
        r is Some && r->0 is Err ==> verbose,
        is_advertising_report(buf@) && has_vendor_id(buf@) && buf@.len() < MIN_REPORT_LENGTH
            ==> if verbose {
            is_too_short(r)
        } else {
            r is None
        },
        is_advertising_report(buf@) && buf@.len() >= MIN_REPORT_LENGTH ==> match advertisement(
            buf@,
        ) {
            None => r is None,
            Some((address, payload)) => match r {
                Some(res) => is_decoding_for(res, address, payload),
                None => !verbose && exists|res: Result<Measurement, DecodeError>|
                    res is Err && #[trigger] is_decoding_for(res, address, payload),
            },
        },
{
    if buf.len() >= 4 && buf[0] == HCI_EVENT_PKT && buf[1] == EVT_LE_META_EVENT && buf[3]
        == EVT_LE_ADVERTISING_REPORT {
        if !contains_vendor_id(buf) {
            proof {
                if advertisement(buf@) is Some {
                    lemma_advertisement_has_vendor_id(buf@);
                }
            }
            return None;
        }
        match parse_advertising_report(buf, verbose) {
            Some(Ok(m)) => Some(Ok(m)),
            Some(Err(e)) => {
                if verbose {
                    Some(Err(e))
                } else {
                    None
                }
            },
            None => None,
        }
    } else {
        None
    }
}

/// The size of the buffer that one datagram is read into: the longest event
/// packet.
pub const EVENT_BUFFER_SIZE: usize = 258;

/// The controller that the sockets are bound to.
pub const DEVICE_INDEX: u16 = 0;

/// Where the event loop of the backend stands.
#[derive(Debug, Clone, Copy, PartialEq, Eq)]
pub enum LoopState {
    /// Waiting for the socket to become readable.
    Waiting,
    /// Reading the datagrams that are there, one after another.
    Draining,
    /// The loop has ended; the output channel is to be closed.
    Stopped,
}

/// What the socket did.
#[derive(Debug, Clone, Copy, PartialEq, Eq)]
pub enum SocketEvent {
    /// The wait ended: the socket is readable.
    Readable,
    /// The wait failed.
    WaitFailed,
    /// A read gave a datagram of this many bytes.
    Datagram(usize),
    /// A read gave nothing: no bytes, an error, or no datagram there yet.
    NothingRead,
}

/// What the event loop does next.
#[derive(Debug, Clone, Copy, PartialEq, Eq)]
pub enum LoopAction {
    /// Wait for the socket to become readable.
    Wait,
    /// Read the next datagram.
    Read,
    /// Process the datagram of this many bytes, then read the next.
    Process(usize),
    /// Close the output channel and end.
    Close,
}

/// The next state and action of the event loop.
///
/// Once the socket is readable, every datagram that is there is read before
/// the loop waits again. A failed wait ends the loop; a read that gives
/// nothing sends it back to waiting. An event that cannot happen in a state
/// leaves the state as it is.
pub open spec fn loop_transition(state: LoopState, event: SocketEvent) -> (LoopState, LoopAction) {
    match (state, event) {
        (LoopState::Stopped, _) => (LoopState::Stopped, LoopAction::Close),
        (LoopState::Waiting, SocketEvent::Readable) => (LoopState::Draining, LoopAction::Read),
        (LoopState::Waiting, SocketEvent::WaitFailed) => (LoopState::Stopped, LoopAction::Close),
        (LoopState::Waiting, _) => (LoopState::Waiting, LoopAction::Wait),
        (LoopState::Draining, SocketEvent::Datagram(n)) => if n > 0 {
            (LoopState::Draining, LoopAction::Process(n))
        } else {
            (LoopState::Waiting, LoopAction::Wait)
        },
        (LoopState::Draining, SocketEvent::NothingRead) => (LoopState::Waiting, LoopAction::Wait),
        (LoopState::Draining, _) => (LoopState::Draining, LoopAction::Read),
    }
}

/// Decides what the event loop does after `event`.
pub fn loop_step(state: LoopState, event: SocketEvent) -> (r: (LoopState, LoopAction))
    ensures
        r == loop_transition(state, event),
{
    match state {
        LoopState::Stopped => (LoopState::Stopped, LoopAction::Close),
        LoopState::Waiting => match event {
            SocketEvent::Readable => (LoopState::Draining, LoopAction::Read),
            SocketEvent::WaitFailed => (LoopState::Stopped, LoopAction::Close),
            _ => (LoopState::Waiting, LoopAction::Wait),
        },
        LoopState::Draining => match event {
            SocketEvent::Datagram(n) => {
                if n > 0 {
                    (LoopState::Draining, LoopAction::Process(n))
                } else {
                    (LoopState::Waiting, LoopAction::Wait)
                }
            },
            SocketEvent::NothingRead => (LoopState::Waiting, LoopAction::Wait),
            _ => (LoopState::Draining, LoopAction::Read),
        },
    }
}

/// Whether a datagram is an LE advertising report: an event packet with the
/// LE meta event code and the advertising report subevent.
pub open spec fn is_advertising_report(buf: Seq<u8>) -> bool {
    buf.len() >= 4 && buf[0] == HCI_EVENT_PKT && buf[1] == EVT_LE_META_EVENT && buf[3]
        == EVT_LE_ADVERTISING_REPORT
}

} // verus!
