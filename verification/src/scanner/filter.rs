//! The kernel packet filter of the scanning socket: a short program for the
//! kernel's filter machine that keeps LE advertising reports which hold the
//! vendor identifier at one of the offsets of a scan window, and drops the
//! rest. It saves wake-ups; parsing still decides what a packet is.

use crate::scanner::hci::{
    has_vendor_id, is_advertising_report, vendor_id_at, EVT_LE_ADVERTISING_REPORT,
    EVT_LE_META_EVENT, HCI_EVENT_PKT,
};
use crate::scanner::RUUVI_MANUFACTURER_ID;
use vstd::prelude::*;

verus! {

/// One instruction of the filter machine: an operation, the jump counts for
/// a test that holds and one that fails, and an operand.
#[derive(Debug, Clone, Copy, PartialEq, Eq)]
pub struct Instruction {
    pub code: u16,
    pub jt: u8,
    pub jf: u8,
    pub k: u32,
}

/// Load the byte at the absolute offset `k` into the accumulator.
pub const LOAD_BYTE: u16 = 0x30;

/// Load the two bytes at the absolute offset `k`, most significant first.
pub const LOAD_HALF: u16 = 0x28;

/// Skip `jt` instructions if the accumulator equals `k`, else `jf`.
pub const JUMP_EQUAL: u16 = 0x15;

/// End with the result `k`.
pub const RETURN: u16 = 0x06;

/// Result: discard the packet.
pub const DROP: u32 = 0;

/// Result: keep the whole packet.
pub const KEEP: u32 = 0xFFFF_FFFF;

/// Offset of the packet type in an event packet.
pub const PACKET_TYPE_OFFSET: u32 = 0;

/// Offset of the event code in an event packet.
pub const EVENT_CODE_OFFSET: u32 = 1;

/// Offset of the subevent code in an event packet.
pub const SUBEVENT_OFFSET: u32 = 3;

/// The most window checks whose jumps fit in the 8-bit jump counts.
pub const MAX_CHECKS: u8 = 125;

/// Number of instructions that check the three header bytes.
pub const HEADER_LENGTH: usize = 6;

/// The offsets at which the vendor identifier is looked for: `checks`
/// offsets, two bytes apart, from `first` on.
///
/// Where the identifier stands depends on the advertising structures that a
/// device sends before its vendor data, so the window is a setting, to be
/// held against real advertisements.
#[derive(Debug, Clone, Copy, PartialEq, Eq)]
pub struct ScanWindow {
    pub first: u32,
    pub checks: u8,
}

/// First offset of the window used unless another is asked for: after the
/// report's head and the first structure's length byte.
pub const DEFAULT_WINDOW_FIRST: u32 = 15;

/// Number of checks of the window used unless another is asked for. With
/// the first offset it covers the layouts in which flags, or flags and a
/// short structure, come before the vendor data.
pub const DEFAULT_WINDOW_CHECKS: u8 = 8;

/// The window used unless another is asked for.
pub fn default_window() -> (w: ScanWindow)
    ensures
        w.first == DEFAULT_WINDOW_FIRST,
        w.checks == DEFAULT_WINDOW_CHECKS,
        w.valid(),
{
    ScanWindow { first: DEFAULT_WINDOW_FIRST, checks: DEFAULT_WINDOW_CHECKS }
}

impl ScanWindow {
    /// A window whose jumps and offsets fit the instruction's fields.
    pub open spec fn valid(&self) -> bool {
        self.checks <= MAX_CHECKS && self.first + 2 * self.checks <= u32::MAX
    }

    /// The offset of the check number `c`.
    pub open spec fn offset(&self, c: int) -> int {
        self.first + 2 * c
    }
}

/// The operand that a two-byte load yields for the vendor identifier, whose
/// low byte comes first on the wire.
pub open spec fn wire_value(vendor_id: u16) -> u32 {
    ((vendor_id % 256) * 256 + vendor_id / 256) as u32
}

/// Index of the instruction that drops the packet.
pub open spec fn reject_index(w: ScanWindow) -> int {
    HEADER_LENGTH + 2 * w.checks
}

/// Index of the instruction that keeps the packet.
pub open spec fn accept_index(w: ScanWindow) -> int {
    reject_index(w) + 1
}

/// A load of the byte at `offset`.
pub open spec fn load_byte(offset: u32) -> Instruction {
    Instruction { code: LOAD_BYTE, jt: 0, jf: 0, k: offset }
}

/// A load of the two bytes at `offset`.
pub open spec fn load_half(offset: u32) -> Instruction {
    Instruction { code: LOAD_HALF, jt: 0, jf: 0, k: offset }
}

/// A header test at `index`: go on if the accumulator is `value`, else jump
/// to the instruction at `target`.
pub open spec fn jump_unless(value: u32, index: int, target: int) -> Instruction {
    Instruction { code: JUMP_EQUAL, jt: 0, jf: (target - index - 1) as u8, k: value }
}

/// A window test at `index`: jump to the instruction at `target` if the
/// accumulator is `value`, else go on.
pub open spec fn jump_if(value: u32, index: int, target: int) -> Instruction {
    Instruction { code: JUMP_EQUAL, jt: (target - index - 1) as u8, jf: 0, k: value }
}

/// An end with the result `result`.
pub open spec fn ret(result: u32) -> Instruction {
    Instruction { code: RETURN, jt: 0, jf: 0, k: result }
}

/// The instruction at `i` of the program for the window `w` and the vendor
/// `vendor_id`.
///
/// Three header tests, each a load and a jump to the reject instruction on
/// a mismatch; for each offset of the window a two-byte load and a jump to
/// the accept instruction on a match; the reject instruction; the accept
/// instruction. A jump count is the target's index less the jump's own
/// index less one.
pub open spec fn instruction_at(w: ScanWindow, vendor_id: u16, i: int) -> Instruction {
    let reject = reject_index(w);
    let accept = accept_index(w);
    if i == 0 {
        load_byte(PACKET_TYPE_OFFSET)
    } else if i == 1 {
        jump_unless(HCI_EVENT_PKT as u32, 1, reject)
    } else if i == 2 {
        load_byte(EVENT_CODE_OFFSET)
    } else if i == 3 {
        jump_unless(EVT_LE_META_EVENT as u32, 3, reject)
    } else if i == 4 {
        load_byte(SUBEVENT_OFFSET)
    } else if i == 5 {
        jump_unless(EVT_LE_ADVERTISING_REPORT as u32, 5, reject)
    } else if i < reject {
        if (i - HEADER_LENGTH) % 2 == 0 {
            load_half(w.offset((i - HEADER_LENGTH) / 2) as u32)
        } else {
            jump_if(wire_value(vendor_id), i, accept)
        }
    } else if i == reject {
        ret(DROP)
    } else {
        ret(KEEP)
    }
}

/// The filter program for the window `w` and the vendor `vendor_id`.
pub open spec fn program(w: ScanWindow, vendor_id: u16) -> Seq<Instruction> {
    Seq::new((accept_index(w) + 1) as nat, |i: int| instruction_at(w, vendor_id, i))
}

/// The result of the filter machine when it runs `prog` on `packet` from
/// the instruction `pc` on with `acc` in the accumulator.
///
/// A load beyond the packet's end, an operation that this filter does not
/// use, or running off the program's end drops the packet.
pub open spec fn run(prog: Seq<Instruction>, packet: Seq<u8>, pc: int, acc: u32) -> u32
    decreases prog.len() - pc,
{
    if pc < 0 || pc >= prog.len() {
        DROP
    } else {
        let ins = prog[pc];
        if ins.code == LOAD_BYTE {
            if ins.k < packet.len() {
                run(prog, packet, pc + 1, packet[ins.k as int] as u32)
            } else {
                DROP
            }
        } else if ins.code == LOAD_HALF {
            if ins.k + 1 < packet.len() {
                run(
                    prog,
                    packet,
                    pc + 1,
                    (packet[ins.k as int] * 256 + packet[ins.k + 1]) as u32,
                )
            } else {
                DROP
            }
        } else if ins.code == JUMP_EQUAL {
            let next = pc + 1 + (if acc == ins.k {
                ins.jt as int
            } else {
                ins.jf as int
            });
            if next < prog.len() {
                run(prog, packet, next, acc)
            } else {
                DROP
            }
        } else if ins.code == RETURN {
            ins.k
        } else {
            DROP
        }
    }
}

/// The result of the filter machine on a packet.
pub open spec fn classify(prog: Seq<Instruction>, packet: Seq<u8>) -> u32 {
    run(prog, packet, 0, 0)
}

/// Whether a packet has the header of an LE advertising report.
pub open spec fn header_matches(packet: Seq<u8>) -> bool {
    packet.len() > 3 && packet[0] == HCI_EVENT_PKT && packet[1] == EVT_LE_META_EVENT && packet[3]
        == EVT_LE_ADVERTISING_REPORT
}

/// Whether the vendor identifier's two bytes, low byte first, stand at
/// `offset`.
pub open spec fn vendor_at(packet: Seq<u8>, vendor_id: u16, offset: int) -> bool {
    &&& 0 <= offset
    &&& offset + 1 < packet.len()
    &&& packet[offset] == vendor_id % 256
    &&& packet[offset + 1] == vendor_id / 256
}

/// Whether the vendor identifier's two bytes, low byte first, stand at the
/// offset of the check number `c`.
pub open spec fn vendor_at_check(packet: Seq<u8>, w: ScanWindow, vendor_id: u16, c: int) -> bool {
    &&& w.offset(c) + 1 < packet.len()
    &&& packet[w.offset(c)] == vendor_id % 256
    &&& packet[w.offset(c) + 1] == vendor_id / 256
}

/// Whether the vendor identifier stands at one of the window's offsets from
/// the check number `from` on.
pub open spec fn vendor_in_window(packet: Seq<u8>, w: ScanWindow, vendor_id: u16, from: int) -> bool {
    exists|c: int| from <= c < w.checks && vendor_at_check(packet, w, vendor_id, c)
}

/// The result that the filter is meant to give: keep a packet with the
/// header of an LE advertising report and the vendor identifier at an offset
/// of the window, drop any other.
pub open spec fn decision(packet: Seq<u8>, w: ScanWindow, vendor_id: u16) -> u32 {
    if header_matches(packet) && vendor_in_window(packet, w, vendor_id, 0) {
        KEEP
    } else {
        DROP
    }
}

/// Runs a filter program on a packet as the kernel's filter machine does.
pub fn evaluate(prog: &[Instruction], packet: &[u8]) -> (v: u32)
    ensures
        v == classify(prog@, packet@),
{
    let mut pc: usize = 0;
    let mut acc: u32 = 0;
    while pc < prog.len()
        invariant
            classify(prog@, packet@) == run(prog@, packet@, pc as int, acc),
        decreases prog@.len() - pc,
    {
        let ins = prog[pc];
        if ins.code == LOAD_BYTE {
            if (ins.k as u64) < packet.len() as u64 {
                acc = packet[ins.k as usize] as u32;
                pc += 1;
            } else {
                return DROP;
            }
        } else if ins.code == LOAD_HALF {
            if (ins.k as u64) + 1 < packet.len() as u64 {
                let at: usize = ins.k as usize;
                acc = packet[at] as u32 * 256 + packet[at + 1] as u32;
                pc += 1;
            } else {
                return DROP;
            }
        } else if ins.code == JUMP_EQUAL {
            let skip: usize = if acc == ins.k {
                ins.jt as usize
            } else {
                ins.jf as usize
            };
            if skip >= prog.len() - pc - 1 {
                return DROP;
            }
            pc = pc + 1 + skip;
        } else if ins.code == RETURN {
            return ins.k;
        } else {
            return DROP;
        }
    }
    DROP
}

/// Compiles the filter program for the window `w` and the vendor
/// `vendor_id`, in two passes: the instructions are first written with
/// jump counts of zero, then every header test is pointed at the reject
/// instruction and every window test at the accept instruction.
pub fn compile(w: ScanWindow, vendor_id: u16) -> (prog: Vec<Instruction>)
    requires
        w.valid(),
    ensures
        prog@ == program(w, vendor_id),
{
    let value: u32 = (vendor_id % 256) as u32 * 256 + (vendor_id / 256) as u32;
    let mut prog: Vec<Instruction> = Vec::new();
    prog.push(Instruction { code: LOAD_BYTE, jt: 0, jf: 0, k: PACKET_TYPE_OFFSET });
    prog.push(Instruction { code: JUMP_EQUAL, jt: 0, jf: 0, k: HCI_EVENT_PKT as u32 });
    prog.push(Instruction { code: LOAD_BYTE, jt: 0, jf: 0, k: EVENT_CODE_OFFSET });
    prog.push(Instruction { code: JUMP_EQUAL, jt: 0, jf: 0, k: EVT_LE_META_EVENT as u32 });
    prog.push(Instruction { code: LOAD_BYTE, jt: 0, jf: 0, k: SUBEVENT_OFFSET });
    prog.push(Instruction { code: JUMP_EQUAL, jt: 0, jf: 0, k: EVT_LE_ADVERTISING_REPORT as u32 });
    let mut c: u8 = 0;
    while c < w.checks
        invariant
            w.valid(),
            c <= w.checks,
            value == wire_value(vendor_id),
            prog@.len() == HEADER_LENGTH + 2 * c,
            forall|i: int|
                0 <= i < prog@.len() ==> (#[trigger] prog@[i]).code == instruction_at(
                    w,
                    vendor_id,
                    i,
                ).code && prog@[i].k == instruction_at(w, vendor_id, i).k && prog@[i].jt == 0
                    && prog@[i].jf == 0,
        decreases w.checks - c,
    {
        let offset: u32 = w.first + 2 * (c as u32);
        prog.push(Instruction { code: LOAD_HALF, jt: 0, jf: 0, k: offset });
        prog.push(Instruction { code: JUMP_EQUAL, jt: 0, jf: 0, k: value });
        c += 1;
    }
    prog.push(Instruction { code: RETURN, jt: 0, jf: 0, k: DROP });
    prog.push(Instruction { code: RETURN, jt: 0, jf: 0, k: KEEP });
    let reject: usize = HEADER_LENGTH + 2 * (w.checks as usize);
    let accept: usize = reject + 1;
    let mut i: usize = 1;
    while i < reject
        invariant
            w.valid(),
            1 <= i <= reject + 1,
            i % 2 == 1,
            reject == reject_index(w),
            accept == accept_index(w),
            prog@.len() == accept + 1,
            forall|j: int| 0 <= j < i ==> #[trigger] prog@[j] == instruction_at(w, vendor_id, j),
            forall|j: int|
                i <= j < prog@.len() ==> (#[trigger] prog@[j]).code == instruction_at(
                    w,
                    vendor_id,
                    j,
                ).code && prog@[j].k == instruction_at(w, vendor_id, j).k && prog@[j].jt == 0
                    && prog@[j].jf == 0,
        decreases reject + 1 - i,
    {
        let old_ins = prog[i];
        if i < HEADER_LENGTH {
            prog.set(
                i,
                Instruction { code: old_ins.code, jt: 0, jf: (reject - i - 1) as u8, k: old_ins.k },
            );
        } else {
            prog.set(
                i,
                Instruction { code: old_ins.code, jt: (accept - i - 1) as u8, jf: 0, k: old_ins.k },
            );
        }
        i += 2;
    }
    assert(prog@ =~= program(w, vendor_id));
    prog
}

proof fn lemma_window(packet: Seq<u8>, w: ScanWindow, vendor_id: u16, c: int, acc: u32)
    requires
        w.valid(),
        0 <= c <= w.checks,
    ensures
        run(program(w, vendor_id), packet, HEADER_LENGTH + 2 * c, acc) == if vendor_in_window(
            packet,
            w,
            vendor_id,
            c,
        ) {
            KEEP
        } else {
            DROP
        },
    decreases w.checks - c,
{
    let prog = program(w, vendor_id);
    let pc = HEADER_LENGTH + 2 * c;
    if c == w.checks {
        assert(prog[pc] == ret(DROP));
        assert(!vendor_in_window(packet, w, vendor_id, c));
    } else {
        let off = w.offset(c);
        assert(prog[pc] == load_half(off as u32));
        assert(prog[pc + 1] == jump_if(wire_value(vendor_id), pc + 1, accept_index(w)));
        assert(prog[accept_index(w)] == ret(KEEP));
        if off + 1 < packet.len() {
            let loaded = (packet[off] * 256 + packet[off + 1]) as u32;
            assert(run(prog, packet, pc, acc) == run(prog, packet, pc + 1, loaded));
            if loaded == wire_value(vendor_id) {
                assert(packet[off] == vendor_id % 256 && packet[off + 1] == vendor_id / 256);
                assert(vendor_at_check(packet, w, vendor_id, c));
                assert(run(prog, packet, pc + 1, loaded) == run(
                    prog,
                    packet,
                    accept_index(w),
                    loaded,
                ));
            } else {
                lemma_window(packet, w, vendor_id, c + 1, loaded);
                assert(run(prog, packet, pc + 1, loaded) == run(prog, packet, pc + 2, loaded));
                assert(!vendor_at_check(packet, w, vendor_id, c));
                assert(vendor_in_window(packet, w, vendor_id, c) == vendor_in_window(
                    packet,
                    w,
                    vendor_id,
                    c + 1,
                )) by {
                    if vendor_in_window(packet, w, vendor_id, c) {
                        let d = choose|d: int|
                            c <= d < w.checks && vendor_at_check(packet, w, vendor_id, d);
                        assert(c + 1 <= d);
                    }
                }
            }
        } else {
            assert(run(prog, packet, pc, acc) == DROP);
            assert(!vendor_in_window(packet, w, vendor_id, c)) by {
                if vendor_in_window(packet, w, vendor_id, c) {
                    let d = choose|d: int|
                        c <= d < w.checks && vendor_at_check(packet, w, vendor_id, d);
                    assert(w.offset(d) >= off);
                }
            }
        }
    }
}

/// The compiled filter keeps exactly the packets that have the header of an
/// LE advertising report and hold the vendor identifier at an offset of the
/// window; it drops every other packet.
pub proof fn lemma_filter_decision(packet: Seq<u8>, w: ScanWindow, vendor_id: u16)
    requires
        w.valid(),
    ensures
        classify(program(w, vendor_id), packet) == decision(packet, w, vendor_id),
{
    let prog = program(w, vendor_id);
    let reject = reject_index(w);
    assert(prog[0] == load_byte(PACKET_TYPE_OFFSET));
    assert(prog[1] == jump_unless(HCI_EVENT_PKT as u32, 1, reject));
    assert(prog[2] == load_byte(EVENT_CODE_OFFSET));
    assert(prog[3] == jump_unless(EVT_LE_META_EVENT as u32, 3, reject));
    assert(prog[4] == load_byte(SUBEVENT_OFFSET));
    assert(prog[5] == jump_unless(EVT_LE_ADVERTISING_REPORT as u32, 5, reject));
    assert(prog[reject] == ret(DROP));
    reveal_with_fuel(run, 8);
    if packet.len() > 0 {
        let a0 = packet[0] as u32;
        if packet[0] == HCI_EVENT_PKT {
            if packet.len() > 1 {
                let a1 = packet[1] as u32;
                if packet[1] == EVT_LE_META_EVENT {
                    if packet.len() > 3 {
                        let a3 = packet[3] as u32;
                        if packet[3] == EVT_LE_ADVERTISING_REPORT {
                            lemma_window(packet, w, vendor_id, 0, a3);
                            assert(classify(prog, packet) == run(prog, packet, 6, a3));
                        } else {
                            assert(classify(prog, packet) == run(prog, packet, reject, a3));
                        }
                    }
                } else {
                    assert(classify(prog, packet) == run(prog, packet, reject, a1));
                }
            }
        } else {
            assert(classify(prog, packet) == run(prog, packet, reject, a0));
        }
    }
}

/// Whatever the filter for this vendor keeps is an LE advertising report
/// that passes the parser's cheap vendor test too: the filter drops nothing
/// that the parser would not also have dropped at once.
pub proof fn lemma_kept_packet_is_vendor_report(packet: Seq<u8>, w: ScanWindow)
    requires
        w.valid(),
        classify(program(w, RUUVI_MANUFACTURER_ID), packet) == KEEP,
    ensures
        is_advertising_report(packet),
        has_vendor_id(packet),
{
    lemma_filter_decision(packet, w, RUUVI_MANUFACTURER_ID);
    let c = choose|c: int|
        0 <= c < w.checks && vendor_at_check(packet, w, RUUVI_MANUFACTURER_ID, c);
    assert(vendor_id_at(packet, w.offset(c)));
}

/// The default window reaches the common layouts: an advertising report
/// whose vendor data comes right after a three-byte structure (the flags),
/// or after that and a four-byte structure, is kept. The advertising data
/// begins at offset 14 and the identifier stands two bytes into its
/// structure, so these are the offsets 19 and 23.
pub proof fn lemma_default_window_keeps_common_layouts(packet: Seq<u8>, vendor_id: u16)
    requires
        header_matches(packet),
        vendor_at(packet, vendor_id, 19) || vendor_at(packet, vendor_id, 23),
    ensures
        classify(
            program(
                ScanWindow { first: DEFAULT_WINDOW_FIRST, checks: DEFAULT_WINDOW_CHECKS },
                vendor_id,
            ),
            packet,
        ) == KEEP,
{
    let w = ScanWindow { first: DEFAULT_WINDOW_FIRST, checks: DEFAULT_WINDOW_CHECKS };
    lemma_filter_decision(packet, w, vendor_id);
    if vendor_at(packet, vendor_id, 19) {
        assert(vendor_at_check(packet, w, vendor_id, 2));
    } else {
        assert(vendor_at_check(packet, w, vendor_id, 4));
    }
}

} // verus!
