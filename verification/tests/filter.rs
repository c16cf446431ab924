use ruuvitag_listener::scanner::filter::{
    compile, default_window, evaluate, Instruction, ScanWindow, DROP, JUMP_EQUAL, KEEP,
    LOAD_BYTE, LOAD_HALF, RETURN,
};

const VENDOR: u16 = 0x0499;

fn packet_with_vendor_at(offset: usize) -> Vec<u8> {
    let mut packet = vec![0u8; 40];
    packet[0] = 0x04;
    packet[1] = 0x3E;
    packet[2] = 37;
    packet[3] = 0x02;
    packet[offset] = 0x99;
    packet[offset + 1] = 0x04;
    packet
}

#[test]
fn filter_keeps_vendor_at_a_scanned_offset() {
    let prog = compile(default_window(), VENDOR);
    for c in 0..8 {
        let packet = packet_with_vendor_at(15 + 2 * c);
        assert_eq!(evaluate(&prog, &packet), KEEP, "offset {}", 15 + 2 * c);
    }
}

#[test]
fn filter_drops_when_the_identifier_is_altered() {
    let prog = compile(default_window(), VENDOR);
    let mut packet = packet_with_vendor_at(19);
    assert_eq!(evaluate(&prog, &packet), KEEP);
    packet[19] = 0x98;
    assert_eq!(evaluate(&prog, &packet), DROP);
    packet[19] = 0x99;
    packet[20] = 0x05;
    assert_eq!(evaluate(&prog, &packet), DROP);
    // byte order matters
    packet[19] = 0x04;
    packet[20] = 0x99;
    assert_eq!(evaluate(&prog, &packet), DROP);
}

#[test]
fn filter_drops_on_a_header_mismatch() {
    let prog = compile(default_window(), VENDOR);
    for (index, value) in [(0usize, 0x01u8), (1, 0x0E), (3, 0x01)] {
        let mut packet = packet_with_vendor_at(19);
        packet[index] = value;
        assert_eq!(evaluate(&prog, &packet), DROP, "header byte {index}");
    }
}

#[test]
fn filter_drops_vendor_outside_the_window() {
    let prog = compile(default_window(), VENDOR);
    assert_eq!(evaluate(&prog, &packet_with_vendor_at(16)), DROP);
    assert_eq!(evaluate(&prog, &packet_with_vendor_at(31)), DROP);
    assert_eq!(evaluate(&prog, &packet_with_vendor_at(5)), DROP);
}

#[test]
fn filter_drops_short_packets() {
    let prog = compile(default_window(), VENDOR);
    assert_eq!(evaluate(&prog, &[]), DROP);
    assert_eq!(evaluate(&prog, &[0x04, 0x3E, 0x01]), DROP);
    assert_eq!(evaluate(&prog, &[0x04, 0x3E, 0x01, 0x02]), DROP);
    // the identifier stands at offset 15, the packet ends after it
    let mut packet = packet_with_vendor_at(15);
    packet.truncate(17);
    assert_eq!(evaluate(&prog, &packet), KEEP);
    // a load that runs past the end drops the packet
    packet.truncate(16);
    assert_eq!(evaluate(&prog, &packet), DROP);
}

#[test]
fn compiled_program_has_relative_jumps() {
    let prog = compile(ScanWindow { first: 15, checks: 2 }, VENDOR);
    let expected = vec![
        Instruction { code: LOAD_BYTE, jt: 0, jf: 0, k: 0 },
        Instruction { code: JUMP_EQUAL, jt: 0, jf: 8, k: 0x04 },
        Instruction { code: LOAD_BYTE, jt: 0, jf: 0, k: 1 },
        Instruction { code: JUMP_EQUAL, jt: 0, jf: 6, k: 0x3E },
        Instruction { code: LOAD_BYTE, jt: 0, jf: 0, k: 3 },
        Instruction { code: JUMP_EQUAL, jt: 0, jf: 4, k: 0x02 },
        Instruction { code: LOAD_HALF, jt: 0, jf: 0, k: 15 },
        Instruction { code: JUMP_EQUAL, jt: 3, jf: 0, k: 0x9904 },
        Instruction { code: LOAD_HALF, jt: 0, jf: 0, k: 17 },
        Instruction { code: JUMP_EQUAL, jt: 1, jf: 0, k: 0x9904 },
        Instruction { code: RETURN, jt: 0, jf: 0, k: DROP },
        Instruction { code: RETURN, jt: 0, jf: 0, k: KEEP },
    ];
    assert_eq!(prog, expected);
}

#[test]
fn empty_window_keeps_nothing() {
    let prog = compile(ScanWindow { first: 15, checks: 0 }, VENDOR);
    assert_eq!(prog.len(), 8);
    assert_eq!(evaluate(&prog, &packet_with_vendor_at(15)), DROP);
}

#[test]
fn largest_window_compiles() {
    let prog = compile(ScanWindow { first: 4, checks: 125 }, VENDOR);
    assert_eq!(prog.len(), 258);
    assert_eq!(prog[1].jf, 254);
    assert_eq!(prog[7].jt, 249);
    let mut packet = vec![0u8; 300];
    packet[0] = 0x04;
    packet[1] = 0x3E;
    packet[3] = 0x02;
    packet[252] = 0x99;
    packet[253] = 0x04;
    assert_eq!(evaluate(&prog, &packet), KEEP);
}

#[test]
fn machine_drops_on_what_it_does_not_know() {
    let unknown = vec![Instruction { code: 0x07, jt: 0, jf: 0, k: 0 }];
    assert_eq!(evaluate(&unknown, &[1, 2, 3]), DROP);
    let runs_off = vec![Instruction { code: LOAD_BYTE, jt: 0, jf: 0, k: 0 }];
    assert_eq!(evaluate(&runs_off, &[1, 2, 3]), DROP);
    let jumps_off = vec![
        Instruction { code: JUMP_EQUAL, jt: 5, jf: 5, k: 0 },
        Instruction { code: RETURN, jt: 0, jf: 0, k: KEEP },
    ];
    assert_eq!(evaluate(&jumps_off, &[1, 2, 3]), DROP);
    let returns = vec![Instruction { code: RETURN, jt: 0, jf: 0, k: 7 }];
    assert_eq!(evaluate(&returns, &[]), 7);
}
