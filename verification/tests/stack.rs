use coroutine_runtime::stack::{
    byte_of, frame, read_payload, read_word, round_up, write_frame, write_word, Frame, Payload,
    DEFAULT_STACK_SIZE, FRAME_SIZE, MAX_STACK_SIZE, PAYLOAD_OFFSET, STACK_ALIGN,
};

#[test]
fn layout_constants() {
    assert_eq!(STACK_ALIGN, 16);
    assert_eq!(FRAME_SIZE, 32);
    assert_eq!(PAYLOAD_OFFSET, 16);
    assert_eq!(DEFAULT_STACK_SIZE, 8 * 1024 * 1024);
    assert_eq!(MAX_STACK_SIZE, usize::MAX / 4 + 1);
    assert!(MAX_STACK_SIZE.is_power_of_two());
    assert!(MAX_STACK_SIZE <= isize::MAX as usize);
}

#[test]
fn round_up_gives_next_power_of_two() {
    assert_eq!(round_up(0), 1);
    assert_eq!(round_up(1), 1);
    assert_eq!(round_up(2), 2);
    assert_eq!(round_up(3), 4);
    assert_eq!(round_up(5), 8);
    assert_eq!(round_up(1000), 1024);
    assert_eq!(round_up(1024), 1024);
    assert_eq!(round_up(1025), 2048);
    assert_eq!(round_up(DEFAULT_STACK_SIZE), DEFAULT_STACK_SIZE);
    assert_eq!(round_up(DEFAULT_STACK_SIZE + 1), 2 * DEFAULT_STACK_SIZE);
    assert_eq!(round_up(MAX_STACK_SIZE), MAX_STACK_SIZE);
    assert_eq!(round_up(MAX_STACK_SIZE - 1), MAX_STACK_SIZE);
    assert_eq!(round_up(MAX_STACK_SIZE / 2 + 1), MAX_STACK_SIZE);
    assert_eq!(round_up((1 << 30) + 1), 1 << 31);
}

#[test]
fn round_up_matches_std_on_a_range() {
    for n in 0usize..5000 {
        assert_eq!(round_up(n), n.next_power_of_two());
    }
}

#[test]
fn frame_of_aligned_region() {
    let f = frame(0x1000, 0x100).unwrap();
    assert_eq!(f, Frame { top: 0x1100, payload_at: 0x10f0, rsp: 0x10e0 });
}

#[test]
fn frame_of_unaligned_region_rounds_top_down() {
    // The region ends at 0x1107: the top is the multiple of 16 below.
    let f = frame(0x1003, 0x104).unwrap();
    assert_eq!(f.top, 0x1100);
    assert_eq!(f.payload_at, 0x10f0);
    assert_eq!(f.rsp, 0x10e0);
    assert_eq!(f.rsp % 16, 0);
}

#[test]
fn frame_needs_thirty_two_bytes_below_the_top() {
    assert!(frame(0x1000, 31).is_none());
    assert_eq!(frame(0x1000, 32).unwrap().rsp, 0x1000);
    // base 0x1001: the top of 47 bytes is 0x1030, the frame would start at 0x1010.
    assert_eq!(frame(0x1001, 47).unwrap().rsp, 0x1010);
    // one byte less and the top falls to 0x1020: the frame would start below the base.
    assert!(frame(0x1001, 46).is_none());
    assert!(frame(0x1000, 0).is_none());
    assert!(frame(0, 16).is_none());
}

#[test]
fn frame_at_the_end_of_the_address_space() {
    assert!(frame(u64::MAX, 1).is_none());
    assert_eq!(frame(u64::MAX - 64, 64).unwrap().top, 0xffff_ffff_ffff_fff0);
    assert_eq!(frame(u64::MAX - 64, 64).unwrap().rsp, 0xffff_ffff_ffff_ffd0);
}

#[test]
fn frame_addresses_are_taken_modulo_the_address_space() {
    // The region would end 53 bytes beyond the last address: its aligned
    // top lies 59 bytes above the base.
    let f = frame(u64::MAX - 10, 64).unwrap();
    assert_eq!(f, Frame { top: 0x30, payload_at: 0x20, rsp: 0x10 });
}

#[test]
fn frame_fits_every_region_of_forty_seven_bytes() {
    for base in 0u64..64 {
        assert!(frame(base, 47).is_some());
        assert!(frame(u64::MAX - base, 47).is_some());
        let f = frame(base, 47).unwrap();
        assert_eq!(f.rsp % 16, 0);
        assert!(f.rsp >= base);
        assert!(f.top <= base + 47);
    }
    // One byte less and the alignment decides.
    assert!(frame(2, 46).is_some());
    assert!(frame(1, 46).is_none());
}

#[test]
fn bytes_are_counted_from_the_least_significant() {
    let v: u64 = 0x1122_3344_5566_7788;
    assert_eq!(byte_of(v, 0), 0x88);
    assert_eq!(byte_of(v, 1), 0x77);
    assert_eq!(byte_of(v, 6), 0x22);
    assert_eq!(byte_of(v, 7), 0x11);
}

#[test]
fn write_word_is_little_endian_and_local() {
    let mut stack = vec![0xaau8; 16];
    write_word(&mut stack, 4, 0x1122_3344_5566_7788);
    assert_eq!(
        stack,
        vec![
            0xaa, 0xaa, 0xaa, 0xaa, 0x88, 0x77, 0x66, 0x55, 0x44, 0x33, 0x22, 0x11, 0xaa, 0xaa,
            0xaa, 0xaa
        ]
    );
    assert_eq!(stack[4..12], 0x1122_3344_5566_7788u64.to_le_bytes());
}

#[test]
fn read_word_reads_back_what_was_written() {
    let mut stack = vec![0u8; 24];
    write_word(&mut stack, 0, u64::MAX);
    write_word(&mut stack, 8, 0xdead_beef_0000_0001);
    write_word(&mut stack, 16, 0);
    assert_eq!(read_word(&stack, 0), u64::MAX);
    assert_eq!(read_word(&stack, 8), 0xdead_beef_0000_0001);
    assert_eq!(read_word(&stack, 16), 0);
    // An unaligned read spans two words.
    assert_eq!(read_word(&stack, 4), 0x0000_0001_ffff_ffff);
}

#[test]
fn write_frame_places_payload_and_entry() {
    let mut stack = vec![0u8; 64];
    let payload = Payload { data: 0x0102_0304_0506_0708, vtable: 0x1112_1314_1516_1718 };
    let f = write_frame(&mut stack, 0x2000, payload, 0x4000_1234);
    assert_eq!(f, Frame { top: 0x2040, payload_at: 0x2030, rsp: 0x2020 });
    assert!(stack[..32].iter().all(|b| *b == 0));
    assert_eq!(stack[32..40], 0x4000_1234u64.to_le_bytes());
    assert!(stack[40..48].iter().all(|b| *b == 0));
    assert_eq!(stack[48..56], payload.data.to_le_bytes());
    assert_eq!(stack[56..64], payload.vtable.to_le_bytes());
}

#[test]
fn read_payload_finds_what_write_frame_wrote() {
    let mut stack = vec![0u8; 128];
    let payload = Payload { data: 0xfeed_face_cafe_f00d, vtable: 0x7fff_0000_1000 };
    let f = write_frame(&mut stack, 0x7001, payload, 0x55);
    assert_eq!(f.top, 0x7080);
    assert_eq!(read_payload(&stack, 0x7001, f.rsp), payload);
    assert_eq!(read_word(&stack, (f.rsp - 0x7001) as usize), 0x55);
}
