use guvnuh::adc::{
    be24_to_i32, chip_words, configure_writes, crossing_offset, osr_bits_for_rate, read_frame, rreg_cmd, wreg_cmd,
    write_reg_bytes, Accumulator, AlignPhase, Chip, CrossTracker, RawFrame, RegWrite, ADC_SAMPLE_RATE, REG_CLOCK,
    REG_GAIN1, REG_ID,
};

#[test]
fn command_words() {
    assert_eq!(wreg_cmd(REG_CLOCK, 1), 0x6180);
    assert_eq!(wreg_cmd(REG_GAIN1, 1), 0x6200);
    assert_eq!(rreg_cmd(REG_ID, 1), 0xA000);
    assert_eq!(rreg_cmd(1, 3), 0xA082);
    // fields overlap for high addresses: the words are bitwise ORs
    assert_eq!(wreg_cmd(0xFF, 1), 0x6000 | (0xFF << 7));
}

#[test]
fn oversampling_bits() {
    assert_eq!(osr_bits_for_rate(9000), 0b010);
    assert_eq!(osr_bits_for_rate(8000), 0b010);
    assert_eq!(osr_bits_for_rate(7999), 0b011);
    assert_eq!(osr_bits_for_rate(ADC_SAMPLE_RATE), 0b011);
    assert_eq!(osr_bits_for_rate(3999), 0b100);
    assert_eq!(osr_bits_for_rate(0), 0b100);
}

#[test]
fn be24_sign_extension() {
    assert_eq!(be24_to_i32(&[0x7F, 0xFF, 0xFF]), 8_388_607);
    assert_eq!(be24_to_i32(&[0x80, 0x00, 0x00]), -8_388_608);
    assert_eq!(be24_to_i32(&[0xFF, 0xFF, 0xFF]), -1);
    assert_eq!(be24_to_i32(&[0x00, 0x00, 0x01]), 1);
    assert_eq!(be24_to_i32(&[0x12, 0x34, 0x56, 0x99]), 0x123456);
}

#[test]
fn chip_frame_words() {
    let mut frame = [0u8; 18];
    frame[3..6].copy_from_slice(&[0x00, 0x00, 0x05]);
    frame[6..9].copy_from_slice(&[0xFF, 0xFF, 0xFE]);
    frame[9..12].copy_from_slice(&[0x40, 0x00, 0x00]);
    frame[12..15].copy_from_slice(&[0x80, 0x00, 0x01]);
    frame[15] = 0xAA; // CRC is not a channel
    assert_eq!(chip_words(&frame), [5, -2, 0x400000, -8_388_607]);
}

#[test]
fn frame_channel_mapping() {
    let f = read_frame([1, 2, 3, 4], [5, 6, 7, 8]);
    assert_eq!(f, RawFrame { v_ref: 1, v_a: 2, v_b: 3, v_c: 4, v_dc: 5, i_dc: 6 });
}

#[test]
fn register_write_bytes() {
    assert_eq!(write_reg_bytes(REG_CLOCK, 0x1234), [0x61, 0x80, 0x00, 0x12, 0x34, 0x00]);
    assert_eq!(write_reg_bytes(REG_GAIN1, 0x0000), [0x62, 0x00, 0x00, 0x00, 0x00, 0x00]);
}

#[test]
fn configuration_sequence() {
    let w = configure_writes(ADC_SAMPLE_RATE);
    assert_eq!(
        w,
        vec![
            RegWrite { chip: Chip::One, addr: REG_CLOCK, value: 0x000E },
            RegWrite { chip: Chip::One, addr: REG_GAIN1, value: 0 },
            RegWrite { chip: Chip::Two, addr: REG_CLOCK, value: 0x000E },
            RegWrite { chip: Chip::Two, addr: REG_GAIN1, value: 0 },
        ]
    );
    assert_eq!(configure_writes(2000)[0].value, 0x001E);
}

#[test]
fn align_phase_selection() {
    assert_eq!(AlignPhase::default(), AlignPhase::A);
    assert_eq!(AlignPhase::A.pick(1, 2, 3), 1);
    assert_eq!(AlignPhase::B.pick(1, 2, 3), 2);
    assert_eq!(AlignPhase::C.pick(1, 2, 3), 3);
}

#[test]
fn rising_crossings_only() {
    let mut t = CrossTracker::new();
    t.add(5, 0); // first sample: no previous negative
    assert!(!t.have_cross);
    t.add(-3, 1);
    assert!(!t.have_cross); // falling
    t.add(0, 2); // zero counts as non-negative: rising crossing
    assert!(t.have_cross);
    assert_eq!(t.last_cross_idx, 2);
    assert_eq!(t.crossings, 1);
    t.add(-1, 3);
    t.add(7, 4);
    assert_eq!(t.last_cross_idx, 4);
    assert_eq!(t.crossings, 2);
    t.reset_window();
    assert!(!t.have_cross);
    assert_eq!(t.crossings, 0);
    assert_eq!(t.last_sign, 1); // continuity across windows
}

#[test]
fn accumulator_indexes_samples() {
    let mut acc = Accumulator::new();
    let neg = RawFrame { v_ref: -10, v_a: -10, v_b: 5, v_c: -10, v_dc: 0, i_dc: 0 };
    let pos = RawFrame { v_ref: 10, v_a: -10, v_b: 5, v_c: -10, v_dc: 0, i_dc: 0 };
    let pos_a = RawFrame { v_ref: 10, v_a: 10, v_b: 5, v_c: -10, v_dc: 0, i_dc: 0 };
    acc.add(&neg);
    acc.add(&pos); // reference rises at sample 1
    acc.add(&pos);
    acc.add(&pos_a); // phase A rises at sample 3
    assert_eq!(acc.n, 4);
    assert_eq!(crossing_offset(&acc.x_a, &acc.x_ref), Some(2));
    assert_eq!(crossing_offset(&acc.x_ref, &acc.x_a), Some(-2));
    assert_eq!(crossing_offset(&acc.x_b, &acc.x_ref), None);
    acc.reset();
    assert_eq!(acc.n, 0);
    assert_eq!(crossing_offset(&acc.x_a, &acc.x_ref), None);
}
