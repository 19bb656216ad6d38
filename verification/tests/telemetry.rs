use treadmill::telemetry::{
    decode_treadmill_data, DecodeError, FieldGroup, TreadmillData, TreadmillDataFlags, HEADER_LEN,
};

fn bare(speed: u16) -> TreadmillData {
    TreadmillData {
        speed,
        average_speed: None,
        total_distance: None,
        inclination: None,
        ramp_angle: None,
        positive_elevation: None,
        negative_elevation: None,
        instantaneous_pace: None,
        average_pace: None,
        total_energy: None,
        energy_per_hour: None,
        energy_per_minute: None,
        heart_rate: None,
        metabolic_equivalent: None,
        elapsed_time: None,
        remaining_time: None,
        force_on_belt: None,
        power_output: None,
    }
}

/// A frame with every group declared: 4 header bytes and 32 bytes of groups.
fn full_frame() -> Vec<u8> {
    vec![
        0xFE, 0x1F, // every group, no more-data bit
        0x34, 0x12, // speed 0x1234
        0x78, 0x56, // average speed 0x5678
        0x01, 0x02, 0x03, // total distance 0x030201
        0xFE, 0xFF, // inclination -2
        0x00, 0x80, // ramp angle -32768
        0x0A, 0x00, // positive elevation 10
        0x14, 0x00, // negative elevation 20
        0x2C, 0x01, // instantaneous pace 300
        0x90, 0x01, // average pace 400
        0xE8, 0x03, // total energy 1000
        0xD0, 0x07, // energy per hour 2000
        0x21, // energy per minute 33
        0x96, // heart rate 150
        0x0C, // metabolic equivalent 12
        0x58, 0x02, // elapsed time 600
        0xB0, 0x04, // remaining time 1200
        0xFF, 0x7F, // force on belt 32767
        0x9C, 0xFF, // power output -100
    ]
}

#[test]
fn short_buffers_are_rejected() {
    assert_eq!(decode_treadmill_data(&[]), Err(DecodeError::NotEnoughData));
    assert_eq!(decode_treadmill_data(&[0x00]), Err(DecodeError::NotEnoughData));
    assert_eq!(decode_treadmill_data(&[0x00, 0x00]), Err(DecodeError::NotEnoughData));
    assert_eq!(decode_treadmill_data(&[0x00, 0x00, 0x10]), Err(DecodeError::NotEnoughData));
    // Flags that declare groups do not help a buffer without a header.
    assert_eq!(decode_treadmill_data(&[0xFE, 0x1F, 0x10]), Err(DecodeError::NotEnoughData));
}

#[test]
fn zero_flags_give_speed_only() {
    assert_eq!(decode_treadmill_data(&[0x00, 0x00, 0x10, 0x01]), Ok(bare(0x0110)));
    assert_eq!(decode_treadmill_data(&[0x00, 0x00, 0xFF, 0xFF]), Ok(bare(65535)));
    assert_eq!(decode_treadmill_data(&[0x00, 0x00, 0x00, 0x00]), Ok(bare(0)));
}

#[test]
fn speed_is_little_endian() {
    let frame = decode_treadmill_data(&[0x00, 0x00, 0xD2, 0x04]).unwrap();
    assert_eq!(frame.speed, 1234);
}

#[test]
fn more_data_bit_declares_no_group() {
    assert_eq!(decode_treadmill_data(&[0x01, 0x00, 0x05, 0x00]), Ok(bare(5)));
}

#[test]
fn unassigned_flag_bits_declare_no_group() {
    assert_eq!(decode_treadmill_data(&[0x00, 0xE0, 0x05, 0x00]), Ok(bare(5)));
}

#[test]
fn full_frame_decodes_every_field() {
    let data = full_frame();
    assert_eq!(data.len(), 36);
    let expected = TreadmillData {
        speed: 0x1234,
        average_speed: Some(0x5678),
        total_distance: Some(0x030201),
        inclination: Some(-2),
        ramp_angle: Some(-32768),
        positive_elevation: Some(10),
        negative_elevation: Some(20),
        instantaneous_pace: Some(300),
        average_pace: Some(400),
        total_energy: Some(1000),
        energy_per_hour: Some(2000),
        energy_per_minute: Some(33),
        heart_rate: Some(150),
        metabolic_equivalent: Some(12),
        elapsed_time: Some(600),
        remaining_time: Some(1200),
        force_on_belt: Some(32767),
        power_output: Some(-100),
    };
    assert_eq!(decode_treadmill_data(&data), Ok(expected));
}

#[test]
fn every_truncation_of_a_full_frame_is_rejected() {
    let data = full_frame();
    for len in 0..data.len() {
        assert_eq!(
            decode_treadmill_data(&data[..len]),
            Err(DecodeError::NotEnoughData),
            "length {}",
            len
        );
    }
}

#[test]
fn missing_later_group_rejects_whole_frame() {
    // Average speed is complete; total distance lacks its last byte.
    let data = [0x06, 0x00, 0x10, 0x00, 0x20, 0x00, 0x01, 0x02];
    assert_eq!(decode_treadmill_data(&data), Err(DecodeError::NotEnoughData));
    let complete = [0x06, 0x00, 0x10, 0x00, 0x20, 0x00, 0x01, 0x02, 0x03];
    let frame = decode_treadmill_data(&complete).unwrap();
    assert_eq!(frame.average_speed, Some(0x20));
    assert_eq!(frame.total_distance, Some(0x030201));
}

#[test]
fn each_group_alone_needs_all_its_bytes() {
    let groups: [(u8, u8, usize); 12] = [
        (0x02, 0x00, 2),
        (0x04, 0x00, 3),
        (0x08, 0x00, 4),
        (0x10, 0x00, 4),
        (0x20, 0x00, 2),
        (0x40, 0x00, 2),
        (0x80, 0x00, 5),
        (0x00, 0x01, 1),
        (0x00, 0x02, 1),
        (0x00, 0x04, 2),
        (0x00, 0x08, 2),
        (0x00, 0x10, 4),
    ];
    for (first, second, width) in groups {
        let mut data = vec![first, second, 0x01, 0x00];
        for _ in 0..width {
            assert_eq!(decode_treadmill_data(&data), Err(DecodeError::NotEnoughData));
            data.push(0x07);
        }
        assert!(decode_treadmill_data(&data).is_ok(), "flags {:02x} {:02x}", first, second);
    }
}

#[test]
fn groups_are_packed_behind_each_other() {
    // Heart rate and elapsed time only: heart rate at 4, elapsed time at 5.
    let data = [0x00, 0x05, 0x64, 0x00, 0x8C, 0x3C, 0x00];
    let mut expected = bare(100);
    expected.heart_rate = Some(140);
    expected.elapsed_time = Some(60);
    assert_eq!(decode_treadmill_data(&data), Ok(expected));
}

#[test]
fn group_order_is_fixed_by_the_wire() {
    // Force and power, declared by the highest bit, still come last.
    let data = [0x02, 0x10, 0x01, 0x00, 0x02, 0x00, 0x03, 0x00, 0x04, 0x00];
    let mut expected = bare(1);
    expected.average_speed = Some(2);
    expected.force_on_belt = Some(3);
    expected.power_output = Some(4);
    assert_eq!(decode_treadmill_data(&data), Ok(expected));
}

#[test]
fn total_distance_is_24_bits_wide() {
    let data = [0x04, 0x00, 0x00, 0x00, 0xFF, 0xFF, 0xFF];
    let frame = decode_treadmill_data(&data).unwrap();
    assert_eq!(frame.total_distance, Some(0x00FF_FFFF));
    let data = [0x04, 0x00, 0x00, 0x00, 0x00, 0x00, 0x01];
    let frame = decode_treadmill_data(&data).unwrap();
    assert_eq!(frame.total_distance, Some(65536));
}

#[test]
fn signed_fields_are_twos_complement() {
    let data = [0x08, 0x00, 0x00, 0x00, 0xFF, 0xFF, 0x01, 0x00];
    let frame = decode_treadmill_data(&data).unwrap();
    assert_eq!(frame.inclination, Some(-1));
    assert_eq!(frame.ramp_angle, Some(1));
    let data = [0x08, 0x00, 0x00, 0x00, 0xFF, 0x7F, 0x00, 0x80];
    let frame = decode_treadmill_data(&data).unwrap();
    assert_eq!(frame.inclination, Some(32767));
    assert_eq!(frame.ramp_angle, Some(-32768));
}

#[test]
fn trailing_bytes_are_ignored() {
    let mut data = full_frame();
    let expected = decode_treadmill_data(&data);
    data.extend_from_slice(&[0xAA, 0xBB, 0xCC]);
    assert_eq!(decode_treadmill_data(&data), expected);
    assert_eq!(decode_treadmill_data(&[0x00, 0x00, 0x07, 0x00, 0xFF]), Ok(bare(7)));
}

#[test]
fn decoding_is_repeatable() {
    let data = full_frame();
    assert_eq!(decode_treadmill_data(&data), decode_treadmill_data(&data));
}

#[test]
fn flags_follow_bit_positions() {
    let none = TreadmillDataFlags::from_bytes(0x00, 0x00);
    assert!(!none.more_data && !none.average_speed && !none.force_on_belt_and_power_output);
    let f = TreadmillDataFlags::from_bytes(0x01, 0x00);
    assert!(f.more_data && !f.average_speed);
    let f = TreadmillDataFlags::from_bytes(0x02, 0x00);
    assert!(f.average_speed && !f.more_data && !f.total_distance);
    let f = TreadmillDataFlags::from_bytes(0x04, 0x00);
    assert!(f.total_distance && !f.average_speed);
    let f = TreadmillDataFlags::from_bytes(0x08, 0x00);
    assert!(f.inclination_and_ramp_angle);
    let f = TreadmillDataFlags::from_bytes(0x10, 0x00);
    assert!(f.elevation_gain);
    let f = TreadmillDataFlags::from_bytes(0x20, 0x00);
    assert!(f.instantaneous_pace);
    let f = TreadmillDataFlags::from_bytes(0x40, 0x00);
    assert!(f.average_pace);
    let f = TreadmillDataFlags::from_bytes(0x80, 0x00);
    assert!(f.energy && !f.heart_rate);
    let f = TreadmillDataFlags::from_bytes(0x00, 0x01);
    assert!(f.heart_rate && !f.energy);
    let f = TreadmillDataFlags::from_bytes(0x00, 0x02);
    assert!(f.metabolic_equivalent);
    let f = TreadmillDataFlags::from_bytes(0x00, 0x04);
    assert!(f.elapsed_time);
    let f = TreadmillDataFlags::from_bytes(0x00, 0x08);
    assert!(f.remaining_time);
    let f = TreadmillDataFlags::from_bytes(0x00, 0x10);
    assert!(f.force_on_belt_and_power_output && !f.remaining_time);
}

#[test]
fn fields_are_populated_exactly_when_declared() {
    for first in [0x00u8, 0x02, 0x0A, 0x54, 0xFE, 0xFF] {
        for second in [0x00u8, 0x01, 0x0A, 0x15, 0x1F, 0xFF] {
            let mut data = vec![first, second];
            data.extend_from_slice(&[0x11; 34]);
            let flags = TreadmillDataFlags::from_bytes(first, second);
            let frame = decode_treadmill_data(&data).unwrap();
            assert_eq!(frame.average_speed.is_some(), flags.average_speed);
            assert_eq!(frame.total_distance.is_some(), flags.total_distance);
            assert_eq!(frame.inclination.is_some(), flags.inclination_and_ramp_angle);
            assert_eq!(frame.ramp_angle.is_some(), flags.inclination_and_ramp_angle);
            assert_eq!(frame.positive_elevation.is_some(), flags.elevation_gain);
            assert_eq!(frame.negative_elevation.is_some(), flags.elevation_gain);
            assert_eq!(frame.instantaneous_pace.is_some(), flags.instantaneous_pace);
            assert_eq!(frame.average_pace.is_some(), flags.average_pace);
            assert_eq!(frame.total_energy.is_some(), flags.energy);
            assert_eq!(frame.energy_per_hour.is_some(), flags.energy);
            assert_eq!(frame.energy_per_minute.is_some(), flags.energy);
            assert_eq!(frame.heart_rate.is_some(), flags.heart_rate);
            assert_eq!(frame.metabolic_equivalent.is_some(), flags.metabolic_equivalent);
            assert_eq!(frame.elapsed_time.is_some(), flags.elapsed_time);
            assert_eq!(frame.remaining_time.is_some(), flags.remaining_time);
            assert_eq!(frame.force_on_belt.is_some(), flags.force_on_belt_and_power_output);
            assert_eq!(frame.power_output.is_some(), flags.force_on_belt_and_power_output);
        }
    }
}

#[test]
fn layout_of_no_groups_is_the_header() {
    let layout = TreadmillDataFlags::from_bytes(0x00, 0x00).layout();
    assert_eq!(layout.average_speed, HEADER_LEN);
    assert_eq!(layout.force_on_belt_and_power_output, HEADER_LEN);
    assert_eq!(layout.end, 4);
}

#[test]
fn layout_of_every_group() {
    let layout = TreadmillDataFlags::from_bytes(0xFE, 0x1F).layout();
    assert_eq!(layout.average_speed, 4);
    assert_eq!(layout.total_distance, 6);
    assert_eq!(layout.inclination_and_ramp_angle, 9);
    assert_eq!(layout.elevation_gain, 13);
    assert_eq!(layout.instantaneous_pace, 17);
    assert_eq!(layout.average_pace, 19);
    assert_eq!(layout.energy, 21);
    assert_eq!(layout.heart_rate, 26);
    assert_eq!(layout.metabolic_equivalent, 27);
    assert_eq!(layout.elapsed_time, 28);
    assert_eq!(layout.remaining_time, 30);
    assert_eq!(layout.force_on_belt_and_power_output, 32);
    assert_eq!(layout.end, 36);
}

#[test]
fn layout_skips_undeclared_groups() {
    let flags = TreadmillDataFlags::from_bytes(0x04, 0x00);
    assert!(!flags.has(FieldGroup::AverageSpeed));
    assert!(flags.has(FieldGroup::TotalDistance));
    let layout = flags.layout();
    assert_eq!(layout.average_speed, 4);
    assert_eq!(layout.total_distance, 4);
    assert_eq!(layout.inclination_and_ramp_angle, 7);
    assert_eq!(layout.end, 7);
    assert_eq!(FieldGroup::Energy.size(), 5);
    assert_eq!(FieldGroup::HeartRate.size(), 1);
}
