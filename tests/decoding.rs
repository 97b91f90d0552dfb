use midi_dump::message::{classify, decode, format_message, is_exit_command, mask_channel, MidiEvent};
use midi_dump::text::{push_decimal, push_hex};

#[test]
fn note_on_channel_zero_for_all_data_values() {
    for n in 0u8..=127 {
        for v in [0u8, 1, 64, 100, 127] {
            assert_eq!(format_message(&[0x90, n, v]), format!("0 note_on {} {}\n", n, v));
        }
    }
}

#[test]
fn channel_one_note_on() {
    assert_eq!(format_message(&[0x91, 60, 100]), "1 note_on 60 100\n");
}

#[test]
fn channel_two_note_off() {
    assert_eq!(format_message(&[0x82, 40, 0]), "2 note_off 40 0\n");
}

#[test]
fn channel_three_control_change() {
    assert_eq!(format_message(&[0xB3, 7, 127]), "3 control_change 7 127\n");
}

#[test]
fn channel_five_pitch_wheel_change() {
    assert_eq!(format_message(&[0xE5, 0, 64]), "5 pitch_wheel_change 0 64\n");
}

#[test]
fn unrecognized_shape_is_hex_dumped() {
    assert_eq!(format_message(&[0xA0, 1, 2]), "0 unknown a00102\n");
}

#[test]
fn unknown_dump_has_channel_bits_cleared() {
    assert_eq!(format_message(&[0xA5, 1, 2]), "5 unknown a00102\n");
}

#[test]
fn system_message_is_not_masked() {
    assert_eq!(format_message(&[0xF8]), "8 unknown f8\n");
    assert_eq!(format_message(&[0xF0, 0x7E, 0x0A]), "0 unknown f07e0a\n");
    assert_eq!(format_message(&[0xFF]), "15 unknown ff\n");
}

#[test]
fn known_status_with_wrong_length_is_unknown() {
    assert_eq!(format_message(&[0x90, 60]), "0 unknown 903c\n");
    assert_eq!(format_message(&[0x9C, 1, 2, 3]), "12 unknown 90010203\n");
    assert_eq!(format_message(&[0xB0]), "0 unknown b0\n");
}

#[test]
fn empty_message_prints_nothing() {
    assert_eq!(format_message(&[]), "");
    assert_eq!(decode(&[]), None);
}

#[test]
fn decoding_twice_gives_the_same_line() {
    let m = [0x93u8, 61, 90];
    let before = format_message(&[0xA0, 1, 2]);
    let first = format_message(&m);
    let second = format_message(&m);
    assert_eq!(before, "0 unknown a00102\n");
    assert_eq!(first, "3 note_on 61 90\n");
    assert_eq!(first, second);
}

#[test]
fn every_line_ends_in_its_only_newline() {
    for m in [vec![0x90u8, 1, 2], vec![0xE1, 0, 0], vec![0xF8], vec![0x0A, 0x0A, 0x0A]] {
        let line = format_message(&m);
        assert!(line.ends_with('\n'));
        assert_eq!(line.matches('\n').count(), 1);
    }
}

#[test]
fn decode_splits_channel_and_event() {
    assert_eq!(
        decode(&[0xB3, 7, 127]),
        Some((3, MidiEvent::ControlChange { control: 7, value: 127 }))
    );
    assert_eq!(decode(&[0x8F, 0, 127]), Some((15, MidiEvent::NoteOff { note: 0, velocity: 127 })));
    assert_eq!(decode(&[0xA7, 1, 2]), Some((7, MidiEvent::Unknown { bytes: vec![0xA0, 1, 2] })));
    assert_eq!(decode(&[0xF8]), Some((8, MidiEvent::Unknown { bytes: vec![0xF8] })));
}

#[test]
fn classify_takes_the_first_byte_as_given() {
    assert_eq!(classify(&[0xE0, 3, 4]), MidiEvent::PitchWheelChange { lsb: 3, msb: 4 });
    assert_eq!(classify(&[0x90, 5, 6]), MidiEvent::NoteOn { note: 5, velocity: 6 });
    assert_eq!(classify(&[0x91, 5, 6]), MidiEvent::Unknown { bytes: vec![0x91, 5, 6] });
    assert_eq!(classify(&[]), MidiEvent::Unknown { bytes: vec![] });
}

#[test]
fn masking_clears_only_a_channel_voice_status() {
    assert_eq!(mask_channel(&[0x9A, 0x1F, 0x2F]), vec![0x90, 0x1F, 0x2F]);
    assert_eq!(mask_channel(&[0xEF]), vec![0xE0]);
    assert_eq!(mask_channel(&[0xF5, 0x0F]), vec![0xF5, 0x0F]);
    assert_eq!(mask_channel(&[]), Vec::<u8>::new());
}

#[test]
fn events_describe_themselves() {
    assert_eq!(MidiEvent::NoteOn { note: 0, velocity: 0 }.describe(), "note_on 0 0");
    assert_eq!(
        MidiEvent::PitchWheelChange { lsb: 127, msb: 127 }.describe(),
        "pitch_wheel_change 127 127"
    );
    assert_eq!(MidiEvent::Unknown { bytes: vec![] }.describe(), "unknown ");
    assert_eq!(MidiEvent::Unknown { bytes: vec![0x0b, 0xc0] }.describe(), "unknown 0bc0");
}

#[test]
fn decimal_rendering() {
    for (n, text) in [(0u8, "0"), (9, "9"), (10, "10"), (99, "99"), (100, "100"), (205, "205"), (255, "255")] {
        let mut out = String::from("x");
        push_decimal(&mut out, n);
        assert_eq!(out, format!("x{}", text));
    }
}

#[test]
fn hex_rendering() {
    let mut out = String::from("> ");
    push_hex(&mut out, &[0x00, 0x0f, 0xff, 0xab, 0x10]);
    assert_eq!(out, "> 000fffab10");
    let mut empty = String::new();
    push_hex(&mut empty, &[]);
    assert_eq!(empty, "");
}

#[test]
fn exit_command_is_a_prefix() {
    assert!(is_exit_command("exit"));
    assert!(is_exit_command("exit\n"));
    assert!(is_exit_command("exiting now"));
    assert!(!is_exit_command("exi"));
    assert!(!is_exit_command(""));
    assert!(!is_exit_command(" exit"));
    assert!(!is_exit_command("quit\nexit\n"));
    assert!(!is_exit_command("Exit"));
}
