//! Properties of the decoder as a whole.
use vstd::prelude::*;

use crate::message::{event_of, event_text, masked, message_line, Event, NOTE_ON};
use crate::text::{
    decimal,
    digit_char,
    has_no_newline,
    lemma_decimal_no_newline,
    lemma_hex_dump_no_newline,
};

verus! {

/// A note-on message on channel 0, `[0x90, n, v]` with data bytes below 128,
/// is reported as `0 note_on n v` followed by a newline.
pub proof fn lemma_note_on_channel_zero(n: u8, v: u8)
    requires
        n <= 127,
        v <= 127,
    ensures
        message_line(seq![NOTE_ON, n, v]) == seq!['0', ' '] + "note_on"@ + seq![' '] + decimal(
            n as nat,
        ) + seq![' '] + decimal(v as nat) + seq!['\n'],
{
    let m = seq![NOTE_ON, n, v];
    assert(0x90u8 & 0x0f == 0u8) by (bit_vector);
    assert(0x90u8 & 0xf0 == 0x90u8) by (bit_vector);
    assert(masked(m) =~= m);
    assert(decimal(0) == seq![digit_char(0)]);
    assert(message_line(m) =~= seq!['0', ' '] + "note_on"@ + seq![' '] + decimal(n as nat) + seq![
        ' ',
    ] + decimal(v as nat) + seq!['\n']);
}

/// Decoding keeps no state: the same message is always reported by the same
/// line, whatever was decoded before it.
pub proof fn lemma_decoding_is_stateless(first: Seq<u8>, second: Seq<u8>)
    requires
        first == second,
    ensures
        message_line(first) == message_line(second),
{
}

/// Every non-empty message is reported on exactly one line: the text ends in a
/// newline and holds no other.
pub proof fn lemma_one_line_per_message(m: Seq<u8>)
    requires
        m.len() > 0,
    ensures
        message_line(m).len() > 0,
        message_line(m).last() == '\n',
        has_no_newline(message_line(m).drop_last()),
{
    reveal_strlit("note_on");
    reveal_strlit("note_off");
    reveal_strlit("control_change");
    reveal_strlit("pitch_wheel_change");
    reveal_strlit("unknown");
    let line = message_line(m);
    let e = event_of(masked(m));
    lemma_decimal_no_newline((m[0] & 0x0f) as nat);
    match e {
        Event::NoteOn { note: a, velocity: b }
        | Event::NoteOff { note: a, velocity: b }
        | Event::ControlChange { control: a, value: b }
        | Event::PitchWheelChange { lsb: a, msb: b } => {
            lemma_decimal_no_newline(a as nat);
            lemma_decimal_no_newline(b as nat);
        },
        Event::Unknown { bytes } => {
            lemma_hex_dump_no_newline(bytes);
        },
    }
    assert(has_no_newline(event_text(e)));
    assert(line.drop_last() =~= decimal((m[0] & 0x0f) as nat) + seq![' '] + event_text(e));
}

} // verus!
