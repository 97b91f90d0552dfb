//! The meaning of one MIDI message and the line of text that reports it.
use vstd::prelude::*;

use crate::text::{decimal, hex_dump, push_decimal, push_hex};

verus! {

/// First byte of a note-on message on channel 0.
pub const NOTE_ON: u8 = 0x90;

/// First byte of a note-off message on channel 0.
pub const NOTE_OFF: u8 = 0x80;

/// First byte of a control-change message on channel 0.
pub const CONTROL_CHANGE: u8 = 0xb0;

/// First byte of a pitch-wheel message on channel 0.
pub const PITCH_WHEEL_CHANGE: u8 = 0xe0;

/// Status bytes from this value up are system messages, which carry no channel.
pub const SYSTEM_STATUS: u8 = 0xf0;

/// What a message means, in mathematical terms.
pub enum Event {
    NoteOn { note: u8, velocity: u8 },
    NoteOff { note: u8, velocity: u8 },
    ControlChange { control: u8, value: u8 },
    PitchWheelChange { lsb: u8, msb: u8 },
    Unknown { bytes: Seq<u8> },
}

/// A decoded MIDI event.
#[derive(Debug, PartialEq, Eq)]
pub enum MidiEvent {
    NoteOn { note: u8, velocity: u8 },
    NoteOff { note: u8, velocity: u8 },
    ControlChange { control: u8, value: u8 },
    PitchWheelChange { lsb: u8, msb: u8 },
    /// A message of any other shape; it holds the bytes that were matched.
    Unknown { bytes: Vec<u8> },
}

impl View for MidiEvent {
    type V = Event;

    open spec fn view(&self) -> Event {
        match self {
            MidiEvent::NoteOn { note, velocity } => Event::NoteOn {
                note: *note,
                velocity: *velocity,
            },
            MidiEvent::NoteOff { note, velocity } => Event::NoteOff {
                note: *note,
                velocity: *velocity,
            },
            MidiEvent::ControlChange { control, value } => Event::ControlChange {
                control: *control,
                value: *value,
            },
            MidiEvent::PitchWheelChange { lsb, msb } => Event::PitchWheelChange {
                lsb: *lsb,
                msb: *msb,
            },
            MidiEvent::Unknown { bytes } => Event::Unknown { bytes: bytes@ },
        }
    }
}

/// The channel that a status byte addresses: its low nibble.
pub open spec fn channel_of(status: u8) -> u8 {
    status & 0x0f
}

/// The message with the channel bits of a channel-voice status cleared;
/// a system message is left as it is.
pub open spec fn masked(m: Seq<u8>) -> Seq<u8> {
    if m.len() > 0 && m[0] < SYSTEM_STATUS {
        m.update(0, m[0] & 0xf0)
    } else {
        m
    }
}

/// The event that a (masked) message matches: the first of the four
/// three-byte shapes whose first byte it has, or else an unknown event.
pub open spec fn event_of(m: Seq<u8>) -> Event {
    if m.len() == 3 && m[0] == NOTE_ON {
        Event::NoteOn { note: m[1], velocity: m[2] }
    } else if m.len() == 3 && m[0] == NOTE_OFF {
        Event::NoteOff { note: m[1], velocity: m[2] }
    } else if m.len() == 3 && m[0] == CONTROL_CHANGE {
        Event::ControlChange { control: m[1], value: m[2] }
    } else if m.len() == 3 && m[0] == PITCH_WHEEL_CHANGE {
        Event::PitchWheelChange { lsb: m[1], msb: m[2] }
    } else {
        Event::Unknown { bytes: m }
    }
}

/// A name followed by two numbers, each after a space.
pub open spec fn named_pair(name: Seq<char>, a: u8, b: u8) -> Seq<char> {
    name + seq![' '] + decimal(a as nat) + seq![' '] + decimal(b as nat)
}

/// The description of an event, as it stands after the channel.
pub open spec fn event_text(e: Event) -> Seq<char> {
    match e {
        Event::NoteOn { note, velocity } => named_pair("note_on"@, note, velocity),
        Event::NoteOff { note, velocity } => named_pair("note_off"@, note, velocity),
        Event::ControlChange { control, value } => named_pair("control_change"@, control, value),
        Event::PitchWheelChange { lsb, msb } => named_pair("pitch_wheel_change"@, lsb, msb),
        Event::Unknown { bytes } => "unknown"@ + seq![' '] + hex_dump(bytes),
    }
}

/// The line reported for a message: its channel, a space, the description of
/// its masked form and a newline; nothing at all for an empty message.
pub open spec fn message_line(m: Seq<u8>) -> Seq<char> {
    if m.len() == 0 {
        Seq::empty()
    } else {
        decimal(channel_of(m[0]) as nat) + seq![' '] + event_text(event_of(masked(m))) + seq!['\n']
    }
}

/// Whether text read from the control input asks to stop: it begins with "exit".
pub open spec fn is_exit(input: Seq<char>) -> bool {
    input.len() >= 4 && input.subrange(0, 4) == "exit"@
}

/// Matches a message, whose status is already masked, against the known shapes.
pub fn classify(m: &[u8]) -> (r: MidiEvent)
    ensures
        r@ == event_of(m@),
{
    if m.len() == 3 {
        let (status, a, b) = (m[0], m[1], m[2]);
        if status == NOTE_ON {
            return MidiEvent::NoteOn { note: a, velocity: b };
        } else if status == NOTE_OFF {
            return MidiEvent::NoteOff { note: a, velocity: b };
        } else if status == CONTROL_CHANGE {
            return MidiEvent::ControlChange { control: a, value: b };
        } else if status == PITCH_WHEEL_CHANGE {
            return MidiEvent::PitchWheelChange { lsb: a, msb: b };
        }
    }
    let mut bytes: Vec<u8> = Vec::new();
    let mut i: usize = 0;
    while i < m.len()
        invariant
            i <= m@.len(),
            bytes@ == m@.subrange(0, i as int),
        decreases m@.len() - i,
    {
        bytes.push(m[i]);
        i = i + 1;
    }
    assert(bytes@ =~= m@);
    MidiEvent::Unknown { bytes }
}

/// A copy of the message with the channel bits of a channel-voice status cleared.
pub fn mask_channel(m: &[u8]) -> (r: Vec<u8>)
    ensures
        r@ == masked(m@),
{
    let mut r: Vec<u8> = Vec::new();
    let mut i: usize = 0;
    while i < m.len()
        invariant
            i <= m@.len(),
            r@ == masked(m@).subrange(0, i as int),
        decreases m@.len() - i,
    {
        if i == 0 && m[0] < SYSTEM_STATUS {
            r.push(m[0] & 0xf0);
        } else {
            r.push(m[i]);
        }
        assert(r@ =~= masked(m@).subrange(0, i + 1));
        i = i + 1;
    }
    assert(r@ =~= masked(m@));
    r
}

/// Splits a message into its channel and its event; `None` for an empty message.
pub fn decode(m: &[u8]) -> (r: Option<(u8, MidiEvent)>)
    ensures
        m@.len() == 0 <==> r is None,
        r matches Some((channel, event)) ==> channel == channel_of(m@[0]) && event@ == event_of(
            masked(m@),
        ),
{
    if m.len() == 0 {
        return None;
    }
    let channel = m[0] & 0x0f;
    let bytes = mask_channel(m);
    Some((channel, classify(&bytes)))
}

impl MidiEvent {
    /// Appends the description of this event to `out`.
    pub fn push_description(&self, out: &mut String)
        ensures
            final(out)@ == old(out)@ + event_text(self@),
    {
        let ghost start = out@;
        proof {
            reveal_strlit(" ");
        }
        match self {
            MidiEvent::NoteOn { note, velocity } => {
                out.append("note_on");
                push_pair(out, *note, *velocity);
            },
            MidiEvent::NoteOff { note, velocity } => {
                out.append("note_off");
                push_pair(out, *note, *velocity);
            },
            MidiEvent::ControlChange { control, value } => {
                out.append("control_change");
                push_pair(out, *control, *value);
            },
            MidiEvent::PitchWheelChange { lsb, msb } => {
                out.append("pitch_wheel_change");
                push_pair(out, *lsb, *msb);
            },
            MidiEvent::Unknown { bytes } => {
                out.append("unknown");
                out.append(" ");
                push_hex(out, bytes.as_slice());
            },
        }
        assert(out@ =~= start + event_text(self@));
    }

    /// The description of this event, as it stands after the channel.
    pub fn describe(&self) -> (r: String)
        ensures
            r@ == event_text(self@),
    {
        let mut out = String::new();
        self.push_description(&mut out);
        assert(out@ =~= event_text(self@));
        out
    }
}

/// Appends two numbers to `out`, each after a space.
fn push_pair(out: &mut String, a: u8, b: u8)
    ensures
        final(out)@ == old(out)@ + seq![' '] + decimal(a as nat) + seq![' '] + decimal(b as nat),
{
    proof {
        reveal_strlit(" ");
    }
    out.append(" ");
    push_decimal(out, a);
    out.append(" ");
    push_decimal(out, b);
}

/// The line reported for a message, with its newline; empty for an empty message.
pub fn format_message(m: &[u8]) -> (r: String)
    ensures
        r@ == message_line(m@),
{
    let mut out = String::new();
    match decode(m) {
        None => {},
        Some((channel, event)) => {
            proof {
                reveal_strlit(" ");
                reveal_strlit("\n");
            }
            push_decimal(&mut out, channel);
            out.append(" ");
            event.push_description(&mut out);
            out.append("\n");
        },
    }
    assert(out@ =~= message_line(m@));
    out
}

/// Whether text read from the control input asks to stop: it begins with "exit".
pub fn is_exit_command(input: &str) -> (r: bool)
    ensures
        r == is_exit(input@),
{
    proof {
        reveal_strlit("exit");
    }
    if input.unicode_len() < 4 {
        return false;
    }
    let c0 = input.get_char(0);
    let c1 = input.get_char(1);
    let c2 = input.get_char(2);
    let c3 = input.get_char(3);
    let r = c0 == 'e' && c1 == 'x' && c2 == 'i' && c3 == 't';
    assert("exit"@ =~= seq!['e', 'x', 'i', 't']);
    assert(r == (input@.subrange(0, 4) =~= "exit"@));
    r
}

} // verus!
