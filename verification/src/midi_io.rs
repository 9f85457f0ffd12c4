//! Note events, and how they are read from MIDI bytes.

use vstd::prelude::*;

verus! {

/// A note event. A note is a MIDI key number, `0..=127`.
#[derive(Clone, Copy, Debug, PartialEq, Eq, Structural)]
pub enum SimpleMidiMessage {
    NoteOn(u8),
    NoteOff(u8),
}

/// What a run of MIDI bytes decodes to, as far as this library reads it.
#[derive(Clone, Copy, Debug, PartialEq, Eq, Structural)]
pub enum Decoded {
    NoteOff(u8),
    NoteOn(u8),
    /// A message that is neither.
    Other,
    /// No message.
    Invalid,
}

/// The bytes are no MIDI message.
#[derive(Clone, Copy, Debug, PartialEq, Eq, Structural)]
pub struct InvalidMidi;

/// The note event that a run of bytes holds, if it holds one: a status byte
/// `0x8n` or `0x9n` and two data bytes, key and velocity. A note-on with
/// velocity zero is a note-off. Bytes after the third are ignored.
pub open spec fn note_event(bytes: Seq<u8>) -> Option<SimpleMidiMessage> {
    if bytes.len() >= 3 && bytes[1] < 0x80 && bytes[2] < 0x80 {
        if 0x80 <= bytes[0] <= 0x8f {
            Some(SimpleMidiMessage::NoteOff(bytes[1]))
        } else if 0x90 <= bytes[0] <= 0x9f {
            if bytes[2] == 0 {
                Some(SimpleMidiMessage::NoteOff(bytes[1]))
            } else {
                Some(SimpleMidiMessage::NoteOn(bytes[1]))
            }
        } else {
            None
        }
    } else {
        None
    }
}

/// There is a data byte at `at`: a byte below `0x80`.
pub open spec fn data_at(bytes: Seq<u8>, at: int) -> bool {
    at < bytes.len() && bytes[at] < 0x80
}

/// The bytes begin with a MIDI message: a status byte, and after it the data
/// bytes that the status asks for. A system-exclusive message runs over data
/// bytes up to its end byte `0xf7`; an end byte alone is no message. Bytes
/// after the message are not looked at.
pub open spec fn midi_is_valid(bytes: Seq<u8>) -> bool {
    &&& bytes.len() > 0
    &&& bytes[0] >= 0x80
    &&& if bytes[0] < 0xc0 {
        // note off, note on, key pressure, control change
        data_at(bytes, 1) && data_at(bytes, 2)
    } else if bytes[0] < 0xe0 {
        // program change, channel pressure
        data_at(bytes, 1)
    } else if bytes[0] < 0xf0 {
        // pitch bend
        data_at(bytes, 1) && data_at(bytes, 2)
    } else if bytes[0] == 0xf0 {
        exists|end: int|
            1 <= end < bytes.len() && #[trigger] bytes[end] == 0xf7 && forall|i: int|
                1 <= i < end ==> #[trigger] bytes[i] < 0x80
    } else if bytes[0] == 0xf1 || bytes[0] == 0xf3 {
        // time code, song select
        data_at(bytes, 1)
    } else if bytes[0] == 0xf2 {
        // song position
        data_at(bytes, 1) && data_at(bytes, 2)
    } else {
        bytes[0] != 0xf7
    }
}

/// `wmidi::MidiMessage::try_from` on a byte slice. Bytes that hold a note
/// event decode to it, with the key as `wmidi::Note` numbers it; no other
/// bytes decode to a note event. The call fails exactly on the bytes that do
/// not begin with a message.
#[verifier::external_body]
fn parse(bytes: &[u8]) -> (decoded: Decoded)
    ensures
        match note_event(bytes@) {
            Some(SimpleMidiMessage::NoteOn(key)) => decoded == Decoded::NoteOn(key),
            Some(SimpleMidiMessage::NoteOff(key)) => decoded == Decoded::NoteOff(key),
            None => decoded is Other || decoded is Invalid,
        },
        decoded is Invalid <==> !midi_is_valid(bytes@),
{
    match wmidi::MidiMessage::try_from(bytes) {
        Ok(wmidi::MidiMessage::NoteOn(_, note, _)) => Decoded::NoteOn(u8::from(note)),
        Ok(wmidi::MidiMessage::NoteOff(_, note, _)) => Decoded::NoteOff(u8::from(note)),
        Ok(_) => Decoded::Other,
        Err(_) => Decoded::Invalid,
    }
}

impl SimpleMidiMessage {
    /// The key of the event.
    pub open spec fn spec_note(self) -> u8 {
        match self {
            SimpleMidiMessage::NoteOn(key) => key,
            SimpleMidiMessage::NoteOff(key) => key,
        }
    }

    /// The key of the event.
    pub fn note(&self) -> (key: u8)
        ensures
            key == self.spec_note(),
    {
        match self {
            SimpleMidiMessage::NoteOn(key) => *key,
            SimpleMidiMessage::NoteOff(key) => *key,
        }
    }

    /// The event that a decoded message stands for: a note event for itself,
    /// any other message for nothing.
    pub open spec fn spec_from_decoded(decoded: Decoded) -> Result<Option<SimpleMidiMessage>, InvalidMidi> {
        match decoded {
            Decoded::NoteOn(key) => Ok(Some(SimpleMidiMessage::NoteOn(key))),
            Decoded::NoteOff(key) => Ok(Some(SimpleMidiMessage::NoteOff(key))),
            Decoded::Other => Ok(None),
            Decoded::Invalid => Err(InvalidMidi),
        }
    }

    /// Picks the note event out of a decoded message.
    pub fn from_decoded(decoded: Decoded) -> (event: Result<Option<SimpleMidiMessage>, InvalidMidi>)
        ensures
            event == Self::spec_from_decoded(decoded),
    {
        match decoded {
            Decoded::NoteOn(key) => Ok(Some(SimpleMidiMessage::NoteOn(key))),
            Decoded::NoteOff(key) => Ok(Some(SimpleMidiMessage::NoteOff(key))),
            Decoded::Other => Ok(None),
            Decoded::Invalid => Err(InvalidMidi),
        }
    }

    /// What reading the bytes of one MIDI message gives: an error for bytes
    /// that are no message, and else the note event, if the message is one.
    pub open spec fn spec_from_bytes(bytes: Seq<u8>) -> Result<Option<SimpleMidiMessage>, InvalidMidi> {
        if midi_is_valid(bytes) {
            Ok(note_event(bytes))
        } else {
            Err(InvalidMidi)
        }
    }

    /// Reads the note event out of the bytes of one MIDI message. Bytes that
    /// are no message are an error; a message that is no note event gives
    /// `None`.
    pub fn from_bytes(bytes: &[u8]) -> (event: Result<Option<SimpleMidiMessage>, InvalidMidi>)
        ensures
            event == Self::spec_from_bytes(bytes@),
    {
        Self::from_decoded(parse(bytes))
    }
}

/// `needle` occurs in `hay`.
pub open spec fn occurs_in(needle: Seq<char>, hay: Seq<char>) -> bool {
    exists|at: int| 0 <= at && at + needle.len() <= hay.len() && #[trigger] hay.subrange(at, at + needle.len()) == needle
}

/// `str::contains` with a string for its pattern: whether the pattern occurs
/// in the text.
#[verifier::external_body]
fn contains(hay: &str, needle: &str) -> (found: bool)
    ensures
        found == occurs_in(needle@, hay@),
{
    hay.contains(needle)
}

/// A port can be chosen: it is no through port, and its name holds the
/// filter where there is one.
pub open spec fn eligible(name: Seq<char>, name_filter: Option<Seq<char>>) -> bool {
    &&& !occurs_in("Midi Through"@, name)
    &&& name_filter matches Some(wanted) ==> occurs_in(wanted, name)
}

/// The first port among `names` that can be chosen, or `None` where none can.
pub fn choose_port(names: &Vec<String>, name_filter: Option<&str>) -> (chosen: Option<usize>)
    ensures
        match chosen {
            Some(index) => index < names@.len() && eligible(
                names@[index as int]@,
                match name_filter {
                    Some(wanted) => Some(wanted@),
                    None => None,
                },
            ) && forall|earlier: int|
                0 <= earlier < index ==> !eligible(
                    (#[trigger] names@[earlier])@,
                    match name_filter {
                        Some(wanted) => Some(wanted@),
                        None => None,
                    },
                ),
            None => forall|index: int|
                0 <= index < names@.len() ==> !eligible(
                    (#[trigger] names@[index])@,
                    match name_filter {
                        Some(wanted) => Some(wanted@),
                        None => None,
                    },
                ),
        },
{
    let ghost wanted: Option<Seq<char>> = match name_filter {
        Some(wanted) => Some(wanted@),
        None => None,
    };
    let mut i: usize = 0;
    while i < names.len()
        invariant
            i <= names@.len(),
            wanted == (match name_filter {
                Some(wanted) => Some(wanted@),
                None => None::<Seq<char>>,
            }),
            forall|earlier: int| 0 <= earlier < i ==> !eligible((#[trigger] names@[earlier])@, wanted),
        decreases names@.len() - i,
    {
        let name = names[i].as_str();
        let through = contains(name, "Midi Through");
        let fits = match name_filter {
            Some(wanted) => contains(name, wanted),
            None => true,
        };
        if !through && fits {
            return Some(i);
        }
        i += 1;
    }
    None
}

/// Bytes that hold a note event begin with a message.
pub proof fn lemma_note_event_is_valid(bytes: Seq<u8>)
    ensures
        note_event(bytes) is Some ==> midi_is_valid(bytes),
        note_event(bytes) is Some ==> SimpleMidiMessage::spec_from_bytes(bytes) == Ok::<
            Option<SimpleMidiMessage>,
            InvalidMidi,
        >(note_event(bytes)),
{
}

} // verus!
