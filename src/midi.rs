//! Note messages: decoding three-byte MIDI messages and playing them on a
//! string.
use vstd::prelude::*;
use crate::fixed::Real;
use crate::modules::WaveGuide;
use crate::operators::In;
use crate::rack::{retriggered, Rack, RackError, RackView};

verus! {

/// The status byte of a note-on message.
pub const NOTE_ON: u8 = 144;

/// The status byte of a note-off message.
pub const NOTE_OFF: u8 = 128;

/// A decoded note message.
#[derive(Clone, Copy, Debug, PartialEq, Eq, Structural)]
pub enum NoteEvent {
    On { note: u8, velocity: u8 },
    Off { note: u8 },
}

/// What a message means: three bytes with status 144 start a note, with
/// status 128 end one; anything else means nothing.
pub open spec fn midi_spec(m: Seq<u8>) -> Option<NoteEvent> {
    if m.len() != 3 {
        None
    } else if m[0] == NOTE_ON {
        Some(NoteEvent::On { note: m[1], velocity: m[2] })
    } else if m[0] == NOTE_OFF {
        Some(NoteEvent::Off { note: m[1] })
    } else {
        None
    }
}

/// Decodes one MIDI message.
pub fn parse_midi(msg: &[u8]) -> (r: Option<NoteEvent>)
    ensures
        r == midi_spec(msg@),
{
    if msg.len() != 3 {
        None
    } else if msg[0] == NOTE_ON {
        Some(NoteEvent::On { note: msg[1], velocity: msg[2] })
    } else if msg[0] == NOTE_OFF {
        Some(NoteEvent::Off { note: msg[1] })
    } else {
        None
    }
}

/// The rack after the string's pitch control is set to `hz`.
pub open spec fn tuned(v: RackView, t: int, hz: Real) -> RackView {
    RackView { controls: v.controls.update(t, v.controls[t].update(0, In::Fixed(hz))), ..v }
}

/// Plays a decoded note on a string: a note-on tunes the string to `hz` (the
/// pitch of the note) and plucks it; a note-off releases it.
pub fn play_note(rack: &mut Rack, string: &WaveGuide, event: NoteEvent, hz: Real) -> (r: Result<(), RackError>)
    requires
        old(rack).wf(),
    ensures
        final(rack).wf(),
        ({
            let v = old(rack)@;
            let t = string.tag as int;
            let is_string = t < v.len() && v.modules[t] is WaveGuide
                && v.modules[v.modules[t]->envelope as int] is Adsr;
            let env = v.modules[t]->envelope as int;
            &&& r is Ok <==> is_string && 0 < v.controls[t].len()
            &&& r is Ok && event is On ==> final(rack)@ == retriggered(tuned(v, t, hz), env, true)
            &&& r is Ok && event is Off ==> final(rack)@ == retriggered(v, env, false)
            &&& r is Err ==> final(rack)@ == v
        }),
{
    match event {
        NoteEvent::On { .. } => {
            let t = string.tag;
            if t >= rack.num_modules() {
                return Err(RackError::NoSuchControl);
            }
            match rack.envelope_of(t) {
                Some(e) => {
                    proof {
                        let v = rack@;
                        assert(crate::rack::module_ok(v.modules[t as int], t as int, v.controls[t as int], v.state[t as int].len() as int));
                    }
                    if e >= rack.num_modules() || !rack.is_envelope(e) {
                        return Err(RackError::NoSuchControl);
                    }
                },
                None => {
                    return Err(RackError::NoSuchControl);
                },
            }
            let ghost v = rack@;
            match string.set_hz(rack, In::Fixed(hz)) {
                Ok(()) => {},
                Err(err) => {
                    return Err(err);
                },
            }
            assert(rack@ == tuned(v, t as int, hz));
            string.on(rack)
        },
        NoteEvent::Off { .. } => string.off(rack),
    }
}

} // verus!
