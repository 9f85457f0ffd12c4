use polysynth::adsr::State;
use polysynth::manychannel::ManyChannel;
use polysynth::midi_io::SimpleMidiMessage;
use polysynth::oscillator::Oscillator;
use polysynth::pool::{PoolExhausted, VoiceNode};
use polysynth::synth::{MidiSynth, Synth, KEYS};
use polysynth::synth_template::{SynthRoot, SynthTrait, SynthTraitDefault};
use polysynth::util::BITRATE;
use polysynth::voice::{Voice, ENVELOPE_SITE, WAVE_SITE};

const HZ_441: i64 = 441_000_000;
const RELEASED_RUN: usize = 44_100 + 1 + 1;
const FULL_RUN: usize = 22_051 + 11_025 + 55_125 + 44_100 + 1;

fn tuning() -> Vec<i64> {
    (0..KEYS as i64).map(|key| 100_000_000 + key * 7_000_000).collect()
}

fn pitch(key: u8) -> i64 {
    tuning()[key as usize]
}

#[test]
fn a_full_pool_drops_the_note_and_a_freed_slot_is_reused() {
    let (a, b, c) = (60u8, 62u8, 64u8);
    let mut synth = MidiSynth::new(2, tuning());
    let mut osc = Oscillator::default();
    assert_eq!(synth.note_on(a, &mut osc), Ok(0));
    assert_eq!(synth.note_on(b, &mut osc), Ok(1));
    assert_eq!(synth.note_on(c, &mut osc), Err(PoolExhausted));
    assert_eq!(synth.voices().node(0), VoiceNode::Used { voice: Voice(pitch(a)), note: a });
    assert_eq!(synth.voices().node(1), VoiceNode::Used { voice: Voice(pitch(b)), note: b });
    for _ in 0..1000 {
        assert!(synth.next(&mut osc).is_some());
    }
    synth.note_off(a, &mut osc);
    for _ in 0..RELEASED_RUN {
        synth.next(&mut osc);
        assert_eq!(synth.voices().first_free(), None);
        assert_eq!(synth.note_on(c, &mut osc), Err(PoolExhausted));
    }
    synth.next(&mut osc);
    // exactly one slot is free: the one that sounded `a`
    assert_eq!(synth.voices().first_free(), Some(0));
    assert_eq!(synth.voices().node(0), VoiceNode::Free(None));
    assert_eq!(synth.voices().node(1), VoiceNode::Used { voice: Voice(pitch(b)), note: b });
    // what `a` left behind is still in the nested store of its slot
    assert_eq!(osc.sub_scope(0).adsr(ENVELOPE_SITE, Voice::params()).0.state(), State::End);
    assert_eq!(synth.note_on(c, &mut osc), Ok(0));
    assert_eq!(synth.voices().node(0), VoiceNode::Used { voice: Voice(pitch(c)), note: c });
    assert_eq!(synth.voices().first_free(), None);
    // and is gone once `c` has the slot
    assert_eq!(osc.sub_scope(0).adsr(ENVELOPE_SITE, Voice::params()).0.state(), State::Attack);
    assert_eq!(osc.sub_scope(0).adsr(ENVELOPE_SITE, Voice::params()).0.progress(), 0);
    assert_eq!(osc.sub_scope(0).get_sin(WAVE_SITE, 0), 0);
    assert_eq!(osc.sub_scope(0).get_sin(WAVE_SITE, HZ_441), 62_831);
    assert_eq!(synth.note_on(c, &mut osc), Err(PoolExhausted));
}

fn run_until_first_ends(first: u8) -> (MidiSynth, Oscillator, Vec<i64>) {
    let mut synth = MidiSynth::new(2, tuning());
    let mut osc = Oscillator::default();
    let mut out = Vec::new();
    synth.push(SimpleMidiMessage::NoteOn(first));
    synth.push(SimpleMidiMessage::NoteOn(62));
    for _ in 0..1000 {
        out.push(synth.next(&mut osc).unwrap());
    }
    synth.push(SimpleMidiMessage::NoteOff(first));
    for _ in 0..RELEASED_RUN + 1 {
        out.push(synth.next(&mut osc).unwrap());
    }
    (synth, osc, out)
}

#[test]
fn a_reused_slot_sounds_like_a_fresh_one() {
    // two runs that differ in the pitch of the voice that ends
    let (mut one, mut osc_one, out_one) = run_until_first_ends(60);
    let (mut other, mut osc_other, out_other) = run_until_first_ends(30);
    assert_ne!(out_one, out_other);
    assert_ne!(
        osc_one.sub_scope(0).get_sin(WAVE_SITE, 0),
        osc_other.sub_scope(0).get_sin(WAVE_SITE, 0)
    );
    one.push(SimpleMidiMessage::NoteOn(64));
    other.push(SimpleMidiMessage::NoteOn(64));
    for _ in 0..5000 {
        let x = one.next(&mut osc_one);
        assert!(x.is_some());
        assert_eq!(x, other.next(&mut osc_other));
    }
    assert_eq!(one.voices().node(0), VoiceNode::Used { voice: Voice(pitch(64)), note: 64 });
    // the voice in the reused slot is where a voice in a fresh store is
    let mut fresh = Oscillator::default();
    let mut voice = Voice(pitch(64));
    for _ in 0..5000 {
        voice.next(&mut fresh);
    }
    assert_eq!(osc_one.sub_scope(0).get_sin(WAVE_SITE, 0), fresh.get_sin(WAVE_SITE, 0));
    assert_eq!(
        osc_one.sub_scope(0).adsr(ENVELOPE_SITE, Voice::params()).0.progress(),
        fresh.adsr(ENVELOPE_SITE, Voice::params()).0.progress()
    );
}

#[test]
fn every_waiting_event_is_taken_in_at_the_next_sample() {
    let mut synth = MidiSynth::new(3, tuning());
    let mut osc = Oscillator::default();
    synth.push(SimpleMidiMessage::NoteOn(60));
    synth.push(SimpleMidiMessage::NoteOn(61));
    synth.push(SimpleMidiMessage::NoteOff(60));
    assert_eq!(synth.voices().first_free(), Some(0));
    assert_eq!(synth.next(&mut osc), Some(210_000));
    assert_eq!(synth.voices().node(0).note(), Some(60));
    assert_eq!(synth.voices().node(1).note(), Some(61));
    assert_eq!(synth.voices().first_free(), Some(2));
    // the first voice was released at once and has given one sample since
    assert_eq!(osc.sub_scope(0).adsr(ENVELOPE_SITE, Voice::params()).0.state(), State::Release);
    assert_eq!(osc.sub_scope(0).adsr(ENVELOPE_SITE, Voice::params()).0.progress(), 1);
    assert_eq!(osc.sub_scope(1).adsr(ENVELOPE_SITE, Voice::params()).0.state(), State::Attack);
    // the queue is empty now: nothing is taken in twice
    synth.next(&mut osc);
    assert_eq!(synth.voices().first_free(), Some(2));
    assert_eq!(osc.sub_scope(0).adsr(ENVELOPE_SITE, Voice::params()).0.progress(), 2);
}

#[test]
fn notes_that_cannot_sound_are_dropped() {
    let mut synth = MidiSynth::new(1, tuning());
    let mut osc = Oscillator::default();
    synth.push(SimpleMidiMessage::NoteOn(128));
    synth.push(SimpleMidiMessage::NoteOn(255));
    synth.push(SimpleMidiMessage::NoteOff(200));
    assert_eq!(synth.next(&mut osc), Some(0));
    assert_eq!(synth.voices().first_free(), Some(0));
    synth.push(SimpleMidiMessage::NoteOn(127));
    synth.push(SimpleMidiMessage::NoteOn(5));
    synth.next(&mut osc);
    assert_eq!(synth.voices().node(0), VoiceNode::Used { voice: Voice(pitch(127)), note: 127 });
    synth.handle(SimpleMidiMessage::NoteOn(6), &mut osc);
    assert_eq!(synth.voices().node(0).note(), Some(127));
    synth.handle(SimpleMidiMessage::NoteOff(127), &mut osc);
    assert!(osc.sub_scope(0).adsr(ENVELOPE_SITE, Voice::params()).is_done());
}

#[test]
fn a_synth_with_no_voice_is_silent() {
    let mut root = MidiSynth::new(32, tuning()).convert();
    for _ in 0..100 {
        assert_eq!(root.next(), Some(0));
    }
    assert_eq!(root.channels(), 1);
    assert_eq!(root.sample_rate(), BITRATE);
    assert_eq!(root.current_frame_len(), None);
}

#[test]
fn the_sequencer_plays_its_notes_in_turn() {
    let mut root = SynthRoot::new(Synth::new(vec![HZ_441, 2 * HZ_441]));
    let mut out = Vec::new();
    while let Some(x) = root.next() {
        out.push(x);
        assert!(out.len() < 1_000_000);
    }
    assert_eq!(out.len(), 2 * FULL_RUN);
    assert_eq!(root.next(), None);
    let mut osc = Oscillator::default();
    let mut first = Voice(HZ_441);
    let mut second = Voice(2 * HZ_441);
    for k in 0..FULL_RUN {
        assert_eq!(Some(out[k]), first.next(&mut osc));
    }
    // the second note starts from an empty store
    osc.reset();
    for k in 0..FULL_RUN {
        assert_eq!(Some(out[FULL_RUN + k]), second.next(&mut osc));
    }
    assert_eq!(out[50], -2267);
    assert_eq!(out[FULL_RUN], 0);
    assert_eq!(out[FULL_RUN + 24], 1088);
    assert_eq!(out[FULL_RUN + 25], -1133);
}

#[test]
fn a_sequencer_without_notes_has_ended() {
    let mut synth = Synth::new(Vec::new());
    let mut osc = Oscillator::default();
    osc.incrementing(5);
    assert_eq!(synth.next(&mut osc), None);
    assert_eq!(synth.next(&mut osc), None);
    assert_eq!(osc.incrementing(5), 1);
}

#[test]
fn the_default_root_holds_the_default_synth() {
    let mut root = Voice::create();
    let mut voice = Voice::default();
    assert_eq!(voice, Voice(0));
    let mut osc = Oscillator::default();
    for _ in 0..100 {
        assert_eq!(root.next(), voice.next(&mut osc));
    }
    let mut silent: SynthRoot<Synth> = SynthRoot::default();
    assert_eq!(silent.next(), None);
    let mut twin = root.clone();
    for _ in 0..100 {
        let x = root.next();
        assert!(x.is_some());
        assert_eq!(x, twin.next());
        assert_eq!(x, voice.next(&mut osc));
    }
    assert_eq!(Synth::create().next(), None);
    root.synth_mut().0 = HZ_441;
    let mut other = Voice(HZ_441);
    for _ in 0..100 {
        assert_eq!(root.next(), other.next(&mut osc));
    }
}

#[test]
fn channels_take_turns() {
    let roots = vec![
        SynthRoot::new(Synth::new(vec![HZ_441])),
        SynthRoot::new(Synth::new(vec![2 * HZ_441])),
        SynthRoot::new(Synth::new(Vec::new())),
    ];
    let mut stream = ManyChannel::new(roots);
    assert_eq!(stream.channels(), 3);
    assert_eq!(stream.sample_rate(), BITRATE);
    assert_eq!(stream.current_frame_len(), None);
    let mut left = Voice(HZ_441);
    let mut right = Voice(2 * HZ_441);
    let mut osc_left = Oscillator::default();
    let mut osc_right = Oscillator::default();
    for _ in 0..300 {
        assert_eq!(stream.next(), left.next(&mut osc_left));
        assert_eq!(stream.next(), right.next(&mut osc_right));
        assert_eq!(stream.next(), None);
    }
}
