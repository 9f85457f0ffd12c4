use polysynth::oscillator::Oscillator;
use polysynth::pool::{PoolExhausted, VoiceArray, VoiceNode, ATTENUATION, MAX_VOICES};
use polysynth::synth_template::SynthTrait;
use polysynth::util::UNIT;
use polysynth::voice::{Voice, ENVELOPE_SITE, WAVE_SITE};

const HZ_441: i64 = 441_000_000;

// The samples a released voice still gives: the release, the sample that
// ends it, and the one sample of a quiet of no length.
const RELEASED_RUN: usize = 44_100 + 1 + 1;

fn free_list(pool: &VoiceArray) -> Vec<usize> {
    let mut list = Vec::new();
    let mut at = pool.first_free();
    while let Some(index) = at {
        assert!(list.len() < pool.capacity(), "the free list has a cycle");
        list.push(index);
        at = pool.node(index).free().expect("the free list names a slot in use");
    }
    list
}

fn check_free_list(pool: &VoiceArray) {
    let list = free_list(pool);
    let mut seen = vec![false; pool.capacity()];
    for index in &list {
        assert!(!seen[*index]);
        seen[*index] = true;
    }
    for index in 0..pool.capacity() {
        assert_eq!(seen[index], pool.node(index).free().is_some());
    }
}

#[test]
fn constants_of_the_pool() {
    assert_eq!(VoiceArray::SIZE, 32);
    assert_eq!(ATTENUATION, 300_000);
    assert_eq!(MAX_VOICES, u32::MAX as usize);
    assert_eq!(ENVELOPE_SITE, 0);
    assert_eq!(WAVE_SITE, 1);
    assert_eq!(VoiceNode::default(), VoiceNode::Free(None));
}

#[test]
fn a_new_pool_is_chained_in_order() {
    let pool = VoiceArray::new(4);
    assert_eq!(pool.capacity(), 4);
    assert_eq!(pool.first_free(), Some(0));
    assert_eq!(pool.node(0), VoiceNode::Free(Some(1)));
    assert_eq!(pool.node(1), VoiceNode::Free(Some(2)));
    assert_eq!(pool.node(2), VoiceNode::Free(Some(3)));
    assert_eq!(pool.node(3), VoiceNode::Free(None));
    assert_eq!(free_list(&pool), vec![0, 1, 2, 3]);
    let pool = VoiceArray::default();
    assert_eq!(pool.capacity(), 32);
    assert_eq!(free_list(&pool), (0..32).collect::<Vec<usize>>());
    let empty = VoiceArray::new(0);
    assert_eq!(empty.first_free(), None);
    assert_eq!(empty.capacity(), 0);
}

#[test]
fn nodes() {
    let used = VoiceNode::Used { voice: Voice(7), note: 60 };
    assert_eq!(used.free(), None);
    assert_eq!(used.note(), Some(60));
    assert_eq!(VoiceNode::Free(Some(3)).free(), Some(Some(3)));
    assert_eq!(VoiceNode::Free(None).free(), Some(None));
    assert_eq!(VoiceNode::Free(Some(3)).note(), None);
}

#[test]
fn slots_are_taken_from_the_head() {
    let mut pool = VoiceArray::new(3);
    assert_eq!(pool.get_free(Voice(1), 60), Ok(0));
    assert_eq!(pool.node(0), VoiceNode::Used { voice: Voice(1), note: 60 });
    assert_eq!(pool.first_free(), Some(1));
    assert_eq!(pool.get_free(Voice(2), 61), Ok(1));
    assert_eq!(pool.get_free(Voice(3), 62), Ok(2));
    assert_eq!(pool.first_free(), None);
    assert_eq!(pool.get_free(Voice(4), 63), Err(PoolExhausted));
    assert_eq!(pool.node(0), VoiceNode::Used { voice: Voice(1), note: 60 });
    assert_eq!(pool.node(1), VoiceNode::Used { voice: Voice(2), note: 61 });
    assert_eq!(pool.node(2), VoiceNode::Used { voice: Voice(3), note: 62 });
    let mut empty = VoiceArray::new(0);
    assert_eq!(empty.get_free(Voice(4), 63), Err(PoolExhausted));
}

#[test]
fn an_idle_pool_is_silent_and_unchanged() {
    let mut pool = VoiceArray::new(3);
    let mut osc = Oscillator::default();
    for _ in 0..10 {
        assert_eq!(pool.next(&mut osc), Some(0));
        assert_eq!(free_list(&pool), vec![0, 1, 2]);
    }
}

#[test]
fn a_voice_is_a_square_wave_under_its_envelope() {
    let mut voice = Voice(HZ_441);
    let mut osc = Oscillator::default();
    let mut out = Vec::new();
    for _ in 0..200 {
        out.push(voice.next(&mut osc).unwrap());
    }
    // the attack is 22050 samples long; the angle moves 62831 a sample
    assert_eq!(out[0], 0);
    assert_eq!(out[1], 45);
    assert_eq!(out[10], 453);
    assert_eq!(out[49], 2222);
    assert_eq!(out[50], -2267);
    assert_eq!(out[51], -2312);
    assert_eq!(out[99], -4489);
    assert_eq!(out[100], 4535);
    assert_eq!(out[101], 4580);
    assert_eq!(voice, Voice(HZ_441));
    assert_eq!(Voice::params().quiet_length, 0);
    assert_eq!(Voice::params().attack_length, 500_000);
}

#[test]
fn a_voice_ends_with_its_envelope() {
    let mut voice = Voice(HZ_441);
    let mut osc = Oscillator::default();
    let mut count = 0;
    while let Some(x) = voice.next(&mut osc) {
        assert!(-UNIT <= x && x <= UNIT);
        count += 1;
        assert!(count < 1_000_000);
    }
    assert_eq!(count, 22_051 + 11_025 + 55_125 + 44_100 + 1);
    assert_eq!(voice.next(&mut osc), None);
    // the wave stood still while the envelope gave nothing
    let angle = osc.get_sin(WAVE_SITE, 0);
    assert_eq!(osc.get_sin(WAVE_SITE, 0), angle);
    assert_eq!(voice.next(&mut osc), None);
    assert_eq!(osc.get_sin(WAVE_SITE, 0), angle);
}

#[test]
fn the_pool_mixes_and_turns_down() {
    let mut pool = VoiceArray::new(4);
    let mut osc = Oscillator::default();
    assert_eq!(pool.get_free(Voice(HZ_441), 60), Ok(0));
    let mut out = Vec::new();
    for _ in 0..52 {
        out.push(pool.next(&mut osc).unwrap());
    }
    assert_eq!(out[0], 0);
    assert_eq!(out[10], 135);
    assert_eq!(out[49], 666);
    assert_eq!(out[50], -681);
    assert_eq!(out[51], -694);
    // a second voice of the same pitch, 52 samples behind the first
    assert_eq!(pool.get_free(Voice(HZ_441), 61), Ok(1));
    // first: sample 52, -(52e6 / 22050) = -2358; second: sample 0 = 0
    assert_eq!(pool.next(&mut osc), Some(-708));
    // first: sample 53 = -2403; second: sample 1 = 45; the sum -2358 * 0.3
    assert_eq!(pool.next(&mut osc), Some(-708));
}

#[test]
fn two_voices_of_one_pitch_do_not_share_a_phase() {
    let mut pool = VoiceArray::new(2);
    let mut osc = Oscillator::default();
    assert_eq!(pool.get_free(Voice(HZ_441), 60), Ok(0));
    for _ in 0..30 {
        pool.next(&mut osc);
    }
    assert_eq!(pool.get_free(Voice(HZ_441), 60), Ok(1));
    pool.next(&mut osc);
    assert_eq!(osc.sub_scope(0).get_sin(WAVE_SITE, 0), 62_831 * 31);
    assert_eq!(osc.sub_scope(1).get_sin(WAVE_SITE, 0), 62_831);
}

#[test]
fn release_by_note_releases_and_keeps_the_slot() {
    let mut pool = VoiceArray::new(3);
    let mut osc = Oscillator::default();
    assert_eq!(pool.get_free(Voice(HZ_441), 60), Ok(0));
    assert_eq!(pool.get_free(Voice(2 * HZ_441), 61), Ok(1));
    assert_eq!(pool.get_free(Voice(3 * HZ_441), 60), Ok(2));
    for _ in 0..5 {
        pool.next(&mut osc);
    }
    pool.release_by_note(60, &mut osc);
    for index in 0..3 {
        assert!(pool.node(index).free().is_none());
    }
    let params = Voice::params();
    assert!(osc.sub_scope(0).adsr(ENVELOPE_SITE, params).is_done());
    assert!(!osc.sub_scope(1).adsr(ENVELOPE_SITE, params).is_done());
    assert!(osc.sub_scope(2).adsr(ENVELOPE_SITE, params).is_done());
    assert_eq!(osc.sub_scope(0).adsr(ENVELOPE_SITE, params).0.progress(), 0);
    // releasing a note that does not sound changes nothing
    pool.release_by_note(99, &mut osc);
    assert!(!osc.sub_scope(1).adsr(ENVELOPE_SITE, params).is_done());
    // the released voices run out together; the higher slot is freed last
    // and so is the head
    for _ in 0..RELEASED_RUN {
        pool.next(&mut osc);
        assert_eq!(pool.first_free(), None);
    }
    pool.next(&mut osc);
    assert_eq!(free_list(&pool), vec![2, 0]);
    assert_eq!(pool.node(2), VoiceNode::Free(Some(0)));
    assert_eq!(pool.node(0), VoiceNode::Free(None));
    assert!(pool.node(1).free().is_none());
}

#[test]
fn a_freed_slot_is_taken_next_and_once() {
    let mut pool = VoiceArray::new(4);
    let mut osc = Oscillator::default();
    assert_eq!(pool.get_free(Voice(HZ_441), 60), Ok(0));
    assert_eq!(pool.get_free(Voice(HZ_441), 61), Ok(1));
    Voice::start(osc.sub_scope(1));
    pool.release_by_note(61, &mut osc);
    for _ in 0..RELEASED_RUN {
        pool.next(&mut osc);
        assert_eq!(pool.first_free(), Some(2));
    }
    pool.next(&mut osc);
    assert_eq!(free_list(&pool), vec![1, 2, 3]);
    assert_eq!(pool.get_free(Voice(HZ_441), 62), Ok(1));
    assert_eq!(pool.get_free(Voice(HZ_441), 63), Ok(2));
    assert_eq!(pool.get_free(Voice(HZ_441), 64), Ok(3));
    assert_eq!(pool.get_free(Voice(HZ_441), 65), Err(PoolExhausted));
}

#[test]
fn a_started_voice_can_be_released_at_once() {
    let mut osc = Oscillator::default();
    osc.get_sin(WAVE_SITE, HZ_441);
    osc.get_sin(WAVE_SITE, HZ_441);
    osc.incrementing(9);
    Voice::start(&mut osc);
    assert_eq!(osc.incrementing(9), 0);
    osc.release();
    let mut voice = Voice(HZ_441);
    let mut count = 0;
    let mut first = None;
    while let Some(x) = voice.next(&mut osc) {
        if count == 0 {
            first = Some(x);
        }
        count += 1;
        assert!(count < 1_000_000);
    }
    assert_eq!(first, Some(700_000));
    assert_eq!(count, RELEASED_RUN);
}

#[test]
fn a_release_before_the_envelope_is_there_is_lost() {
    let mut osc = Oscillator::default();
    osc.release();
    let mut voice = Voice(HZ_441);
    assert_eq!(voice.next(&mut osc), Some(0));
    assert!(!osc.adsr(ENVELOPE_SITE, Voice::params()).is_done());
}

#[test]
fn the_free_list_stays_a_list() {
    let capacity = 5;
    let mut pool = VoiceArray::new(capacity);
    let mut osc = Oscillator::default();
    let mut taken = 0;
    // takes and releases interleaved, more of them than the pool has slots
    for round in 0..3 * capacity {
        let note = (round % 7) as u8;
        if round % 3 != 2 {
            if let Ok(index) = pool.get_free(Voice(HZ_441 + round as i64), note) {
                Voice::start(osc.sub_scope(index));
                taken += 1;
            }
        } else {
            pool.release_by_note(((round + 6) % 7) as u8, &mut osc);
        }
        check_free_list(&pool);
        for _ in 0..15_000 {
            pool.next(&mut osc);
        }
        check_free_list(&pool);
    }
    assert!(taken > capacity);
}
