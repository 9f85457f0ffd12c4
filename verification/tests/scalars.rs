use polysynth::audio_util::{render_step, sample_count, RenderStep};
use polysynth::util::{clamp, clamp01, distort, div_floor, lerp, mod_floor, scale, BITRATE, PI, TAU, UNIT};

#[test]
fn constants() {
    assert_eq!(BITRATE, 44100);
    assert_eq!(UNIT, 1_000_000);
    assert_eq!(PI, 3_141_592);
    assert_eq!(TAU, 6_283_185);
}

#[test]
fn division_rounds_down() {
    assert_eq!(div_floor(7, 2), 3);
    assert_eq!(div_floor(-7, 2), -4);
    assert_eq!(div_floor(-8, 2), -4);
    assert_eq!(div_floor(-1, 10), -1);
    assert_eq!(div_floor(0, 10), 0);
    assert_eq!(div_floor(i128::MAX, 1), i128::MAX);
    assert_eq!(div_floor(i128::MIN + 1, 1), i128::MIN + 1);
    assert_eq!(mod_floor(7, 3), 1);
    assert_eq!(mod_floor(-7, 3), 2);
    assert_eq!(mod_floor(-6, 3), 0);
    assert_eq!(mod_floor(i128::MIN, 7), 5);
    assert_eq!(mod_floor(0, 7), 0);
}

#[test]
fn lerp_runs_from_a_to_b() {
    assert_eq!(lerp(0, 10, 20), 10);
    assert_eq!(lerp(UNIT, 10, 20), 20);
    assert_eq!(lerp(500_000, 10, 20), 15);
    assert_eq!(lerp(250_000, 1_000_000, 0), 750_000);
    assert_eq!(lerp(333_333, 0, 3), 0);
    assert_eq!(lerp(333_334, 0, 3), 1);
    assert_eq!(lerp(333_333, 3, 0), 2);
    assert_eq!(lerp(2 * UNIT, 10, 20), 30);
    assert_eq!(lerp(-UNIT, 10, 20), 0);
    assert_eq!(lerp(UNIT, i64::MIN, i64::MAX), i64::MAX);
    assert_eq!(lerp(0, i64::MIN, i64::MAX), i64::MIN);
}

#[test]
fn scale_maps_the_signed_unit_range() {
    assert_eq!(scale(-UNIT, 10, 20), 10);
    assert_eq!(scale(UNIT, 10, 20), 20);
    assert_eq!(scale(0, 10, 20), 15);
    assert_eq!(scale(0, -4, 0), -2);
    assert_eq!(scale(500_000, 0, 100), 75);
    assert_eq!(scale(0, 0, 3), 1);
}

#[test]
fn clamps() {
    assert_eq!(clamp(5), 5);
    assert_eq!(clamp(UNIT + 1), UNIT);
    assert_eq!(clamp(-UNIT - 1), -UNIT);
    assert_eq!(clamp(i64::MIN), -UNIT);
    assert_eq!(clamp(i64::MAX), UNIT);
    assert_eq!(clamp01(5), 5);
    assert_eq!(clamp01(-5), 0);
    assert_eq!(clamp01(UNIT + 5), UNIT);
    assert_eq!(clamp01(UNIT), UNIT);
}

#[test]
fn distortion_amplifies_and_clips() {
    assert_eq!(distort(100_000, 500_000), 200_000);
    assert_eq!(distort(-100_000, 500_000), -200_000);
    assert_eq!(distort(600_000, 500_000), UNIT);
    assert_eq!(distort(-600_000, 500_000), -UNIT);
    assert_eq!(distort(300_000, 0), 300_000);
    assert_eq!(distort(1, 999_999), UNIT);
    assert_eq!(distort(100, -UNIT), 50);
    assert_eq!(distort(-1, -UNIT), -1);
    assert_eq!(distort(i64::MAX, 999_999), UNIT);
    assert_eq!(distort(i64::MIN, i64::MIN), -UNIT);
    assert_eq!(distort(i64::MIN / 2, i64::MIN), -500_000);
}

#[test]
fn rendering_steps() {
    assert_eq!(sample_count(2_000_000), 88200);
    assert_eq!(sample_count(-1), 0);
    assert_eq!(render_step(0, Some(7)), RenderStep::Write { sample: 7, report: Some(0) });
    assert_eq!(render_step(1, Some(-7)), RenderStep::Write { sample: -7, report: None });
    assert_eq!(render_step(220_500, Some(1)), RenderStep::Write { sample: 1, report: Some(5) });
    assert_eq!(render_step(220_501, Some(1)), RenderStep::Write { sample: 1, report: None });
    assert_eq!(render_step(441_000, Some(1)), RenderStep::Write { sample: 1, report: Some(10) });
    assert_eq!(render_step(44_100, Some(1)), RenderStep::Write { sample: 1, report: None });
    assert_eq!(render_step(12, None), RenderStep::EndedEarly { at: 12 });
    assert_eq!(render_step(0, None), RenderStep::EndedEarly { at: 0 });
}
