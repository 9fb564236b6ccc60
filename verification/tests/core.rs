use synesthesia::formula::{bytebeat, FormulaId, BYTEBEAT_RECIPES};
use synesthesia::lfo::{lfo_shape_from, lfo_shape_name, LfoShape};
use synesthesia::rng::{cycle_hash, fnv1a, mix, slot_seeds, Mulberry32};

fn uniform(r: &mut Mulberry32) -> f64 {
    f64::from(r.next_u32()) / 4_294_967_296.0
}

/// Values taken from the TypeScript `mulberry32(12345)`.
#[test]
fn matches_the_typescript_stream() {
    let mut r = Mulberry32::new(12345);
    let got: Vec<f64> = (0..4).map(|_| uniform(&mut r)).collect();
    for (g, w) in got.iter().zip([
        0.979_728_267_760_947_4,
        0.306_752_264_499_664_3,
        0.484_205_421_525_985,
        0.817_934_412_509_203,
    ]) {
        assert!((g - w).abs() < 1e-15, "{g} != {w}");
    }
}

#[test]
fn the_raw_stream_is_the_mulberry32_words() {
    let mut r = Mulberry32::new(12345);
    assert_eq!(r.next_u32(), 4_207_900_869);
    assert_eq!(r.next_u32(), 1_317_490_944);
    assert_eq!(r.next_u32(), 2_079_646_450);
    assert_eq!(r.next_u32(), 3_513_001_552);
}

#[test]
fn two_generators_with_one_seed_agree() {
    let mut a = Mulberry32::new(99);
    let mut b = Mulberry32::new(99);
    for _ in 0..100 {
        assert_eq!(a.next_u32(), b.next_u32());
    }
}

#[test]
fn sample_and_hold_is_one_step_from_the_cycle_number() {
    assert_eq!(cycle_hash(0), 1_144_304_738);
    assert_eq!(cycle_hash(1), 2_693_262_067);
    assert_eq!(cycle_hash(-1), 3_850_105_811);
    assert_eq!(cycle_hash(5), 2_962_560_684);
    // The cycle number is taken as a 32-bit integer.
    assert_eq!(cycle_hash(5 + (1i64 << 32)), cycle_hash(5));
    assert_eq!(cycle_hash(0), mix(0x6d2b_79f5));
}

#[test]
fn generator_seeds_follow_the_lcg() {
    assert_eq!(slot_seeds(7, 3), vec![1_025_555_898, 3_923_423_697, 2_630_631_676]);
    assert!(slot_seeds(7, 0).is_empty());
}

#[test]
fn fnv1a_of_known_inputs() {
    assert_eq!(fnv1a(b""), 2_166_136_261);
    assert_eq!(fnv1a(b"a"), 3_826_002_220);
    assert_eq!(fnv1a(b"foobar"), 3_214_735_720);
}

#[test]
fn every_formula_name_reads_back() {
    let all = FormulaId::all();
    assert_eq!(all.len(), 21);
    assert_eq!(all[0], FormulaId::Fm);
    assert_eq!(all[20], FormulaId::Rain);
    for id in all {
        assert_eq!(FormulaId::parse(id.as_str()), Some(id));
    }
    assert_eq!(FormulaId::Bytebeat.as_str(), "bytebeat");
    assert_eq!(FormulaId::parse("nope"), None);
    assert_eq!(FormulaId::parse("FM"), None);
}

#[test]
fn bytebeat_recipes_at_known_times() {
    assert_eq!(BYTEBEAT_RECIPES, 5);
    let ts = [0u64, 3000, 12345, 100_000, 7_777_777];
    let want = [
        [0, 112, 200, 0, 138],
        [0, 232, 171, 64, 31],
        [0, 72, 105, 48, 233],
        [0, 24, 32, 128, 145],
        [0, 46, 190, 222, 210],
    ];
    for (recipe, row) in want.iter().enumerate() {
        for (t, w) in ts.iter().zip(row) {
            assert_eq!(bytebeat(recipe, *t), *w, "recipe {recipe} at {t}");
        }
    }
    // Past the last recipe the last one plays.
    assert_eq!(bytebeat(9, 12345), 190);
}

#[test]
fn lfo_shapes_round_trip_and_default_to_sine() {
    for s in [LfoShape::Sine, LfoShape::Triangle, LfoShape::Saw, LfoShape::Square, LfoShape::Random] {
        assert_eq!(lfo_shape_from(lfo_shape_name(s)), s);
    }
    assert_eq!(lfo_shape_name(LfoShape::Square), "square");
    assert_eq!(lfo_shape_from("wobble"), LfoShape::Sine);
}
