use oubench::polar::{NormalPolar, Start};
use oubench::splitmix::SplitMix32;
use oubench::xorshift::{XorShift128, TWO_POW_53};

#[test]
fn splitmix_first_outputs_from_one() {
    let mut sm = SplitMix32::new(1);
    assert_eq!(sm.next_u32(), 2527132011);
    assert_eq!(sm.s, 2654435770);
    assert_eq!(sm.next_u32(), 314344336);
    assert_eq!(sm.next_u32(), 2535364964);
}

#[test]
fn seeded_state_is_four_mixer_outputs() {
    let g = XorShift128::new(1);
    assert_eq!(g.words(), (2527132011, 314344336, 2535364964, 2041432039));
    let g = XorShift128::new(0);
    assert_eq!(g.words(), (2462723854, 1020716019, 454327756, 1275600319));
    let g = XorShift128::new(u32::MAX);
    assert_eq!(g.words(), (920564995, 4230986166, 697614773, 1778835764));
}

fn first_outputs(seed: u32, count: usize) -> Vec<u32> {
    let mut g = XorShift128::new(seed);
    (0..count).map(|_| g.next_u32()).collect()
}

#[test]
fn golden_vector_seed_one() {
    assert_eq!(
        first_outputs(1, 8),
        vec![3898016280, 503430273, 2109199260, 1781707058, 975518126, 701722591, 3929764426, 360707358]
    );
}

#[test]
fn golden_vector_seed_zero() {
    assert_eq!(
        first_outputs(0, 8),
        vec![2407135599, 70998536, 3162094942, 2962270859, 4032991095, 777478249, 1605745584, 1782875711]
    );
}

#[test]
fn golden_vector_seed_forty_two() {
    assert_eq!(
        first_outputs(42, 8),
        vec![3539567148, 3747934478, 4047202779, 3870769261, 4165031541, 5580018, 705355922, 1994553750]
    );
}

#[test]
fn same_seed_same_stream() {
    assert_eq!(first_outputs(7, 100), first_outputs(7, 100));
    assert_ne!(first_outputs(7, 100), first_outputs(8, 100));
}

#[test]
fn uniform_integers_join_two_draws() {
    let mut g = XorShift128::new(1);
    assert_eq!(g.next_u53(), 8174732595169010);
    assert_eq!(g.next_u53(), 4423311415626436);
    assert_eq!(g.next_u53(), 2045809770581439);
    // three uniforms used six integer draws
    let mut h = XorShift128::new(1);
    for _ in 0..6 {
        h.next_u32();
    }
    assert_eq!(g.words(), h.words());
}

#[test]
fn uniforms_stay_in_unit_interval() {
    for seed in [0u32, 1, 42, u32::MAX] {
        let mut g = XorShift128::new(seed);
        for _ in 0..1_000_000 {
            let u = g.next_u53();
            assert!(u < TWO_POW_53);
            let x = (u as f64) * (1.0 / 9007199254740992.0);
            assert!((0.0..1.0).contains(&x));
        }
    }
}

#[test]
fn fresh_draw_takes_four_steps_and_spare_none() {
    let mut g = XorShift128::new(1);
    let mut norm = NormalPolar::new();
    let first = norm.start(&mut g);
    assert_eq!(first, Start::Fresh(8174732595169010, 4423311415626436));
    let mut h = XorShift128::new(1);
    for _ in 0..4 {
        h.next_u32();
    }
    assert_eq!(g.words(), h.words());
    // one rejected pair: four more steps
    let retry = g.next_pair();
    for _ in 0..4 {
        h.next_u32();
    }
    assert_eq!(g.words(), h.words());
    assert_eq!(retry.0, 2045809770581439);
    norm.keep_spare(0.25f64.to_bits());
    let before = g.words();
    let second = norm.start(&mut g);
    assert_eq!(second, Start::Spare(0.25f64.to_bits()));
    assert_eq!(g.words(), before);
    assert!(!norm.has_spare);
    assert!(matches!(norm.start(&mut g), Start::Fresh(_, _)));
}
