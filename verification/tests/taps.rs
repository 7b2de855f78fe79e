use glade_desk::history::History;
use glade_desk::taps::{fold_taps, tap_polarity, Polarity};

/// Tap sum over a history as the effect forms it: each entry weighted by its
/// coefficient and by its skew times its own magnitude, entering with the
/// polarity of its tap.
fn tap_sum(history: &History<f32>, coeff: &[f32], skew: &[f32], multiplier: f32) -> f32 {
    fold_taps(history, 0.0f32, &|so_far: f32, i: usize, x: f32, polarity: Polarity| {
        let term = x * (coeff[i] * multiplier + skew[i] * multiplier * x.abs());
        match polarity {
            Polarity::Positive => so_far + term,
            Polarity::Negative => so_far - term,
        }
    })
}

fn history_of(values: &[f32]) -> History<f32> {
    let mut h = History::new(values.len(), 0.0f32);
    for v in values.iter().rev() {
        h.push(*v);
    }
    h
}

#[test]
fn eight_taps_read_plus_plus_then_alternate() {
    let got: Vec<Polarity> = (0..8).map(tap_polarity).collect();
    assert_eq!(
        got,
        vec![
            Polarity::Positive,
            Polarity::Positive,
            Polarity::Negative,
            Polarity::Positive,
            Polarity::Negative,
            Polarity::Positive,
            Polarity::Negative,
            Polarity::Positive,
        ]
    );
}

#[test]
fn two_taps_are_both_positive() {
    assert_eq!(tap_polarity(0), Polarity::Positive);
    assert_eq!(tap_polarity(1), Polarity::Positive);
}

#[test]
fn polarity_keeps_alternating_past_eight() {
    assert_eq!(tap_polarity(8), Polarity::Negative);
    assert_eq!(tap_polarity(9), Polarity::Positive);
    assert_eq!(tap_polarity(usize::MAX), Polarity::Positive);
    assert_eq!(tap_polarity(usize::MAX - 1), Polarity::Negative);
}

#[test]
fn signs_of_eight_taps_add_up_to_two() {
    let net: i32 = (0..8)
        .map(|i| match tap_polarity(i) {
            Polarity::Positive => 1,
            Polarity::Negative => -1,
        })
        .sum();
    assert_eq!(net, 2);
}

#[test]
fn signs_of_an_odd_bank_add_up_to_one() {
    let net: i32 = (0..7)
        .map(|i| match tap_polarity(i) {
            Polarity::Positive => 1,
            Polarity::Negative => -1,
        })
        .sum();
    assert_eq!(net, 1);
}

#[test]
fn equal_taps_on_a_constant_history_weigh_two_taps() {
    let h = history_of(&[1.0; 8]);
    let sum = tap_sum(&h, &[0.1; 8], &[0.0; 8], 1.0);
    assert!((sum - 0.2).abs() < 1e-6, "sum was {sum}");
}

#[test]
fn zero_taps_give_silence_whatever_the_history() {
    let h = history_of(&[1.0, -2.0, 3.5, -0.25, 1e10, -1e-10, 7.0, 0.0]);
    let sum = tap_sum(&h, &[0.0; 8], &[0.0; 8], 3.0);
    assert_eq!(sum, 0.0);
}

#[test]
fn each_tap_reads_its_own_history_slot() {
    let values = [1.0, 2.0, 4.0, 8.0, 16.0, 32.0, 64.0, 128.0];
    let h = history_of(&values);
    for i in 0..8 {
        let mut coeff = [0.0f32; 8];
        coeff[i] = 1.0;
        let expected = match i {
            2 | 4 | 6 => -values[i],
            _ => values[i],
        };
        assert_eq!(tap_sum(&h, &coeff, &[0.0; 8], 1.0), expected);
    }
}

#[test]
fn skew_weighs_a_sample_by_its_own_magnitude() {
    let h = history_of(&[-3.0, 0.0]);
    let sum = tap_sum(&h, &[0.0; 2], &[0.5, 0.0], 2.0);
    assert_eq!(sum, -3.0 * (0.5 * 2.0 * 3.0));
}

#[test]
fn fold_visits_every_tap_once_newest_first() {
    let h = history_of(&[10.0, 20.0, 30.0, 40.0]);
    let visits = std::cell::RefCell::new(Vec::new());
    let count = fold_taps(&h, 0u32, &|so_far: u32, i: usize, x: f32, polarity: Polarity| {
        visits.borrow_mut().push((so_far, i, x, polarity));
        so_far + 1
    });
    assert_eq!(count, 4);
    assert_eq!(
        visits.into_inner(),
        vec![
            (0, 0, 10.0, Polarity::Positive),
            (1, 1, 20.0, Polarity::Positive),
            (2, 2, 30.0, Polarity::Negative),
            (3, 3, 40.0, Polarity::Positive),
        ]
    );
}

#[test]
fn fold_over_an_empty_history_returns_the_start() {
    let h = History::new(0, 0.0f32);
    let sum = fold_taps(&h, 7.5f32, &|_: f32, _: usize, _: f32, _: Polarity| -> f32 {
        panic!("there is no tap to weigh")
    });
    assert_eq!(sum, 7.5);
}

#[test]
fn fold_with_inert_taps_returns_the_start() {
    let h = history_of(&[1.0, 2.0, 3.0]);
    let sum = fold_taps(&h, -4.0f32, &|so_far: f32, _: usize, _: f32, _: Polarity| so_far);
    assert_eq!(sum, -4.0);
}

#[test]
fn fold_threads_the_sum_through_in_order() {
    let h = history_of(&[1.0, 2.0, 3.0]);
    let digits = fold_taps(&h, 0.0f32, &|so_far: f32, _: usize, x: f32, _: Polarity| {
        so_far * 10.0 + x
    });
    assert_eq!(digits, 123.0);
}
