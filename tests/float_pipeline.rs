// Runs the floating-point folds over the library's plans, as a caller does,
// and checks the numbers.
use alpha_signal::detector::{detect, Reading};
use alpha_signal::kernel::kernel_exponent;
use alpha_signal::pipeline::{plan_pipeline, StagePlan, LONG_BANDWIDTH, SHORT_BANDWIDTH};
use alpha_signal::window::Span;

fn span_mean(v: &[f64], s: &Span) -> f64 {
    v[s.start..s.end].iter().sum::<f64>() / (s.end - s.start) as f64
}

fn mean(v: &[f64], plan: &[Option<Span>]) -> Vec<f64> {
    plan.iter().enumerate().map(|(i, w)| w.map_or(v[i], |s| span_mean(v, &s))).collect()
}

fn std_dev(v: &[f64], plan: &[Option<Span>]) -> Vec<f64> {
    plan.iter()
        .map(|w| match w {
            None => 0.0,
            Some(s) => {
                let m = span_mean(v, s);
                let sum: f64 = v[s.start..s.end].iter().map(|x| (x - m).powi(2)).sum();
                (sum / (s.end - s.start) as f64).sqrt()
            }
        })
        .collect()
}

fn diff(v: &[f64], plan: &[Option<usize>]) -> Vec<f64> {
    plan.iter().enumerate().map(|(i, p)| p.map_or(0.0, |j| v[i] - v[j])).collect()
}

fn smooth(v: &[f64], plan: &[Span], b: usize) -> Vec<f64> {
    plan.iter()
        .enumerate()
        .map(|(i, s)| {
            let (mut num, mut den) = (0.0, 0.0);
            for j in s.start..s.end {
                let e = kernel_exponent(i, j, b);
                let w = (-(e.num as f64) / e.den as f64).exp();
                num += v[j] * w;
                den += w;
            }
            num / (den + 1e-9)
        })
        .collect()
}

struct Run {
    mean: Vec<f64>,
    std_dev: Vec<f64>,
    alpha: Vec<f64>,
    cumulative: Vec<f64>,
    calpha: Vec<f64>,
    calpha2: Vec<f64>,
    buy_sell: Vec<i8>,
}

fn run(close: &[f64], window: usize) -> Run {
    let p: StagePlan = plan_pipeline(close.len(), window).unwrap();
    let m = mean(close, &p.price_windows);
    let s = std_dev(close, &p.price_windows);
    let alpha: Vec<f64> = (0..close.len()).map(|i| -(close[i] - m[i]) / (s[i] + 1e-6)).collect();
    let mut cumulative = vec![];
    let mut acc = 0.0;
    for a in &alpha {
        acc += a;
        cumulative.push(acc);
    }
    let cm = mean(&cumulative, &p.calpha_windows);
    let detrended: Vec<f64> = cumulative.iter().zip(&cm).map(|(x, y)| x - y).collect();
    let grad = diff(&detrended, &p.gradient);
    let calpha = smooth(&grad, &p.short_support, SHORT_BANDWIDTH);
    let calpha2 = smooth(&grad, &p.long_support, LONG_BANDWIDTH);
    let readings: Vec<Reading> = calpha
        .iter()
        .map(|x| if *x < 0.0 { Reading::Below } else if *x >= 0.0 { Reading::AtOrAbove } else { Reading::Unordered })
        .collect();
    let buy_sell = detect(&readings).iter().map(|e| e.value()).collect();
    Run { mean: m, std_dev: s, alpha, cumulative, calpha, calpha2, buy_sell }
}

#[test]
fn end_to_end_flat_series_with_one_spike() {
    let close = [10.0, 10.0, 10.0, 10.0, 10.0, 12.0, 8.0, 10.0, 10.0, 10.0];
    let r = run(&close, 5);
    for i in 0..5 {
        assert_eq!(r.mean[i], close[i]);
        assert_eq!(r.std_dev[i], 0.0);
        assert_eq!(r.alpha[i], 0.0);
    }
    assert_eq!(r.mean[5], 10.0);
    assert_eq!(r.std_dev[5], 0.0);
    assert!((r.alpha[5] + 2.0e6).abs() < 1e-6);
    assert!(r.alpha.iter().all(|a| a.is_finite()));
    assert!((r.mean[6] - 10.4).abs() < 1e-12);
    assert!((r.std_dev[6] - 0.8).abs() < 1e-12);
    assert!((r.std_dev[7] - 1.6f64.sqrt()).abs() < 1e-12);
    assert!(r.calpha.iter().all(|x| *x == 0.0));
    assert!(r.calpha2.iter().all(|x| *x == 0.0));
    assert_eq!(r.buy_sell, vec![0; 10]);
    let again = run(&close, 5);
    assert_eq!(again.buy_sell, r.buy_sell);
}

#[test]
fn every_stage_keeps_the_length() {
    let close: Vec<f64> = (0..73).map(|i| 100.0 + (i as f64 * 0.3).sin() * 5.0).collect();
    let r = run(&close, 5);
    for len in [r.mean.len(), r.std_dev.len(), r.alpha.len(), r.calpha.len(), r.calpha2.len(), r.buy_sell.len()] {
        assert_eq!(len, close.len());
    }
}

#[test]
fn constant_series_has_zero_std_dev_and_finite_alpha() {
    let close = vec![42.5; 30];
    let r = run(&close, 5);
    assert!(r.std_dev.iter().all(|s| *s == 0.0));
    assert!(r.alpha.iter().all(|a| a.is_finite() && *a == 0.0));
}

#[test]
fn cumulative_alpha_matches_prefix_sums() {
    let close: Vec<f64> = (0..50).map(|i| 20.0 + ((i * 7) % 11) as f64).collect();
    let r = run(&close, 5);
    for i in 0..close.len() {
        let direct: f64 = r.alpha[..=i].iter().sum();
        assert!((r.cumulative[i] - direct).abs() <= 1e-9 * (1.0 + direct.abs()));
    }
}

#[test]
fn smoothing_at_a_symmetric_window_matches_manual_average() {
    // A series symmetric about index 20, far from both ends for bandwidth 2.
    let v: Vec<f64> = (0..41).map(|i: i32| ((i - 20) as f64).abs().sqrt()).collect();
    let plan: Vec<Span> = alpha_signal::kernel::smoothing_plan(v.len(), 2);
    let out = smooth(&v, &plan, 2);
    let (mut num, mut den) = (0.0, 0.0);
    for d in -6i32..=6 {
        let w = (-(d * d) as f64 / 8.0).exp();
        num += v[(20 + d) as usize] * w;
        den += w;
    }
    assert!((out[20] - num / (den + 1e-9)).abs() < 1e-9);
}

#[test]
fn oscillating_series_gives_alternating_events() {
    let close: Vec<f64> = (0..200).map(|i| 50.0 + (i as f64 * 0.15).sin() * 4.0 + (i % 3) as f64 * 0.1).collect();
    let r = run(&close, 5);
    let fired: Vec<i8> = r.buy_sell.iter().copied().filter(|e| *e != 0).collect();
    assert!(!fired.is_empty());
    for (k, e) in fired.iter().enumerate() {
        assert_eq!(*e, if k % 2 == 0 { 1 } else { -1 });
    }
}
