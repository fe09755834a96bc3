use allan_dev::convert::{input_to_phase, parse_data_type, DataType, PhaseSource};
use allan_dev::deviation::calc_adev_windows;
use allan_dev::errors::AllanError;
use allan_dev::results::{assemble_rows, remove_small_ns, DevStat};
use allan_dev::taus::{
    accepted_ms, decade_m_candidates, octave_m_candidates, parse_tau_mode, tau_generator, TauMode,
    TauSpacing,
};

fn bits(xs: &[f64]) -> Vec<u64> {
    xs.iter().map(|x| x.to_bits()).collect()
}

#[test]
fn parse_data_type_recognizes_tags() {
    assert_eq!(parse_data_type("phase"), Ok(DataType::Phase));
    assert_eq!(parse_data_type("freq"), Ok(DataType::Freq));
}

#[test]
fn parse_data_type_rejects_unknown_tag() {
    match parse_data_type("bogus") {
        Err(AllanError::InvalidDataType(t)) => assert_eq!(t, "bogus"),
        other => panic!("expected InvalidDataType, got {:?}", other),
    }
}

#[test]
fn convert_phase_is_identity() {
    let data = bits(&[0.0, 0.0, 1.0, 3.0, 6.0, 10.0]);
    match input_to_phase(data.clone(), "phase") {
        Ok(PhaseSource::Ready(v)) => assert_eq!(v, data),
        _ => panic!("phase data must pass through unchanged"),
    }
}

#[test]
fn convert_freq_defers_integration() {
    let data = bits(&[1.5, 2.5, 3.5]);
    match input_to_phase(data.clone(), "freq") {
        Ok(PhaseSource::NeedsIntegration(v)) => assert_eq!(v, data),
        _ => panic!("nonempty frequency data must be handed back for integration"),
    }
}

#[test]
fn convert_empty_freq_is_degenerate() {
    assert_eq!(input_to_phase(Vec::new(), "freq").err(), Some(AllanError::DegenerateInput));
}

#[test]
fn convert_unknown_tag_fails_before_numeric_work() {
    match input_to_phase(bits(&[1.0, 2.0]), "bogus") {
        Err(AllanError::InvalidDataType(t)) => assert_eq!(t, "bogus"),
        other => panic!("expected InvalidDataType, got {:?}", other),
    }
}

#[test]
fn parse_tau_mode_tags() {
    assert_eq!(parse_tau_mode(None), TauMode::Octave);
    assert_eq!(parse_tau_mode(Some("octave")), TauMode::Octave);
    assert_eq!(parse_tau_mode(Some("log10")), TauMode::Log10);
    assert_eq!(parse_tau_mode(Some("decade")), TauMode::Decade);
    assert_eq!(parse_tau_mode(Some("linear")), TauMode::Unrecognized);
}

#[test]
fn octave_ladder_of_eight() {
    // N = 8, rate = 1: raw taus 1, 2, 4, 8; m = 8 is rejected since m < N fails.
    assert_eq!(octave_m_candidates(8), vec![1, 2, 4, 8]);
    let ms = tau_generator(1.0f64.to_bits(), 8, TauSpacing::Octave, false, None).unwrap();
    assert_eq!(ms, vec![1, 2, 4]);
}

#[test]
fn octave_ladder_of_empty_series() {
    assert_eq!(octave_m_candidates(0), vec![1]);
    let ms = tau_generator(1.0f64.to_bits(), 0, TauSpacing::Octave, false, None).unwrap();
    assert_eq!(ms, Vec::<usize>::new());
}

#[test]
fn decade_ladder_of_hundred() {
    assert_eq!(decade_m_candidates(100), vec![1, 2, 4, 10, 20, 40, 100, 200, 400]);
    let ms = tau_generator(1.0f64.to_bits(), 100, TauSpacing::Decade, false, None).unwrap();
    assert_eq!(ms, vec![1, 2, 4, 10, 20, 40]);
}

#[test]
fn ladder_boundaries() {
    // The ladders stop at the last rung whose unit step fits the length.
    assert_eq!(octave_m_candidates(7), vec![1, 2, 4]);
    assert_eq!(octave_m_candidates(1), vec![1]);
    assert_eq!(decade_m_candidates(9), vec![1, 2, 4]);
    assert_eq!(decade_m_candidates(10), vec![1, 2, 4, 10, 20, 40]);
    assert_eq!(decade_m_candidates(0), vec![1, 2, 4]);
}

#[test]
fn even_only_filter() {
    let ms = tau_generator(1.0f64.to_bits(), 8, TauSpacing::Octave, true, None).unwrap();
    assert_eq!(ms, vec![2, 4]);
}

#[test]
fn maximum_m_override() {
    let ms = tau_generator(1.0f64.to_bits(), 8, TauSpacing::Octave, false, Some(3)).unwrap();
    assert_eq!(ms, vec![1, 2]);
}

#[test]
fn explicit_candidates_filtered() {
    assert_eq!(accepted_ms(&vec![0, 1, 5, 6], 6, false), vec![1, 5]);
    let ms =
        tau_generator(1.0f64.to_bits(), 10, TauSpacing::Explicit(vec![0, 1, 5, 12]), false, None)
            .unwrap();
    assert_eq!(ms, vec![1, 5]);
}

#[test]
fn zero_rate_is_invalid() {
    let r = tau_generator(0.0f64.to_bits(), 8, TauSpacing::Octave, false, None);
    assert_eq!(r, Err(AllanError::InvalidRate));
    let r = tau_generator((-0.0f64).to_bits(), 8, TauSpacing::Octave, false, None);
    assert_eq!(r, Err(AllanError::InvalidRate));
    let r = tau_generator(0.5f64.to_bits(), 8, TauSpacing::Octave, false, None);
    assert!(r.is_ok());
}

#[test]
fn short_series_is_insufficient() {
    // phase.len() < 2 * m can never form a second difference.
    for m in 1..6usize {
        for len in 0..(2 * m) {
            assert_eq!(calc_adev_windows(len, m, 1), Err(AllanError::InsufficientData));
            assert_eq!(calc_adev_windows(len, m, m), Err(AllanError::InsufficientData));
        }
    }
    // At exactly 2 * m the third subsequence is empty: still insufficient.
    assert_eq!(calc_adev_windows(4, 2, 1), Err(AllanError::InsufficientData));
}

#[test]
fn window_counts() {
    assert_eq!(calc_adev_windows(6, 1, 1), Ok(4));
    assert_eq!(calc_adev_windows(6, 2, 2), Ok(1));
    assert_eq!(calc_adev_windows(6, 2, 1), Ok(2));
    assert_eq!(calc_adev_windows(9, 2, 2), Ok(3));
}

#[test]
fn degraded_rows_are_zero() {
    let taus = bits(&[1.0, 2.0]);
    let good = DevStat { dev_bits: 3.5f64.to_bits(), err_bits: 0.5f64.to_bits(), n: 4 };
    let (t, d, e, n) = assemble_rows(&taus, &vec![Some(good), None]);
    assert_eq!(t, taus);
    assert_eq!(d, vec![3.5f64.to_bits(), 0.0f64.to_bits()]);
    assert_eq!(e, vec![0.5f64.to_bits(), 0.0f64.to_bits()]);
    assert_eq!(n, vec![4, 0]);
    assert_eq!(f64::from_bits(d[1]), 0.0);
}

#[test]
fn result_filter_drops_weak_rows() {
    let taus = bits(&[1.0, 2.0, 4.0, 8.0]);
    let devs = bits(&[0.1, 0.2, 0.3, 0.4]);
    let errs = bits(&[0.01, 0.02, 0.03, 0.04]);
    let ns = vec![4usize, 1, 2, 0];
    let (t, d, e, n) = remove_small_ns(&taus, &devs, &errs, &ns);
    assert_eq!(t, bits(&[1.0, 4.0]));
    assert_eq!(d, bits(&[0.1, 0.3]));
    assert_eq!(e, bits(&[0.01, 0.03]));
    assert_eq!(n, vec![4, 2]);
    assert!(n.len() <= ns.len());
    assert!(n.iter().all(|&k| k > 1));
}

// The deviation statistic as a caller computes it, over the window count the
// library establishes.
fn dev_and_err(phase: &[f64], rate: f64, m: usize, stride: usize) -> Option<(f64, f64)> {
    let n = calc_adev_windows(phase.len(), m, stride).ok()?;
    let mut s = 0.0;
    for i in 0..n {
        let v = phase[2 * m + i * stride] - 2.0 * phase[m + i * stride] + phase[i * stride];
        s += v * v;
    }
    let dev = (s / (2.0 * n as f64)).sqrt() / m as f64 * rate;
    Some((dev, dev / (n as f64).sqrt()))
}

#[test]
fn overlapped_error_not_larger() {
    // Fixed synthetic white-phase-noise-like series: at every factor where
    // both estimators have windows, the overlapped uncertainty is no larger.
    let phase = [0.0, 0.4, -0.3, 0.2, -0.1, 0.5, -0.4, 0.1, 0.3, -0.2];
    for m in 1..5usize {
        if let (Some((_, err_over)), Some((_, err_plain))) =
            (dev_and_err(&phase, 1.0, m, 1), dev_and_err(&phase, 1.0, m, m))
        {
            assert!(err_over <= err_plain, "m = {}: {} > {}", m, err_over, err_plain);
            assert!(err_over.is_finite() && err_plain.is_finite());
        }
    }
}

#[test]
fn end_to_end_row_counts() {
    // Phase series [0, 0, 1, 3, 6, 10], rate 1: the overlapped estimator keeps
    // at least as many rows as the non-overlapping one.
    let phase = bits(&[0.0, 0.0, 1.0, 3.0, 6.0, 10.0]);
    let rate_bits = 1.0f64.to_bits();
    let run = |overlapped: bool| -> Vec<usize> {
        let ms =
            tau_generator(rate_bits, phase.len(), TauSpacing::Octave, false, None).unwrap();
        let taus_used: Vec<u64> = ms.iter().map(|&m| (m as f64 / 1.0).to_bits()).collect();
        let outcomes: Vec<Option<DevStat>> = ms
            .iter()
            .map(|&m| {
                let stride = if overlapped { 1 } else { m };
                match calc_adev_windows(phase.len(), m, stride) {
                    Ok(n) => Some(DevStat { dev_bits: 0, err_bits: 0, n }),
                    Err(_) => None,
                }
            })
            .collect();
        let (t, d, e, n) = assemble_rows(&taus_used, &outcomes);
        let (_, _, _, kept) = remove_small_ns(&t, &d, &e, &n);
        kept
    };
    let adev_rows = run(false);
    let oadev_rows = run(true);
    assert_eq!(adev_rows, vec![4]);
    assert_eq!(oadev_rows, vec![4, 2]);
    assert!(oadev_rows.len() >= adev_rows.len());
}
