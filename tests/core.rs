use reshotka::{
    all_succeeded, check_folded, check_same_nconfs, check_tau_window, check_thermalisation,
    count_bins, draw, draws, fit_window, gather, num_blocks, tally, FlowObservable, FlowSeries,
    Series, SetupError, SplitMix64,
};

fn is_block_structured(d: &[usize], nconfs: usize, width: usize) -> bool {
    let mut p = 0;
    while p < d.len() {
        let start = d[p];
        if start % width != 0 || start >= nconfs {
            return false;
        }
        let len = width.min(nconfs - start);
        let mut k = 0;
        while k < len && p < d.len() {
            if d[p] != start + k {
                return false;
            }
            k += 1;
            p += 1;
        }
    }
    true
}

#[test]
fn splitmix_known_outputs() {
    let mut g = SplitMix64::new(0);
    assert_eq!(g.next_u64(), 0xE220_A839_7B1D_CDAF);
    assert_eq!(g.next_u64(), 0x6E78_9E6A_A1B9_65F4);
}

#[test]
fn splitmix_same_seed_same_stream() {
    let mut a = SplitMix64::new(12345);
    let mut b = SplitMix64::new(12345);
    for _ in 0..100 {
        assert_eq!(a.next_u64(), b.next_u64());
    }
}

#[test]
fn below_stays_below() {
    let mut g = SplitMix64::new(7);
    for n in 1..200u64 {
        assert!(g.below(n) < n);
    }
}

#[test]
fn num_blocks_rounds_up() {
    assert_eq!(num_blocks(10, 3), 4);
    assert_eq!(num_blocks(9, 3), 3);
    assert_eq!(num_blocks(0, 3), 0);
    assert_eq!(num_blocks(2, 5), 1);
    assert_eq!(num_blocks(100, 10), 10);
}

#[test]
fn draw_has_nconfs_indices_in_range() {
    let mut g = SplitMix64::new(42);
    for nconfs in 0..40usize {
        for width in 1..12usize {
            let d = draw(nconfs, width, &mut g);
            assert_eq!(d.len(), nconfs);
            assert!(d.iter().all(|&i| i < nconfs));
        }
    }
}

#[test]
fn draw_is_made_of_blocks() {
    let mut g = SplitMix64::new(99);
    for _ in 0..200 {
        let d = draw(10, 3, &mut g);
        assert!(is_block_structured(&d, 10, 3));
        let d = draw(100, 10, &mut g);
        assert!(is_block_structured(&d, 100, 10));
    }
}

#[test]
fn draw_with_one_block_is_identity() {
    let mut g = SplitMix64::new(5);
    let d = draw(7, 7, &mut g);
    assert_eq!(d, vec![0, 1, 2, 3, 4, 5, 6]);
    let d = draw(4, 9, &mut g);
    assert_eq!(d, vec![0, 1, 2, 3]);
}

#[test]
fn unit_width_draw_covers_every_index() {
    let mut g = SplitMix64::new(2024);
    let mut seen = vec![false; 5];
    for _ in 0..200 {
        let d = draw(5, 1, &mut g);
        assert_eq!(d.len(), 5);
        for i in d {
            assert!(i < 5);
            seen[i] = true;
        }
    }
    assert!(seen.iter().all(|&s| s));
}

#[test]
fn draw_is_reproducible_from_seed() {
    let a = draw(50, 4, &mut SplitMix64::new(31));
    let b = draw(50, 4, &mut SplitMix64::new(31));
    assert_eq!(a, b);
}

#[test]
fn draws_one_per_trial() {
    let mut g = SplitMix64::new(1);
    let ds = draws(100, 10, 500, &mut g);
    assert_eq!(ds.len(), 500);
    for d in &ds {
        assert_eq!(d.len(), 100);
        assert!(is_block_structured(d, 100, 10));
    }
    assert!(ds.iter().any(|d| *d != ds[0]));
}

#[test]
fn gather_follows_the_draw() {
    let values = vec![10.0f64, 20.0, 30.0];
    let d = vec![2, 0, 0, 1];
    assert_eq!(gather(&values, &d), vec![30.0, 10.0, 10.0, 20.0]);
    assert_eq!(gather(&values, &vec![]), Vec::<f64>::new());
}

#[test]
fn series_rejects_ragged_rows() {
    assert!(Series::new(vec![vec![1, 2], vec![3]], 2).is_none());
    assert!(Series::new(vec![vec![1, 2], vec![3, 4]], 3).is_none());
    let s = Series::new(vec![vec![1, 2], vec![3, 4]], 2).unwrap();
    assert_eq!(s.nconfs(), 2);
    assert_eq!(s.each_len(), 2);
    assert_eq!(s.value(1, 0), 3);
}

#[test]
fn series_thermalise_drops_leading_rows() {
    let s = Series::new(vec![vec![1, 2], vec![3, 4], vec![5, 6]], 2).unwrap();
    let t = s.thermalise(2);
    assert_eq!(t.nconfs(), 1);
    assert_eq!(t.value(0, 1), 6);
    let s = Series::new(vec![vec![1], vec![2]], 1).unwrap();
    assert_eq!(s.thermalise(2).nconfs(), 0);
}

#[test]
fn resample_columns_selects_rows_per_slice() {
    let s = Series::new(vec![vec![1.0, 2.0], vec![3.0, 4.0], vec![5.0, 6.0]], 2).unwrap();
    let cols = s.resample_columns(&vec![2, 2, 0]);
    assert_eq!(cols, vec![vec![5.0, 5.0, 1.0], vec![6.0, 6.0, 2.0]]);
}

#[test]
fn shared_draw_keeps_series_aligned() {
    let a = Series::new(vec![vec![1], vec![2], vec![3], vec![4]], 1).unwrap();
    let b = Series::new(vec![vec![10], vec![20], vec![30], vec![40]], 1).unwrap();
    let d = draw(4, 2, &mut SplitMix64::new(8));
    let ca = a.resample_columns(&d);
    let cb = b.resample_columns(&d);
    for i in 0..4 {
        assert_eq!(cb[0][i], 10 * ca[0][i]);
    }
}

#[test]
fn flow_series_checks_shapes() {
    let e = Series::new(vec![vec![0.1, 0.2, 0.3], vec![0.2, 0.3, 0.4]], 3).unwrap();
    let q = Series::new(vec![vec![0.0, 0.0, 0.0], vec![1.0, 1.0, 1.0]], 3).unwrap();
    let f = FlowSeries::new(vec![0.0, 0.5, 1.0], e, q).unwrap();
    assert_eq!(f.nconfs(), 2);
    assert_eq!(f.t(), &vec![0.0, 0.5, 1.0]);
    assert_eq!(f.observable(FlowObservable::T2Esym).value(1, 2), 0.4);
    assert_eq!(f.observable(FlowObservable::TopologicalCharge).value(1, 0), 1.0);
    let f = f.thermalise(1);
    assert_eq!(f.nconfs(), 1);
    assert_eq!(f.observable(FlowObservable::T2Esym).value(0, 0), 0.2);

    let e = Series::new(vec![vec![0.1, 0.2]], 2).unwrap();
    let q = Series::new(vec![vec![0.0, 0.0]], 2).unwrap();
    assert!(FlowSeries::new(vec![0.0, 0.5, 1.0], e, q).is_none());
    let e = Series::new(vec![vec![0.1], vec![0.2]], 1).unwrap();
    let q = Series::new(vec![vec![0.0]], 1).unwrap();
    assert!(FlowSeries::new(vec![0.0], e, q).is_none());
}

#[test]
fn tally_counts_every_trial() {
    let outcomes = vec![Some(0.5), None, Some(0.25), None, None, Some(1.0)];
    let t = tally(&outcomes);
    assert_eq!(t.successes, vec![0.5, 0.25, 1.0]);
    assert_eq!(t.failures, 3);
    assert_eq!(t.successes.len() + t.failures, outcomes.len());
}

#[test]
fn tally_of_failing_resamples() {
    let mut g = SplitMix64::new(77);
    let outcomes: Vec<Option<u64>> = (0..500)
        .map(|_| {
            let x = g.below(10);
            if x < 3 { None } else { Some(x) }
        })
        .collect();
    let t = tally(&outcomes);
    assert!(t.failures > 0);
    assert_eq!(t.successes.len() + t.failures, 500);
    assert!(t.successes.iter().all(|&x| x >= 3));
}

#[test]
fn tally_of_nothing() {
    let t = tally::<f64>(&vec![]);
    assert!(t.successes.is_empty());
    assert_eq!(t.failures, 0);
}

#[test]
fn all_succeeded_needs_every_trial() {
    assert_eq!(all_succeeded(&vec![Some(1), Some(2)]), Some(vec![1, 2]));
    assert_eq!(all_succeeded(&vec![Some(1), None, Some(2)]), None);
    assert_eq!(all_succeeded::<i32>(&vec![]), Some(vec![]));
}

#[test]
fn count_bins_sums_to_len() {
    let slots = vec![0, 0, 1, 2, 2, 2, 3, 4];
    let c = count_bins(&slots, 4);
    assert_eq!(c, vec![2, 1, 3, 2]);
    assert_eq!(c.iter().sum::<usize>(), slots.len());
}

#[test]
fn count_bins_from_sorted_values() {
    let xs = vec![1.0f64, 1.5, 2.0, 2.5, 3.0, 4.0, 5.0];
    let (min, max) = (xs[0], xs[xs.len() - 1]);
    let nbins = 4;
    let width = (max - min) / nbins as f64;
    let slots: Vec<usize> = xs.iter().map(|x| ((x - min) / width).floor() as usize).collect();
    let c = count_bins(&slots, nbins);
    assert_eq!(c, vec![2, 2, 1, 2]);
    assert_eq!(c.iter().sum::<usize>(), xs.len());
}

#[test]
fn count_bins_empty_input() {
    assert_eq!(count_bins(&vec![], 3), vec![0, 0, 0]);
}

#[test]
fn setup_checks() {
    assert_eq!(check_folded(32, 17), Ok(()));
    assert_eq!(check_folded(32, 16), Err(SetupError::FoldMismatch));
    assert_eq!(check_folded(0, 0), Err(SetupError::FoldMismatch));
    assert_eq!(check_same_nconfs(10, 10), Ok(()));
    assert_eq!(check_same_nconfs(10, 9), Err(SetupError::ConfigurationCountMismatch));
    assert_eq!(check_thermalisation(5, 5), Ok(()));
    assert_eq!(check_thermalisation(6, 5), Err(SetupError::ThermalisationTooLong));
}

#[test]
fn tau_window_checks() {
    assert_eq!(check_tau_window(32, 5, 10), Ok(()));
    assert_eq!(check_tau_window(32, 1, 15), Ok(()));
    assert_eq!(check_tau_window(32, 1, 16), Err(SetupError::TauWindowOutOfRange));
    assert_eq!(check_tau_window(32, 0, 3), Err(SetupError::TauWindowOutOfRange));
    assert_eq!(check_tau_window(32, 6, 5), Err(SetupError::TauWindowOutOfRange));
    assert_eq!(check_tau_window(2, 1, 1), Err(SetupError::TauWindowOutOfRange));
}

#[test]
fn fit_window_cases() {
    let taus = vec![3, 4, 5, 6, 7];
    assert_eq!(fit_window(&taus, 4, 6), Some((1, 4)));
    assert_eq!(fit_window(&taus, 3, 7), Some((0, 5)));
    assert_eq!(fit_window(&taus, 5, 5), Some((2, 3)));
    assert_eq!(fit_window(&taus, 5, 8), None);
    assert_eq!(fit_window(&taus, 9, 9), None);
    assert_eq!(fit_window(&taus, 6, 4), None);
}
