use mwax_stats::{get_timesteps_coarse_chan_ranges, MwaxStatsError, ObservationIndices};

// One timestep, inside the quack time: no common good timesteps, one common
// timestep (index 0) on coarse channel index 10.
fn one_timestep_in_quacktime() -> ObservationIndices {
    ObservationIndices {
        common_good_timestep_indices: vec![],
        common_good_coarse_chan_indices: vec![],
        common_timestep_indices: vec![0],
        common_coarse_chan_indices: vec![10],
        num_timestep_coarse_chan_bytes: 1024,
    }
}

#[test]
fn test_get_timesteps_coarse_chan_ranges_no_common_good() {
    let context = one_timestep_in_quacktime();

    let result1 = get_timesteps_coarse_chan_ranges(&context, false, None);
    assert!(result1.is_err());
}

#[test]
fn test_get_timesteps_coarse_chan_ranges_good() {
    let context = one_timestep_in_quacktime();

    let result = get_timesteps_coarse_chan_ranges(&context, true, None);
    assert!(result.is_ok());
    let (ts_range, cc_range) = result.unwrap();

    assert_eq!(ts_range.len(), 1);
    assert_eq!(ts_range.start, 0);
    assert_eq!(ts_range.end, 1);

    assert_eq!(cc_range.len(), 1);
    assert_eq!(cc_range.start, 10);
    assert_eq!(cc_range.end, 11);
}

#[test]
fn selection_error_kinds() {
    let context = one_timestep_in_quacktime();
    assert_eq!(
        get_timesteps_coarse_chan_ranges(&context, false, None).unwrap_err(),
        MwaxStatsError::NoCommonTimestepCCFound
    );
    let empty = ObservationIndices {
        common_good_timestep_indices: vec![],
        common_good_coarse_chan_indices: vec![],
        common_timestep_indices: vec![],
        common_coarse_chan_indices: vec![],
        num_timestep_coarse_chan_bytes: 1024,
    };
    assert_eq!(
        get_timesteps_coarse_chan_ranges(&empty, true, None).unwrap_err(),
        MwaxStatsError::NoCommonGoodTimestepCCFound
    );
}

#[test]
fn common_good_ranges_are_preferred() {
    let context = ObservationIndices {
        common_good_timestep_indices: vec![2, 3, 4, 5],
        common_good_coarse_chan_indices: vec![0, 1, 2],
        common_timestep_indices: vec![0, 1, 2, 3, 4, 5],
        common_coarse_chan_indices: vec![0, 1, 2],
        num_timestep_coarse_chan_bytes: 100,
    };
    let (ts, cc) = get_timesteps_coarse_chan_ranges(&context, true, None).unwrap();
    assert_eq!(ts, 2..6);
    assert_eq!(cc, 0..3);
}

#[test]
fn memory_limit_cuts_timesteps() {
    let context = ObservationIndices {
        common_good_timestep_indices: vec![2, 3, 4, 5],
        common_good_coarse_chan_indices: vec![0, 1, 2],
        common_timestep_indices: vec![0, 1, 2, 3, 4, 5],
        common_coarse_chan_indices: vec![0, 1, 2],
        num_timestep_coarse_chan_bytes: 100,
    };
    // one timestep of three coarse channels is 300 bytes: 650 bytes hold two
    let (ts, cc) = get_timesteps_coarse_chan_ranges(&context, false, Some(650)).unwrap();
    assert_eq!(ts, 2..4);
    assert_eq!(cc, 0..3);
    let (ts, _) = get_timesteps_coarse_chan_ranges(&context, false, Some(10_000)).unwrap();
    assert_eq!(ts, 2..6);
    let (ts, _) = get_timesteps_coarse_chan_ranges(&context, false, Some(100)).unwrap();
    assert_eq!(ts, 2..2);
}
