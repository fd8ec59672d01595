use core::ops::Range;
use vstd::prelude::*;

verus! {

/// Why no timestep and coarse channel range could be chosen.
#[derive(Clone, Copy, Debug, PartialEq, Eq, Structural)]
pub enum MwaxStatsError {
    /// Any common timestep was allowed, but the observation has none.
    NoCommonGoodTimestepCCFound,
    /// Only common good timesteps were allowed, and the observation has none.
    NoCommonTimestepCCFound,
}

/// The timestep and coarse channel indices of an observation that range
/// selection reads, and the size of one timestep of one coarse channel.
#[derive(Clone, Debug)]
pub struct ObservationIndices {
    /// Timesteps that every coarse channel has, after the quack time.
    pub common_good_timestep_indices: Vec<usize>,
    /// Coarse channels that have every common good timestep.
    pub common_good_coarse_chan_indices: Vec<usize>,
    /// Timesteps that every coarse channel has.
    pub common_timestep_indices: Vec<usize>,
    /// Coarse channels that have every common timestep.
    pub common_coarse_chan_indices: Vec<usize>,
    /// Bytes of one timestep of one coarse channel.
    pub num_timestep_coarse_chan_bytes: usize,
}

/// The number of indices in `start..end`.
pub open spec fn span_len(start: int, end: int) -> int {
    if end > start {
        end - start
    } else {
        0
    }
}

/// The range from the first index of a list to one past its last.
pub open spec fn index_span(v: Seq<usize>) -> (int, int) {
    (v[0] as int, v.last() + 1)
}

impl ObservationIndices {
    /// Every index list can be turned into a range, and the coarse channel
    /// list that goes with a non-empty timestep list is not empty.
    pub open spec fn wf(&self) -> bool {
        &&& self.common_good_timestep_indices@.len() > 0
            ==> self.common_good_coarse_chan_indices@.len() > 0
        &&& self.common_timestep_indices@.len() > 0 ==> self.common_coarse_chan_indices@.len() > 0
        &&& forall|i: int|
            0 <= i < self.common_good_timestep_indices@.len()
                ==> #[trigger] self.common_good_timestep_indices@[i] < usize::MAX
        &&& forall|i: int|
            0 <= i < self.common_good_coarse_chan_indices@.len()
                ==> #[trigger] self.common_good_coarse_chan_indices@[i] < usize::MAX
        &&& forall|i: int|
            0 <= i < self.common_timestep_indices@.len()
                ==> #[trigger] self.common_timestep_indices@[i] < usize::MAX
        &&& forall|i: int|
            0 <= i < self.common_coarse_chan_indices@.len()
                ==> #[trigger] self.common_coarse_chan_indices@[i] < usize::MAX
    }

    /// The timestep and coarse channel ranges before any memory limit:
    /// the common good ones where there are any, else the common ones where
    /// `use_any_timestep` allows them.
    pub open spec fn spec_ranges(&self, use_any_timestep: bool) -> Result<
        ((int, int), (int, int)),
        MwaxStatsError,
    > {
        if self.common_good_timestep_indices@.len() > 0 {
            Ok(
                (
                    index_span(self.common_good_timestep_indices@),
                    index_span(self.common_good_coarse_chan_indices@),
                ),
            )
        } else if !use_any_timestep {
            Err(MwaxStatsError::NoCommonTimestepCCFound)
        } else if self.common_timestep_indices@.len() > 0 {
            Ok(
                (
                    index_span(self.common_timestep_indices@),
                    index_span(self.common_coarse_chan_indices@),
                ),
            )
        } else {
            Err(MwaxStatsError::NoCommonGoodTimestepCCFound)
        }
    }
}

/// The timestep range cut so that its timesteps of every chosen coarse
/// channel fit in `limit` bytes, where `ts_bytes` is one timestep's size.
pub open spec fn limit_timesteps(ts: (int, int), ts_bytes: int, limit: Option<usize>) -> (int, int) {
    match limit {
        Some(l) => if span_len(ts.0, ts.1) > (l as int) / ts_bytes {
            (ts.0, ts.1 - (span_len(ts.0, ts.1) - (l as int) / ts_bytes))
        } else {
            ts
        },
        None => ts,
    }
}

/// Chooses the timestep and coarse channel ranges to read.
///
/// The common good timesteps and coarse channels are taken where there are
/// any; otherwise, where `use_any_timestep` is set, the common ones. Each
/// range runs from the first index of its list to one past the last. With a
/// memory limit (in bytes), the timestep range is cut from its end until its
/// timesteps of all chosen coarse channels fit in the limit.
pub fn get_timesteps_coarse_chan_ranges(
    context: &ObservationIndices,
    use_any_timestep: bool,
    memory_limit_bytes: Option<usize>,
) -> (r: Result<(Range<usize>, Range<usize>), MwaxStatsError>)
    requires
        context.wf(),
        memory_limit_bytes is Some ==> match context.spec_ranges(use_any_timestep) {
            Ok((_, cc)) => 0 < context.num_timestep_coarse_chan_bytes * span_len(cc.0, cc.1)
                <= usize::MAX,
            Err(_) => true,
        },
    ensures
        match context.spec_ranges(use_any_timestep) {
            Ok((ts, cc)) => r matches Ok((ts_range, cc_range)) && cc_range.start == cc.0
                && cc_range.end == cc.1 && (ts_range.start as int, ts_range.end as int)
                == limit_timesteps(
                ts,
                context.num_timestep_coarse_chan_bytes * span_len(cc.0, cc.1),
                memory_limit_bytes,
            ),
            Err(e) => r == Err::<(Range<usize>, Range<usize>), MwaxStatsError>(e),
        },
{
    let (ts_list, cc_list) = if context.common_good_timestep_indices.len() > 0 {
        (&context.common_good_timestep_indices, &context.common_good_coarse_chan_indices)
    } else if !use_any_timestep {
        return Err(MwaxStatsError::NoCommonTimestepCCFound);
    } else if context.common_timestep_indices.len() > 0 {
        (&context.common_timestep_indices, &context.common_coarse_chan_indices)
    } else {
        return Err(MwaxStatsError::NoCommonGoodTimestepCCFound);
    };
    let mut timesteps: Range<usize> = Range { start: ts_list[0], end: ts_list[ts_list.len() - 1] + 1 };
    let coarse_chans: Range<usize> = Range {
        start: cc_list[0],
        end: cc_list[cc_list.len() - 1] + 1,
    };
    if let Some(limit) = memory_limit_bytes {
        let cc_len: usize = if coarse_chans.end > coarse_chans.start {
            coarse_chans.end - coarse_chans.start
        } else {
            0
        };
        let ts_bytes: usize = context.num_timestep_coarse_chan_bytes * cc_len;
        let fits: usize = limit / ts_bytes;
        let ts_len: usize = if timesteps.end > timesteps.start {
            timesteps.end - timesteps.start
        } else {
            0
        };
        if ts_len > fits {
            timesteps.end = timesteps.end - (ts_len - fits);
        }
    }
    Ok((timesteps, coarse_chans))
}

} // verus!
