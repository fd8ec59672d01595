use crate::stats::{decimal_chars, push_decimal};
use vstd::prelude::*;
use vstd::string::*;

verus! {

/// Where the autocorrelation of one antenna at one fine channel lies: in a
/// coarse channel's visibility buffer, ordered
/// `[baseline][fine channel][polarisation][real, imaginary]`, and in the
/// observation's list of fine channel frequencies.
#[derive(Clone, Copy, Debug, PartialEq, Eq, Structural)]
pub struct AutoSample {
    /// The antenna, correlated with itself.
    pub ant: usize,
    /// The fine channel within the coarse channel.
    pub fine_chan: usize,
    /// Index of the sample's first value (XX real) in the visibility buffer.
    pub data_index: usize,
    /// Index of the fine channel's frequency among all fine channels.
    pub freq_index: usize,
}

/// The sample of fine channel `f` of baseline `bl`.
pub open spec fn auto_sample(
    bl: int,
    ant: usize,
    f: int,
    coarse_chan_index: int,
    num_fine_chans: int,
    num_pols: int,
) -> AutoSample {
    AutoSample {
        ant,
        fine_chan: f as usize,
        data_index: (bl * (num_fine_chans * num_pols * 2) + f * (num_pols * 2)) as usize,
        freq_index: (coarse_chan_index * num_fine_chans + f) as usize,
    }
}

/// The samples of every fine channel of every baseline of `baselines` that
/// pairs an antenna with itself, in baseline order, then fine channel order.
pub open spec fn auto_samples(
    baselines: Seq<(usize, usize)>,
    coarse_chan_index: int,
    num_fine_chans: int,
    num_pols: int,
) -> Seq<AutoSample>
    decreases baselines.len(),
{
    if baselines.len() == 0 {
        Seq::empty()
    } else {
        let bl = baselines.len() - 1;
        let (ant1, ant2) = baselines.last();
        auto_samples(baselines.drop_last(), coarse_chan_index, num_fine_chans, num_pols) + if ant1
            == ant2 {
            Seq::new(
                num_fine_chans as nat,
                |f: int| auto_sample(bl, ant1, f, coarse_chan_index, num_fine_chans, num_pols),
            )
        } else {
            Seq::empty()
        }
    }
}

/// Lists where the autocorrelations of a coarse channel lie: for each
/// baseline `(ant1, ant2)` with `ant1 == ant2`, in order, one sample per
/// fine channel.
pub fn autocorrelation_samples(
    baselines: &Vec<(usize, usize)>,
    coarse_chan_index: usize,
    num_fine_chans: usize,
    num_pols: usize,
) -> (r: Vec<AutoSample>)
    requires
        num_pols * 2 <= usize::MAX,
        num_fine_chans * num_pols * 2 <= usize::MAX,
        baselines@.len() * (num_fine_chans * num_pols * 2) <= usize::MAX,
        coarse_chan_index * num_fine_chans + num_fine_chans <= usize::MAX,
    ensures
        r@ == auto_samples(
            baselines@,
            coarse_chan_index as int,
            num_fine_chans as int,
            num_pols as int,
        ),
{
    let ghost stride = num_fine_chans * num_pols * 2;
    let bl_stride: usize = num_fine_chans * num_pols * 2;
    let chan_stride: usize = num_pols * 2;
    let freq_start: usize = coarse_chan_index * num_fine_chans;
    let mut samples: Vec<AutoSample> = Vec::new();
    let mut bl: usize = 0;
    while bl < baselines.len()
        invariant
            bl <= baselines@.len(),
            bl_stride == stride,
            stride == num_fine_chans * num_pols * 2,
            chan_stride == num_pols * 2,
            freq_start == coarse_chan_index * num_fine_chans,
            baselines@.len() * stride <= usize::MAX,
            freq_start + num_fine_chans <= usize::MAX,
            samples@ == auto_samples(
                baselines@.subrange(0, bl as int),
                coarse_chan_index as int,
                num_fine_chans as int,
                num_pols as int,
            ),
        decreases baselines@.len() - bl,
    {
        let (ant1, ant2) = baselines[bl];
        proof {
            assert(baselines@.subrange(0, bl + 1).drop_last() =~= baselines@.subrange(0, bl as int));
            assert(bl * stride + stride <= baselines@.len() * stride) by (nonlinear_arith)
                requires
                    bl + 1 <= baselines@.len(),
                    0 <= stride,
            ;
        }
        if ant1 == ant2 {
            let ghost before = samples@;
            let base: usize = bl * bl_stride;
            let mut f: usize = 0;
            while f < num_fine_chans
                invariant
                    bl < baselines@.len(),
                    baselines@[bl as int] == (ant1, ant2),
                    ant1 == ant2,
                    f <= num_fine_chans,
                    base == bl * stride,
                    base + stride <= usize::MAX,
                    stride == num_fine_chans * num_pols * 2,
                    chan_stride == num_pols * 2,
                    freq_start == coarse_chan_index * num_fine_chans,
                    freq_start + num_fine_chans <= usize::MAX,
                    samples@ == before + Seq::new(
                        f as nat,
                        |g: int|
                            auto_sample(
                                bl as int,
                                ant1,
                                g,
                                coarse_chan_index as int,
                                num_fine_chans as int,
                                num_pols as int,
                            ),
                    ),
                decreases num_fine_chans - f,
            {
                proof {
                    assert(f * chan_stride + chan_stride <= stride) by (nonlinear_arith)
                        requires
                            f + 1 <= num_fine_chans,
                            chan_stride == num_pols * 2,
                            stride == num_fine_chans * num_pols * 2,
                    ;
                }
                let sample = AutoSample {
                    ant: ant1,
                    fine_chan: f,
                    data_index: base + f * chan_stride,
                    freq_index: freq_start + f,
                };
                samples.push(sample);
                f = f + 1;
                assert(samples@ =~= before + Seq::new(
                    f as nat,
                    |g: int|
                        auto_sample(
                            bl as int,
                            ant1,
                            g,
                            coarse_chan_index as int,
                            num_fine_chans as int,
                            num_pols as int,
                        ),
                ));
            }
        } else {
            assert(samples@ =~= samples@ + Seq::<AutoSample>::empty());
        }
        bl = bl + 1;
    }
    assert(baselines@.subrange(0, bl as int) =~= baselines@);
    samples
}

/// The name of an observation's statistics file of one kind (`autos` or
/// `fringes`): `<obs_id>_<kind>_<fine channels>chans_<antennas>T_ch<receiver channel>.dat`.
pub open spec fn stats_filename(
    obs_id: nat,
    kind: Seq<char>,
    num_fine_chans: nat,
    num_ants: nat,
    rec_chan: nat,
) -> Seq<char> {
    decimal_chars(obs_id) + "_"@ + kind + "_"@ + decimal_chars(num_fine_chans) + "chans_"@
        + decimal_chars(num_ants) + "T_ch"@ + decimal_chars(rec_chan) + ".dat"@
}

fn observation_filename(
    obs_id: u32,
    kind: &str,
    num_fine_chans: usize,
    num_ants: usize,
    rec_chan: usize,
) -> (r: String)
    ensures
        r@ == stats_filename(
            obs_id as nat,
            kind@,
            num_fine_chans as nat,
            num_ants as nat,
            rec_chan as nat,
        ),
{
    let mut name = String::new();
    push_decimal(&mut name, obs_id as usize);
    name.append("_");
    name.append(kind);
    name.append("_");
    push_decimal(&mut name, num_fine_chans);
    name.append("chans_");
    push_decimal(&mut name, num_ants);
    name.append("T_ch");
    push_decimal(&mut name, rec_chan);
    name.append(".dat");
    name
}

/// The name of an observation's autocorrelation statistics file.
pub fn autos_filename(obs_id: u32, num_fine_chans: usize, num_ants: usize, rec_chan: usize) -> (r:
    String)
    ensures
        r@ == stats_filename(
            obs_id as nat,
            "autos"@,
            num_fine_chans as nat,
            num_ants as nat,
            rec_chan as nat,
        ),
{
    observation_filename(obs_id, "autos", num_fine_chans, num_ants, rec_chan)
}

/// The name of an observation's fringe statistics file.
pub fn fringes_filename(obs_id: u32, num_fine_chans: usize, num_ants: usize, rec_chan: usize) -> (r:
    String)
    ensures
        r@ == stats_filename(
            obs_id as nat,
            "fringes"@,
            num_fine_chans as nat,
            num_ants as nat,
            rec_chan as nat,
        ),
{
    observation_filename(obs_id, "fringes", num_fine_chans, num_ants, rec_chan)
}

} // verus!
