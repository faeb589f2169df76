use vstd::prelude::*;

use crate::types::{CalcDigitalCutoffsErrs, IntensityCutoffs, SampledLightIntensity};

verus! {

// Threshold calibration: the mean intensity splits the samples into a dark
// and a light population; the two cutoffs sit a quarter and three quarters
// of the way between the two population means.

/// Total intensity of a sample batch.
pub open spec fn isum(s: Seq<SampledLightIntensity>) -> int
    decreases s.len(),
{
    if s.len() == 0 {
        0
    } else {
        isum(s.drop_last()) + s.last().intensity
    }
}

/// How many samples sit at or below the mean.
pub open spec fn cnt_low(s: Seq<SampledLightIntensity>, avg: int) -> int
    decreases s.len(),
{
    if s.len() == 0 {
        0
    } else {
        cnt_low(s.drop_last(), avg) + if s.last().intensity <= avg {
            1int
        } else {
            0int
        }
    }
}

/// Total intensity of the samples at or below the mean.
pub open spec fn sum_low(s: Seq<SampledLightIntensity>, avg: int) -> int
    decreases s.len(),
{
    if s.len() == 0 {
        0
    } else {
        sum_low(s.drop_last(), avg) + if s.last().intensity <= avg {
            s.last().intensity as int
        } else {
            0int
        }
    }
}

/// How many samples sit above the mean.
pub open spec fn cnt_high(s: Seq<SampledLightIntensity>, avg: int) -> int
    decreases s.len(),
{
    if s.len() == 0 {
        0
    } else {
        cnt_high(s.drop_last(), avg) + if s.last().intensity > avg {
            1int
        } else {
            0int
        }
    }
}

/// Total intensity of the samples above the mean.
pub open spec fn sum_high(s: Seq<SampledLightIntensity>, avg: int) -> int
    decreases s.len(),
{
    if s.len() == 0 {
        0
    } else {
        sum_high(s.drop_last(), avg) + if s.last().intensity > avg {
            s.last().intensity as int
        } else {
            0int
        }
    }
}

/// What calibration returns on a sample batch: the two hysteresis cutoffs,
/// or the error naming what the batch lacked.
pub open spec fn cutoffs_of(s: Seq<SampledLightIntensity>) -> Result<
    IntensityCutoffs,
    CalcDigitalCutoffsErrs,
> {
    if s.len() == 0 {
        Err(CalcDigitalCutoffsErrs::NoIntensities)
    } else {
        let avg = isum(s) / s.len() as int;
        if cnt_low(s, avg) == 0 {
            Err(CalcDigitalCutoffsErrs::NoLows)
        } else if cnt_high(s, avg) == 0 {
            Err(CalcDigitalCutoffsErrs::NoHighs)
        } else {
            let lows_avg = sum_low(s, avg) / cnt_low(s, avg);
            let highs_avg = sum_high(s, avg) / cnt_high(s, avg);
            let diff = highs_avg - lows_avg;
            Ok(
                IntensityCutoffs {
                    low: (lows_avg + diff / 4) as u16,
                    high: (lows_avg + 3 * diff / 4) as u16,
                },
            )
        }
    }
}

/// Derives the dark/light hysteresis cutoffs of a sample batch, exactly as
/// `cutoffs_of` describes.
pub fn calc_digital_cutoffs(intensities: &[SampledLightIntensity]) -> (r: Result<
    IntensityCutoffs,
    CalcDigitalCutoffsErrs,
>)
    ensures
        r == cutoffs_of(intensities@),
{
    let n = intensities.len();
    let mut intensity_sum: u128 = 0;
    let mut i: usize = 0;
    while i < n
        invariant
            n == intensities@.len(),
            i <= n,
            intensity_sum == isum(intensities@.subrange(0, i as int)),
            intensity_sum <= i * 0xFFFF,
        decreases n - i,
    {
        let li = intensities[i].intensity;
        proof {
            assert(intensities@.subrange(0, i + 1).drop_last() =~= intensities@.subrange(
                0,
                i as int,
            ));
            assert((i + 1) * 0xFFFF == i * 0xFFFF + 0xFFFF) by (nonlinear_arith);
            assert((i as int + 1) * 0xFFFF <= 0x10000000000000000 * 0xFFFF) by (nonlinear_arith)
                requires
                    i as int + 1 <= 0x10000000000000000,
            ;
        }
        intensity_sum = intensity_sum + li as u128;
        i += 1;
    }
    proof {
        assert(intensities@.subrange(0, n as int) =~= intensities@);
    }

    if n == 0 {
        return Err(CalcDigitalCutoffsErrs::NoIntensities);
    }

    let intensity_avg: u128 = intensity_sum / (n as u128);
    let ghost avg = isum(intensities@) / intensities@.len() as int;
    proof {
        assert(intensity_avg == avg);
        assert(intensity_avg <= 0xFFFF) by (nonlinear_arith)
            requires
                intensity_sum <= n * 0xFFFF,
                intensity_avg == intensity_sum / (n as u128),
                0 < n,
        ;
    }

    let mut lows: (u128, u128) = (0, 0);
    let mut highs: (u128, u128) = (0, 0);
    let mut j: usize = 0;
    while j < n
        invariant
            n == intensities@.len(),
            j <= n,
            intensity_avg == avg,
            intensity_avg <= 0xFFFF,
            lows.0 == cnt_low(intensities@.subrange(0, j as int), avg),
            lows.1 == sum_low(intensities@.subrange(0, j as int), avg),
            highs.0 == cnt_high(intensities@.subrange(0, j as int), avg),
            highs.1 == sum_high(intensities@.subrange(0, j as int), avg),
            lows.0 <= j && highs.0 <= j,
            lows.1 <= lows.0 * 0xFFFF,
            highs.1 <= highs.0 * 0xFFFF,
            lows.1 <= lows.0 * avg,
            highs.1 >= highs.0 * (avg + 1),
        decreases n - j,
    {
        let li = intensities[j].intensity as u128;
        proof {
            assert(intensities@.subrange(0, j + 1).drop_last() =~= intensities@.subrange(
                0,
                j as int,
            ));
            assert((lows.0 + 1) * 0xFFFF == lows.0 * 0xFFFF + 0xFFFF) by (nonlinear_arith);
            assert((highs.0 + 1) * 0xFFFF == highs.0 * 0xFFFF + 0xFFFF) by (nonlinear_arith);
            assert((lows.0 + 1) * avg == lows.0 * avg + avg) by (nonlinear_arith);
            assert((highs.0 + 1) * (avg + 1) == highs.0 * (avg + 1) + (avg + 1))
                by (nonlinear_arith);
            assert((lows.0 as int + 1) * 0xFFFF <= 0x10000000000000000 * 0xFFFF)
                by (nonlinear_arith)
                requires
                    lows.0 as int + 1 <= 0x10000000000000000,
            ;
            assert((highs.0 as int + 1) * 0xFFFF <= 0x10000000000000000 * 0xFFFF)
                by (nonlinear_arith)
                requires
                    highs.0 as int + 1 <= 0x10000000000000000,
            ;
        }
        if li > intensity_avg {
            highs = (highs.0 + 1, highs.1 + li);
        } else {
            lows = (lows.0 + 1, lows.1 + li);
        }
        j += 1;
    }
    proof {
        assert(intensities@.subrange(0, n as int) =~= intensities@);
    }

    if lows.0 == 0 {
        Err(CalcDigitalCutoffsErrs::NoLows)
    } else if highs.0 == 0 {
        Err(CalcDigitalCutoffsErrs::NoHighs)
    } else {
        let lows_avg = lows.1 / lows.0;
        let highs_avg = highs.1 / highs.0;
        proof {
            assert(lows_avg <= avg) by (nonlinear_arith)
                requires
                    lows.1 <= lows.0 * avg,
                    lows.0 > 0,
                    lows_avg == lows.1 / lows.0,
            ;
            assert(highs_avg >= avg + 1) by (nonlinear_arith)
                requires
                    highs.1 >= highs.0 * (avg + 1),
                    highs.0 > 0,
                    highs_avg == highs.1 / highs.0,
            ;
            assert(highs_avg <= 0xFFFF) by (nonlinear_arith)
                requires
                    highs.1 <= highs.0 * 0xFFFF,
                    highs.0 > 0,
                    highs_avg == highs.1 / highs.0,
            ;
        }

        let diff = highs_avg - lows_avg;
        proof {
            assert(diff / 4 <= diff) by (nonlinear_arith)
                requires
                    0 <= diff,
            ;
            assert(3 * diff / 4 <= diff) by (nonlinear_arith)
                requires
                    0 <= diff,
            ;
        }
        let low_cut = lows_avg + (diff / 4);
        let high_cut = lows_avg + ((3 * diff) / 4);

        if low_cut > 0xFFFF || high_cut > 0xFFFF {
            return Err(CalcDigitalCutoffsErrs::TooBig);
        }

        Ok(IntensityCutoffs { low: low_cut as u16, high: high_cut as u16 })
    }
}

} // verus!
