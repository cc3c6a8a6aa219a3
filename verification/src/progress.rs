//! How far a transfer has come.
use vstd::prelude::*;

verus! {

#[derive(Debug, Clone, Copy, PartialEq, Eq, Structural)]
pub enum ProgressError {
    TransferredExceedsTotal,
    TransferredDecreased,
    TotalChanged,
}

impl ProgressError {
    pub fn message(self) -> (text: &'static str)
        ensures
            text@ == match self {
                ProgressError::TransferredExceedsTotal =>
                    "transferred bytes cannot exceed total bytes"@,
                ProgressError::TransferredDecreased => "transferred bytes cannot decrease"@,
                ProgressError::TotalChanged => "progress total cannot change after it is known"@,
            },
    {
        match self {
            Self::TransferredExceedsTotal => "transferred bytes cannot exceed total bytes",
            Self::TransferredDecreased => "transferred bytes cannot decrease",
            Self::TotalChanged => "progress total cannot change after it is known",
        }
    }
}

#[derive(Debug, Clone, Copy, PartialEq, Eq, Structural)]
pub struct Progress {
    pub transferred_bytes: u64,
    pub total_bytes: u64,
    pub speed_bps: u64,
}

/// A report of bytes moved, unless there are more of them than there is to move.
pub open spec fn progress_of(transferred: u64, total: u64, speed: u64) -> Result<
    Progress,
    ProgressError,
> {
    if transferred > total {
        Err(ProgressError::TransferredExceedsTotal)
    } else {
        Ok(
            Progress {
                transferred_bytes: transferred,
                total_bytes: total,
                speed_bps: speed,
            },
        )
    }
}

impl Progress {
    /// Never more moved than there is to move.
    pub open spec fn well_formed(self) -> bool {
        self.transferred_bytes <= self.total_bytes
    }

    pub fn new(transferred_bytes: u64, total_bytes: u64, speed_bps: u64) -> (result: Result<
        Self,
        ProgressError,
    >)
        ensures
            result == progress_of(transferred_bytes, total_bytes, speed_bps),
    {
        if transferred_bytes > total_bytes {
            return Err(ProgressError::TransferredExceedsTotal);
        }
        Ok(Self { transferred_bytes, total_bytes, speed_bps })
    }

    /// The next report after this one. A total of zero stands for one that is not known yet.
    pub open spec fn updated(self, transferred: u64, total: u64, speed: u64) -> Result<
        Progress,
        ProgressError,
    > {
        if transferred > total {
            Err(ProgressError::TransferredExceedsTotal)
        } else if transferred < self.transferred_bytes {
            Err(ProgressError::TransferredDecreased)
        } else if self.total_bytes != 0 && total != self.total_bytes {
            Err(ProgressError::TotalChanged)
        } else {
            progress_of(transferred, total, speed)
        }
    }

    pub fn update(self, transferred_bytes: u64, total_bytes: u64, speed_bps: u64) -> (result:
        Result<Self, ProgressError>)
        ensures
            result == self.updated(transferred_bytes, total_bytes, speed_bps),
    {
        let next = Self::new(transferred_bytes, total_bytes, speed_bps)?;
        if next.transferred_bytes < self.transferred_bytes {
            return Err(ProgressError::TransferredDecreased);
        }
        if self.total_bytes != 0 && next.total_bytes != self.total_bytes {
            return Err(ProgressError::TotalChanged);
        }
        Ok(next)
    }

    /// The least number of whole seconds in which the rest can be moved at the current speed.
    pub open spec fn is_eta(self, seconds: u64) -> bool {
        let rest = self.total_bytes - self.transferred_bytes;
        &&& rest <= seconds * self.speed_bps
        &&& (seconds - 1) * self.speed_bps < rest
    }

    pub fn eta_seconds(self) -> (eta: Option<u64>)
        ensures
            eta is None <==> self.speed_bps == 0 || self.transferred_bytes >= self.total_bytes,
            eta matches Some(seconds) ==> self.is_eta(seconds),
    {
        if self.speed_bps == 0 || self.transferred_bytes >= self.total_bytes {
            return None;
        }
        let rest: u64 = self.total_bytes - self.transferred_bytes;
        let speed: u64 = self.speed_bps;
        let whole: u64 = rest / speed;
        proof {
            vstd::arithmetic::div_mod::lemma_fundamental_div_mod(rest as int, speed as int);
            assert(whole * speed == speed * whole) by (nonlinear_arith);
            assert((whole + 1) * speed == whole * speed + speed) by (nonlinear_arith);
            assert((whole - 1) * speed == whole * speed - speed) by (nonlinear_arith);
        }
        if rest % speed == 0 {
            Some(whole)
        } else {
            assert(whole < u64::MAX) by (nonlinear_arith)
                requires
                    rest == speed * whole + rest % speed,
                    rest % speed > 0,
                    speed >= 1,
            ;
            Some(whole + 1)
        }
    }
}

/// There is at most one such number of seconds.
pub proof fn law_eta_unique(progress: Progress, first: u64, second: u64)
    requires
        progress.speed_bps > 0,
        progress.is_eta(first),
        progress.is_eta(second),
    ensures
        first == second,
{
    let speed = progress.speed_bps as int;
    if first < second {
        assert(first * speed <= (second - 1) * speed) by (nonlinear_arith)
            requires
                first <= second - 1,
                speed > 0,
        ;
    }
    if second < first {
        assert(second * speed <= (first - 1) * speed) by (nonlinear_arith)
            requires
                second <= first - 1,
                speed > 0,
        ;
    }
}

/// Progress never runs backwards, and a total that is known stays.
pub proof fn law_progress_is_monotone(progress: Progress, transferred: u64, total: u64, speed: u64)
    requires
        progress.updated(transferred, total, speed) is Ok,
    ensures
        ({
            let next = progress.updated(transferred, total, speed)->Ok_0;
            &&& next.well_formed()
            &&& progress.transferred_bytes <= next.transferred_bytes
            &&& progress.total_bytes != 0 ==> next.total_bytes == progress.total_bytes
        }),
{
}

/// A report is taken exactly if it tells of no more bytes than there are, of no fewer than before,
/// and of the total that is known, if one is; it is then kept as it is.
pub proof fn law_sound_reports_are_taken(progress: Progress, transferred: u64, total: u64, speed: u64)
    ensures
        progress.updated(transferred, total, speed) is Ok <==> progress.transferred_bytes
            <= transferred <= total && (progress.total_bytes == 0 || progress.total_bytes == total),
        progress.updated(transferred, total, speed) matches Ok(next) ==> next.transferred_bytes
            == transferred && next.total_bytes == total && next.speed_bps == speed,
        transferred > total ==> progress.updated(transferred, total, speed) == Err::<
            Progress,
            ProgressError,
        >(ProgressError::TransferredExceedsTotal),
        transferred <= total && transferred < progress.transferred_bytes ==> progress.updated(
            transferred,
            total,
            speed,
        ) == Err::<Progress, ProgressError>(ProgressError::TransferredDecreased),
        progress.transferred_bytes <= transferred <= total && progress.total_bytes != 0
            && progress.total_bytes != total ==> progress.updated(transferred, total, speed)
            == Err::<Progress, ProgressError>(ProgressError::TotalChanged),
        progress_of(transferred, total, speed) is Ok <==> transferred <= total,
        progress_of(transferred, total, speed) matches Ok(first) ==> first.transferred_bytes
            == transferred && first.total_bytes == total && first.speed_bps == speed,
        progress_of(transferred, total, speed) matches Err(error) ==> error
            == ProgressError::TransferredExceedsTotal,
{
}

/// In the time that is told everything can be moved, and in no shorter one.
pub proof fn law_rest_is_moved_in_time(progress: Progress, seconds: u64, shorter: nat)
    requires
        progress.is_eta(seconds),
        shorter < seconds,
    ensures
        progress.transferred_bytes + seconds * progress.speed_bps >= progress.total_bytes,
        progress.transferred_bytes + shorter * progress.speed_bps < progress.total_bytes,
{
    let speed = progress.speed_bps as int;
    assert(shorter * speed <= (seconds - 1) * speed) by (nonlinear_arith)
        requires
            shorter <= seconds - 1,
            speed >= 0,
    ;
}

} // verus!
