use vstd::prelude::*;

use crate::error::{KeystoneError, KeystoneResult};
use crate::ids::{parts_digest, parts_view, u64_be, u64_be_vec, Digest, CLOCK_DOMAIN};

verus! {

pub const CLOCK_ADVANCE_DOMAIN: &'static str = "keystonexdtl-clock-advance-v1";

/// A protocol time step.
#[derive(Clone, Copy, Debug, PartialEq, Eq, Structural, PartialOrd, Ord, Hash, Default)]
pub struct Epoch(pub u64);

impl Epoch {
    pub fn new(value: u64) -> (r: Self)
        ensures
            r.0 == value,
    {
        Epoch(value)
    }

    pub fn raw(self) -> (r: u64)
        ensures
            r == self.0,
    {
        self.0
    }

    pub fn checked_add(self, rhs: u64) -> (r: KeystoneResult<Epoch>)
        ensures
            self.0 + rhs <= u64::MAX ==> r == Ok::<Epoch, KeystoneError>(Epoch((self.0 + rhs) as u64)),
            self.0 + rhs > u64::MAX ==> r == Err::<Epoch, KeystoneError>(KeystoneError::AmountOverflow),
    {
        match self.0.checked_add(rhs) {
            Some(v) => Ok(Epoch(v)),
            None => Err(KeystoneError::AmountOverflow),
        }
    }

    pub fn checked_sub(self, rhs: Epoch) -> (r: KeystoneResult<u64>)
        ensures
            r == epoch_diff(self.0 as int, rhs.0 as int),
    {
        match self.0.checked_sub(rhs.0) {
            Some(v) => Ok(v),
            None => Err(KeystoneError::InvalidEpoch),
        }
    }

    pub fn elapsed_since(self, start: Epoch) -> (r: KeystoneResult<u64>)
        ensures
            r == epoch_diff(self.0 as int, start.0 as int),
    {
        self.checked_sub(start)
    }

    pub fn is_after(self, other: Epoch) -> (r: bool)
        ensures
            r == (self.0 > other.0),
    {
        self.0 > other.0
    }

    pub fn is_at_or_after(self, other: Epoch) -> (r: bool)
        ensures
            r == (self.0 >= other.0),
    {
        self.0 >= other.0
    }
}

/// `a - b` epochs, or the invalid-epoch error where `b` is later.
pub open spec fn epoch_diff(a: int, b: int) -> KeystoneResult<u64> {
    if a >= b {
        Ok((a - b) as u64)
    } else {
        Err(KeystoneError::InvalidEpoch)
    }
}

/// The epochs from start to maturity, where maturity is not before start.
pub open spec fn tenor_of(s: Schedule) -> int {
    s.maturity.0 - s.start.0
}

/// Epochs elapsed at `now`, counted from start and capped at the tenor.
pub open spec fn elapsed_at(s: Schedule, now: int) -> int {
    if now <= s.start.0 {
        0
    } else if now - s.start.0 <= tenor_of(s) {
        now - s.start.0
    } else {
        tenor_of(s)
    }
}

/// The epoch after which a loan on this schedule is overdue.
pub open spec fn due_of(s: Schedule) -> int {
    s.maturity.0 + s.grace_epochs
}

/// The term of a loan: its start, maturity, grace period and year length in epochs.
#[derive(Clone, Copy, Debug, PartialEq, Eq, Structural)]
pub struct Schedule {
    pub start: Epoch,
    pub maturity: Epoch,
    pub grace_epochs: u64,
    pub epochs_per_year: u64,
}

impl Schedule {
    pub fn new(start: Epoch, tenor_epochs: u64, grace_epochs: u64, epochs_per_year: u64) -> (r: KeystoneResult<Self>)
        ensures
            tenor_epochs == 0 || epochs_per_year == 0 ==> r == Err::<Schedule, KeystoneError>(KeystoneError::InvalidTenor),
            tenor_epochs != 0 && epochs_per_year != 0 && start.0 + tenor_epochs > u64::MAX ==> r == Err::<
                Schedule,
                KeystoneError,
            >(KeystoneError::AmountOverflow),
            tenor_epochs != 0 && epochs_per_year != 0 && start.0 + tenor_epochs <= u64::MAX ==> r == Ok::<
                Schedule,
                KeystoneError,
            >(
                Schedule {
                    start,
                    maturity: Epoch((start.0 + tenor_epochs) as u64),
                    grace_epochs,
                    epochs_per_year,
                },
            ),
    {
        if tenor_epochs == 0 || epochs_per_year == 0 {
            return Err(KeystoneError::InvalidTenor);
        }
        Ok(Self { start, maturity: start.checked_add(tenor_epochs)?, grace_epochs, epochs_per_year })
    }

    pub fn tenor_epochs(self) -> (r: KeystoneResult<u64>)
        ensures
            r == epoch_diff(self.maturity.0 as int, self.start.0 as int),
    {
        self.maturity.checked_sub(self.start)
    }

    pub fn elapsed(self, now: Epoch) -> (r: KeystoneResult<u64>)
        ensures
            self.maturity.0 < self.start.0 ==> r == Err::<u64, KeystoneError>(KeystoneError::InvalidEpoch),
            self.maturity.0 >= self.start.0 ==> r == Ok::<u64, KeystoneError>(elapsed_at(self, now.0 as int) as u64),
    {
        let maturity_elapsed = self.tenor_epochs()?;
        if now.0 <= self.start.0 {
            return Ok(0);
        }
        let elapsed = now.checked_sub(self.start)?;
        if elapsed <= maturity_elapsed {
            Ok(elapsed)
        } else {
            Ok(maturity_elapsed)
        }
    }

    pub fn remaining(self, now: Epoch) -> (r: KeystoneResult<u64>)
        ensures
            self.maturity.0 < self.start.0 ==> r == Err::<u64, KeystoneError>(KeystoneError::InvalidEpoch),
            self.maturity.0 >= self.start.0 ==> r == Ok::<u64, KeystoneError>(
                (tenor_of(self) - elapsed_at(self, now.0 as int)) as u64,
            ),
    {
        let tenor = self.tenor_epochs()?;
        let elapsed = self.elapsed(now)?;
        Ok(tenor - elapsed)
    }

    pub fn due_epoch(self) -> (r: KeystoneResult<Epoch>)
        ensures
            due_of(self) <= u64::MAX ==> r == Ok::<Epoch, KeystoneError>(Epoch(due_of(self) as u64)),
            due_of(self) > u64::MAX ==> r == Err::<Epoch, KeystoneError>(KeystoneError::AmountOverflow),
    {
        self.maturity.checked_add(self.grace_epochs)
    }

    pub fn is_mature(self, now: Epoch) -> (r: bool)
        ensures
            r == (now.0 >= self.maturity.0),
    {
        now.is_at_or_after(self.maturity)
    }

    pub fn is_overdue(self, now: Epoch) -> (r: KeystoneResult<bool>)
        ensures
            due_of(self) <= u64::MAX ==> r == Ok::<bool, KeystoneError>(now.0 > due_of(self)),
            due_of(self) > u64::MAX ==> r == Err::<bool, KeystoneError>(KeystoneError::AmountOverflow),
    {
        Ok(now.is_after(self.due_epoch()?))
    }

    pub fn progress_bps(self, now: Epoch) -> (r: KeystoneResult<u32>)
        requires
            self.maturity.0 != self.start.0,
        ensures
            self.maturity.0 < self.start.0 ==> r == Err::<u32, KeystoneError>(KeystoneError::InvalidEpoch),
            self.maturity.0 > self.start.0 ==> r == Ok::<u32, KeystoneError>(
                (elapsed_at(self, now.0 as int) * 10_000 / tenor_of(self)) as u32,
            ),
    {
        let tenor = self.tenor_epochs()?;
        let elapsed = self.elapsed(now)?;
        proof {
            assert(elapsed * 10_000 <= tenor * 10_000) by (nonlinear_arith)
                requires
                    elapsed <= tenor,
            ;
            assert(elapsed * 10_000 / (tenor as int) <= 10_000) by (nonlinear_arith)
                requires
                    elapsed <= tenor,
                    tenor > 0,
            ;
            assert(elapsed * 10_000 >= 0) by (nonlinear_arith);
            assert(elapsed * 10_000 <= u64::MAX * 10_000) by (nonlinear_arith);
        }
        Ok(((elapsed as u128) * 10_000 / (tenor as u128)) as u32)
    }

    pub fn checkpoint_epochs(self, count: u64) -> (r: KeystoneResult<Vec<Epoch>>)
        requires
            self.maturity.0 >= self.start.0 ==> tenor_of(self) * count <= u64::MAX,
        ensures
            count == 0 ==> (r matches Ok(v) && v@.len() == 0),
            count != 0 && self.maturity.0 < self.start.0 ==> r == Err::<Vec<Epoch>, KeystoneError>(
                KeystoneError::InvalidEpoch,
            ),
            count != 0 && self.maturity.0 >= self.start.0 ==> (r is Ok <==> self.start.0 + tenor_of(self) <= u64::MAX),
            r matches Ok(v) ==> v@.len() == count && forall|k: int|
                0 <= k < count ==> #[trigger] v@[k].0 == self.start.0 + tenor_of(self) * (k + 1) / (count as int),
    {
        if count == 0 {
            return Ok(Vec::new());
        }
        let tenor = self.tenor_epochs()?;
        let mut out: Vec<Epoch> = Vec::new();
        let mut index: u64 = 0;
        while index < count
            invariant
                0 <= index <= count,
                count > 0,
                tenor == tenor_of(self),
                tenor * count <= u64::MAX,
                out@.len() == index,
                forall|k: int|
                    0 <= k < index ==> #[trigger] out@[k].0 == self.start.0 + tenor_of(self) * (k + 1) / (count as int),
            decreases count - index,
        {
            let step = index + 1;
            proof {
                assert(tenor * step <= tenor * count) by (nonlinear_arith)
                    requires
                        step <= count,
                        tenor >= 0,
                ;
                assert(tenor * step / (count as int) >= 0) by (nonlinear_arith)
                    requires
                        tenor >= 0,
                        step >= 0,
                        count > 0,
                ;
            }
            let offset = tenor * step / count;
            let next = match self.start.checked_add(offset) {
                Ok(e) => e,
                Err(e) => {
                    proof {
                        assert(tenor * step / (count as int) <= tenor * count / (count as int)) by (nonlinear_arith)
                            requires
                                tenor * step <= tenor * count,
                                count > 0,
                        ;
                        assert(tenor * count / (count as int) == tenor) by (nonlinear_arith)
                            requires
                                count > 0,
                        ;
                    }
                    return Err(e);
                },
            };
            out.push(next);
            index = index + 1;
        }
        proof {
            assert(tenor * count / (count as int) == tenor) by (nonlinear_arith)
                requires
                    count > 0,
            ;
        }
        Ok(out)
    }
}

/// A half-open range of epochs.
#[derive(Clone, Copy, Debug, PartialEq, Eq, Structural)]
pub struct EpochWindow {
    pub open: Epoch,
    pub close: Epoch,
}

impl EpochWindow {
    pub fn new(open: Epoch, close: Epoch) -> (r: KeystoneResult<Self>)
        ensures
            close.0 <= open.0 ==> r == Err::<EpochWindow, KeystoneError>(KeystoneError::InvalidEpoch),
            close.0 > open.0 ==> r == Ok::<EpochWindow, KeystoneError>(EpochWindow { open, close }),
    {
        if close.0 <= open.0 {
            return Err(KeystoneError::InvalidEpoch);
        }
        Ok(Self { open, close })
    }

    pub fn contains(self, now: Epoch) -> (r: bool)
        ensures
            r == (self.open.0 <= now.0 && now.0 < self.close.0),
    {
        now.0 >= self.open.0 && now.0 < self.close.0
    }

    pub fn width(self) -> (r: KeystoneResult<u64>)
        ensures
            r == epoch_diff(self.close.0 as int, self.open.0 as int),
    {
        self.close.checked_sub(self.open)
    }
}

/// A forward-only clock whose digest chains every epoch it has been moved to.
#[derive(Clone, Debug)]
pub struct EpochClock {
    current: Epoch,
    last_tick_digest: Digest,
}

impl EpochClock {
    pub closed spec fn spec_current(&self) -> Epoch {
        self.current
    }

    pub closed spec fn spec_digest(&self) -> Digest {
        self.last_tick_digest
    }

    pub fn new(start: Epoch) -> (r: Self)
        ensures
            r.spec_current() == start,
            r.spec_digest() == parts_digest(CLOCK_DOMAIN, seq![u64_be(start.0 as int)]),
    {
        let b = u64_be_vec(start.0);
        let bs = b.as_slice();
        let arr = [bs];
        assert(arr@ =~= seq![bs]);
        let d = Digest::from_parts(CLOCK_DOMAIN, arr.as_slice());
        assert(parts_view(seq![bs]) =~= seq![u64_be(start.0 as int)]);
        EpochClock { current: start, last_tick_digest: d }
    }

    #[verifier::when_used_as_spec(spec_current)]
    pub fn current(&self) -> (r: Epoch)
        ensures
            r == self.spec_current(),
    {
        self.current
    }

    pub fn advance_to(&mut self, target: Epoch) -> (r: KeystoneResult<()>)
        ensures
            target.0 < old(self).spec_current().0 ==> r == Err::<(), KeystoneError>(KeystoneError::InvalidEpoch)
                && *final(self) == *old(self),
            target.0 >= old(self).spec_current().0 ==> r is Ok && final(self).spec_current() == target
                && final(self).spec_digest() == parts_digest(
                CLOCK_ADVANCE_DOMAIN,
                seq![old(self).spec_digest().0@, u64_be(target.0 as int)],
            ),
    {
        if target.0 < self.current.0 {
            return Err(KeystoneError::InvalidEpoch);
        }
        self.current = target;
        self.last_tick_digest = self.last_tick_digest.mix_u64(CLOCK_ADVANCE_DOMAIN, target.0);
        Ok(())
    }

    pub fn advance_by(&mut self, epochs: u64) -> (r: KeystoneResult<Epoch>)
        ensures
            old(self).spec_current().0 + epochs > u64::MAX ==> r == Err::<Epoch, KeystoneError>(
                KeystoneError::AmountOverflow,
            ) && *final(self) == *old(self),
            old(self).spec_current().0 + epochs <= u64::MAX ==> r == Ok::<Epoch, KeystoneError>(
                Epoch((old(self).spec_current().0 + epochs) as u64),
            ) && final(self).spec_current().0 == old(self).spec_current().0 + epochs && final(self).spec_digest()
                == parts_digest(
                CLOCK_ADVANCE_DOMAIN,
                seq![old(self).spec_digest().0@, u64_be(old(self).spec_current().0 + epochs)],
            ),
    {
        let target = self.current.checked_add(epochs)?;
        self.advance_to(target)?;
        Ok(target)
    }

    #[verifier::when_used_as_spec(spec_digest)]
    pub fn digest(&self) -> (r: Digest)
        ensures
            r == self.spec_digest(),
    {
        self.last_tick_digest
    }
}

} // verus!
