//! Consistency checks made once, before any trial runs; each failure is
//! fatal for the whole run.

use vstd::prelude::*;

verus! {

/// Why a run cannot start.
#[derive(Clone, Copy, Debug, PartialEq, Eq, Structural)]
pub enum SetupError {
    /// The folded length of a channel does not match the period.
    FoldMismatch,
    /// Two series that are combined have different configuration counts.
    ConfigurationCountMismatch,
    /// More configurations are to be discarded than there are.
    ThermalisationTooLong,
    /// The time-separation window is outside what the period allows.
    TauWindowOutOfRange,
}

/// A period of `global_t` slices folds to `global_t / 2 + 1` slices.
pub open spec fn folds_to(global_t: int, each_len: int) -> bool {
    each_len >= 1 && global_t == 2 * (each_len - 1)
}

/// `1 <= tau_min <= tau_max <= global_t / 2 - 1`.
pub open spec fn tau_window_valid(global_t: int, tau_min: int, tau_max: int) -> bool {
    1 <= tau_min <= tau_max && tau_max <= global_t / 2 - 1
}

/// Checks that a channel of `each_len` folded slices belongs to a period of
/// `global_t`.
pub fn check_folded(global_t: usize, each_len: usize) -> (r: Result<(), SetupError>)
    ensures
        r is Ok <==> folds_to(global_t as int, each_len as int),
        r is Err ==> r == Err::<(), SetupError>(SetupError::FoldMismatch),
{
    if each_len >= 1 && global_t % 2 == 0 && global_t / 2 == each_len - 1 {
        Ok(())
    } else {
        Err(SetupError::FoldMismatch)
    }
}

/// Checks that two series to be combined have as many configurations.
pub fn check_same_nconfs(a: usize, b: usize) -> (r: Result<(), SetupError>)
    ensures
        r is Ok <==> a == b,
        r is Err ==> r == Err::<(), SetupError>(SetupError::ConfigurationCountMismatch),
{
    if a == b {
        Ok(())
    } else {
        Err(SetupError::ConfigurationCountMismatch)
    }
}

/// Checks that `k` configurations can be discarded out of `nconfs`.
pub fn check_thermalisation(k: usize, nconfs: usize) -> (r: Result<(), SetupError>)
    ensures
        r is Ok <==> k <= nconfs,
        r is Err ==> r == Err::<(), SetupError>(SetupError::ThermalisationTooLong),
{
    if k <= nconfs {
        Ok(())
    } else {
        Err(SetupError::ThermalisationTooLong)
    }
}

/// Checks that every separation of `tau_min..=tau_max` has a slice after it
/// within half the period.
pub fn check_tau_window(global_t: usize, tau_min: usize, tau_max: usize) -> (r: Result<
    (),
    SetupError,
>)
    ensures
        r is Ok <==> tau_window_valid(global_t as int, tau_min as int, tau_max as int),
        r is Err ==> r == Err::<(), SetupError>(SetupError::TauWindowOutOfRange),
{
    if 1 <= tau_min && tau_min <= tau_max && tau_max < global_t / 2 {
        Ok(())
    } else {
        Err(SetupError::TauWindowOutOfRange)
    }
}

/// The rows `s..e` of a table of separations `taus` that a fit from `t1` to
/// `t2` covers: `s` is the first row of `t1`, and the window runs over
/// `t2 - t1 + 1` rows. `None` where `t1` is absent, `t2 < t1`, or the window
/// runs past the table.
pub fn fit_window(taus: &Vec<usize>, t1: usize, t2: usize) -> (r: Option<(usize, usize)>)
    ensures
        r matches Some((s, e)) ==> {
            &&& s < taus.len()
            &&& taus[s as int] == t1
            &&& forall|j: int| 0 <= j < s ==> #[trigger] taus[j] != t1
            &&& t1 <= t2
            &&& e == s + (t2 - t1) + 1
            &&& e <= taus.len()
        },
        r is None ==> {
            ||| forall|j: int| 0 <= j < taus.len() ==> #[trigger] taus[j] != t1
            ||| t2 < t1
            ||| exists|s: int|
                0 <= s < taus.len() && #[trigger] taus[s] == t1 && (forall|j: int|
                    0 <= j < s ==> #[trigger] taus[j] != t1) && s + (t2 - t1) + 1 > taus.len()
        },
{
    if t2 < t1 {
        return None;
    }
    let mut s: usize = 0;
    while s < taus.len() && taus[s] != t1
        invariant
            s <= taus.len(),
            forall|j: int| 0 <= j < s ==> #[trigger] taus[j] != t1,
        decreases taus.len() - s,
    {
        s = s + 1;
    }
    if s == taus.len() {
        return None;
    }
    let span = t2 - t1;
    if span >= taus.len() - s {
        proof {
            assert(taus[s as int] == t1);
        }
        None
    } else {
        Some((s, s + span + 1))
    }
}

} // verus!
