//! Integer and structural core of a lattice analysis toolkit: seeded block
//! bootstrap draws, the configuration tables they resample, setup checks,
//! the tallying of per-trial outcomes and histogram bin counting.

pub mod histogram;
pub mod outcomes;
pub mod resample;
pub mod rng;
pub mod series;
pub mod setup;

pub use histogram::count_bins;
pub use outcomes::{all_succeeded, tally, Tally};
pub use resample::{draw, draws, gather, num_blocks};
pub use rng::SplitMix64;
pub use series::{FlowObservable, FlowSeries, Series};
pub use setup::{
    check_folded, check_same_nconfs, check_tau_window, check_thermalisation, fit_window, SetupError,
};
