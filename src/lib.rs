//! Tracks a fixed set of currency exchange rates and folds each polled
//! snapshot of quotes into them, recording when a rate last changed.

mod currency;
mod rate;
mod reconcile;

pub use currency::Currency;
pub use rate::{is_nan_bits, is_zero_bits, rates_equal, Rate};
pub use reconcile::{
    lemma_absent_code_is_skipped, lemma_changed_rate_is_applied, lemma_equal_rate_is_kept,
    lemma_second_pass_changes_nothing, quote_for, quoted_nan, reconcile, reconcile_at,
    reconcile_spec, reconciled, Outcome, Quote, RateError,
};
