//! A record store for semantic-analysis results, verified with Verus.
//!
//! Each submission gets an identifier derived from its query, its time and
//! its submitter, is stored under that identifier, and can be read back
//! alone, in bulk, or filtered by the severity of its outliers.
//!
//! - [`contract`] holds the state and its operations, [`laws`] what is proved
//!   of every run of them.
//! - [`store`] and [`keyed`] are the keyed containers and their model.
//! - [`identifier`] derives identifiers; [`host`] reads what the ledger tells
//!   a call about itself.
//! - [`records`], [`severity`] and [`scalar`] are the data.
//! - [`guard`] is a plain archive of analyses kept as text, with [`text`] for
//!   its order and search; [`blob`] is a bare counter.

pub mod blob;
pub mod contract;
pub mod decimal;
pub mod guard;
pub mod host;
pub mod identifier;
pub mod keyed;
pub mod laws;
pub mod records;
pub mod scalar;
pub mod severity;
pub mod store;
pub mod text;
