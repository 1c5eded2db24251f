//! Resolution pipeline for property-listing lookups: status classification
//! against a versioned marker table, price extraction, unknown-page
//! diagnosis, request pacing, and the driver state machine, all over the
//! raw bytes of fetched pages.

pub mod codec;
pub mod diagnose;
pub mod driver;
pub mod pacing;
pub mod price;
pub mod record;
pub mod search;
pub mod status;

pub use codec::decode_query_record;
pub use codec::decode_record;
pub use codec::encode_record;
pub use driver::AbortReason;
pub use driver::DriverAction;
pub use driver::DriverState;
pub use driver::FetchOutcome;
pub use driver::RunPhase;
pub use driver::on_fetch_outcome;
pub use record::QueryRecord;
pub use record::ResultRecord;
pub use diagnose::UnknownReason;
pub use diagnose::get_unknown_reason;
pub use pacing::PacingConfig;
pub use pacing::default_pacing;
pub use pacing::next_delay;
pub use price::get_price;

pub use search::contains_bytes;
pub use status::Marker;
pub use status::MarkerSlot;
pub use status::MarkerTable;
pub use status::Status;
pub use status::classify;
pub use status::default_table;
pub use status::get_status;
pub use status::get_status_tag;
