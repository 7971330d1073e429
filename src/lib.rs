//! Client-side engine for the line-framed command/response protocol of a
//! scanning range sensor.
//!
//! The engine is free of I/O: callers hand it the lines they read from the
//! connection and write the bytes it produces. Everything that decides what
//! a line means, which command comes next and what a reply decodes to lives
//! here.
//!
//! A caller runs an [`Exchange`] by writing [`Exchange::outgoing`], then
//! reading lines and handing each to [`Exchange::feed`] until it reports
//! [`Progress::Complete`] or [`Progress::Failed`]. A read of nothing means
//! that the stream has ended, and is handed over as an empty line.
pub mod codec;
pub mod command;
pub mod error;
pub mod exchange;
pub mod framing;
pub mod scan;
pub mod session;

pub use codec::{decode6, decode_decimal_field};
pub use command::ScanKind;
pub use error::UrgError;
pub use exchange::{Body, Exchange, Phase, Progress};
pub use scan::{payload_of, single_scan_exchange, ScanStream, UrgPayload};
pub use session::{CaptureCommand, CaptureState, SensorParams, StatusInfo, VersionInfo};
