//! A record projector for objects of a dynamically typed host.
//!
//! Given a table of fields and a collection of host objects, a projection makes for each
//! object a record: an ordered mapping from output key to a value that is ready for
//! serialization. Plain values pass through as they are; timestamps, dates and times of
//! day become canonical text; identifiers and decimals become the text that the host
//! gives them; any other value fails the call.
//!
//! [`Projector`] is the projection on what a host reports about its objects, whatever
//! the host is. [`FastSerializer`] is the projection at work in a Python interpreter: it
//! reads the objects of the interpreter and writes dictionaries.

pub mod digits;
pub mod fields;
pub mod formatters;
pub mod host;
pub mod kinds;
pub mod projector;
pub mod record;
pub mod serializer;
pub mod value;

pub use crate::fields::{FieldSpec, FieldTable};
pub use crate::formatters::{duration_seconds, format_date, format_datetime, format_time};
pub use crate::kinds::{classify, AuxTypeHandles, Kind};
pub use crate::projector::{ProjectionError, Projector};
pub use crate::record::Record;
pub use crate::serializer::{read_value, write_record, FastSerializer};
pub use crate::value::{
    CalendarDate, ClockTime, Duration, HostObject, HostValue, Timestamp, Value,
};
