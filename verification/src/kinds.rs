//! The kind of a host value, which decides how it is serialized.
//!
//! The order of the tests is fixed: plain first, then timestamp, date and time of
//! day, then the identifier and the decimal type, each only where its handle was
//! resolved. The first test that the value passes names its kind.

use vstd::prelude::*;
use crate::value::{HostValue, HostValueView};

verus! {

/// How a value is serialized.
#[derive(Clone, Copy, Debug, PartialEq, Eq, Structural)]
pub enum Kind {
    /// Absent, a boolean, an integer, a floating point number or text: passed on as it
    /// is.
    Plain,
    Timestamp,
    Date,
    Time,
    OpaqueIdentifier,
    Decimal,
    /// None of the others: the value cannot be serialized.
    Unsupported,
}

/// The handles of the host's identifier and decimal types, each `Some` where the host
/// could resolve the type.
///
/// A kind whose type was not resolved is never matched.
#[derive(Clone, Debug, PartialEq, Eq)]
pub struct AuxTypeHandles<H> {
    pub identifier: Option<H>,
    pub decimal: Option<H>,
}

impl<H> AuxTypeHandles<H> {
    /// The handles that two attempts to resolve the types gave. A failed attempt is no
    /// error: its handle is absent, and its kind is never matched.
    pub fn from_attempts<E>(identifier: Result<H, E>, decimal: Result<H, E>) -> (handles: Self)
        ensures
            match identifier {
                Ok(handle) => handles.identifier == Some(handle),
                Err(_) => handles.identifier is None,
            },
            match decimal {
                Ok(handle) => handles.decimal == Some(handle),
                Err(_) => handles.decimal is None,
            },
    {
        AuxTypeHandles {
            identifier: match identifier {
                Ok(handle) => Some(handle),
                Err(_) => None,
            },
            decimal: match decimal {
                Ok(handle) => Some(handle),
                Err(_) => None,
            },
        }
    }
}

/// The kind of a value, given which of the two auxiliary types were resolved.
pub open spec fn kind_of<P>(
    value: HostValueView<P>,
    identifier_resolved: bool,
    decimal_resolved: bool,
) -> Kind {
    if value.plain is Some {
        Kind::Plain
    } else if value.timestamp is Some {
        Kind::Timestamp
    } else if value.date is Some {
        Kind::Date
    } else if value.time is Some {
        Kind::Time
    } else if identifier_resolved && value.identifier is Some {
        Kind::OpaqueIdentifier
    } else if decimal_resolved && value.decimal is Some {
        Kind::Decimal
    } else {
        Kind::Unsupported
    }
}

/// Determines the kind of `value`.
pub fn classify<P, H>(value: &HostValue<P>, handles: &AuxTypeHandles<H>) -> (kind: Kind)
    ensures
        kind == kind_of(value@, handles.identifier is Some, handles.decimal is Some),
{
    if value.plain.is_some() {
        Kind::Plain
    } else if value.timestamp.is_some() {
        Kind::Timestamp
    } else if value.date.is_some() {
        Kind::Date
    } else if value.time.is_some() {
        Kind::Time
    } else if handles.identifier.is_some() && value.identifier.is_some() {
        Kind::OpaqueIdentifier
    } else if handles.decimal.is_some() && value.decimal.is_some() {
        Kind::Decimal
    } else {
        Kind::Unsupported
    }
}

/// The kinds that have a test, in the order in which the tests are made. The identifier
/// and the decimal kind are among them only where their type was resolved.
pub open spec fn dispatch_order(identifier_resolved: bool, decimal_resolved: bool) -> Seq<Kind> {
    seq![Kind::Plain, Kind::Timestamp, Kind::Date, Kind::Time] + (if identifier_resolved {
        seq![Kind::OpaqueIdentifier]
    } else {
        Seq::empty()
    }) + (if decimal_resolved {
        seq![Kind::Decimal]
    } else {
        Seq::empty()
    })
}

/// Whether the host reports the value as a member of the type that `kind` stands for.
pub open spec fn reported_as<P>(value: HostValueView<P>, kind: Kind) -> bool {
    match kind {
        Kind::Plain => value.plain is Some,
        Kind::Timestamp => value.timestamp is Some,
        Kind::Date => value.date is Some,
        Kind::Time => value.time is Some,
        Kind::OpaqueIdentifier => value.identifier is Some,
        Kind::Decimal => value.decimal is Some,
        Kind::Unsupported => false,
    }
}

/// The value with nothing reported but its membership in the type that `kind` stands
/// for.
pub open spec fn only_as<P>(value: HostValueView<P>, kind: Kind) -> HostValueView<P> {
    HostValueView {
        plain: if kind == Kind::Plain {
            value.plain
        } else {
            None
        },
        timestamp: if kind == Kind::Timestamp {
            value.timestamp
        } else {
            None
        },
        date: if kind == Kind::Date {
            value.date
        } else {
            None
        },
        time: if kind == Kind::Time {
            value.time
        } else {
            None
        },
        identifier: if kind == Kind::OpaqueIdentifier {
            value.identifier
        } else {
            None
        },
        decimal: if kind == Kind::Decimal {
            value.decimal
        } else {
            None
        },
        type_label: value.type_label,
    }
}

/// The kind of a value is the first in the order of the tests that the host reports of
/// it, and unsupported exactly where the host reports none of them. What the host
/// reports of the value beyond that first kind changes nothing.
pub proof fn lemma_kind_is_first_reported<P>(
    value: HostValueView<P>,
    identifier_resolved: bool,
    decimal_resolved: bool,
)
    ensures
        ({
            let order = dispatch_order(identifier_resolved, decimal_resolved);
            let kind = kind_of(value, identifier_resolved, decimal_resolved);
            &&& kind == Kind::Unsupported <==> forall|i: int|
                0 <= i < order.len() ==> !reported_as(value, #[trigger] order[i])
            &&& kind != Kind::Unsupported ==> exists|i: int|
                {
                    &&& 0 <= i < order.len()
                    &&& #[trigger] order[i] == kind
                    &&& reported_as(value, kind)
                    &&& forall|j: int| 0 <= j < i ==> !reported_as(value, #[trigger] order[j])
                }
            &&& kind_of(only_as(value, kind), identifier_resolved, decimal_resolved) == kind
        }),
{
    let order = dispatch_order(identifier_resolved, decimal_resolved);
    let kind = kind_of(value, identifier_resolved, decimal_resolved);
    assert(order[0] == Kind::Plain && order[1] == Kind::Timestamp && order[2] == Kind::Date
        && order[3] == Kind::Time);
    if identifier_resolved {
        assert(order[4] == Kind::OpaqueIdentifier);
        if decimal_resolved {
            assert(order[5] == Kind::Decimal);
        }
    } else if decimal_resolved {
        assert(order[4] == Kind::Decimal);
    }
    match kind {
        Kind::Plain => {
            assert(order[0] == kind);
        },
        Kind::Timestamp => {
            assert(order[1] == kind);
        },
        Kind::Date => {
            assert(order[2] == kind);
        },
        Kind::Time => {
            assert(order[3] == kind);
        },
        Kind::OpaqueIdentifier => {
            assert(order[4] == kind);
        },
        Kind::Decimal => {
            if identifier_resolved {
                assert(order[5] == kind);
            } else {
                assert(order[4] == kind);
            }
        },
        Kind::Unsupported => {},
    }
}

/// A value that the host reports as a timestamp is never classified as a date, whatever
/// else the host reports of it; unless it is plain, it is classified as a timestamp.
pub proof fn lemma_timestamp_before_date<P>(
    value: HostValueView<P>,
    identifier_resolved: bool,
    decimal_resolved: bool,
)
    requires
        value.timestamp is Some,
    ensures
        kind_of(value, identifier_resolved, decimal_resolved) != Kind::Date,
        value.plain is None ==> kind_of(value, identifier_resolved, decimal_resolved)
            == Kind::Timestamp,
{
}

/// The identifier and the decimal kind are matched only after the four kinds before
/// them are ruled out, and only where the type's handle was resolved. Without a
/// resolved handle, a value of no other kind is unsupported.
pub proof fn lemma_auxiliary_kinds<P>(
    value: HostValueView<P>,
    identifier_resolved: bool,
    decimal_resolved: bool,
)
    ensures
        ({
            let kind = kind_of(value, identifier_resolved, decimal_resolved);
            let others_ruled_out = value.plain is None && value.timestamp is None && value.date
                is None && value.time is None;
            &&& kind == Kind::OpaqueIdentifier <==> others_ruled_out && identifier_resolved
                && value.identifier is Some
            &&& kind == Kind::Decimal <==> others_ruled_out && decimal_resolved && value.decimal
                is Some && !(identifier_resolved && value.identifier is Some)
            &&& others_ruled_out && !identifier_resolved && !decimal_resolved ==> kind
                == Kind::Unsupported
        }),
{
}

} // verus!
