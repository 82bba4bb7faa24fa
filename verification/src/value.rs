//! The values that enter and leave a projection.
//!
//! A [`Value`] is ready for serialization: a plain value of the host, passed on as it
//! is, or text. A [`HostValue`] is what the host's object system reports about one
//! attribute value, and a [`HostObject`] is the attributes of one object by name.
//!
//! The library never looks into a plain value. Its type is the parameter `P` of these
//! types: whatever the host uses for its absent value, its booleans, integers, floating
//! point numbers and text.

use vstd::prelude::*;

verus! {

/// A value that is ready for serialization.
#[derive(Clone, Debug, PartialEq, Eq)]
pub enum Value<P> {
    /// A plain value of the host, unchanged: absent, a boolean, an integer, a floating
    /// point number or text.
    Plain(P),
    /// The canonical text of a value of another kind.
    Text(String),
}

/// The mathematical content of a [`Value`].
pub enum ValueView<P> {
    Plain(P),
    Text(Seq<char>),
}

impl<P> View for Value<P> {
    type V = ValueView<P>;

    open spec fn view(&self) -> ValueView<P> {
        match *self {
            Value::Plain(plain) => ValueView::Plain(plain),
            Value::Text(text) => ValueView::Text(text@),
        }
    }
}

/// The year, month and day that a host reads from a date.
#[derive(Clone, Copy, Debug, PartialEq, Eq)]
pub struct CalendarDate {
    pub year: i32,
    pub month: u8,
    pub day: u8,
}

/// The hour, minute, second and microsecond that a host reads from a time of day.
#[derive(Clone, Copy, Debug, PartialEq, Eq)]
pub struct ClockTime {
    pub hour: u8,
    pub minute: u8,
    pub second: u8,
    pub microsecond: u32,
}

/// What a host reads from a timestamp: its date, its time of day, and its offset from
/// UTC in whole seconds where the value carries timezone information.
#[derive(Clone, Copy, Debug, PartialEq, Eq)]
pub struct Timestamp {
    pub date: CalendarDate,
    pub time: ClockTime,
    pub utc_offset_seconds: Option<i32>,
}

/// The days, seconds and microseconds that a host reads from a duration, such as the
/// offset of a timestamp from UTC. Hosts commonly keep the seconds and the microseconds
/// from zero up, so that only the days carry a sign.
#[derive(Clone, Copy, Debug, PartialEq, Eq)]
pub struct Duration {
    pub days: i32,
    pub seconds: i32,
    pub microseconds: i32,
}

impl CalendarDate {
    /// Whether the fields are within the bounds that hosts commonly keep: a year from
    /// one up, a month from 1 through 12, a day from 1 through 31.
    pub open spec fn within_bounds(self) -> bool {
        self.year >= 1 && 1 <= self.month <= 12 && 1 <= self.day <= 31
    }
}

impl ClockTime {
    /// Whether the fields are within the bounds of a time of day: an hour below 24, a
    /// minute and a second below 60, a microsecond below a million.
    pub open spec fn within_bounds(self) -> bool {
        self.hour <= 23 && self.minute <= 59 && self.second <= 59 && self.microsecond <= 999_999
    }
}

impl Duration {
    /// Whether the fields are within the bounds that hosts commonly keep: fewer than a
    /// thousand million days either way, seconds within a day from zero up, and
    /// microseconds within a second from zero up.
    pub open spec fn within_bounds(self) -> bool {
        &&& -999_999_999 <= self.days <= 999_999_999
        &&& 0 <= self.seconds <= 86_399
        &&& 0 <= self.microseconds <= 999_999
    }
}

/// What the host's object system reports about one value.
///
/// Each of the first six fields stands for one type that a projection recognizes. It is
/// `Some` exactly where the host says that the value belongs to that type, and then
/// holds what the host reads from the value as a member of it. A host in which every
/// timestamp is also a date reports both for a timestamp. A value of no recognized
/// type has `None` in all six.
#[derive(Clone, Debug, PartialEq, Eq)]
pub struct HostValue<P> {
    /// The value itself, where it is absent, a boolean, an integer, a floating point
    /// number or text.
    pub plain: Option<P>,
    pub timestamp: Option<Timestamp>,
    pub date: Option<CalendarDate>,
    pub time: Option<ClockTime>,
    /// The canonical text of the value, where it is an instance of the host's
    /// identifier type.
    pub identifier: Option<String>,
    /// The canonical text of the value, where it is an instance of the host's decimal
    /// type.
    pub decimal: Option<String>,
    /// The name under which the host knows the value's type.
    pub type_label: String,
}

/// The mathematical content of a [`HostValue`].
pub struct HostValueView<P> {
    pub plain: Option<P>,
    pub timestamp: Option<Timestamp>,
    pub date: Option<CalendarDate>,
    pub time: Option<ClockTime>,
    pub identifier: Option<Seq<char>>,
    pub decimal: Option<Seq<char>>,
    pub type_label: Seq<char>,
}

impl<P> View for HostValue<P> {
    type V = HostValueView<P>;

    open spec fn view(&self) -> HostValueView<P> {
        HostValueView {
            plain: self.plain,
            timestamp: self.timestamp,
            date: self.date,
            time: self.time,
            identifier: match self.identifier {
                Some(text) => Some(text@),
                None => None,
            },
            decimal: match self.decimal {
                Some(text) => Some(text@),
                None => None,
            },
            type_label: self.type_label@,
        }
    }
}

impl<P> HostValue<P> {
    /// A value of none of the recognized types.
    pub fn unrecognized(type_label: String) -> (value: HostValue<P>)
        ensures
            value@ == (HostValueView::<P> {
                plain: None,
                timestamp: None,
                date: None,
                time: None,
                identifier: None,
                decimal: None,
                type_label: type_label@,
            }),
    {
        HostValue {
            plain: None,
            timestamp: None,
            date: None,
            time: None,
            identifier: None,
            decimal: None,
            type_label,
        }
    }

    /// A plain value, reported as nothing else.
    pub fn plain(content: P, type_label: String) -> (value: HostValue<P>)
        ensures
            value@ == (HostValueView::<P> {
                plain: Some(content),
                timestamp: None,
                date: None,
                time: None,
                identifier: None,
                decimal: None,
                type_label: type_label@,
            }),
    {
        HostValue {
            plain: Some(content),
            timestamp: None,
            date: None,
            time: None,
            identifier: None,
            decimal: None,
            type_label,
        }
    }

    /// A timestamp, reported as nothing else.
    pub fn timestamp(content: Timestamp, type_label: String) -> (value: HostValue<P>)
        ensures
            value@ == (HostValueView::<P> {
                plain: None,
                timestamp: Some(content),
                date: None,
                time: None,
                identifier: None,
                decimal: None,
                type_label: type_label@,
            }),
    {
        HostValue {
            plain: None,
            timestamp: Some(content),
            date: None,
            time: None,
            identifier: None,
            decimal: None,
            type_label,
        }
    }

    /// A date, reported as nothing else.
    pub fn date(content: CalendarDate, type_label: String) -> (value: HostValue<P>)
        ensures
            value@ == (HostValueView::<P> {
                plain: None,
                timestamp: None,
                date: Some(content),
                time: None,
                identifier: None,
                decimal: None,
                type_label: type_label@,
            }),
    {
        HostValue {
            plain: None,
            timestamp: None,
            date: Some(content),
            time: None,
            identifier: None,
            decimal: None,
            type_label,
        }
    }

    /// A time of day, reported as nothing else.
    pub fn time(content: ClockTime, type_label: String) -> (value: HostValue<P>)
        ensures
            value@ == (HostValueView::<P> {
                plain: None,
                timestamp: None,
                date: None,
                time: Some(content),
                identifier: None,
                decimal: None,
                type_label: type_label@,
            }),
    {
        HostValue {
            plain: None,
            timestamp: None,
            date: None,
            time: Some(content),
            identifier: None,
            decimal: None,
            type_label,
        }
    }

    /// An instance of the host's identifier type with the given canonical text, reported
    /// as nothing else.
    pub fn identifier(text: String, type_label: String) -> (value: HostValue<P>)
        ensures
            value@ == (HostValueView::<P> {
                plain: None,
                timestamp: None,
                date: None,
                time: None,
                identifier: Some(text@),
                decimal: None,
                type_label: type_label@,
            }),
    {
        HostValue {
            plain: None,
            timestamp: None,
            date: None,
            time: None,
            identifier: Some(text),
            decimal: None,
            type_label,
        }
    }

    /// An instance of the host's decimal type with the given canonical text, reported as
    /// nothing else.
    pub fn decimal(text: String, type_label: String) -> (value: HostValue<P>)
        ensures
            value@ == (HostValueView::<P> {
                plain: None,
                timestamp: None,
                date: None,
                time: None,
                identifier: None,
                decimal: Some(text@),
                type_label: type_label@,
            }),
    {
        HostValue {
            plain: None,
            timestamp: None,
            date: None,
            time: None,
            identifier: None,
            decimal: Some(text),
            type_label,
        }
    }
}

/// The index of the first of `names` that equals `name`, if any does.
#[verifier::opaque]
pub open spec fn first_index(names: Seq<Seq<char>>, name: Seq<char>) -> Option<int> {
    if exists|i: int| 0 <= i < names.len() && names[i] == name {
        Some(
            choose|i: int|
                0 <= i < names.len() && names[i] == name && forall|j: int|
                    0 <= j < i ==> names[j] != name,
        )
    } else {
        None
    }
}

/// What [`first_index`] returns: an index that holds the name, with no earlier index
/// that does; or nothing, where no index holds it.
pub proof fn lemma_first_index(names: Seq<Seq<char>>, name: Seq<char>)
    ensures
        match first_index(names, name) {
            Some(i) => {
                &&& 0 <= i < names.len()
                &&& names[i] == name
                &&& forall|j: int| 0 <= j < i ==> names[j] != name
            },
            None => forall|j: int| 0 <= j < names.len() ==> names[j] != name,
        },
{
    reveal(first_index);
    if exists|i: int| 0 <= i < names.len() && names[i] == name {
        let i = choose|i: int| 0 <= i < names.len() && names[i] == name;
        lemma_least_index(names, name, i);
    }
}

proof fn lemma_least_index(names: Seq<Seq<char>>, name: Seq<char>, i: int)
    requires
        0 <= i < names.len(),
        names[i] == name,
    ensures
        exists|k: int|
            0 <= k < names.len() && names[k] == name && forall|j: int|
                0 <= j < k ==> names[j] != name,
    decreases i,
{
    if exists|j: int| 0 <= j < i && names[j] == name {
        let j = choose|j: int| 0 <= j < i && names[j] == name;
        lemma_least_index(names, name, j);
    } else {
        assert(0 <= i < names.len() && names[i] == name && forall|j: int|
            0 <= j < i ==> names[j] != name);
    }
}

/// An index that holds the name, with no earlier index that does, is the first index.
pub proof fn lemma_first_index_is(names: Seq<Seq<char>>, name: Seq<char>, i: int)
    requires
        0 <= i < names.len(),
        names[i] == name,
        forall|j: int| 0 <= j < i ==> names[j] != name,
    ensures
        first_index(names, name) == Some(i),
{
    lemma_first_index(names, name);
}

/// The attributes of one host object, each under its name.
///
/// An attribute that the host cannot read is left out. Where a name occurs twice, the
/// first occurrence is the attribute.
#[derive(Clone, Debug, PartialEq, Eq)]
pub struct HostObject<P> {
    pub attributes: Vec<(String, HostValue<P>)>,
}

/// The mathematical content of a [`HostObject`]: its attributes in order, each a name
/// and a value.
pub type ObjectView<P> = Seq<(Seq<char>, HostValueView<P>)>;

impl<P> View for HostObject<P> {
    type V = ObjectView<P>;

    open spec fn view(&self) -> ObjectView<P> {
        Seq::new(
            self.attributes@.len(),
            |i: int| (self.attributes@[i].0@, self.attributes@[i].1@),
        )
    }
}

/// The names of a sequence of attributes, in order.
pub open spec fn attribute_names<P>(attributes: ObjectView<P>) -> Seq<Seq<char>> {
    Seq::new(attributes.len(), |i: int| attributes[i].0)
}

/// The attribute of an object under a name, if the object has one.
pub open spec fn attribute_of<P>(attributes: ObjectView<P>, name: Seq<char>) -> Option<
    HostValueView<P>,
> {
    match first_index(attribute_names(attributes), name) {
        Some(i) => Some(attributes[i].1),
        None => None,
    }
}

impl<P> HostObject<P> {
    /// Reads the attribute `name`: the first one under that name, or `None` where the
    /// object has none.
    pub fn attribute(&self, name: &String) -> (found: Option<&HostValue<P>>)
        ensures
            match found {
                Some(value) => attribute_of(self@, name@) == Some(value@),
                None => attribute_of(self@, name@) is None,
            },
    {
        let ghost names = attribute_names(self@);
        let mut i: usize = 0;
        while i < self.attributes.len()
            invariant
                i <= self.attributes.len(),
                names == attribute_names(self@),
                forall|j: int| 0 <= j < i ==> names[j] != name@,
            decreases self.attributes.len() - i,
        {
            if self.attributes[i].0 == *name {
                proof {
                    assert(names[i as int] == name@);
                    lemma_first_index_is(names, name@, i as int);
                }
                return Some(&self.attributes[i].1);
            }
            assert(names[i as int] != name@);
            i = i + 1;
        }
        proof {
            lemma_first_index(names, name@);
        }
        None
    }
}

} // verus!
