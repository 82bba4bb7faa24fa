//! The Python interpreter as the host: what is taken on trust from `pyo3`.
//!
//! Nothing in this file is proved. Each function makes calls into `pyo3` and changes the
//! types of what goes in and comes out; its contract, where it has one, is what the
//! rest of the library believes of those calls. What most calls return depends on the
//! state of the interpreter, and they promise nothing about their result. Whether an
//! object is absent, text, a number, a boolean, a timestamp, a date or a time of day
//! depends on the object alone, and the answer has a name.
//!
//! A dictionary or a list of the host holds objects of the host, and nothing else is
//! said of what it holds. Of an object that was made of text, the text is known. A
//! dictionary of the host keeps its keys in the order in which they were first set, as
//! the host's language has it in every version that `pyo3` works with.
//!
//! The calls raise no panic of their own unless the interpreter is out of memory.

use pyo3::exceptions::{PyAttributeError, PyTypeError};
use pyo3::types::{
    PyAnyMethods, PyBool, PyDate, PyDateAccess, PyDateTime, PyDelta, PyDeltaAccess, PyDict,
    PyDictMethods, PyFloat, PyInt, PyIterator, PyList, PyListMethods, PyString, PyStringMethods,
    PyTime, PyTimeAccess, PyType, PyTzInfo, PyTzInfoAccess,
};
use pyo3::{Bound, Py, PyAny, PyErr, Python};
use vstd::prelude::*;
use crate::value::{first_index, CalendarDate, ClockTime, Duration};

verus! {

/// `Python`: the token that the interpreter's lock is held. Nothing inside it is seen
/// here.
#[verifier::external_type_specification]
#[verifier::external_body]
pub struct ExPython<'py>(Python<'py>);

/// `Bound`: a reference to an object of the host, for as long as the interpreter's lock
/// is held. Nothing inside it is seen here.
#[verifier::external_type_specification]
#[verifier::external_body]
#[verifier::reject_recursive_types(T)]
pub struct ExBound<'py, T>(Bound<'py, T>);

/// `Py`: a reference to an object of the host that outlives the holding of the lock.
/// Nothing inside it is seen here.
#[verifier::external_type_specification]
#[verifier::external_body]
#[verifier::reject_recursive_types(T)]
pub struct ExPy<T>(Py<T>);

/// `PyErr`: an error that the host raised. Nothing inside it is seen here.
#[verifier::external_type_specification]
#[verifier::external_body]
pub struct ExPyErr(PyErr);

/// `PyAny`: any object of the host. Nothing inside it is seen here.
#[verifier::external_type_specification]
#[verifier::external_body]
pub struct ExPyAny(PyAny);

/// `PyType`: a type of the host. Nothing inside it is seen here.
#[verifier::external_type_specification]
#[verifier::external_body]
pub struct ExPyType(PyType);

/// `PyDict`: the host's dictionary. Nothing inside it is seen here.
#[verifier::external_type_specification]
#[verifier::external_body]
pub struct ExPyDict(PyDict);

/// `PyList`: the host's list. Nothing inside it is seen here.
#[verifier::external_type_specification]
#[verifier::external_body]
pub struct ExPyList(PyList);

/// `PyIterator`: an iterator of the host. Nothing inside it is seen here.
#[verifier::external_type_specification]
#[verifier::external_body]
pub struct ExPyIterator(PyIterator);

/// `PyDateTime`: the host's timestamp. Nothing inside it is seen here.
#[verifier::external_type_specification]
#[verifier::external_body]
pub struct ExPyDateTime(PyDateTime);

/// `PyDate`: the host's date. Nothing inside it is seen here.
#[verifier::external_type_specification]
#[verifier::external_body]
pub struct ExPyDate(PyDate);

/// `PyTime`: the host's time of day. Nothing inside it is seen here.
#[verifier::external_type_specification]
#[verifier::external_body]
pub struct ExPyTime(PyTime);

/// `PyTzInfo`: the host's timezone information. Nothing inside it is seen here.
#[verifier::external_type_specification]
#[verifier::external_body]
pub struct ExPyTzInfo(PyTzInfo);

/// What a dictionary of the host holds: its items under keys that are text, each the key
/// and the object that is its value, in the order of the dictionary. A dictionary of
/// the host keeps its keys in the order in which they were first set.
pub uninterp spec fn dict_contents(dict: Bound<'_, PyDict>) -> Seq<(Seq<char>, Bound<'_, PyAny>)>;

/// What a list of the host holds, where it holds dictionaries: their contents, in the
/// order of the list.
pub uninterp spec fn list_contents(list: Bound<'_, PyList>) -> Seq<
    Seq<(Seq<char>, Bound<'_, PyAny>)>,
>;

/// The keys of the items of a dictionary, in order.
pub open spec fn item_keys<'py>(items: Seq<(Seq<char>, Bound<'py, PyAny>)>) -> Seq<Seq<char>> {
    Seq::new(items.len(), |i: int| items[i].0)
}

/// The items of a dictionary after `value` is set under `key`: a key that is there keeps
/// its place and gets the value, a new key comes after the others.
pub open spec fn items_set<'py>(
    items: Seq<(Seq<char>, Bound<'py, PyAny>)>,
    key: Seq<char>,
    value: Bound<'py, PyAny>,
) -> Seq<(Seq<char>, Bound<'py, PyAny>)> {
    match first_index(item_keys(items), key) {
        Some(i) => items.update(i, (key, value)),
        None => items.push((key, value)),
    }
}

/// The characters of an object of the host, where the object is text. Text of the host
/// never changes.
pub uninterp spec fn object_text(object: Bound<'_, PyAny>) -> Option<Seq<char>>;

/// Whether an object of the host is the host's absent value.
pub uninterp spec fn says_absent(object: Bound<'_, PyAny>) -> bool;

/// Whether an object of the host is text.
pub uninterp spec fn says_text(object: Bound<'_, PyAny>) -> bool;

/// Whether an object of the host is an integer.
pub uninterp spec fn says_integer(object: Bound<'_, PyAny>) -> bool;

/// Whether an object of the host is a boolean.
pub uninterp spec fn says_boolean(object: Bound<'_, PyAny>) -> bool;

/// Whether an object of the host is a floating point number.
pub uninterp spec fn says_floating(object: Bound<'_, PyAny>) -> bool;

/// Whether an object of the host is a timestamp.
pub uninterp spec fn says_timestamp(object: Bound<'_, PyAny>) -> bool;

/// Whether an object of the host is a date.
pub uninterp spec fn says_date(object: Bound<'_, PyAny>) -> bool;

/// Whether an object of the host is a time of day.
pub uninterp spec fn says_time(object: Bound<'_, PyAny>) -> bool;

/// The type error of the host that carries `message`.
pub uninterp spec fn type_error_with(message: Seq<char>) -> PyErr;

/// The attribute error of the host that carries `message`.
pub uninterp spec fn attribute_error_with(message: Seq<char>) -> PyErr;

/// `Python::import`, `getattr` and `downcast_into`: the type `name` of the module
/// `module`, or the error of the first of the three calls that fails.
#[verifier::external_body]
pub(crate) fn resolve_type(py: Python<'_>, module: &str, name: &str) -> Result<Py<PyType>, PyErr> {
    Ok(py.import(module)?.getattr(name)?.downcast_into::<PyType>()?.unbind())
}

/// `try_iter`: the iterator over an iterable of the host, or the error that asking for
/// it raises.
#[verifier::external_body]
pub(crate) fn iterator_of<'py>(iterable: &Bound<'py, PyAny>) -> Result<
    Bound<'py, PyIterator>,
    PyErr,
> {
    iterable.try_iter()
}

/// `next` of the iterator: the next object that the iterable yields, or the error that
/// the host raises in yielding it; `None` at its end.
#[verifier::external_body]
pub(crate) fn next_of<'py>(iterator: &mut Bound<'py, PyIterator>) -> Option<
    Result<Bound<'py, PyAny>, PyErr>,
> {
    iterator.next()
}

/// `getattr`: the attribute of `object` that was asked for, with the name under which
/// it was asked for and its value, or the error that reading it raises.
#[verifier::external_body]
pub(crate) fn read_attribute<'py>(object: &Bound<'py, PyAny>, name: &str) -> (result: Result<
    (String, Bound<'py, PyAny>),
    PyErr,
>)
    ensures
        result matches Ok(attribute) ==> attribute.0@ == name@,
{
    Ok((name.to_owned(), object.getattr(name)?))
}

/// `is_none`: whether the value is the host's absent value.
#[verifier::external_body]
pub(crate) fn is_absent(value: &Bound<'_, PyAny>) -> (answer: bool)
    ensures
        answer == says_absent(*value),
{
    value.is_none()
}

/// `is_instance_of::<PyString>`: whether the value is text of the host.
#[verifier::external_body]
pub(crate) fn is_text(value: &Bound<'_, PyAny>) -> (answer: bool)
    ensures
        answer == says_text(*value),
{
    value.is_instance_of::<PyString>()
}

/// `is_instance_of::<PyInt>`: whether the value is an integer of the host.
#[verifier::external_body]
pub(crate) fn is_integer(value: &Bound<'_, PyAny>) -> (answer: bool)
    ensures
        answer == says_integer(*value),
{
    value.is_instance_of::<PyInt>()
}

/// `is_instance_of::<PyBool>`: whether the value is a boolean of the host.
#[verifier::external_body]
pub(crate) fn is_boolean(value: &Bound<'_, PyAny>) -> (answer: bool)
    ensures
        answer == says_boolean(*value),
{
    value.is_instance_of::<PyBool>()
}

/// `is_instance_of::<PyFloat>`: whether the value is a floating point number of the
/// host.
#[verifier::external_body]
pub(crate) fn is_floating(value: &Bound<'_, PyAny>) -> (answer: bool)
    ensures
        answer == says_floating(*value),
{
    value.is_instance_of::<PyFloat>()
}

/// `downcast::<PyDateTime>`: the value as a timestamp of the host, if it is one.
#[verifier::external_body]
pub(crate) fn as_timestamp<'a, 'py>(value: &'a Bound<'py, PyAny>) -> (timestamp: Option<
    &'a Bound<'py, PyDateTime>,
>)
    ensures
        timestamp is Some == says_timestamp(*value),
{
    value.downcast::<PyDateTime>().ok()
}

/// `downcast::<PyDate>`: the value as a date of the host, if it is one.
#[verifier::external_body]
pub(crate) fn as_date<'a, 'py>(value: &'a Bound<'py, PyAny>) -> (date: Option<
    &'a Bound<'py, PyDate>,
>)
    ensures
        date is Some == says_date(*value),
{
    value.downcast::<PyDate>().ok()
}

/// `downcast::<PyTime>`: the value as a time of day of the host, if it is one.
#[verifier::external_body]
pub(crate) fn as_time<'a, 'py>(value: &'a Bound<'py, PyAny>) -> (time: Option<
    &'a Bound<'py, PyTime>,
>)
    ensures
        time is Some == says_time(*value),
{
    value.downcast::<PyTime>().ok()
}

/// `get_year`, `get_month` and `get_day` of a timestamp: a year from one up, a month
/// from 1 through 12 and a day from 1 through 31.
#[verifier::external_body]
pub(crate) fn timestamp_date(timestamp: &Bound<'_, PyDateTime>) -> (date: CalendarDate)
    ensures
        date.within_bounds(),
{
    CalendarDate {
        year: timestamp.get_year(),
        month: timestamp.get_month(),
        day: timestamp.get_day(),
    }
}

/// `get_hour`, `get_minute`, `get_second` and `get_microsecond` of a timestamp: an hour
/// from 0 through 23, a minute and a second from 0 through 59 and a microsecond from 0
/// through 999999.
#[verifier::external_body]
pub(crate) fn timestamp_time(timestamp: &Bound<'_, PyDateTime>) -> (time: ClockTime)
    ensures
        time.within_bounds(),
{
    ClockTime {
        hour: timestamp.get_hour(),
        minute: timestamp.get_minute(),
        second: timestamp.get_second(),
        microsecond: timestamp.get_microsecond(),
    }
}

/// `get_year`, `get_month` and `get_day` of a date: a year from one up, a month from 1
/// through 12 and a day from 1 through 31.
#[verifier::external_body]
pub(crate) fn date_fields(date: &Bound<'_, PyDate>) -> (fields: CalendarDate)
    ensures
        fields.within_bounds(),
{
    CalendarDate { year: date.get_year(), month: date.get_month(), day: date.get_day() }
}

/// `get_hour`, `get_minute`, `get_second` and `get_microsecond` of a time of day: an
/// hour from 0 through 23, a minute and a second from 0 through 59 and a microsecond
/// from 0 through 999999.
#[verifier::external_body]
pub(crate) fn time_fields(time: &Bound<'_, PyTime>) -> (fields: ClockTime)
    ensures
        fields.within_bounds(),
{
    ClockTime {
        hour: time.get_hour(),
        minute: time.get_minute(),
        second: time.get_second(),
        microsecond: time.get_microsecond(),
    }
}

/// `get_tzinfo`: the timezone information attached to a timestamp, if any is.
#[verifier::external_body]
pub(crate) fn zone_of<'py>(timestamp: &Bound<'py, PyDateTime>) -> Option<Bound<'py, PyTzInfo>> {
    timestamp.get_tzinfo()
}

/// `call_method1`: what the method `utcoffset` of the timezone information returns for
/// the timestamp, or the error that the call raises.
#[verifier::external_body]
pub(crate) fn offset_at<'py>(
    zone: &Bound<'py, PyTzInfo>,
    timestamp: &Bound<'py, PyDateTime>,
) -> Result<Bound<'py, PyAny>, PyErr> {
    zone.call_method1("utcoffset", (timestamp,))
}

/// `downcast::<PyDelta>`, then `get_days`, `get_seconds` and `get_microseconds`: the
/// fields of the value as a duration of the host, or the error that it is none. The
/// days are from -999999999 to 999999999, the seconds from 0 through 86399 and the
/// microseconds from 0 through 999999.
#[verifier::external_body]
pub(crate) fn duration_fields(value: &Bound<'_, PyAny>) -> (result: Result<Duration, PyErr>)
    ensures
        result matches Ok(duration) ==> duration.within_bounds(),
{
    let duration = value.downcast::<PyDelta>()?;
    Ok(
        Duration {
            days: duration.get_days(),
            seconds: duration.get_seconds(),
            microseconds: duration.get_microseconds(),
        },
    )
}

/// `is_instance`: whether the value is an instance of the type, or the error that the
/// test raises.
#[verifier::external_body]
pub(crate) fn is_instance_of(
    py: Python<'_>,
    value: &Bound<'_, PyAny>,
    class: &Py<PyType>,
) -> Result<bool, PyErr> {
    value.is_instance(class.bind(py))
}

/// `str` and `to_str`: the text that the value presents of itself, or the error that
/// asking for it raises.
#[verifier::external_body]
pub(crate) fn text_of(value: &Bound<'_, PyAny>) -> Result<String, PyErr> {
    Ok(value.str()?.to_str()?.to_owned())
}

/// `get_type` and its `Display`: the text that the type of the value presents of
/// itself.
#[verifier::external_body]
pub(crate) fn type_label_of(value: &Bound<'_, PyAny>) -> String {
    value.get_type().to_string()
}

/// `PyTypeError::new_err`: the type error of the host with the given message.
#[verifier::external_body]
pub(crate) fn type_error(message: String) -> (error: PyErr)
    ensures
        error == type_error_with(message@),
{
    PyTypeError::new_err(message)
}

/// `PyAttributeError::new_err`: the attribute error of the host with the given message.
#[verifier::external_body]
pub(crate) fn attribute_error(message: String) -> (error: PyErr)
    ensures
        error == attribute_error_with(message@),
{
    PyAttributeError::new_err(message)
}

/// `PyString::new`: a new object of the host that is text with the characters of
/// `text`.
#[verifier::external_body]
pub(crate) fn text_object<'py>(py: Python<'py>, text: &str) -> (object: Bound<'py, PyAny>)
    ensures
        object_text(object) == Some(text@),
{
    PyString::new(py, text).into_any()
}

/// `PyDict::new`: a dictionary that holds nothing.
#[verifier::external_body]
pub(crate) fn new_dict<'py>(py: Python<'py>) -> (dict: Bound<'py, PyDict>)
    ensures
        dict_contents(dict).len() == 0,
{
    PyDict::new(py)
}

/// `set_item`, the host's `dict[key] = value`, with the text `key` as the key: where it
/// succeeds, a key that the dictionary holds keeps its place and gets the object as its
/// value, and a new key comes after the others with the object as its value; the other
/// items are unchanged.
#[verifier::external_body]
pub(crate) fn dict_set<'py>(
    dict: &mut Bound<'py, PyDict>,
    key: &str,
    value: &Bound<'py, PyAny>,
) -> (result: Result<(), PyErr>)
    ensures
        result is Ok ==> dict_contents(*final(dict)) == items_set(
            dict_contents(*old(dict)),
            key@,
            *value,
        ),
{
    dict.set_item(key, value)
}

/// `PyList::empty`: a list that holds nothing.
#[verifier::external_body]
pub(crate) fn new_list<'py>(py: Python<'py>) -> (list: Bound<'py, PyList>)
    ensures
        list_contents(list).len() == 0,
{
    PyList::empty(py)
}

/// `append`: where it succeeds, the list holds the dictionary after what it held.
#[verifier::external_body]
pub(crate) fn list_append<'py>(list: &mut Bound<'py, PyList>, dict: Bound<'py, PyDict>) -> (result:
    Result<(), PyErr>)
    ensures
        result is Ok ==> list_contents(*final(list)) == list_contents(*old(list)).push(
            dict_contents(dict),
        ),
{
    list.append(dict)
}

} // verus!
