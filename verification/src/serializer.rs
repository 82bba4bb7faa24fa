//! The projector at work on objects of a Python interpreter.
//!
//! A [`FastSerializer`] reads from each object of the host the attributes that the table
//! names and asks the host of what types their values are. What the host answers is
//! handed to the [`Projector`], which makes the record or finds the first field that
//! fails; the record is written into a dictionary of the host, the failure raised as an
//! error of the host.
//!
//! What the host answers cannot be known beforehand, but for whether a value is plain, a
//! timestamp, a date or a time of day, which the value alone decides. The functions
//! that ask say what holds of every answer, and [`FastSerializer::write_answers`] says
//! for every answer what comes of it.

use pyo3::types::{PyDateTime, PyDict, PyList, PyType};
use pyo3::{Bound, Py, PyAny, PyErr, Python};
use vstd::prelude::*;
use crate::fields::{fields_of, FieldSpecView};
use crate::formatters::{duration_seconds, whole_seconds};
use crate::host::{
    as_date, as_time, as_timestamp, attribute_error, attribute_error_with, date_fields,
    dict_contents, dict_set, duration_fields, is_absent, is_boolean, is_floating, item_keys,
    is_instance_of, is_integer, is_text, iterator_of, list_append, list_contents, new_dict,
    new_list, next_of, object_text, offset_at, read_attribute, resolve_type, says_absent,
    says_boolean, says_date, says_floating, says_integer, says_text, says_time, says_timestamp,
    text_object, text_of, time_fields, timestamp_date, timestamp_time, type_error,
    type_error_with, type_label_of, zone_of,
};
use crate::kinds::{kind_of, AuxTypeHandles, Kind};
use crate::projector::{
    lemma_empty_table, message_text, projected, projected_all, projected_all_prefix,
    ProjectionError, ProjectionErrorView, Projector, ProjectorView,
};
use crate::record::{distinct_keys, Record, RecordView};
use crate::value::{
    lemma_first_index, Duration, HostObject, HostValue, HostValueView, ObjectView, Timestamp,
    Value, ValueView,
};

verus! {

/// The error of the host that stands for a failure of the projection: an attribute
/// error for an attribute that cannot be read, a type error for a value of an
/// unsupported kind, each with the message of the failure.
pub open spec fn host_error(error: ProjectionErrorView) -> PyErr {
    match error {
        ProjectionErrorView::AttributeAccess { .. } => attribute_error_with(message_text(error)),
        ProjectionErrorView::UnsupportedType { .. } => type_error_with(message_text(error)),
    }
}

/// Whether an object of the host is a serialized value: for a plain value the very
/// object, for text an object that is text with those characters.
pub open spec fn holds_value<'a, 'py>(
    object: Bound<'py, PyAny>,
    value: ValueView<&'a Bound<'py, PyAny>>,
) -> bool {
    match value {
        ValueView::Plain(plain) => object == *plain,
        ValueView::Text(text) => object_text(object) == Some(text),
    }
}

/// Whether a dictionary holds the first `count` entries of a record: as many items, in
/// the order of the record, each under the key of its entry and with its value.
pub open spec fn holds_entries<'a, 'py>(
    contents: Seq<(Seq<char>, Bound<'py, PyAny>)>,
    record: RecordView<&'a Bound<'py, PyAny>>,
    count: int,
) -> bool {
    &&& contents.len() == count
    &&& forall|i: int|
        0 <= i < count ==> (#[trigger] contents[i]).0 == record[i].0 && holds_value(
            contents[i].1,
            record[i].1,
        )
}

/// Whether a dictionary holds a record: the entries of the record in their order, each
/// under its key and with its value, and nothing else.
pub open spec fn holds_record<'a, 'py>(
    contents: Seq<(Seq<char>, Bound<'py, PyAny>)>,
    record: RecordView<&'a Bound<'py, PyAny>>,
) -> bool {
    holds_entries(contents, record, record.len() as int)
}

/// Whether a list of dictionaries holds records: as many, and each dictionary the
/// record at its place.
pub open spec fn holds_records<'a, 'py>(
    contents: Seq<Seq<(Seq<char>, Bound<'py, PyAny>)>>,
    records: Seq<RecordView<&'a Bound<'py, PyAny>>>,
) -> bool {
    &&& contents.len() == records.len()
    &&& forall|i: int|
        0 <= i < contents.len() ==> holds_record(#[trigger] contents[i], records[i])
}

/// Whether the host says that an object is plain: text, an integer, absent, a boolean
/// or a floating point number.
pub open spec fn says_plain(object: Bound<'_, PyAny>) -> bool {
    says_text(object) || says_integer(object) || says_absent(object) || says_boolean(object)
        || says_floating(object)
}

/// Whether the answers were asked for as the table says: the first answer under the
/// source attribute of the first field, the second under that of the second, and so on,
/// for as many fields as there are answers.
pub open spec fn asked_of_table<P>(fields: Seq<FieldSpecView>, answers: ObjectView<P>) -> bool {
    &&& answers.len() <= fields.len()
    &&& forall|k: int|
        0 <= k < answers.len() ==> (#[trigger] answers[k]).0 == fields[k].source_attribute
}

/// Whether what the host answered about a value was asked in turn: of the identifier
/// and the decimal type only where the type was resolved and the value is neither plain
/// nor a timestamp, a date or a time of day, of the decimal type only where it is no
/// identifier; the name of its type only where it is of no kind. The fields of a
/// timestamp, a date or a time of day are within the bounds that the host keeps for
/// them.
pub open spec fn asked_in_turn<P>(
    seen: HostValueView<P>,
    identifier_resolved: bool,
    decimal_resolved: bool,
) -> bool {
    let built_in = seen.plain is Some || seen.timestamp is Some || seen.date is Some || seen.time
        is Some;
    &&& seen.identifier is Some ==> identifier_resolved && !built_in
    &&& seen.decimal is Some ==> decimal_resolved && !built_in && seen.identifier is None
    &&& kind_of(seen, identifier_resolved, decimal_resolved) != Kind::Unsupported
        ==> seen.type_label == Seq::<char>::empty()
    &&& seen.timestamp matches Some(timestamp) ==> timestamp.date.within_bounds()
        && timestamp.time.within_bounds()
    &&& seen.date matches Some(date) ==> date.within_bounds()
    &&& seen.time matches Some(time) ==> time.within_bounds()
}

/// Whether `seen` is what the host answers about `value`, asked in turn: it is reported
/// as plain, as a timestamp, as a date and as a time of day exactly where the host says
/// that the value is one, and as plain with the value itself.
pub open spec fn answers_about<'a, 'py>(
    seen: HostValueView<&'a Bound<'py, PyAny>>,
    value: Bound<'py, PyAny>,
    identifier_resolved: bool,
    decimal_resolved: bool,
) -> bool {
    &&& seen.plain matches Some(plain) ==> *plain == value
    &&& seen.plain is Some <==> says_plain(value)
    &&& seen.timestamp is Some <==> says_timestamp(value)
    &&& seen.date is Some <==> says_date(value)
    &&& seen.time is Some <==> says_time(value)
    &&& asked_in_turn(seen, identifier_resolved, decimal_resolved)
}

/// Whether answers about one object are as a serializer asks for them: under the source
/// attributes of the table in its order, and each what the host answers about a value.
pub open spec fn as_asked<'a, 'py>(
    projector: ProjectorView<Py<PyType>>,
    answers: ObjectView<&'a Bound<'py, PyAny>>,
) -> bool {
    &&& asked_of_table(projector.fields, answers)
    &&& exists|values: Seq<Bound<'py, PyAny>>|
        values.len() == answers.len() && forall|k: int|
            0 <= k < answers.len() ==> answers_about(
                (#[trigger] answers[k]).1,
                values[k],
                projector.identifier_resolved(),
                projector.decimal_resolved(),
            )
}

/// The error that ends the projection of answers at a field that fails: for an
/// attribute that is missing because the host raised an error when it was asked about a
/// value, that error; else the error of the host for the failure.
pub open spec fn failure_raised(error: ProjectionErrorView, failure: Option<PyErr>) -> PyErr {
    if error is AttributeAccess && failure is Some {
        failure->0
    } else {
        host_error(error)
    }
}

/// What comes of the answers about one object, which end with `failure` where the host
/// raised an error when it was asked about a value. Where a field fails on the answers,
/// the error for the first such field is returned; where the answers end with a
/// failure and no field fails before it, the failure is returned; else a dictionary
/// that is returned holds the record of the answers.
pub open spec fn instance_outcome<'a, 'py>(
    projector: ProjectorView<Py<PyType>>,
    answers: ObjectView<&'a Bound<'py, PyAny>>,
    failure: Option<PyErr>,
    result: Result<Seq<(Seq<char>, Bound<'py, PyAny>)>, PyErr>,
) -> bool {
    match projected(projector, answers) {
        Err(error) => result is Err && result->Err_0 == failure_raised(error, failure),
        Ok(record) => match failure {
            Some(raised) => result is Err && result->Err_0 == raised,
            None => result matches Ok(contents) ==> holds_record(contents, record),
        },
    }
}

/// What comes of the answers about a sequence of objects, of which the last end with
/// `failure` where the host raised an error when it was asked about a value. Where a
/// field fails on the answers, the error for the first such field is returned; where
/// the answers end with a failure and no field fails before it, the failure is
/// returned; else a list that is returned holds the records of the answers in their
/// order.
pub open spec fn objects_outcome<'a, 'py>(
    projector: ProjectorView<Py<PyType>>,
    answers: Seq<ObjectView<&'a Bound<'py, PyAny>>>,
    failure: Option<PyErr>,
    result: Result<Seq<Seq<(Seq<char>, Bound<'py, PyAny>)>>, PyErr>,
) -> bool {
    match projected_all(projector, answers) {
        Err(error) => result is Err && result->Err_0 == failure_raised(error, failure),
        Ok(records) => match failure {
            Some(raised) => result is Err && result->Err_0 == raised,
            None => result matches Ok(contents) ==> holds_records(contents, records),
        },
    }
}

/// What comes of a step that projects the answers about one more object and appends
/// the dictionary to a list: as for one object, and where the step succeeds, the list
/// holds what it held and after it a dictionary that holds the record.
pub open spec fn step_outcome<'a, 'py>(
    projector: ProjectorView<Py<PyType>>,
    answers: ObjectView<&'a Bound<'py, PyAny>>,
    failure: Option<PyErr>,
    before: Seq<Seq<(Seq<char>, Bound<'py, PyAny>)>>,
    after: Seq<Seq<(Seq<char>, Bound<'py, PyAny>)>>,
    result: Result<(), PyErr>,
) -> bool {
    match projected(projector, answers) {
        Err(error) => result is Err && result->Err_0 == failure_raised(error, failure),
        Ok(record) => match failure {
            Some(raised) => result is Err && result->Err_0 == raised,
            None => result is Ok ==> after == before.push(after.last()) && holds_record(
                after.last(),
                record,
            ),
        },
    }
}

/// What a dictionary that is returned holds, or the error.
pub open spec fn dict_outcome<'py>(result: Result<Bound<'py, PyDict>, PyErr>) -> Result<
    Seq<(Seq<char>, Bound<'py, PyAny>)>,
    PyErr,
> {
    match result {
        Ok(dict) => Ok(dict_contents(dict)),
        Err(error) => Err(error),
    }
}

/// What a list that is returned holds, or the error.
pub open spec fn list_outcome<'py>(result: Result<Bound<'py, PyList>, PyErr>) -> Result<
    Seq<Seq<(Seq<char>, Bound<'py, PyAny>)>>,
    PyErr,
> {
    match result {
        Ok(list) => Ok(list_contents(list)),
        Err(error) => Err(error),
    }
}

/// The records of a sequence of objects and one more are the records of the sequence
/// and the record of the one more, or the error of the first of them that fails.
pub proof fn lemma_projected_all_push<P, H>(
    projector: ProjectorView<H>,
    objects: Seq<ObjectView<P>>,
    object: ObjectView<P>,
)
    ensures
        projected_all(projector, objects.push(object)) == match projected_all(projector, objects) {
            Err(error) => Err(error),
            Ok(records) => match projected(projector, object) {
                Err(error) => Err(error),
                Ok(record) => Ok(records.push(record)),
            },
        },
{
    lemma_prefix_ignores_later(projector, objects, object, objects.len());
    assert(objects.push(object)[objects.len() as int] == object);
}

proof fn lemma_prefix_ignores_later<P, H>(
    projector: ProjectorView<H>,
    objects: Seq<ObjectView<P>>,
    object: ObjectView<P>,
    count: nat,
)
    requires
        count <= objects.len(),
    ensures
        projected_all_prefix(projector, objects.push(object), count) == projected_all_prefix(
            projector,
            objects,
            count,
        ),
    decreases count,
{
    if count > 0 {
        lemma_prefix_ignores_later(projector, objects, object, (count - 1) as nat);
        assert(objects.push(object)[count - 1] == objects[count - 1]);
    }
}

/// The error of the host for a failure of the projection.
fn raise(error: &ProjectionError) -> (raised: PyErr)
    ensures
        raised == host_error(error@),
{
    match error {
        ProjectionError::AttributeAccess { .. } => attribute_error(error.message()),
        ProjectionError::UnsupportedType { .. } => type_error(error.message()),
    }
}

/// One more step keeps a list of the records of all answers so far, or ends the call
/// with what comes of the answers up to the object at which it failed.
pub proof fn lemma_step<'a, 'py>(
    projector: ProjectorView<Py<PyType>>,
    answers: Seq<ObjectView<&'a Bound<'py, PyAny>>>,
    answer: ObjectView<&'a Bound<'py, PyAny>>,
    failure: Option<PyErr>,
    before: Seq<Seq<(Seq<char>, Bound<'py, PyAny>)>>,
    after: Seq<Seq<(Seq<char>, Bound<'py, PyAny>)>>,
    result: Result<(), PyErr>,
)
    requires
        projected_all(projector, answers) is Ok,
        holds_records(before, projected_all(projector, answers)->Ok_0),
        step_outcome(projector, answer, failure, before, after, result),
    ensures
        result is Ok ==> failure is None && projected_all(projector, answers.push(answer)) is Ok
            && holds_records(after, projected_all(projector, answers.push(answer))->Ok_0),
        result matches Err(error) ==> objects_outcome(
            projector,
            answers.push(answer),
            failure,
            Err(error),
        ),
{
    lemma_projected_all_push(projector, answers, answer);
    if result is Ok {
        let records = projected_all(projector, answers)->Ok_0;
        let record = projected(projector, answer)->Ok_0;
        assert forall|k: int| 0 <= k < after.len() implies holds_record(
            #[trigger] after[k],
            records.push(record)[k],
        ) by {
            if k < before.len() {
                assert(after[k] == before[k]);
            }
        }
    }
}

/// Reads the offset from UTC of a timestamp of the host, in whole seconds: `None` where
/// no timezone information is attached to it, or where that information gives it no
/// offset. An offset that is returned is a duration of the host, cut to whole seconds.
fn read_offset(timestamp: &Bound<'_, PyDateTime>) -> (result: Result<Option<i32>, PyErr>)
    ensures
        result matches Ok(Some(seconds)) ==> exists|duration: Duration|
            duration.within_bounds() && seconds == #[trigger] whole_seconds(duration),
{
    match zone_of(timestamp) {
        None => Ok(None),
        Some(zone) => {
            let offset = offset_at(&zone, timestamp)?;
            if is_absent(&offset) {
                Ok(None)
            } else {
                let duration = duration_fields(&offset)?;
                Ok(Some(duration_seconds(duration)))
            }
        },
    }
}

/// Asks the host about a value, and returns all that it answers.
///
/// The host is asked whether the value is plain, a timestamp, a date and a time of day,
/// and for each that it is, what it reads from the value as such. Only where it is none
/// of these, the host is asked whether it is an instance of the identifier type, and
/// where it is not, of the decimal type, of each where it was resolved; and only where
/// it is of no kind at all, for the name of its type. Which of the answers counts is
/// not decided here. Any error that the host raises is returned; it raises none about
/// a value that is no timestamp and is plain, a date or a time of day, nor about a
/// value that is no timestamp where neither type was resolved.
pub fn read_value<'a, 'py>(
    py: Python<'py>,
    value: &'a Bound<'py, PyAny>,
    handles: &AuxTypeHandles<Py<PyType>>,
) -> (result: Result<HostValue<&'a Bound<'py, PyAny>>, PyErr>)
    ensures
        result matches Ok(seen) ==> answers_about(
            seen@,
            *value,
            handles.identifier is Some,
            handles.decimal is Some,
        ),
        !says_timestamp(*value) && (says_plain(*value) || says_date(*value) || says_time(*value)
            || (handles.identifier is None && handles.decimal is None)) ==> result is Ok,
{
    let mut seen: HostValue<&'a Bound<'py, PyAny>> = HostValue::unrecognized(String::new());
    if is_text(value) || is_integer(value) || is_absent(value) || is_boolean(value) || is_floating(
        value,
    ) {
        seen.plain = Some(value);
    }
    if let Some(timestamp) = as_timestamp(value) {
        seen.timestamp = Some(
            Timestamp {
                date: timestamp_date(timestamp),
                time: timestamp_time(timestamp),
                utc_offset_seconds: read_offset(timestamp)?,
            },
        );
    }
    if let Some(date) = as_date(value) {
        seen.date = Some(date_fields(date));
    }
    if let Some(time) = as_time(value) {
        seen.time = Some(time_fields(time));
    }
    if seen.plain.is_none() && seen.timestamp.is_none() && seen.date.is_none()
        && seen.time.is_none() {
        if let Some(class) = &handles.identifier {
            if is_instance_of(py, value, class)? {
                seen.identifier = Some(text_of(value)?);
            }
        }
        if seen.identifier.is_none() {
            if let Some(class) = &handles.decimal {
                if is_instance_of(py, value, class)? {
                    seen.decimal = Some(text_of(value)?);
                }
            }
        }
        if seen.identifier.is_none() && seen.decimal.is_none() {
            seen.type_label = type_label_of(value);
        }
    }
    Ok(seen)
}

/// Writes a record into a new dictionary of the host: each entry under its key, in the
/// order of the record, a plain value as the object that it is, text as a new object of
/// the host with its characters. The dictionary has its keys in the order of the record.
///
/// This fails only where the host cannot write into the dictionary; the empty record
/// is always written.
pub fn write_record<'a, 'py>(py: Python<'py>, record: &Record<&'a Bound<'py, PyAny>>) -> (result:
    Result<Bound<'py, PyDict>, PyErr>)
    ensures
        result matches Ok(dict) ==> holds_record(dict_contents(dict), record@),
        record@.len() == 0 ==> result is Ok,
{
    let count = record.len();
    let mut dict = new_dict(py);
    let mut i: usize = 0;
    while i < count
        invariant
            i <= count,
            count == record@.len(),
            distinct_keys(record@),
            holds_entries(dict_contents(dict), record@, i as int),
        decreases count - i,
    {
        let ghost before = dict_contents(dict);
        if let Some((key, value)) = record.entry(i) {
            match value {
                Value::Plain(object) => {
                    dict_set(&mut dict, key.as_str(), object)?;
                },
                Value::Text(text) => {
                    let object = text_object(py, text.as_str());
                    dict_set(&mut dict, key.as_str(), &object)?;
                },
            }
        }
        proof {
            let after = dict_contents(dict);
            let entries = record@;
            let keys = item_keys(before);
            assert forall|k: int| 0 <= k < keys.len() implies keys[k] != entries[i as int].0 by {
                assert(before[k].0 == entries[k].0);
            }
            lemma_first_index(keys, entries[i as int].0);
            assert(after == before.push(after.last()));
            assert forall|k: int| 0 <= k < i + 1 implies (#[trigger] after[k]).0 == entries[k].0
                && holds_value(after[k].1, entries[k].1) by {
                if k < i {
                    assert(after[k] == before[k]);
                }
            }
        }
        i = i + 1;
    }
    Ok(dict)
}

/// A record projector for the objects of a Python interpreter.
pub struct FastSerializer {
    projector: Projector<Py<PyType>>,
}

impl View for FastSerializer {
    type V = ProjectorView<Py<PyType>>;

    closed spec fn view(&self) -> ProjectorView<Py<PyType>> {
        self.projector@
    }
}

impl FastSerializer {
    /// Makes a serializer from pairs of output key and source attribute and from what
    /// two attempts to resolve the host's identifier and decimal types gave. A failed
    /// attempt is no error: values of that type are then unsupported.
    pub fn from_attempts(
        fields: Vec<(String, String)>,
        identifier: Result<Py<PyType>, PyErr>,
        decimal: Result<Py<PyType>, PyErr>,
    ) -> (serializer: FastSerializer)
        ensures
            serializer@.fields == fields_of(fields@),
            match identifier {
                Ok(handle) => serializer@.identifier == Some(handle),
                Err(_) => serializer@.identifier is None,
            },
            match decimal {
                Ok(handle) => serializer@.decimal == Some(handle),
                Err(_) => serializer@.decimal is None,
            },
    {
        let handles = AuxTypeHandles::from_attempts(identifier, decimal);
        FastSerializer { projector: Projector::new(fields, handles.identifier, handles.decimal) }
    }

    /// Makes a serializer from pairs of output key and source attribute.
    ///
    /// The host is asked for its identifier type, `UUID` of the module `uuid`, and for
    /// its decimal type, `Decimal` of the module `decimal`. Where it cannot give one, the
    /// serializer is made all the same, and values of that type are unsupported.
    pub fn new(py: Python<'_>, fields: Vec<(String, String)>) -> (serializer: FastSerializer)
        ensures
            serializer@.fields == fields_of(fields@),
    {
        FastSerializer::from_attempts(
            fields,
            resolve_type(py, "uuid", "UUID"),
            resolve_type(py, "decimal", "Decimal"),
        )
    }

    /// The projector that decides what is made of the host's answers.
    pub fn projector(&self) -> (projector: &Projector<Py<PyType>>)
        ensures
            projector@ == self@,
    {
        &self.projector
    }

    /// Reads from an object of the host the attributes that the table names, in the
    /// order of the table, each with the name under which it was asked for. The reading
    /// ends at the first attribute that the host cannot give.
    pub fn read_attributes<'py>(&self, instance: &Bound<'py, PyAny>) -> (read: Vec<
        (String, Bound<'py, PyAny>),
    >)
        ensures
            read@.len() <= self@.fields.len(),
            forall|k: int|
                0 <= k < read@.len() ==> (#[trigger] read@[k]).0@
                    == self@.fields[k].source_attribute,
    {
        let mut read: Vec<(String, Bound<'py, PyAny>)> = Vec::new();
        let mut j: usize = 0;
        while j < self.projector.fields().len()
            invariant
                j <= self@.fields.len(),
                read@.len() == j,
                forall|k: int|
                    0 <= k < read@.len() ==> (#[trigger] read@[k]).0@
                        == self@.fields[k].source_attribute,
            decreases self@.fields.len() - j,
        {
            let field = self.projector.fields().get(j).unwrap();
            match read_attribute(instance, field.source_attribute.as_str()) {
                Ok(attribute) => {
                    read.push(attribute);
                },
                Err(_) => {
                    return read;
                },
            }
            j = j + 1;
        }
        read
    }

    /// Asks the host about the values of attributes that were read, in their order, and
    /// returns its answers, each under the name of its attribute. The asking ends at the
    /// first value about which the host raises an error, and that error is returned
    /// beside the answers before it.
    pub fn read_answers<'a, 'py>(
        &self,
        py: Python<'py>,
        read: &'a Vec<(String, Bound<'py, PyAny>)>,
    ) -> (asked: (HostObject<&'a Bound<'py, PyAny>>, Option<PyErr>))
        ensures
            asked.0@.len() <= read@.len(),
            asked.1 is None <==> asked.0@.len() == read@.len(),
            forall|k: int|
                0 <= k < asked.0@.len() ==> {
                    &&& (#[trigger] asked.0@[k]).0 == read@[k].0@
                    &&& answers_about(
                        asked.0@[k].1,
                        read@[k].1,
                        self@.identifier_resolved(),
                        self@.decimal_resolved(),
                    )
                },
    {
        let mut attributes: Vec<(String, HostValue<&'a Bound<'py, PyAny>>)> = Vec::new();
        let mut failure: Option<PyErr> = None;
        let mut k: usize = 0;
        while k < read.len() && failure.is_none()
            invariant
                k <= read@.len(),
                failure is None ==> attributes@.len() == k,
                failure is Some ==> attributes@.len() < k,
                attributes@.len() <= k,
                forall|i: int|
                    0 <= i < attributes@.len() ==> {
                        &&& (#[trigger] attributes@[i]).0@ == read@[i].0@
                        &&& answers_about(
                            attributes@[i].1@,
                            read@[i].1,
                            self@.identifier_resolved(),
                            self@.decimal_resolved(),
                        )
                    },
            decreases read@.len() - k,
        {
            match read_value(py, &read[k].1, self.projector.handles()) {
                Ok(seen) => {
                    attributes.push((read[k].0.clone(), seen));
                },
                Err(error) => {
                    failure = Some(error);
                },
            }
            k = k + 1;
        }
        let answers = HostObject { attributes };
        assert forall|i: int| 0 <= i < answers@.len() implies {
            &&& (#[trigger] answers@[i]).0 == read@[i].0@
            &&& answers_about(
                answers@[i].1,
                read@[i].1,
                self@.identifier_resolved(),
                self@.decimal_resolved(),
            )
        } by {
            assert(answers@[i] == (answers.attributes@[i].0@, answers.attributes@[i].1@));
        }
        (answers, failure)
    }

    /// Projects the answers of the host about one object, and writes the record into a
    /// new dictionary of the host. `failure` is the error that the host raised when it
    /// was asked about the value after the last answer, if it raised one.
    ///
    /// Where a field of the table fails on these answers, the error for the first field
    /// that fails is returned: for a value of an unsupported kind the type error of the
    /// host, for an attribute that the answers do not hold the failure, or without one
    /// the attribute error of the host, each of the two with a message that names the
    /// field. Where no field fails, a failure is returned all the same. Without one the
    /// record is written, which fails only where the host cannot write into the
    /// dictionary; a dictionary that is returned holds the record.
    pub fn write_answers<'a, 'py>(
        &self,
        py: Python<'py>,
        answers: &HostObject<&'a Bound<'py, PyAny>>,
        failure: Option<PyErr>,
    ) -> (result: Result<Bound<'py, PyDict>, PyErr>)
        ensures
            instance_outcome(self@, answers@, failure, dict_outcome(result)),
            projected(self@, answers@) matches Ok(record) ==> record.len() == 0 && failure
                is None ==> result is Ok,
    {
        match self.projector.project_object(answers) {
            Ok(record) => match failure {
                Some(raised) => Err(raised),
                None => write_record(py, &record),
            },
            Err(error) => match error {
                ProjectionError::UnsupportedType { .. } => Err(raise(&error)),
                ProjectionError::AttributeAccess { .. } => match failure {
                    Some(raised) => Err(raised),
                    None => Err(raise(&error)),
                },
            },
        }
    }

    /// Projects one object of the host into a new dictionary.
    ///
    /// The attributes that the table names are read from the object and the host is
    /// asked about their values; its answers are projected and the record is written as
    /// [`FastSerializer::write_answers`] does. There are answers of the host, asked for
    /// as the table says and about each value in turn, of which the result is what
    /// comes. With an empty table nothing is asked of the host, and the empty dictionary
    /// is returned.
    pub fn serialize_instance<'py>(&self, py: Python<'py>, instance: &Bound<'py, PyAny>) -> (result:
        Result<Bound<'py, PyDict>, PyErr>)
        ensures
            exists|answers: ObjectView<&'py Bound<'py, PyAny>>, failure: Option<PyErr>|
                #[trigger] instance_outcome(self@, answers, failure, dict_outcome(result))
                    && as_asked(self@, answers),
            self@.fields.len() == 0 ==> result is Ok,
    {
        let read = self.read_attributes(instance);
        let (answers, failure) = self.read_answers(py, &read);
        let ghost raised = failure;
        let result = self.write_answers(py, &answers, failure);
        proof {
            let values = Seq::new(answers@.len(), |k: int| read@[k].1);
            assert(values.len() == answers@.len() && forall|k: int|
                0 <= k < answers@.len() ==> answers_about(
                    (#[trigger] answers@[k]).1,
                    values[k],
                    self@.identifier_resolved(),
                    self@.decimal_resolved(),
                ));
            assert(as_asked(self@, answers@));
            assert(instance_outcome(self@, answers@, raised, dict_outcome(result)));
            if self@.fields.len() == 0 {
                lemma_empty_table(self@, answers@);
            }
        }
        result
    }

    /// Projects one more object of the host and appends its dictionary to `list`.
    ///
    /// The object is projected as [`FastSerializer::serialize_instance`] does. Where
    /// that succeeds and the host can append to the list, the list holds what it held
    /// and after it the new dictionary.
    pub fn append_instance<'py>(
        &self,
        py: Python<'py>,
        list: &mut Bound<'py, PyList>,
        instance: &Bound<'py, PyAny>,
    ) -> (result: Result<(), PyErr>)
        ensures
            exists|answers: ObjectView<&'py Bound<'py, PyAny>>, failure: Option<PyErr>|
                #[trigger] step_outcome(
                    self@,
                    answers,
                    failure,
                    list_contents(*old(list)),
                    list_contents(*final(list)),
                    result,
                ) && as_asked(self@, answers),
    {
        let written = self.serialize_instance(py, instance);
        let ghost (answers, failure) = choose|
            answers: ObjectView<&'py Bound<'py, PyAny>>,
            failure: Option<PyErr>,
        |
            #[trigger] instance_outcome(self@, answers, failure, dict_outcome(written))
                && as_asked(self@, answers);
        let ghost before = list_contents(*list);
        match written {
            Err(error) => {
                let result = Err(error);
                assert(step_outcome(self@, answers, failure, before, list_contents(*list), result));
                result
            },
            Ok(dict) => {
                let result = list_append(list, dict);
                proof {
                    let after = list_contents(*list);
                    if result is Ok {
                        assert(after.last() == dict_contents(dict));
                    }
                    assert(step_outcome(self@, answers, failure, before, after, result));
                }
                result
            },
        }
    }

    /// Projects each of `objects` into a dictionary, and returns the dictionaries as a
    /// list of the host, in the order of the objects.
    ///
    /// The objects are taken one after the other, each as
    /// [`FastSerializer::serialize_instance`] does. The first field that fails, going
    /// through the objects in order and through the table for each, ends the call with
    /// the error for it, and then nothing is returned; so does an error that the host
    /// raises when it is asked about a value, or in writing. There are answers of the
    /// host about the objects up to the one at which the call ended, of which the result
    /// is what comes: a list that is returned holds one dictionary for each object, the
    /// record of the answers about it. Without objects nothing is asked of the host, and
    /// the empty list is returned.
    pub fn serialize_objects<'py>(
        &self,
        py: Python<'py>,
        objects: &Vec<Bound<'py, PyAny>>,
    ) -> (result: Result<Bound<'py, PyList>, PyErr>)
        ensures
            exists|answers: Seq<ObjectView<&'py Bound<'py, PyAny>>>, failure: Option<PyErr>|
                {
                    &&& #[trigger] objects_outcome(self@, answers, failure, list_outcome(result))
                    &&& answers.len() <= objects@.len()
                    &&& result is Ok ==> answers.len() == objects@.len()
                    &&& forall|i: int|
                        0 <= i < answers.len() ==> as_asked(self@, #[trigger] answers[i])
                },
            objects@.len() == 0 ==> result is Ok,
    {
        let mut list = new_list(py);
        let ghost mut answers: Seq<ObjectView<&'py Bound<'py, PyAny>>> = Seq::empty();
        assert(list_contents(list) =~= Seq::empty());
        let mut i: usize = 0;
        while i < objects.len()
            invariant
                i <= objects.len(),
                answers.len() == i,
                projected_all(self@, answers) is Ok,
                holds_records(list_contents(list), projected_all(self@, answers)->Ok_0),
                forall|k: int| 0 <= k < answers.len() ==> as_asked(self@, #[trigger] answers[k]),
            decreases objects.len() - i,
        {
            let ghost before = list_contents(list);
            let step = self.append_instance(py, &mut list, &objects[i]);
            let ghost (answer, failure) = choose|
                answer: ObjectView<&'py Bound<'py, PyAny>>,
                failure: Option<PyErr>,
            |
                #[trigger] step_outcome(
                    self@,
                    answer,
                    failure,
                    before,
                    list_contents(list),
                    step,
                ) && as_asked(self@, answer);
            proof {
                lemma_step(self@, answers, answer, failure, before, list_contents(list), step);
                answers = answers.push(answer);
            }
            match step {
                Err(error) => {
                    let result = Err(error);
                    assert(objects_outcome(self@, answers, failure, list_outcome(result)));
                    return result;
                },
                Ok(_) => {},
            }
            i = i + 1;
        }
        let result = Ok(list);
        assert(objects_outcome(self@, answers, None, list_outcome(result)));
        result
    }

    /// Projects every object that `instances` yields into a dictionary, and returns the
    /// dictionaries as a list of the host, in the order of the objects.
    ///
    /// The objects are taken from `instances` one after the other, and each is projected
    /// as [`FastSerializer::serialize_instance`] does before the next is taken. The call
    /// ends with the first error: of a field that fails, or one that the host raises
    /// when it yields an object, when it is asked about a value, or in writing. There
    /// are answers of the host about the objects up to the one at which the call ended,
    /// of which the result is what comes. No more objects are asked for than `usize`
    /// counts.
    pub fn serialize<'py>(&self, py: Python<'py>, instances: &Bound<'py, PyAny>) -> (result:
        Result<Bound<'py, PyList>, PyErr>)
        ensures
            exists|answers: Seq<ObjectView<&'py Bound<'py, PyAny>>>, failure: Option<PyErr>|
                {
                    &&& #[trigger] objects_outcome(self@, answers, failure, list_outcome(result))
                    &&& forall|i: int|
                        0 <= i < answers.len() ==> as_asked(self@, #[trigger] answers[i])
                },
    {
        let ghost mut answers: Seq<ObjectView<&'py Bound<'py, PyAny>>> = Seq::empty();
        let mut iterator = match iterator_of(instances) {
            Ok(iterator) => iterator,
            Err(error) => {
                let result = Err(error);
                assert(objects_outcome(self@, answers, None, list_outcome(result)));
                return result;
            },
        };
        let mut list = new_list(py);
        assert(list_contents(list) =~= Seq::empty());
        let mut taken: usize = 0;
        while taken < usize::MAX
            invariant
                projected_all(self@, answers) is Ok,
                holds_records(list_contents(list), projected_all(self@, answers)->Ok_0),
                forall|k: int| 0 <= k < answers.len() ==> as_asked(self@, #[trigger] answers[k]),
            decreases usize::MAX - taken,
        {
            match next_of(&mut iterator) {
                None => {
                    let result = Ok(list);
                    assert(objects_outcome(self@, answers, None, list_outcome(result)));
                    return result;
                },
                Some(Err(error)) => {
                    let result = Err(error);
                    assert(objects_outcome(self@, answers, None, list_outcome(result)));
                    return result;
                },
                Some(Ok(instance)) => {
                    let ghost before = list_contents(list);
                    let step = self.append_instance(py, &mut list, &instance);
                    let ghost (answer, failure) = choose|
                        answer: ObjectView<&'py Bound<'py, PyAny>>,
                        failure: Option<PyErr>,
                    |
                        #[trigger] step_outcome(
                            self@,
                            answer,
                            failure,
                            before,
                            list_contents(list),
                            step,
                        ) && as_asked(self@, answer);
                    proof {
                        lemma_step(
                            self@,
                            answers,
                            answer,
                            failure,
                            before,
                            list_contents(list),
                            step,
                        );
                        answers = answers.push(answer);
                    }
                    match step {
                        Err(error) => {
                            let result = Err(error);
                            assert(objects_outcome(
                                self@,
                                answers,
                                failure,
                                list_outcome(result),
                            ));
                            return result;
                        },
                        Ok(_) => {},
                    }
                },
            }
            taken = taken + 1;
        }
        let result = Ok(list);
        assert(objects_outcome(self@, answers, None, list_outcome(result)));
        result
    }
}

} // verus!
