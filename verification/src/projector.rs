//! The record projector.
//!
//! A [`Projector`] is made once from a field table and the handles of the host's
//! two auxiliary types. It then turns any number of collections of host objects into
//! records: for each object one record, with one entry for each field of the table, in
//! the order of the objects and of the table. A field fails where the object lacks the
//! attribute or where the attribute's value is of an unsupported kind; the first field
//! that fails, going through the objects in order and through the table for each, fails
//! the whole call, and no record is returned.

use vstd::prelude::*;
use crate::fields::{fields_of, FieldSpecView, FieldTable};
use crate::formatters::{
    date_text, datetime_text, format_date, format_datetime, format_time, time_text,
};
use crate::kinds::{classify, kind_of, only_as, AuxTypeHandles, Kind};
use crate::record::{
    distinct_keys, lemma_record_put, record_get, record_put, Record, RecordView,
};
use crate::value::{
    attribute_of, CalendarDate, ClockTime, HostObject, HostValue, HostValueView, ObjectView,
    Timestamp, Value, ValueView,
};

verus! {

/// Why a call of [`Projector::project`] failed.
#[derive(Clone, Debug, PartialEq, Eq)]
pub enum ProjectionError {
    /// The object has no readable attribute of the name that the field asks for.
    AttributeAccess { output_key: String, source_attribute: String },
    /// The attribute's value is of no kind that can be serialized.
    UnsupportedType { output_key: String, source_attribute: String, type_label: String },
}

/// The mathematical content of a [`ProjectionError`].
pub enum ProjectionErrorView {
    AttributeAccess { output_key: Seq<char>, source_attribute: Seq<char> },
    UnsupportedType { output_key: Seq<char>, source_attribute: Seq<char>, type_label: Seq<char> },
}

impl View for ProjectionError {
    type V = ProjectionErrorView;

    open spec fn view(&self) -> ProjectionErrorView {
        match *self {
            ProjectionError::AttributeAccess { output_key, source_attribute } => {
                ProjectionErrorView::AttributeAccess {
                    output_key: output_key@,
                    source_attribute: source_attribute@,
                }
            },
            ProjectionError::UnsupportedType { output_key, source_attribute, type_label } => {
                ProjectionErrorView::UnsupportedType {
                    output_key: output_key@,
                    source_attribute: source_attribute@,
                    type_label: type_label@,
                }
            },
        }
    }
}

/// The text of an error's message.
pub open spec fn message_text(error: ProjectionErrorView) -> Seq<char> {
    match error {
        ProjectionErrorView::AttributeAccess { output_key, source_attribute } => {
            "FastSerializer: Field '"@ + output_key + "' (source: '"@ + source_attribute
                + "') could not be read."@
        },
        ProjectionErrorView::UnsupportedType { output_key, source_attribute, type_label } => {
            "FastSerializer: Field '"@ + output_key + "' (source: '"@ + source_attribute
                + "') returned unsupported type: "@ + type_label
                + ". Supported: primitives, datetime, date, time, uuid, decimal."@
        },
    }
}

impl ProjectionError {
    /// The message of the error: it names the output key and the source attribute of the
    /// field that failed and, for an unsupported value, the value's type.
    pub fn message(&self) -> (text: String)
        ensures
            text@ == message_text(self@),
    {
        let mut text = String::from_str("FastSerializer: Field '");
        match self {
            ProjectionError::AttributeAccess { output_key, source_attribute } => {
                text.append(output_key.as_str());
                text.append("' (source: '");
                text.append(source_attribute.as_str());
                text.append("') could not be read.");
            },
            ProjectionError::UnsupportedType { output_key, source_attribute, type_label } => {
                text.append(output_key.as_str());
                text.append("' (source: '");
                text.append(source_attribute.as_str());
                text.append("') returned unsupported type: ");
                text.append(type_label.as_str());
                text.append(". Supported: primitives, datetime, date, time, uuid, decimal.");
            },
        }
        assert(text@ =~= message_text(self@));
        text
    }
}

/// The mathematical content of a [`Projector`]: its fields, and the handles of the two
/// auxiliary types, each where the host could resolve it.
pub struct ProjectorView<H> {
    pub fields: Seq<FieldSpecView>,
    pub identifier: Option<H>,
    pub decimal: Option<H>,
}

impl<H> ProjectorView<H> {
    /// Whether the host could resolve its identifier type.
    pub open spec fn identifier_resolved(self) -> bool {
        self.identifier is Some
    }

    /// Whether the host could resolve its decimal type.
    pub open spec fn decimal_resolved(self) -> bool {
        self.decimal is Some
    }
}

/// What one field makes of one object: a value, or an error.
pub type FieldOutcome<P> = Result<ValueView<P>, ProjectionErrorView>;

/// What a table makes of one object: a record, or an error.
pub type RecordOutcome<P> = Result<RecordView<P>, ProjectionErrorView>;

/// What a table makes of a sequence of objects: their records, or an error.
pub type RecordsOutcome<P> = Result<Seq<RecordView<P>>, ProjectionErrorView>;

/// The text of a date as the host read it.
pub open spec fn calendar_text(date: CalendarDate) -> Seq<char> {
    date_text(date.year as int, date.month as nat, date.day as nat)
}

/// The text of a time of day as the host read it.
pub open spec fn clock_time_text(time: ClockTime) -> Seq<char> {
    time_text(
        time.hour as nat,
        time.minute as nat,
        time.second as nat,
        time.microsecond as nat,
    )
}

/// The text of a timestamp as the host read it.
pub open spec fn timestamp_text(timestamp: Timestamp) -> Seq<char> {
    datetime_text(
        timestamp.date.year as int,
        timestamp.date.month as nat,
        timestamp.date.day as nat,
        timestamp.time.hour as nat,
        timestamp.time.minute as nat,
        timestamp.time.second as nat,
        timestamp.time.microsecond as nat,
        timestamp.utc_offset_seconds,
    )
}

/// The serialized form of a value: a plain value as it is, a timestamp, a date or a time
/// of day as its canonical text, an identifier or a decimal as the text that the host
/// gives it; nothing for an unsupported value.
pub open spec fn rendered<P, H>(value: HostValueView<P>, projector: ProjectorView<H>) -> Option<
    ValueView<P>,
> {
    match kind_of(value, projector.identifier_resolved(), projector.decimal_resolved()) {
        Kind::Plain => Some(ValueView::Plain(value.plain->0)),
        Kind::Timestamp => Some(ValueView::Text(timestamp_text(value.timestamp->0))),
        Kind::Date => Some(ValueView::Text(calendar_text(value.date->0))),
        Kind::Time => Some(ValueView::Text(clock_time_text(value.time->0))),
        Kind::OpaqueIdentifier => Some(ValueView::Text(value.identifier->0)),
        Kind::Decimal => Some(ValueView::Text(value.decimal->0)),
        Kind::Unsupported => None,
    }
}

/// A value is serialized by what the host reports of it as a member of its kind alone:
/// whatever else the host reports, or leaves out, changes nothing.
pub proof fn lemma_rendered_by_kind_alone<P, H>(
    value: HostValueView<P>,
    projector: ProjectorView<H>,
)
    ensures
        rendered(
            only_as(
                value,
                kind_of(value, projector.identifier_resolved(), projector.decimal_resolved()),
            ),
            projector,
        ) == rendered(value, projector),
{
}

/// What one field makes of one object: the serialized value of the attribute, or the
/// error where the attribute is missing or its value unsupported.
#[verifier::opaque]
pub open spec fn field_outcome<P, H>(
    projector: ProjectorView<H>,
    field: FieldSpecView,
    object: ObjectView<P>,
) -> FieldOutcome<P> {
    match attribute_of(object, field.source_attribute) {
        None => Err(
            ProjectionErrorView::AttributeAccess {
                output_key: field.output_key,
                source_attribute: field.source_attribute,
            },
        ),
        Some(value) => match rendered(value, projector) {
            Some(out) => Ok(out),
            None => Err(
                ProjectionErrorView::UnsupportedType {
                    output_key: field.output_key,
                    source_attribute: field.source_attribute,
                    type_label: value.type_label,
                },
            ),
        },
    }
}

/// What the field at `index` of the table makes of one object.
pub open spec fn outcome_at<P, H>(
    projector: ProjectorView<H>,
    object: ObjectView<P>,
    index: int,
) -> FieldOutcome<P> {
    field_outcome(projector, projector.fields[index], object)
}

/// The record that the first `count` fields of the table make of one object, or the
/// error of the first of them that fails.
pub open spec fn projected_prefix<P, H>(
    projector: ProjectorView<H>,
    object: ObjectView<P>,
    count: nat,
) -> RecordOutcome<P>
    decreases count,
{
    if count == 0 {
        Ok(Seq::empty())
    } else {
        match projected_prefix(projector, object, (count - 1) as nat) {
            Err(error) => Err(error),
            Ok(record) => match outcome_at(projector, object, count - 1) {
                Err(error) => Err(error),
                Ok(value) => Ok(
                    record_put(record, projector.fields[count - 1].output_key, value),
                ),
            },
        }
    }
}

/// The record that the table makes of one object, or the error of the first field that
/// fails.
pub open spec fn projected<P, H>(
    projector: ProjectorView<H>,
    object: ObjectView<P>,
) -> RecordOutcome<P> {
    projected_prefix(projector, object, projector.fields.len())
}

/// The records of the first `count` objects, in their order, or the error of the first
/// of them that fails.
pub open spec fn projected_all_prefix<P, H>(
    projector: ProjectorView<H>,
    objects: Seq<ObjectView<P>>,
    count: nat,
) -> RecordsOutcome<P>
    decreases count,
{
    if count == 0 {
        Ok(Seq::empty())
    } else {
        match projected_all_prefix(projector, objects, (count - 1) as nat) {
            Err(error) => Err(error),
            Ok(records) => match projected(projector, objects[count - 1]) {
                Err(error) => Err(error),
                Ok(record) => Ok(records.push(record)),
            },
        }
    }
}

/// The records of all the objects, in their order, or the error of the first object that
/// fails.
pub open spec fn projected_all<P, H>(
    projector: ProjectorView<H>,
    objects: Seq<ObjectView<P>>,
) -> RecordsOutcome<P> {
    projected_all_prefix(projector, objects, objects.len())
}

/// The mathematical content of a sequence of host objects.
pub open spec fn object_views<P>(objects: Seq<HostObject<P>>) -> Seq<ObjectView<P>> {
    Seq::new(objects.len(), |i: int| objects[i]@)
}

/// The mathematical content of a sequence of records.
pub open spec fn record_views<P>(records: Seq<Record<P>>) -> Seq<RecordView<P>> {
    Seq::new(records.len(), |i: int| records[i]@)
}

/// The mathematical content of what [`Projector::project_object`] returns.
pub open spec fn record_outcome<P>(result: Result<Record<P>, ProjectionError>) -> RecordOutcome<P> {
    match result {
        Ok(record) => Ok(record@),
        Err(error) => Err(error@),
    }
}

/// The mathematical content of what [`Projector::project`] returns.
pub open spec fn records_outcome<P>(
    result: Result<Vec<Record<P>>, ProjectionError>,
) -> RecordsOutcome<P> {
    match result {
        Ok(records) => Ok(record_views(records@)),
        Err(error) => Err(error@),
    }
}

/// Once a field has failed, the fields after it change nothing: the error stays.
pub proof fn lemma_field_error_stays<P, H>(
    projector: ProjectorView<H>,
    object: ObjectView<P>,
    failed: nat,
    count: nat,
)
    requires
        failed <= count,
        projected_prefix(projector, object, failed) is Err,
    ensures
        projected_prefix(projector, object, count) == projected_prefix(
            projector,
            object,
            failed,
        ),
    decreases count,
{
    if failed < count {
        lemma_field_error_stays(projector, object, failed, (count - 1) as nat);
    }
}

/// Once an object has failed, the objects after it change nothing: the error stays.
pub proof fn lemma_object_error_stays<P, H>(
    projector: ProjectorView<H>,
    objects: Seq<ObjectView<P>>,
    failed: nat,
    count: nat,
)
    requires
        failed <= count,
        projected_all_prefix(projector, objects, failed) is Err,
    ensures
        projected_all_prefix(projector, objects, count) == projected_all_prefix(
            projector,
            objects,
            failed,
        ),
    decreases count,
{
    if failed < count {
        lemma_object_error_stays(projector, objects, failed, (count - 1) as nat);
    }
}

/// What the first `count` fields make of an object, field by field. They make a record
/// exactly where each of them succeeds. The record then holds no key twice, and under
/// the output key of each field that no later one among them shares, it holds that
/// field's value. Where one fails, the error is that of the first that does.
pub proof fn lemma_projected_prefix<P, H>(
    projector: ProjectorView<H>,
    object: ObjectView<P>,
    count: nat,
)
    requires
        count <= projector.fields.len(),
    ensures
        projected_prefix(projector, object, count) is Ok <==> forall|j: int|
            0 <= j < count ==> (#[trigger] outcome_at(projector, object, j)) is Ok,
        projected_prefix(projector, object, count) matches Ok(record) ==> {
            &&& distinct_keys(record)
            &&& forall|j: int|
                0 <= j < count && (forall|k: int|
                    j < k < count ==> (#[trigger] projector.fields[k]).output_key
                        != projector.fields[j].output_key) ==> record_get(
                    record,
                    projector.fields[j].output_key,
                ) == Some((#[trigger] outcome_at(projector, object, j))->Ok_0)
        },
        projected_prefix(projector, object, count) matches Err(error) ==> exists|j: int|
            {
                &&& 0 <= j < count
                &&& (#[trigger] outcome_at(projector, object, j)) == FieldOutcome::<P>::Err(error)
                &&& forall|k: int|
                    0 <= k < j ==> (#[trigger] outcome_at(projector, object, k)) is Ok
            },
    decreases count,
{
    if count > 0 {
        let before = (count - 1) as nat;
        let last = count - 1;
        lemma_projected_prefix(projector, object, before);
        match projected_prefix(projector, object, before) {
            Err(error) => {
                let j = choose|j: int|
                    {
                        &&& 0 <= j < before
                        &&& (#[trigger] outcome_at(projector, object, j))
                            == FieldOutcome::<P>::Err(error)
                        &&& forall|k: int|
                            0 <= k < j ==> (#[trigger] outcome_at(projector, object, k)) is Ok
                    };
                assert(0 <= j < count && outcome_at(projector, object, j)
                    == FieldOutcome::<P>::Err(error));
            },
            Ok(record) => {
                match outcome_at(projector, object, last) {
                    Err(error) => {
                        assert(0 <= last < count && outcome_at(projector, object, last)
                            == FieldOutcome::<P>::Err(error));
                    },
                    Ok(value) => {
                        let key = projector.fields[last].output_key;
                        let after = record_put(record, key, value);
                        lemma_record_put(record, key, value);
                        assert forall|j: int|
                            0 <= j < count && (forall|k: int|
                                j < k < count ==> (#[trigger] projector.fields[k]).output_key
                                    != projector.fields[j].output_key) implies record_get(
                            after,
                            projector.fields[j].output_key,
                        ) == Some((#[trigger] outcome_at(projector, object, j))->Ok_0) by {
                            if j < last {
                                assert(projector.fields[last].output_key
                                    != projector.fields[j].output_key);
                                assert forall|k: int| j < k < before implies (
                                #[trigger] projector.fields[k]).output_key
                                    != projector.fields[j].output_key by {}
                            }
                        }
                        assert forall|j: int| 0 <= j < count implies (#[trigger] outcome_at(
                            projector,
                            object,
                            j,
                        )) is Ok by {}
                    },
                }
            },
        }
    }
}

/// A record has at most one entry for each field that made it.
pub proof fn lemma_record_length<P, H>(
    projector: ProjectorView<H>,
    object: ObjectView<P>,
    count: nat,
)
    requires
        count <= projector.fields.len(),
    ensures
        projected_prefix(projector, object, count) matches Ok(record) ==> record.len() <= count,
    decreases count,
{
    if count > 0 {
        lemma_record_length(projector, object, (count - 1) as nat);
        lemma_projected_prefix(projector, object, (count - 1) as nat);
        if let Ok(record) = projected_prefix(projector, object, (count - 1) as nat) {
            if let Ok(value) = outcome_at(projector, object, count - 1) {
                lemma_record_put(record, projector.fields[count - 1].output_key, value);
            }
        }
    }
}

/// Last write wins: where projecting an object succeeds, the record holds, under the
/// output key of a field, the value of the last field of the table with that key.
pub proof fn lemma_last_write_wins<P, H>(
    projector: ProjectorView<H>,
    object: ObjectView<P>,
    last: int,
)
    requires
        projected(projector, object) is Ok,
        0 <= last < projector.fields.len(),
        forall|k: int|
            last < k < projector.fields.len() ==> (#[trigger] projector.fields[k]).output_key
                != projector.fields[last].output_key,
    ensures
        outcome_at(projector, object, last) is Ok,
        record_get(projected(projector, object)->Ok_0, projector.fields[last].output_key)
            == Some(outcome_at(projector, object, last)->Ok_0),
{
    lemma_projected_prefix(projector, object, projector.fields.len());
    assert(outcome_at(projector, object, last) is Ok);
}

/// Projecting an object succeeds exactly where every field of the table finds its
/// attribute and the attribute's value is supported. The record then holds no key twice.
pub proof fn lemma_project_object_succeeds<P, H>(
    projector: ProjectorView<H>,
    object: ObjectView<P>,
)
    ensures
        projected(projector, object) is Ok <==> forall|j: int|
            0 <= j < projector.fields.len() ==> (#[trigger] outcome_at(projector, object, j))
                is Ok,
        projected(projector, object) matches Ok(record) ==> distinct_keys(record),
{
    lemma_projected_prefix(projector, object, projector.fields.len());
}

/// The first field that fails gives the error of the projection.
pub proof fn lemma_first_failing_field<P, H>(
    projector: ProjectorView<H>,
    object: ObjectView<P>,
    failing: int,
)
    requires
        0 <= failing < projector.fields.len(),
        outcome_at(projector, object, failing) is Err,
        forall|k: int| 0 <= k < failing ==> (#[trigger] outcome_at(projector, object, k)) is Ok,
    ensures
        projected(projector, object) is Err,
        projected(projector, object)->Err_0 == outcome_at(projector, object, failing)->Err_0,
{
    lemma_projected_prefix(projector, object, projector.fields.len());
    assert(!(outcome_at(projector, object, failing) is Ok));
    let error = projected(projector, object)->Err_0;
    let j = choose|j: int|
        {
            &&& 0 <= j < projector.fields.len()
            &&& (#[trigger] outcome_at(projector, object, j)) == FieldOutcome::<P>::Err(error)
            &&& forall|k: int| 0 <= k < j ==> (#[trigger] outcome_at(projector, object, k)) is Ok
        };
    if j < failing {
        assert(outcome_at(projector, object, j) is Ok);
    } else if failing < j {
        assert(outcome_at(projector, object, failing) is Ok);
    }
}

/// An empty field table projects every object to the empty record.
pub proof fn lemma_empty_table<P, H>(
    projector: ProjectorView<H>,
    object: ObjectView<P>,
)
    requires
        projector.fields.len() == 0,
    ensures
        projected(projector, object) == RecordOutcome::<P>::Ok(
            Seq::empty(),
        ),
{
}

/// What the first `count` objects are serialized to, object by object. The call succeeds
/// exactly where projecting each object succeeds; it then returns one record for each
/// object, in the order of the objects, each the projection of its object. Where an
/// object fails, the error is that of the first that does.
pub proof fn lemma_projected_all_prefix<P, H>(
    projector: ProjectorView<H>,
    objects: Seq<ObjectView<P>>,
    count: nat,
)
    requires
        count <= objects.len(),
    ensures
        projected_all_prefix(projector, objects, count) is Ok <==> forall|i: int|
            0 <= i < count ==> projected(projector, #[trigger] objects[i]) is Ok,
        projected_all_prefix(projector, objects, count) matches Ok(records) ==> {
            &&& records.len() == count
            &&& forall|i: int|
                0 <= i < count ==> projected(projector, objects[i]) == RecordOutcome::<P>::Ok(
                    #[trigger] records[i],
                )
        },
        projected_all_prefix(projector, objects, count) matches Err(error) ==> exists|i: int|
            {
                &&& 0 <= i < count
                &&& projected(projector, #[trigger] objects[i]) == RecordOutcome::<P>::Err(error)
                &&& forall|k: int| 0 <= k < i ==> projected(projector, #[trigger] objects[k]) is Ok
            },
    decreases count,
{
    if count > 0 {
        let before = (count - 1) as nat;
        let last = count - 1;
        lemma_projected_all_prefix(projector, objects, before);
        match projected_all_prefix(projector, objects, before) {
            Err(error) => {
                let i = choose|i: int|
                    {
                        &&& 0 <= i < before
                        &&& projected(projector, #[trigger] objects[i])
                            == RecordOutcome::<P>::Err(error)
                        &&& forall|k: int|
                            0 <= k < i ==> projected(projector, #[trigger] objects[k]) is Ok
                    };
                assert(0 <= i < count && projected(projector, objects[i])
                    == RecordOutcome::<P>::Err(error));
            },
            Ok(records) => {
                match projected(projector, objects[last]) {
                    Err(error) => {
                        assert(0 <= last < count && projected(projector, objects[last])
                            == RecordOutcome::<P>::Err(error));
                    },
                    Ok(record) => {
                        let all = records.push(record);
                        assert forall|i: int| 0 <= i < count implies projected(
                            projector,
                            objects[i],
                        ) == RecordOutcome::<P>::Ok(
                            #[trigger] all[i],
                        ) by {
                            if i < last {
                                assert(all[i] == records[i]);
                            }
                        }
                        assert forall|i: int| 0 <= i < count implies projected(
                            projector,
                            #[trigger] objects[i],
                        ) is Ok by {
                            assert(projected(projector, objects[i]) == RecordOutcome::<P>::Ok(
                                all[i],
                            ));
                        }
                    },
                }
            },
        }
    }
}

/// A call succeeds exactly where projecting each object succeeds. It then returns one
/// record for each object, in the order of the objects: the record at an index is the
/// projection of the object at that index.
pub proof fn lemma_project_all_succeeds<P, H>(
    projector: ProjectorView<H>,
    objects: Seq<ObjectView<P>>,
)
    ensures
        projected_all(projector, objects) is Ok <==> forall|i: int|
            0 <= i < objects.len() ==> projected(projector, #[trigger] objects[i]) is Ok,
        projected_all(projector, objects) matches Ok(records) ==> {
            &&& records.len() == objects.len()
            &&& forall|i: int|
                0 <= i < objects.len() ==> projected(projector, objects[i])
                    == RecordOutcome::<P>::Ok(#[trigger] records[i])
        },
{
    lemma_projected_all_prefix(projector, objects, objects.len());
}

/// An empty collection of objects is serialized to an empty sequence of records, and an
/// empty field table serializes every object to the empty record.
pub proof fn lemma_empty_inputs<P, H>(
    projector: ProjectorView<H>,
    objects: Seq<ObjectView<P>>,
)
    ensures
        objects.len() == 0 ==> projected_all(projector, objects) == RecordsOutcome::<P>::Ok(
            Seq::<RecordView<P>>::empty(),
        ),
        projector.fields.len() == 0 ==> projected_all(projector, objects)
            == RecordsOutcome::<P>::Ok(
            Seq::new(objects.len(), |i: int| RecordView::<P>::empty()),
        ),
{
    if projector.fields.len() == 0 {
        lemma_projected_all_prefix(projector, objects, objects.len());
        assert forall|i: int| 0 <= i < objects.len() implies projected(
            projector,
            #[trigger] objects[i],
        ) is Ok by {
            lemma_empty_table(projector, objects[i]);
        }
        let records = projected_all(projector, objects)->Ok_0;
        assert forall|i: int| 0 <= i < objects.len() implies #[trigger] records[i]
            == RecordView::<P>::empty() by {
            lemma_empty_table(projector, objects[i]);
        }
        assert(records =~= Seq::new(objects.len(), |i: int| Seq::empty()));
    }
}

/// One field of one object that fails is enough to fail the whole call: no record is
/// returned, whatever the objects before it gave. Where nothing before it fails, going
/// through the objects in order and through the table for each, the call fails with the
/// error of that field.
pub proof fn lemma_failing_field_fails_call<P, H>(
    projector: ProjectorView<H>,
    objects: Seq<ObjectView<P>>,
    at: int,
    failing: int,
)
    requires
        0 <= at < objects.len(),
        0 <= failing < projector.fields.len(),
        outcome_at(projector, objects[at], failing) is Err,
    ensures
        projected_all(projector, objects) is Err,
        (forall|i: int| 0 <= i < at ==> projected(projector, #[trigger] objects[i]) is Ok) && (
        forall|k: int|
            0 <= k < failing ==> (#[trigger] outcome_at(projector, objects[at], k)) is Ok)
            ==> projected_all(projector, objects)->Err_0 == outcome_at(
            projector,
            objects[at],
            failing,
        )->Err_0,
{
    lemma_project_object_succeeds(projector, objects[at]);
    assert(!(outcome_at(projector, objects[at], failing) is Ok));
    assert(projected(projector, objects[at]) is Err);
    lemma_projected_all_prefix(projector, objects, objects.len());
    if (forall|i: int| 0 <= i < at ==> projected(projector, #[trigger] objects[i]) is Ok) && (
    forall|k: int| 0 <= k < failing ==> (#[trigger] outcome_at(projector, objects[at], k)) is Ok) {
        lemma_first_failing_field(projector, objects[at], failing);
        let error = projected_all(projector, objects)->Err_0;
        let i = choose|i: int|
            {
                &&& 0 <= i < objects.len()
                &&& projected(projector, #[trigger] objects[i]) == RecordOutcome::<P>::Err(error)
                &&& forall|k: int| 0 <= k < i ==> projected(projector, #[trigger] objects[k]) is Ok
            };
        if i < at {
            assert(projected(projector, objects[i]) is Ok);
        } else if at < i {
            assert(projected(projector, objects[at]) is Ok);
        }
    }
}

/// A value of an unsupported kind fails the field that reads it, with an error that
/// names the field's output key, its source attribute and the value's type.
pub proof fn lemma_unsupported_value_fails_field<P, H>(
    projector: ProjectorView<H>,
    field: FieldSpecView,
    object: ObjectView<P>,
)
    requires
        attribute_of(object, field.source_attribute) matches Some(value) && kind_of(
            value,
            projector.identifier_resolved(),
            projector.decimal_resolved(),
        ) == Kind::Unsupported,
    ensures
        field_outcome(projector, field, object) == FieldOutcome::<P>::Err(
            ProjectionErrorView::UnsupportedType {
                output_key: field.output_key,
                source_attribute: field.source_attribute,
                type_label: attribute_of(object, field.source_attribute)->0.type_label,
            },
        ),
{
    reveal(field_outcome);
}

/// A record projector: the field table, and the handles of the host's identifier and
/// decimal types where the host could resolve them.
#[derive(Clone, Debug, PartialEq, Eq)]
pub struct Projector<H> {
    fields: FieldTable,
    handles: AuxTypeHandles<H>,
}

impl<H> View for Projector<H> {
    type V = ProjectorView<H>;

    closed spec fn view(&self) -> ProjectorView<H> {
        ProjectorView {
            fields: self.fields@,
            identifier: self.handles.identifier,
            decimal: self.handles.decimal,
        }
    }
}

impl<H> Projector<H> {
    /// Makes a projector from pairs of output key and source attribute and from the
    /// handles of the identifier and the decimal type. A handle is `None` where the
    /// host could not resolve the type; values of that type are then unsupported.
    pub fn new(
        fields: Vec<(String, String)>,
        identifier_type: Option<H>,
        decimal_type: Option<H>,
    ) -> (projector: Self)
        ensures
            projector@ == (ProjectorView {
                fields: fields_of(fields@),
                identifier: identifier_type,
                decimal: decimal_type,
            }),
    {
        Projector {
            fields: FieldTable::new(fields),
            handles: AuxTypeHandles { identifier: identifier_type, decimal: decimal_type },
        }
    }

    /// The field table.
    pub fn fields(&self) -> (table: &FieldTable)
        ensures
            table@ == self@.fields,
    {
        &self.fields
    }

    /// The handles of the two auxiliary types.
    pub fn handles(&self) -> (handles: &AuxTypeHandles<H>)
        ensures
            handles.identifier == self@.identifier,
            handles.decimal == self@.decimal,
    {
        &self.handles
    }

    /// Determines the kind of `value` for this projector.
    pub fn classify<P>(&self, value: &HostValue<P>) -> (kind: Kind)
        ensures
            kind == kind_of(value@, self@.identifier_resolved(), self@.decimal_resolved()),
    {
        classify(value, &self.handles)
    }

    /// Serializes one value: `None` where its kind is unsupported.
    pub fn render<P: Copy>(&self, value: &HostValue<P>) -> (out: Option<Value<P>>)
        ensures
            match out {
                Some(serialized) => rendered(value@, self@) == Some(serialized@),
                None => rendered(value@, self@) is None,
            },
    {
        match classify(value, &self.handles) {
            Kind::Plain => Some(Value::Plain(value.plain.unwrap())),
            Kind::Timestamp => {
                let t = value.timestamp.unwrap();
                Some(
                    Value::Text(
                        format_datetime(
                            t.date.year,
                            t.date.month,
                            t.date.day,
                            t.time.hour,
                            t.time.minute,
                            t.time.second,
                            t.time.microsecond,
                            t.utc_offset_seconds,
                        ),
                    ),
                )
            },
            Kind::Date => {
                let d = value.date.unwrap();
                Some(Value::Text(format_date(d.year, d.month, d.day)))
            },
            Kind::Time => {
                let t = value.time.unwrap();
                Some(Value::Text(format_time(t.hour, t.minute, t.second, t.microsecond)))
            },
            Kind::OpaqueIdentifier => Some(Value::Text(value.identifier.as_ref().unwrap().clone())),
            Kind::Decimal => Some(Value::Text(value.decimal.as_ref().unwrap().clone())),
            Kind::Unsupported => None,
        }
    }

    /// Projects one object: the record with one entry for each field of the table, in
    /// the order of the table, or the error of the first field that fails. Where an
    /// output key occurs more than once in the table, the last field with that key gives
    /// the value.
    pub fn project_object<P: Copy>(&self, instance: &HostObject<P>) -> (result: Result<
        Record<P>,
        ProjectionError,
    >)
        ensures
            record_outcome(result) == projected(self@, instance@),
            result matches Ok(record) ==> distinct_keys(record@) && record@.len()
                <= self@.fields.len(),
            self@.fields.len() == 0 ==> result is Ok,
    {
        proof {
            lemma_project_object_succeeds(self@, instance@);
            lemma_record_length(self@, instance@, self@.fields.len());
        }
        let mut record = Record::new();
        let mut j: usize = 0;
        while j < self.fields.len()
            invariant
                j <= self@.fields.len(),
                projected_prefix(self@, instance@, j as nat) is Ok,
                projected_prefix(self@, instance@, j as nat)->Ok_0 == record@,
            decreases self@.fields.len() - j,
        {
            let field = self.fields.get(j).unwrap();
            let ghost outcome = outcome_at(self@, instance@, j as int);
            let ghost next = projected_prefix(self@, instance@, (j + 1) as nat);
            proof {
                reveal(field_outcome);
            }
            match instance.attribute(&field.source_attribute) {
                None => {
                    let error = ProjectionError::AttributeAccess {
                        output_key: field.output_key.clone(),
                        source_attribute: field.source_attribute.clone(),
                    };
                    proof {
                        assert(outcome is Err && outcome->Err_0 == error@);
                        assert(next is Err && next->Err_0 == error@);
                        lemma_field_error_stays(
                            self@,
                            instance@,
                            (j + 1) as nat,
                            self@.fields.len(),
                        );
                    }
                    return Err(error);
                },
                Some(value) => match self.render(value) {
                    None => {
                        let error = ProjectionError::UnsupportedType {
                            output_key: field.output_key.clone(),
                            source_attribute: field.source_attribute.clone(),
                            type_label: value.type_label.clone(),
                        };
                        proof {
                            assert(outcome is Err && outcome->Err_0 == error@);
                            assert(next is Err && next->Err_0 == error@);
                            lemma_field_error_stays(
                                self@,
                                instance@,
                                (j + 1) as nat,
                                self@.fields.len(),
                            );
                        }
                        return Err(error);
                    },
                    Some(out) => {
                        assert(outcome is Ok && outcome->Ok_0 == out@);
                        record.insert(field.output_key.clone(), out);
                    },
                },
            }
            j = j + 1;
        }
        Ok(record)
    }

    /// Projects every object of `instances`, in order.
    ///
    /// Returns one record for each object, in the order of the objects. The first field
    /// that fails, going through the objects in order and through the table for each,
    /// fails the call with its error, and then no record is returned.
    pub fn project<P: Copy>(&self, instances: &Vec<HostObject<P>>) -> (result: Result<
        Vec<Record<P>>,
        ProjectionError,
    >)
        ensures
            records_outcome(result) == projected_all(self@, object_views(instances@)),
            result is Ok <==> forall|i: int|
                0 <= i < instances@.len() ==> projected(self@, (#[trigger] instances@[i])@)
                    is Ok,
            result matches Ok(records) ==> {
                &&& records@.len() == instances@.len()
                &&& forall|i: int|
                    0 <= i < records@.len() ==> projected(self@, instances@[i]@)
                        == RecordOutcome::<P>::Ok((#[trigger] records@[i])@)
            },
            instances@.len() == 0 || self@.fields.len() == 0 ==> result is Ok,
    {
        let ghost objects = object_views(instances@);
        proof {
            lemma_project_all_succeeds(self@, objects);
            assert forall|i: int| 0 <= i < instances@.len() implies objects[i]
                == (#[trigger] instances@[i])@ by {}
            lemma_empty_inputs(self@, objects);
        }
        let mut records: Vec<Record<P>> = Vec::new();
        let mut i: usize = 0;
        while i < instances.len()
            invariant
                i <= instances.len(),
                objects == object_views(instances@),
                projected_all_prefix(self@, objects, i as nat) is Ok,
                projected_all_prefix(self@, objects, i as nat)->Ok_0 == record_views(records@),
            decreases instances.len() - i,
        {
            let ghost next = projected_all_prefix(self@, objects, (i + 1) as nat);
            assert(objects[i as int] == instances@[i as int]@);
            match self.project_object(&instances[i]) {
                Err(error) => {
                    proof {
                        assert(next is Err && next->Err_0 == error@);
                        lemma_object_error_stays(self@, objects, (i + 1) as nat, objects.len());
                    }
                    return Err(error);
                },
                Ok(record) => {
                    let ghost before = record_views(records@);
                    records.push(record);
                    assert(record_views(records@) =~= before.push(record@));
                },
            }
            i = i + 1;
        }
        proof {
            let views = record_views(records@);
            assert forall|i: int| 0 <= i < records@.len() implies projected(
                self@,
                instances@[i]@,
            ) == RecordOutcome::<P>::Ok((#[trigger] records@[i])@) by {
                assert(views[i] == records@[i]@);
                assert(objects[i] == instances@[i]@);
            }
        }
        Ok(records)
    }
}

} // verus!
