use drf_accelerator::{
    duration_seconds, read_value, write_record, AuxTypeHandles, CalendarDate, ClockTime,
    Duration, FastSerializer, HostObject, HostValue, Kind, Record, Timestamp, Value,
};
use pyo3::exceptions::{PyAttributeError, PyTypeError, PyValueError};
use pyo3::types::{
    PyAnyMethods, PyDict, PyDictMethods, PyList, PyListMethods, PyModule, PyTuple, PyType,
};
use pyo3::{Bound, Py, PyAny, PyErr, Python};

fn fixtures(py: Python<'_>) -> Bound<'_, PyModule> {
    PyModule::from_code(
        py,
        c"
import datetime
import decimal
import uuid


class Obj:
    def __init__(self, **attributes):
        self.__dict__.update(attributes)


class Moody:
    pk = 1

    @property
    def mood(self):
        raise ValueError('not today')


class Packed:
    __slots__ = ('pk',)

    def __init__(self, pk):
        self.pk = pk


class Loud(datetime.tzinfo):
    def utcoffset(self, moment):
        raise ValueError('no offset')


class Silent(datetime.tzinfo):
    def utcoffset(self, moment):
        return None


def zone(**parts):
    return datetime.timezone(datetime.timedelta(**parts))


def stamp(microsecond=0, tzinfo=None):
    return datetime.datetime(2024, 3, 5, 14, 30, 0, microsecond, tzinfo=tzinfo)


def yielding(*objects):
    for each in objects:
        yield each


def failing_after(*objects):
    for each in objects:
        yield each
    raise ValueError('no more')


def without_end(*objects):
    while True:
        for each in objects:
            yield each


identifier = uuid.UUID('123e4567-e89b-12d3-a456-426614174000')
big = 2 ** 100
plain = Obj(n=None, b=True, i=7, big=big, f=1.5, t='text')
utc = Obj(pk=7, created_at=stamp(tzinfo=datetime.timezone.utc))
eastern = Obj(pk=7, created_at=stamp(500000, zone(seconds=-18000)))
indian = Obj(pk=8, created_at=stamp(tzinfo=zone(seconds=19800)))
naive = Obj(pk=9, created_at=stamp())
fraction = Obj(pk=9, created_at=stamp(5))
half_minute = Obj(pk=1, created_at=stamp(tzinfo=zone(seconds=30)))
half_minute_west = Obj(pk=1, created_at=stamp(tzinfo=zone(seconds=-30)))
half_second_west = Obj(pk=1, created_at=stamp(tzinfo=zone(microseconds=-500000)))
almost_an_hour_west = Obj(pk=1, created_at=stamp(tzinfo=zone(seconds=-3599, microseconds=-999999)))
silent = Obj(pk=1, created_at=stamp(tzinfo=Silent()))
loud = Obj(pk=1, created_at=stamp(tzinfo=Loud()))
loud_and_odd = Obj(payload={'a': 1}, created_at=stamp(tzinfo=Loud()))
calendar = Obj(day=datetime.date(2024, 3, 5), at=datetime.time(14, 30, 0, 5), noon=datetime.time(12))
auxiliary = Obj(uid=identifier, price=decimal.Decimal('10.50'))
unsupported = Obj(pk=1, payload={'a': 1})
missing = Obj(pk=1)
moody = Moody()
packed = Packed(3)
",
        c"fixtures.py",
        c"fixtures",
    )
    .unwrap()
}

fn pairs(list: &[(&str, &str)]) -> Vec<(String, String)> {
    list.iter().map(|(key, source)| (key.to_string(), source.to_string())).collect()
}

fn list_of<'py>(py: Python<'py>, names: &[&str]) -> Bound<'py, PyAny> {
    let module = fixtures(py);
    let objects: Vec<Bound<'py, PyAny>> =
        names.iter().map(|name| module.getattr(*name).unwrap()).collect();
    PyList::new(py, objects).unwrap().into_any()
}

fn serialize<'py>(
    py: Python<'py>,
    fields: &[(&str, &str)],
    names: &[&str],
) -> Result<Bound<'py, PyList>, PyErr> {
    FastSerializer::new(py, pairs(fields)).serialize(py, &list_of(py, names))
}

fn record<'py>(list: &Bound<'py, PyList>, index: usize) -> Bound<'py, PyDict> {
    list.get_item(index).unwrap().downcast_into::<PyDict>().unwrap()
}

fn keys(dict: &Bound<'_, PyDict>) -> Vec<String> {
    dict.keys().iter().map(|key| key.extract::<String>().unwrap()).collect()
}

fn text_at(dict: &Bound<'_, PyDict>, key: &str) -> String {
    dict.get_item(key).unwrap().unwrap().extract::<String>().unwrap()
}

fn when(py: Python<'_>, name: &str) -> String {
    let list = serialize(py, &[("when", "created_at")], &[name]).unwrap();
    text_at(&record(&list, 0), "when")
}

fn handles(py: Python<'_>) -> AuxTypeHandles<Py<PyType>> {
    let class = |module: &str, name: &str| {
        py.import(module)
            .and_then(|module| module.getattr(name))
            .map(|class| class.downcast_into::<PyType>().unwrap().unbind())
    };
    AuxTypeHandles::from_attempts(class("uuid", "UUID"), class("decimal", "Decimal"))
}

fn no_handles() -> AuxTypeHandles<Py<PyType>> {
    AuxTypeHandles { identifier: None, decimal: None }
}

fn shape(seen: &HostValue<&Bound<'_, PyAny>>) -> HostValue<()> {
    HostValue {
        plain: seen.plain.map(|_| ()),
        timestamp: seen.timestamp,
        date: seen.date,
        time: seen.time,
        identifier: seen.identifier.clone(),
        decimal: seen.decimal.clone(),
        type_label: seen.type_label.clone(),
    }
}

fn kind_seen(py: Python<'_>, value: &Bound<'_, PyAny>, handles: &AuxTypeHandles<Py<PyType>>) -> Kind {
    drf_accelerator::classify(&read_value(py, value, handles).unwrap(), handles)
}

#[test]
fn host_end_to_end_timestamp_with_zero_offset() {
    Python::with_gil(|py| {
        let list = serialize(py, &[("id", "pk"), ("when", "created_at")], &["utc"]).unwrap();
        assert_eq!(list.len(), 1);
        let dict = record(&list, 0);
        assert_eq!(keys(&dict), ["id", "when"]);
        assert_eq!(dict.get_item("id").unwrap().unwrap().extract::<i64>().unwrap(), 7);
        assert_eq!(text_at(&dict, "when"), "2024-03-05T14:30:00Z");
    });
}

#[test]
fn host_end_to_end_timestamp_with_fraction_and_negative_offset() {
    Python::with_gil(|py| {
        let list = serialize(py, &[("id", "pk"), ("when", "created_at")], &["eastern"]).unwrap();
        let dict = record(&list, 0);
        assert_eq!(text_at(&dict, "when"), "2024-03-05T14:30:00.500000-05:00");
        assert_eq!(dict.get_item("id").unwrap().unwrap().extract::<i64>().unwrap(), 7);
    });
}

#[test]
fn host_offsets_are_written_as_the_text_says() {
    Python::with_gil(|py| {
        assert_eq!(when(py, "utc"), "2024-03-05T14:30:00Z");
        assert_eq!(when(py, "indian"), "2024-03-05T14:30:00+05:30");
        assert_eq!(when(py, "naive"), "2024-03-05T14:30:00");
        assert_eq!(when(py, "fraction"), "2024-03-05T14:30:00.000005");
        assert_eq!(when(py, "silent"), "2024-03-05T14:30:00");
    });
}

#[test]
fn host_offsets_are_cut_toward_zero() {
    Python::with_gil(|py| {
        assert_eq!(when(py, "half_minute"), "2024-03-05T14:30:00+00:00");
        assert_eq!(when(py, "half_minute_west"), "2024-03-05T14:30:00-00:00");
        assert_eq!(when(py, "half_second_west"), "2024-03-05T14:30:00Z");
        assert_eq!(when(py, "almost_an_hour_west"), "2024-03-05T14:30:00-00:59");
    });
}

#[test]
fn host_offset_agrees_with_the_total_seconds_of_the_host() {
    Python::with_gil(|py| {
        let timedelta = py.import("datetime").unwrap().getattr("timedelta").unwrap();
        for (days, seconds, microseconds) in [
            (0, 0, 0),
            (0, 19800, 0),
            (-1, 68400, 0),
            (-1, 86399, 500_000),
            (-1, 86399, 999_999),
            (-1, 82800, 1),
            (0, 59, 999_999),
            (1, 0, 0),
            (-5, 12, 34),
            (20_000, 5, 6),
            (-20_000, 5, 6),
        ] {
            let delta = timedelta.call1((days, seconds, microseconds)).unwrap();
            let total = delta.call_method0("total_seconds").unwrap().extract::<f64>().unwrap();
            assert_eq!(duration_seconds(Duration { days, seconds, microseconds }), total as i32);
        }
    });
}

#[test]
fn host_plain_values_are_the_same_objects() {
    Python::with_gil(|py| {
        let fields = [("n", "n"), ("b", "b"), ("i", "i"), ("big", "big"), ("f", "f"), ("t", "t")];
        let list = serialize(py, &fields, &["plain"]).unwrap();
        let dict = record(&list, 0);
        let source = fixtures(py).getattr("plain").unwrap();
        assert_eq!(keys(&dict), ["n", "b", "i", "big", "f", "t"]);
        for (key, name) in fields {
            let written = dict.get_item(key).unwrap().unwrap();
            assert!(written.eq(source.getattr(name).unwrap()).unwrap());
        }
        assert!(dict.get_item("n").unwrap().unwrap().is_none());
        assert!(dict.get_item("b").unwrap().unwrap().extract::<bool>().unwrap());
        assert_eq!(dict.get_item("f").unwrap().unwrap().extract::<f64>().unwrap(), 1.5);
        assert_eq!(text_at(&dict, "t"), "text");
        let big = dict.get_item("big").unwrap().unwrap();
        assert_eq!(big.str().unwrap().extract::<String>().unwrap(), "1267650600228229401496703205376");
    });
}

#[test]
fn host_dates_and_times_become_text() {
    Python::with_gil(|py| {
        let list =
            serialize(py, &[("day", "day"), ("at", "at"), ("noon", "noon")], &["calendar"]).unwrap();
        let dict = record(&list, 0);
        assert_eq!(text_at(&dict, "day"), "2024-03-05");
        assert_eq!(text_at(&dict, "at"), "14:30:00.000005");
        assert_eq!(text_at(&dict, "noon"), "12:00:00");
    });
}

#[test]
fn host_identifier_and_decimal_become_their_text() {
    Python::with_gil(|py| {
        let list = serialize(py, &[("id", "uid"), ("price", "price")], &["auxiliary"]).unwrap();
        let dict = record(&list, 0);
        assert_eq!(text_at(&dict, "id"), "123e4567-e89b-12d3-a456-426614174000");
        assert_eq!(text_at(&dict, "price"), "10.50");
    });
}

#[test]
fn host_duplicate_output_key_takes_the_last_field() {
    Python::with_gil(|py| {
        let list =
            serialize(py, &[("x", "i"), ("y", "t"), ("x", "f")], &["plain"]).unwrap();
        let dict = record(&list, 0);
        assert_eq!(keys(&dict), ["x", "y"]);
        assert_eq!(dict.get_item("x").unwrap().unwrap().extract::<f64>().unwrap(), 1.5);
        assert_eq!(text_at(&dict, "y"), "text");
    });
}

#[test]
fn host_empty_table_gives_empty_dictionaries() {
    Python::with_gil(|py| {
        let list = serialize(py, &[], &["plain", "unsupported", "missing"]).unwrap();
        assert_eq!(list.len(), 3);
        for index in 0..3 {
            assert!(record(&list, index).is_empty());
        }
    });
}

#[test]
fn host_no_objects_give_an_empty_list() {
    Python::with_gil(|py| {
        assert_eq!(serialize(py, &[("id", "pk")], &[]).unwrap().len(), 0);
        assert_eq!(serialize(py, &[], &[]).unwrap().len(), 0);
    });
}

#[test]
fn host_unsupported_value_fails_the_whole_call() {
    Python::with_gil(|py| {
        let fields = [("id", "pk"), ("extra", "payload")];
        assert!(serialize(py, &fields[..1], &["utc", "unsupported"]).is_ok());
        let error = serialize(py, &fields, &["missing", "unsupported", "utc"]);
        assert!(error.is_err());
        let error = serialize(py, &[("extra", "payload")], &["unsupported"]).unwrap_err();
        assert!(error.is_instance_of::<PyTypeError>(py));
        assert_eq!(
            error.value(py).to_string(),
            "FastSerializer: Field 'extra' (source: 'payload') returned unsupported type: <class 'dict'>. Supported: primitives, datetime, date, time, uuid, decimal."
        );
    });
}

#[test]
fn host_missing_attribute_fails_the_whole_call() {
    Python::with_gil(|py| {
        let fields = [("id", "pk"), ("when", "created_at")];
        let error = serialize(py, &fields, &["utc", "missing", "utc"]).unwrap_err();
        assert!(error.is_instance_of::<PyAttributeError>(py));
        assert_eq!(
            error.value(py).to_string(),
            "FastSerializer: Field 'when' (source: 'created_at') could not be read."
        );
        let error = serialize(py, &[("mood", "mood")], &["moody"]).unwrap_err();
        assert!(error.is_instance_of::<PyAttributeError>(py));
        assert_eq!(
            error.value(py).to_string(),
            "FastSerializer: Field 'mood' (source: 'mood') could not be read."
        );
    });
}

#[test]
fn host_first_failure_in_order_is_reported() {
    Python::with_gil(|py| {
        let fields = [("id", "pk"), ("extra", "payload")];
        let error = serialize(py, &fields, &["unsupported", "missing"]).unwrap_err();
        assert!(error.is_instance_of::<PyTypeError>(py));
        let error = serialize(py, &fields, &["missing", "unsupported"]).unwrap_err();
        assert!(error.is_instance_of::<PyAttributeError>(py));
        let error = serialize(py, &[("extra", "payload"), ("no", "nothing")], &["unsupported"]);
        assert!(error.unwrap_err().is_instance_of::<PyTypeError>(py));
        let error = serialize(py, &[("no", "nothing"), ("extra", "payload")], &["unsupported"]);
        assert!(error.unwrap_err().is_instance_of::<PyAttributeError>(py));
    });
}

#[test]
fn host_error_about_a_value_is_handed_on() {
    Python::with_gil(|py| {
        let error = serialize(py, &[("when", "created_at")], &["loud"]).unwrap_err();
        assert!(error.is_instance_of::<PyValueError>(py));
        assert_eq!(error.value(py).to_string(), "no offset");
        let fields = [("extra", "payload"), ("when", "created_at")];
        let error = serialize(py, &fields, &["loud_and_odd"]).unwrap_err();
        assert!(error.is_instance_of::<PyTypeError>(py));
        let fields = [("when", "created_at"), ("extra", "payload")];
        let error = serialize(py, &fields, &["loud_and_odd"]).unwrap_err();
        assert!(error.is_instance_of::<PyValueError>(py));
    });
}

#[test]
fn host_any_iterable_is_taken() {
    Python::with_gil(|py| {
        let module = fixtures(py);
        let made = FastSerializer::new(py, pairs(&[("id", "pk")]));
        let objects = ["utc", "indian", "packed"].map(|name| module.getattr(name).unwrap());
        let arguments = PyTuple::new(py, objects).unwrap();
        let generator = module.getattr("yielding").unwrap().call1(arguments.clone()).unwrap();
        let list = made.serialize(py, &generator).unwrap();
        assert_eq!(list.len(), 3);
        let ids: Vec<i64> = (0..3)
            .map(|i| record(&list, i).get_item("id").unwrap().unwrap().extract().unwrap())
            .collect();
        assert_eq!(ids, [7, 8, 3]);
        let failing = module.getattr("failing_after").unwrap().call1(arguments).unwrap();
        assert!(made.serialize(py, &failing).unwrap_err().is_instance_of::<PyValueError>(py));
        let odd = PyTuple::new(py, [module.getattr("unsupported").unwrap()]).unwrap();
        let failing = module.getattr("failing_after").unwrap().call1(odd.clone()).unwrap();
        let extra = FastSerializer::new(py, pairs(&[("extra", "payload")]));
        assert!(extra.serialize(py, &failing).unwrap_err().is_instance_of::<PyTypeError>(py));
        let endless = module.getattr("without_end").unwrap().call1(odd).unwrap();
        assert!(extra.serialize(py, &endless).unwrap_err().is_instance_of::<PyTypeError>(py));
        let not_iterable = module.getattr("utc").unwrap();
        assert!(made.serialize(py, &not_iterable).unwrap_err().is_instance_of::<PyTypeError>(py));
    });
}

#[test]
fn host_serializer_keeps_the_table() {
    Python::with_gil(|py| {
        let made = FastSerializer::new(py, pairs(&[("id", "pk"), ("when", "created_at")]));
        let table = made.projector().fields();
        assert_eq!(table.len(), 2);
        assert_eq!(table.get(1).unwrap().output_key, "when");
        assert_eq!(table.get(1).unwrap().source_attribute, "created_at");
        assert!(made.projector().handles().identifier.is_some());
        assert!(made.projector().handles().decimal.is_some());
        let twice = list_of(py, &["utc", "eastern"]);
        assert_eq!(made.serialize(py, &twice).unwrap().len(), 2);
        assert_eq!(made.serialize(py, &twice).unwrap().len(), 2);
    });
}

#[test]
fn host_unresolved_type_is_never_matched() {
    Python::with_gil(|py| {
        let kept = py.import("uuid").unwrap();
        let modules = py.import("sys").unwrap().getattr("modules").unwrap();
        modules.set_item("uuid", py.None()).unwrap();
        let made = FastSerializer::new(py, pairs(&[("id", "uid"), ("price", "price")]));
        modules.set_item("uuid", kept).unwrap();
        assert!(made.projector().handles().identifier.is_none());
        assert!(made.projector().handles().decimal.is_some());
        let error = made.serialize(py, &list_of(py, &["auxiliary"])).unwrap_err();
        assert!(error.is_instance_of::<PyTypeError>(py));
        assert_eq!(
            error.value(py).to_string(),
            "FastSerializer: Field 'id' (source: 'uid') returned unsupported type: <class 'uuid.UUID'>. Supported: primitives, datetime, date, time, uuid, decimal."
        );
        let priced = FastSerializer::new(py, pairs(&[("price", "price")]));
        let list = priced.serialize(py, &list_of(py, &["auxiliary"])).unwrap();
        assert_eq!(text_at(&record(&list, 0), "price"), "10.50");
    });
}

#[test]
fn host_timestamp_is_read_as_a_timestamp_and_a_date() {
    Python::with_gil(|py| {
        let module = fixtures(py);
        let value = module.getattr("eastern").unwrap().getattr("created_at").unwrap();
        let seen = read_value(py, &value, &handles(py)).unwrap();
        let expected = HostValue {
            date: Some(CalendarDate { year: 2024, month: 3, day: 5 }),
            ..HostValue::timestamp(
                Timestamp {
                    date: CalendarDate { year: 2024, month: 3, day: 5 },
                    time: ClockTime { hour: 14, minute: 30, second: 0, microsecond: 500_000 },
                    utc_offset_seconds: Some(-18000),
                },
                String::new(),
            )
        };
        assert_eq!(shape(&seen), expected);
        assert_eq!(kind_seen(py, &value, &handles(py)), Kind::Timestamp);
        assert_eq!(kind_seen(py, &value, &no_handles()), Kind::Timestamp);
    });
}

#[test]
fn host_values_are_read_as_their_kinds() {
    Python::with_gil(|py| {
        let module = fixtures(py);
        let plain = module.getattr("plain").unwrap();
        for name in ["n", "b", "i", "big", "f", "t"] {
            let value = plain.getattr(name).unwrap();
            assert_eq!(kind_seen(py, &value, &handles(py)), Kind::Plain);
            let seen = read_value(py, &value, &handles(py)).unwrap();
            assert!(seen.plain.unwrap().is(&value));
        }
        let calendar = module.getattr("calendar").unwrap();
        let day = calendar.getattr("day").unwrap();
        let day = read_value(py, &day, &handles(py)).unwrap();
        assert_eq!(
            shape(&day),
            HostValue::date(CalendarDate { year: 2024, month: 3, day: 5 }, String::new())
        );
        let at = calendar.getattr("at").unwrap();
        let at = read_value(py, &at, &handles(py)).unwrap();
        let clock = ClockTime { hour: 14, minute: 30, second: 0, microsecond: 5 };
        assert_eq!(shape(&at), HostValue::time(clock, String::new()));
        let auxiliary = module.getattr("auxiliary").unwrap();
        let uid = auxiliary.getattr("uid").unwrap();
        let price = auxiliary.getattr("price").unwrap();
        assert_eq!(kind_seen(py, &uid, &handles(py)), Kind::OpaqueIdentifier);
        assert_eq!(kind_seen(py, &price, &handles(py)), Kind::Decimal);
        assert_eq!(kind_seen(py, &uid, &no_handles()), Kind::Unsupported);
        assert_eq!(kind_seen(py, &price, &no_handles()), Kind::Unsupported);
        let seen = read_value(py, &uid, &no_handles()).unwrap();
        assert_eq!(shape(&seen), HostValue::unrecognized("<class 'uuid.UUID'>".to_string()));
        let seen = read_value(py, &price, &handles(py)).unwrap();
        assert_eq!(shape(&seen), HostValue::decimal("10.50".to_string(), String::new()));
    });
}

#[test]
fn host_answers_are_projected_and_written() {
    Python::with_gil(|py| {
        let made = FastSerializer::new(py, pairs(&[("id", "pk"), ("day", "born"), ("id", "no")]));
        let seven = fixtures(py).getattr("utc").unwrap().getattr("pk").unwrap();
        let eight = fixtures(py).getattr("indian").unwrap().getattr("pk").unwrap();
        let born = HostValue::date(CalendarDate { year: 1999, month: 12, day: 31 }, String::new());
        let answers = HostObject {
            attributes: vec![
                ("pk".to_string(), HostValue::plain(&seven, String::new())),
                ("born".to_string(), born.clone()),
                ("no".to_string(), HostValue::plain(&eight, String::new())),
            ],
        };
        let dict = made.write_answers(py, &answers, None).unwrap();
        assert_eq!(keys(&dict), ["id", "day"]);
        assert!(dict.get_item("id").unwrap().unwrap().is(&eight));
        assert_eq!(text_at(&dict, "day"), "1999-12-31");
        let odd = HostObject {
            attributes: vec![
                ("pk".to_string(), HostValue::plain(&seven, String::new())),
                ("born".to_string(), HostValue::unrecognized("<class 'set'>".to_string())),
            ],
        };
        let error = made.write_answers(py, &odd, None).unwrap_err();
        assert!(error.is_instance_of::<PyTypeError>(py));
        assert_eq!(
            error.value(py).to_string(),
            "FastSerializer: Field 'day' (source: 'born') returned unsupported type: <class 'set'>. Supported: primitives, datetime, date, time, uuid, decimal."
        );
        let short = HostObject {
            attributes: vec![
                ("pk".to_string(), HostValue::plain(&seven, String::new())),
                ("born".to_string(), born),
            ],
        };
        let error = made.write_answers(py, &short, None).unwrap_err();
        assert!(error.is_instance_of::<PyAttributeError>(py));
        assert_eq!(
            error.value(py).to_string(),
            "FastSerializer: Field 'id' (source: 'no') could not be read."
        );
        let raised = || Some(PyErr::new::<PyValueError, _>("raised by the host"));
        let error = made.write_answers(py, &short, raised()).unwrap_err();
        assert!(error.is_instance_of::<PyValueError>(py));
        let error = made.write_answers(py, &odd, raised()).unwrap_err();
        assert!(error.is_instance_of::<PyTypeError>(py));
        let error = made.write_answers(py, &answers, raised()).unwrap_err();
        assert!(error.is_instance_of::<PyValueError>(py));
    });
}

#[test]
fn host_record_is_written_entry_by_entry() {
    Python::with_gil(|py| {
        let seven = fixtures(py).getattr("utc").unwrap().getattr("pk").unwrap();
        let mut record = Record::new();
        record.insert("b".to_string(), Value::Text("text".to_string()));
        record.insert("a".to_string(), Value::Plain(&seven));
        record.insert("b".to_string(), Value::Text("later".to_string()));
        let dict = write_record(py, &record).unwrap();
        assert_eq!(keys(&dict), ["b", "a"]);
        assert_eq!(text_at(&dict, "b"), "later");
        assert!(dict.get_item("a").unwrap().unwrap().is(&seven));
        let nothing: Record<&Bound<'_, PyAny>> = Record::new();
        assert!(write_record(py, &nothing).unwrap().is_empty());
    });
}

#[test]
fn host_attributes_are_read_up_to_the_first_that_fails() {
    Python::with_gil(|py| {
        let made = FastSerializer::new(
            py,
            pairs(&[("id", "pk"), ("mood", "mood"), ("again", "pk")]),
        );
        let moody = fixtures(py).getattr("moody").unwrap();
        let read = made.read_attributes(&moody);
        assert_eq!(read.len(), 1);
        assert_eq!(read[0].0, "pk");
        assert_eq!(read[0].1.extract::<i64>().unwrap(), 1);
        let (answers, failure) = made.read_answers(py, &read);
        assert!(failure.is_none());
        assert_eq!(answers.attributes.len(), 1);
        assert_eq!(answers.attributes[0].0, "pk");
        assert!(answers.attributes[0].1.plain.unwrap().is(&read[0].1));
        let stamped = fixtures(py).getattr("loud").unwrap();
        let made = FastSerializer::new(py, pairs(&[("id", "pk"), ("when", "created_at")]));
        let read = made.read_attributes(&stamped);
        assert_eq!(read.len(), 2);
        assert_eq!(read[1].0, "created_at");
        let (answers, failure) = made.read_answers(py, &read);
        assert_eq!(answers.attributes.len(), 1);
        assert!(failure.unwrap().is_instance_of::<PyValueError>(py));
    });
}

#[test]
fn host_failed_attempts_leave_types_unresolved() {
    Python::with_gil(|py| {
        let class = py.import("uuid").unwrap().getattr("UUID").unwrap();
        let class = class.downcast_into::<PyType>().unwrap().unbind();
        let failed = || PyErr::new::<PyTypeError, _>("no such type");
        let made = FastSerializer::from_attempts(pairs(&[("id", "uid")]), Ok(class), Err(failed()));
        assert!(made.projector().handles().identifier.is_some());
        assert!(made.projector().handles().decimal.is_none());
        let list = made.serialize(py, &list_of(py, &["auxiliary"])).unwrap();
        assert_eq!(text_at(&record(&list, 0), "id"), "123e4567-e89b-12d3-a456-426614174000");
        let made = FastSerializer::from_attempts(pairs(&[("id", "uid")]), Err(failed()), Err(failed()));
        assert!(made.projector().handles().identifier.is_none());
        assert!(made.serialize(py, &list_of(py, &["auxiliary"])).is_err());
    });
}

#[test]
fn host_nothing_is_asked_without_fields_or_objects() {
    Python::with_gil(|py| {
        let empty = FastSerializer::new(py, Vec::new());
        let moody = fixtures(py).getattr("moody").unwrap();
        assert!(empty.serialize_instance(py, &moody).unwrap().is_empty());
        let made = FastSerializer::new(py, pairs(&[("mood", "mood")]));
        assert_eq!(made.serialize_objects(py, &Vec::new()).unwrap().len(), 0);
        assert!(made.serialize_objects(py, &vec![moody]).is_err());
    });
}
