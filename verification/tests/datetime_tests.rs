use sapphire::datetime::{dispatch_class_method, dispatch_instance_method, DtValue};
use sapphire::gc::{GcHeap, GcRef};
use sapphire::vm::{HeapObject, VmError, VmValue};

fn iv(n: i64) -> VmValue {
    VmValue::Int(n)
}

fn s(t: &str) -> VmValue {
    VmValue::Str(t.to_string())
}

/// Allocate a new instance and give back its value.
fn make(heap: &mut GcHeap<HeapObject>, v: DtValue) -> VmValue {
    match v {
        DtValue::NewInstance { class_name, fields } => {
            let r = heap.allocate(HeapObject::Fields(fields));
            VmValue::Instance { class_name, fields: r }
        }
        DtValue::Value(_) => panic!("expected a new instance"),
    }
}

fn call(heap: &mut GcHeap<HeapObject>, recv: &VmValue, method: &str, args: &[VmValue]) -> Result<DtValue, VmError> {
    match recv {
        VmValue::Instance { class_name, fields } => {
            let r: GcRef = *fields;
            dispatch_instance_method(heap, class_name, r, method, args, 1)
        }
        _ => panic!("expected an instance"),
    }
}

fn value(r: Result<DtValue, VmError>) -> VmValue {
    match r {
        Ok(DtValue::Value(v)) => v,
        Ok(DtValue::NewInstance { class_name, .. }) => panic!("unexpected instance of {}", class_name),
        Err(e) => panic!("unexpected error {:?}", e),
    }
}

fn type_error(r: Result<DtValue, VmError>) -> String {
    match r {
        Err(VmError::TypeError { message, .. }) => message,
        _ => panic!("expected a type error"),
    }
}

fn raised(r: Result<DtValue, VmError>) -> String {
    match r {
        Err(VmError::Raised(VmValue::Str(m))) => m,
        _ => panic!("expected a raised error"),
    }
}

#[test]
fn date_of_and_readers() {
    let mut heap = GcHeap::new();
    let d = dispatch_class_method(&heap, "Date", "of", &[iv(2024), iv(2), iv(29)], 1).unwrap();
    let d = make(&mut heap, d);
    assert!(matches!(value(call(&mut heap, &d, "year", &[])), VmValue::Int(2024)));
    assert!(matches!(value(call(&mut heap, &d, "month", &[])), VmValue::Int(2)));
    assert!(matches!(value(call(&mut heap, &d, "days_in_month", &[])), VmValue::Int(29)));
    assert!(matches!(value(call(&mut heap, &d, "day_of_week", &[])), VmValue::Int(4)));
    assert!(matches!(value(call(&mut heap, &d, "day_of_year", &[])), VmValue::Int(60)));
    assert!(matches!(value(call(&mut heap, &d, "to_s", &[])), VmValue::Str(t) if t == "2024-02-29"));
    let next = call(&mut heap, &d, "next_day", &[]).unwrap();
    let next = make(&mut heap, next);
    assert!(matches!(value(call(&mut heap, &next, "to_s", &[])), VmValue::Str(t) if t == "2024-03-01"));
    assert!(matches!(value(call(&mut heap, &d, "before?", &[next.clone()])), VmValue::Bool(true)));
}

#[test]
fn date_errors() {
    let heap = GcHeap::new();
    assert_eq!(type_error(dispatch_class_method(&heap, "Date", "of", &[iv(1)], 7)), "Date.of expects 3 arg(s), got 1");
    assert_eq!(type_error(dispatch_class_method(&heap, "Date", "yesterday", &[], 7)), "Date has no class method 'yesterday'");
    assert_eq!(type_error(dispatch_class_method(&heap, "Calendar", "now", &[], 7)), "Calendar has no native class method 'now'");
    assert_eq!(raised(dispatch_class_method(&heap, "Date", "of", &[s("x"), iv(1), iv(1)], 7)), "Date.of: arg 1 must be an integer");
    assert!(dispatch_class_method(&heap, "Date", "of", &[iv(2023), iv(2), iv(29)], 7).is_err());
}

#[test]
fn instant_difference_is_normalized() {
    let mut heap = GcHeap::new();
    let a = dispatch_class_method(&heap, "Instant", "of_epoch_seconds", &[iv(3661)], 1).unwrap();
    let a = make(&mut heap, a);
    let b = dispatch_class_method(&heap, "Instant", "of_epoch_seconds", &[iv(0)], 1).unwrap();
    let b = make(&mut heap, b);
    assert!(matches!(value(call(&mut heap, &b, "to_s", &[])), VmValue::Str(t) if t == "1970-01-01T00:00:00Z"));
    assert!(matches!(value(call(&mut heap, &a, "epoch_millis", &[])), VmValue::Int(3661000)));
    let d = call(&mut heap, &a, "sub", &[b.clone()]).unwrap();
    let d = make(&mut heap, d);
    assert!(matches!(value(call(&mut heap, &d, "hours", &[])), VmValue::Int(1)));
    assert!(matches!(value(call(&mut heap, &d, "minutes", &[])), VmValue::Int(1)));
    assert!(matches!(value(call(&mut heap, &d, "seconds", &[])), VmValue::Int(1)));
    assert_eq!(type_error(call(&mut heap, &a, "sub", &[])), "Instant.sub expects 1 arg(s), got 0");
    assert_eq!(type_error(call(&mut heap, &a, "frobnicate", &[])), "Instant has no method 'frobnicate'");
    assert_eq!(raised(call(&mut heap, &a, "before?", &[iv(1)])), "Instant.before?: argument must be an Instant");
}

#[test]
fn durations_add_and_negate() {
    let mut heap = GcHeap::new();
    let a = dispatch_class_method(&heap, "Duration", "of_days", &[iv(3)], 1).unwrap();
    let a = make(&mut heap, a);
    let b = dispatch_class_method(&heap, "Duration", "of_hours", &[iv(5)], 1).unwrap();
    let b = make(&mut heap, b);
    let c = call(&mut heap, &a, "add", &[b.clone()]).unwrap();
    let c = make(&mut heap, c);
    assert!(matches!(value(call(&mut heap, &c, "days", &[])), VmValue::Int(3)));
    assert!(matches!(value(call(&mut heap, &c, "hours", &[])), VmValue::Int(5)));
    let n = call(&mut heap, &c, "negate", &[]).unwrap();
    let n = make(&mut heap, n);
    assert!(matches!(value(call(&mut heap, &n, "days", &[])), VmValue::Int(-3)));
    let p = call(&mut heap, &n, "abs", &[]).unwrap();
    let p = make(&mut heap, p);
    assert!(matches!(value(call(&mut heap, &p, "hours", &[])), VmValue::Int(5)));
    let d = dispatch_class_method(&heap, "Date", "parse", &[s("2024-03-01")], 1).unwrap();
    let d = make(&mut heap, d);
    let later = call(&mut heap, &d, "add", &[a.clone()]).unwrap();
    let later = make(&mut heap, later);
    assert!(matches!(value(call(&mut heap, &later, "to_s", &[])), VmValue::Str(t) if t == "2024-03-04"));
}

#[test]
fn time_and_datetime() {
    let mut heap = GcHeap::new();
    let t = dispatch_class_method(&heap, "Time", "of", &[iv(13), iv(5), iv(9)], 1).unwrap();
    let t = make(&mut heap, t);
    assert!(matches!(value(call(&mut heap, &t, "minute", &[])), VmValue::Int(5)));
    assert!(matches!(value(call(&mut heap, &t, "format", &[s("%H:%M")])), VmValue::Str(x) if x == "13:05"));
    let dt = dispatch_class_method(&heap, "DateTime", "of", &[iv(2020), iv(1), iv(2), iv(3), iv(4), iv(5)], 1).unwrap();
    let dt = make(&mut heap, dt);
    assert!(matches!(value(call(&mut heap, &dt, "to_s", &[])), VmValue::Str(x) if x == "2020-01-02T03:04:05"));
    let inst = call(&mut heap, &dt, "to_instant", &[]).unwrap();
    let inst = make(&mut heap, inst);
    assert!(matches!(value(call(&mut heap, &inst, "epoch_seconds", &[])), VmValue::Int(1577934245)));
    assert_eq!(type_error(dispatch_class_method(&heap, "DateTime", "of", &[iv(1)], 1)), "DateTime.of expects 6 arg(s), got 1");
}

#[test]
fn date_comparisons_follow_fields() {
    let mut heap = GcHeap::new();
    let a = dispatch_class_method(&heap, "Date", "of", &[iv(2024), iv(1), iv(31)], 1).unwrap();
    let a = make(&mut heap, a);
    let b = dispatch_class_method(&heap, "Date", "of", &[iv(2024), iv(2), iv(1)], 1).unwrap();
    let b = make(&mut heap, b);
    assert!(matches!(value(call(&mut heap, &a, "before?", &[b.clone()])), VmValue::Bool(true)));
    assert!(matches!(value(call(&mut heap, &a, "after?", &[b.clone()])), VmValue::Bool(false)));
    assert!(matches!(value(call(&mut heap, &b, "after?", &[a.clone()])), VmValue::Bool(true)));
    assert!(matches!(value(call(&mut heap, &a, "equal?", &[a.clone()])), VmValue::Bool(true)));
    assert_eq!(raised(call(&mut heap, &a, "after?", &[iv(3)])), "Date.after?: argument must be a Date");
}

#[test]
fn time_comparisons_follow_fields() {
    let mut heap = GcHeap::new();
    let a = dispatch_class_method(&heap, "Time", "of", &[iv(9), iv(30), iv(0)], 1).unwrap();
    let a = make(&mut heap, a);
    let b = dispatch_class_method(&heap, "Time", "of_nanos", &[iv(9), iv(30), iv(0), iv(1)], 1).unwrap();
    let b = make(&mut heap, b);
    assert!(matches!(value(call(&mut heap, &a, "before?", &[b.clone()])), VmValue::Bool(true)));
    assert!(matches!(value(call(&mut heap, &a, "equal?", &[b.clone()])), VmValue::Bool(false)));
}

#[test]
fn class_constructors_succeed_on_valid_fields() {
    let heap = GcHeap::new();
    assert!(dispatch_class_method(&heap, "Date", "of", &[iv(2024), iv(2), iv(29)], 1).is_ok());
    assert!(dispatch_class_method(&heap, "Time", "of", &[iv(23), iv(59), iv(59)], 1).is_ok());
    assert!(dispatch_class_method(&heap, "Time", "of", &[iv(24), iv(0), iv(0)], 1).is_err());
    assert!(dispatch_class_method(&heap, "Duration", "of_years", &[iv(19_998)], 1).is_ok());
    assert!(dispatch_class_method(&heap, "Duration", "of_years", &[iv(19_999)], 1).is_err());
}

#[test]
fn next_and_previous_days_cross_months_and_years() {
    let mut heap = GcHeap::new();
    let d = dispatch_class_method(&heap, "Date", "of", &[iv(2024), iv(12), iv(31)], 1).unwrap();
    let d = make(&mut heap, d);
    let n = call(&mut heap, &d, "next_day", &[]).unwrap();
    let n = make(&mut heap, n);
    assert!(matches!(value(call(&mut heap, &n, "to_s", &[])), VmValue::Str(t) if t == "2025-01-01"));
    let e = dispatch_class_method(&heap, "Date", "of", &[iv(2024), iv(3), iv(1)], 1).unwrap();
    let e = make(&mut heap, e);
    let p = call(&mut heap, &e, "prev_day", &[]).unwrap();
    let p = make(&mut heap, p);
    assert!(matches!(value(call(&mut heap, &p, "to_s", &[])), VmValue::Str(t) if t == "2024-02-29"));
}

#[test]
fn calendar_readers_across_eras() {
    let mut heap = GcHeap::new();
    // (year, month, day, weekday with Monday 1, day of year, days in month)
    let cases: [(i64, i64, i64, i64, i64, i64); 6] = [
        (1, 1, 1, 1, 1, 31),
        (1970, 1, 1, 4, 1, 31),
        (2000, 12, 31, 7, 366, 31),
        (2023, 2, 28, 2, 59, 28),
        (0, 3, 1, 3, 61, 31),
        (-1, 12, 31, 5, 365, 31),
    ];
    for (y, m, d, wd, yd, md) in cases {
        let v = dispatch_class_method(&heap, "Date", "of", &[iv(y), iv(m), iv(d)], 1).unwrap();
        let v = make(&mut heap, v);
        assert!(matches!(value(call(&mut heap, &v, "day_of_week", &[])), VmValue::Int(n) if n == wd), "{} {} {}", y, m, d);
        assert!(matches!(value(call(&mut heap, &v, "day_of_year", &[])), VmValue::Int(n) if n == yd), "{} {} {}", y, m, d);
        assert!(matches!(value(call(&mut heap, &v, "days_in_month", &[])), VmValue::Int(n) if n == md), "{} {} {}", y, m, d);
    }
}

#[test]
fn constructors_keep_their_components() {
    let heap = GcHeap::new();
    match dispatch_class_method(&heap, "Date", "of", &[iv(2024), iv(3), iv(7)], 1).unwrap() {
        DtValue::NewInstance { fields, .. } => {
            let got: Vec<(String, i64)> = fields
                .iter()
                .map(|(k, v)| (k.clone(), if let VmValue::Int(n) = v { *n } else { -1 }))
                .collect();
            assert_eq!(got, vec![("_y".to_string(), 2024), ("_mo".to_string(), 3), ("_d".to_string(), 7)]);
        }
        DtValue::Value(_) => panic!("expected an instance"),
    }
    match dispatch_class_method(&heap, "DateTime", "of_nanos", &[iv(2020), iv(1), iv(2), iv(3), iv(4), iv(5), iv(6)], 1).unwrap() {
        DtValue::NewInstance { fields, .. } => {
            let got: Vec<i64> = fields.iter().map(|(_, v)| if let VmValue::Int(n) = v { *n } else { -1 }).collect();
            assert_eq!(got, vec![2020, 1, 2, 3, 4, 5, 6]);
        }
        DtValue::Value(_) => panic!("expected an instance"),
    }
}

#[test]
fn single_unit_durations_hold_one_count() {
    let heap = GcHeap::new();
    match dispatch_class_method(&heap, "Duration", "of_hours", &[iv(-5)], 1).unwrap() {
        DtValue::NewInstance { fields, .. } => {
            let got: Vec<i64> = fields.iter().map(|(_, v)| if let VmValue::Int(n) = v { *n } else { -1 }).collect();
            assert_eq!(got, vec![0, 0, 0, -5, 0, 0, 0]);
            assert_eq!(fields[3].0, "_hours");
        }
        DtValue::Value(_) => panic!("expected an instance"),
    }
}
