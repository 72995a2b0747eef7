//! The display form and the JSON wire form, including round trips.

use logicline::{Action, InputKind, InputValue, LineState, Rack, Snapshot, SnapshotFormatter, StepState, StepStateInfo};

#[test]
fn display_marks_first_failing_step_once() {
    let mut line = LineState::new("L");
    line.push_step_state("a", InputValue::Uint(7), InputKind::Flow, true);
    line.push_step_state("b", InputValue::Null, InputKind::Flow, false);
    line.push_step_state("c", InputValue::Null, InputKind::Flow, false);
    assert_eq!(line.display(), "L: a(7) -> b ! -> c");
}

#[test]
fn display_renders_multi_branch_and_external_marker() {
    let mut rack = Rack::new().with_recording_enabled();
    let mut processor = rack.processor();
    let s = processor.line("m", 5u64);
    let s = s.then_any(
        &mut processor,
        Action::new("a", |x: u64| if x > 0 { Some(x) } else { None }),
        Action::new("b", |x: u64| if x > 9 { Some(x) } else { None })
            .with_recorded_input(InputValue::Uint(5)),
    );
    assert!(s.is_active());
    rack.ingress(&mut processor);
    let snap = rack.snapshot();
    let line = snap.line_state("m").expect("line recorded");
    assert_eq!(line.display(), "m: ( a(5) | b(\\->5) ) !");
}

#[test]
fn snapshot_json_has_expected_shape() {
    let mut rack = Rack::new().with_recording_enabled();
    let mut processor = rack.processor();
    let s = processor.line("fan_on", 31u64);
    let s = s.then(
        &mut processor,
        Action::new("temp_high", |t: u64| if t > 30 { Some(()) } else { None }),
    );
    let s = s.then(&mut processor, Action::new("fan_on", |()| Some(())));
    assert!(s.is_active());
    rack.ingress(&mut processor);
    let payload = rack.snapshot().to_json();
    let v: serde_json::Value = serde_json::from_str(&payload).expect("valid JSON");
    let lines = v.get("lines").expect("lines object").as_object().expect("object");
    assert_eq!(lines.len(), 1);
    let line = lines.get("fan_on").expect("fan_on entry");
    assert_eq!(line.get("name").unwrap().as_str().unwrap(), "fan_on");
    let steps = line.get("steps").unwrap().as_array().unwrap();
    assert_eq!(steps.len(), 2);
    assert_eq!(steps[0].get("input_kind").unwrap().as_str().unwrap(), "flow");
    assert_eq!(steps[0].get("passed").unwrap().as_bool().unwrap(), true);
    assert_eq!(steps[0].get("input").unwrap().as_u64().unwrap(), 31);
    assert!(steps[1].get("input").unwrap().is_null());
}

#[test]
fn snapshot_json_exact_text() {
    let mut line = LineState::new("L");
    line.push_step_state("a", InputValue::Uint(7), InputKind::Flow, true);
    let mut rack = Rack::new().with_recording_enabled();
    let mut processor = rack.processor();
    let s = processor.line("L", 7u64);
    let s = s.then(&mut processor, Action::new("a", |x: u64| Some(x)));
    assert!(s.is_active());
    rack.ingress(&mut processor);
    assert_eq!(
        rack.snapshot().to_json(),
        "{\"lines\":{\"L\":{\"name\":\"L\",\"steps\":[{\"name\":\"a\",\"input\":7,\"input_kind\":\"flow\",\"passed\":true}]}}}"
    );
}

#[test]
fn snapshot_is_stable_and_clonable() {
    let mut rack = Rack::new().with_recording_enabled();
    let mut processor = rack.processor();
    let s = processor.line("L", 1u64);
    let s = s.then(&mut processor, Action::new("a", |x: u64| Some(x)));
    assert!(s.is_active());
    rack.ingress(&mut processor);
    let snap = rack.snapshot();
    let first = snap.to_json();
    // mutate the rack after the snapshot was taken
    let mut processor = rack.processor();
    let s = processor.line("M", 2u64);
    let s = s.then(&mut processor, Action::new("b", |x: u64| Some(x)));
    assert!(s.is_active());
    rack.ingress(&mut processor);
    assert_eq!(snap.to_json(), first);
    assert_eq!(snap.clone().to_json(), first);
}

#[test]
fn round_trip_preserves_everything() {
    let mut rack = Rack::new().with_recording_enabled();
    let mut processor = rack.processor();

    let s = processor.line("alpha", 5i64);
    let s = s.then(
        &mut processor,
        Action::new("neg", |x: i64| Some(-x)).with_recorded_input(InputValue::Int(-5)),
    );
    let s = s.then(&mut processor, Action::new("stop", |_x: i64| None::<i64>));
    let s = s.then(&mut processor, Action::new("after", |x: i64| Some(x)));
    assert!(!s.is_active());

    let s = processor.line("beta \"quoted\"\nname", "text in\tput".to_string());
    let s = s.then(&mut processor, Action::new("keep", |x: String| Some(x)));
    assert!(s.is_active());

    let s = processor.line("gamma", 3u32);
    let s = s.then_any(
        &mut processor,
        Action::new("low", |x: u32| if x < 10 { Some(x) } else { None }),
        Action::new("high", |x: u32| if x >= 10 { Some(x) } else { None })
            .with_recorded_input(InputValue::Raw("[1,2.5,{\"k\":\"v\"}]".to_string())),
    );
    assert!(s.is_active());

    rack.ingress(&mut processor);
    let snap = rack.snapshot();
    let payload = snap.to_json();
    let back = Snapshot::from_json(&payload).expect("parses back");
    assert_eq!(back.to_json(), payload);

    // field-by-field comparison of the round-tripped snapshot
    let a = snap.lines();
    let b = back.lines();
    assert_eq!(a.len(), b.len());
    for (la, lb) in a.iter().zip(b.iter()) {
        assert_eq!(la.name(), lb.name());
        assert_eq!(la.steps().len(), lb.steps().len());
        for (sa, sb) in la.steps().iter().zip(lb.steps().iter()) {
            assert_eq!(sa.is_multi(), sb.is_multi());
            assert_eq!(sa.passed(), sb.passed());
            let ia = sa.info();
            let ib = sb.info();
            assert_eq!(ia.len(), ib.len());
            for (x, y) in ia.iter().zip(ib.iter()) {
                assert_eq!(x.name(), y.name());
                assert_eq!(x.input(), y.input());
                assert_eq!(x.input_kind(), y.input_kind());
                assert_eq!(x.passed(), y.passed());
            }
        }
    }
}

#[test]
fn round_trip_keeps_extreme_integers() {
    let mut line = LineState::new("ints");
    line.push_step_state("max", InputValue::Uint(u64::MAX), InputKind::Flow, true);
    line.push_step_state("min", InputValue::Int(i64::MIN), InputKind::Flow, true);
    let mut rack = Rack::new().with_recording_enabled();
    let mut processor = rack.processor();
    let s = processor.line("ints", ());
    let s = s.then(
        &mut processor,
        Action::new("max", |()| Some(())).with_recorded_input(InputValue::Uint(u64::MAX)),
    );
    let s = s.then(
        &mut processor,
        Action::new("min", |()| Some(())).with_recorded_input(InputValue::Int(i64::MIN)),
    );
    assert!(s.is_active());
    rack.ingress(&mut processor);
    let payload = rack.snapshot().to_json();
    assert!(payload.contains("18446744073709551615"));
    assert!(payload.contains("-9223372036854775808"));
    let back = Snapshot::from_json(&payload).expect("parses back");
    let line = back.line_state("ints").expect("line kept");
    let steps = line.steps();
    assert_eq!(*steps[0].info()[0].input(), InputValue::Uint(u64::MAX));
    assert_eq!(*steps[1].info()[0].input(), InputValue::Int(i64::MIN));
    assert_eq!(back.to_json(), payload);
}

#[test]
fn from_json_rejects_malformed_payloads() {
    assert!(Snapshot::from_json("").is_none());
    assert!(Snapshot::from_json("{}").is_none());
    assert!(Snapshot::from_json("{\"lines\":{}").is_none());
    assert!(Snapshot::from_json("{\"lines\":{}}trailing").is_none());
    assert!(Snapshot::from_json("{\"lines\":{\"a\":{\"name\":\"b\",\"steps\":[]}}}").is_none());
}

#[test]
fn empty_snapshot_serializes_and_round_trips() {
    let rack = Rack::new();
    let snap = rack.snapshot();
    assert_eq!(snap.to_json(), "{\"lines\":{}}");
    let back = Snapshot::from_json("{\"lines\":{}}").expect("parses");
    assert_eq!(back.to_json(), "{\"lines\":{}}");
    assert_eq!(snap.display(), "");
}

#[test]
fn escaped_names_survive_the_wire() {
    let mut rack = Rack::new().with_recording_enabled();
    let mut processor = rack.processor();
    let s = processor.line("weird \\ \"name\"\t\r\n\u{1}end", 1u8);
    let s = s.then(&mut processor, Action::new("a", |x: u8| Some(x)));
    assert!(s.is_active());
    rack.ingress(&mut processor);
    let payload = rack.snapshot().to_json();
    let v: serde_json::Value = serde_json::from_str(&payload).expect("valid JSON");
    assert!(v.get("lines").unwrap().get("weird \\ \"name\"\t\r\n\u{1}end").is_some());
    let back = Snapshot::from_json(&payload).expect("parses back");
    assert!(back.line_state("weird \\ \"name\"\t\r\n\u{1}end").is_some());
    assert_eq!(back.to_json(), payload);
}

#[test]
fn text_and_bool_inputs_serialize_as_json_values() {
    let mut rack = Rack::new().with_recording_enabled();
    let mut processor = rack.processor();
    let s = processor.line("t", "hi \"there\"".to_string());
    let s = s.then(&mut processor, Action::new("keep", |x: String| Some(x)));
    let s = s.then(
        &mut processor,
        Action::new("flag", |_x: String| Some(())).with_recorded_input(InputValue::Bool(true)),
    );
    assert!(s.is_active());
    rack.ingress(&mut processor);
    let payload = rack.snapshot().to_json();
    let v: serde_json::Value = serde_json::from_str(&payload).expect("valid JSON");
    let steps = v["lines"]["t"]["steps"].as_array().unwrap();
    assert_eq!(steps[0]["input"].as_str().unwrap(), "hi \"there\"");
    assert_eq!(steps[1]["input"].as_bool().unwrap(), true);
    assert_eq!(steps[1]["input_kind"].as_str().unwrap(), "external");
}

#[test]
fn info_getters_report_the_record() {
    let info = StepStateInfo::new("n", InputValue::Text("x".to_string()), InputKind::External, false);
    assert_eq!(info.name(), "n");
    assert_eq!(*info.input(), InputValue::Text("x".to_string()));
    assert_eq!(info.input_kind(), InputKind::External);
    assert!(!info.passed());
}

#[test]
fn from_json_text_accepts_exactly_one_json_value() {
    assert_eq!(InputValue::from_json_text("null"), Some(InputValue::Null));
    assert_eq!(InputValue::from_json_text("true"), Some(InputValue::Bool(true)));
    assert_eq!(InputValue::from_json_text("-12"), Some(InputValue::Int(-12)));
    assert_eq!(InputValue::from_json_text("3.5"), Some(InputValue::Raw("3.5".to_string())));
    assert_eq!(
        InputValue::from_json_text("[1,{\"k\":\"v\"}]"),
        Some(InputValue::Raw("[1,{\"k\":\"v\"}]".to_string()))
    );
    assert_eq!(InputValue::from_json_text("\"hi\""), Some(InputValue::Text("hi".to_string())));
    assert_eq!(InputValue::from_json_text(""), None);
    assert_eq!(InputValue::from_json_text("nul"), None);
    assert_eq!(InputValue::from_json_text("12 "), None);
    assert_eq!(InputValue::from_json_text("[1,"), None);
}

#[test]
fn checked_raw_input_keeps_the_payload_valid_json() {
    let raw = InputValue::from_json_text("[1,2.5]").expect("valid value");
    let mut rack = Rack::new().with_recording_enabled();
    let mut processor = rack.processor();
    let s = processor.line("L", ());
    let s = s.then(&mut processor, Action::new("a", |()| Some(())).with_recorded_input(raw));
    assert!(s.is_active());
    rack.ingress(&mut processor);
    let payload = rack.snapshot().to_json();
    let v: serde_json::Value = serde_json::from_str(&payload).expect("valid JSON");
    assert_eq!(v["lines"]["L"]["steps"][0]["input"][1].as_f64().unwrap(), 2.5);
}

/// A formatter that strikes every recorded input from the traces.
struct RedactInputs;

impl SnapshotFormatter for RedactInputs {
    fn format(&self, snapshot: Snapshot) -> Snapshot {
        let mut out = Snapshot::new();
        for line in snapshot.lines() {
            let mut edited = LineState::new(line.name());
            for step in line.steps() {
                let infos = step.info();
                if step.is_multi() {
                    let redacted: Vec<StepStateInfo> = infos
                        .iter()
                        .map(|i| i.to_modified(None, Some(InputValue::Null), None, None))
                        .collect();
                    edited.push_step(StepState::multi(redacted));
                } else {
                    edited.push_step(StepState::single(infos[0].to_modified(
                        None,
                        Some(InputValue::Null),
                        None,
                        None,
                    )));
                }
            }
            out.insert_line(edited);
        }
        out
    }
}

#[test]
fn snapshot_formatter_can_rebuild_a_snapshot() {
    let mut rack = Rack::new().with_recording_enabled();
    let mut processor = rack.processor();
    let s = processor.line("L", 7u64);
    let s = s.then(&mut processor, Action::new("a", |x: u64| Some(x)));
    assert!(s.is_active());
    rack.ingress(&mut processor);
    let formatted = RedactInputs.format(rack.snapshot());
    let line = formatted.line_state("L").expect("line kept");
    assert_eq!(line.steps().len(), 1);
    assert_eq!(*line.steps()[0].info()[0].input(), InputValue::Null);
    assert!(line.steps()[0].info()[0].passed());
    assert_eq!(formatted.display(), "L: a");
}

#[test]
fn set_step_replaces_one_step_in_place() {
    let mut line = LineState::new("L");
    line.push_step_state("a", InputValue::Uint(1), InputKind::Flow, true);
    line.push_step_state("b", InputValue::Uint(2), InputKind::Flow, true);
    line.set_step(
        1,
        StepState::single(StepStateInfo::new("b2", InputValue::Null, InputKind::Flow, false)),
    );
    assert_eq!(line.display(), "L: a(1) -> b2 !");
}
