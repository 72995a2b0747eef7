//! Chain evaluation, recording and the rack/processor lifecycle.

use logicline::{Action, InputKind, InputValue, Processor, Rack, Step, StepInput, VInput};

/// A temperature reading carried through a chain.
#[derive(Clone, Copy)]
struct Temp(f32);

impl StepInput for Temp {
    // the model half of the trait; the erased build never calls it
    fn recorded_view(&self) -> VInput {
        VInput::Null
    }

    fn to_recorded(&self) -> InputValue {
        InputValue::Raw(format!("{}", self.0))
    }
}

struct ModbusData {
    temperature_1: u16,
    voltage_1: u16,
    temperature_2: u16,
    voltage_2: u16,
}

impl StepInput for ModbusData {
    // the model half of the trait; the erased build never calls it
    fn recorded_view(&self) -> VInput {
        VInput::Null
    }

    fn to_recorded(&self) -> InputValue {
        InputValue::Raw(format!(
            "{{\"temperature_1\":{},\"voltage_1\":{},\"temperature_2\":{},\"voltage_2\":{}}}",
            self.temperature_1, self.voltage_1, self.temperature_2, self.voltage_2
        ))
    }
}

fn get_temp1(data: &ModbusData) -> Option<Temp> {
    Some(Temp(data.temperature_1 as f32 / 10.0))
}

fn get_temp2(data: &ModbusData) -> Option<Temp> {
    Some(Temp(data.temperature_2 as f32 / 10.0))
}

fn temperature_critical(temp: Temp) -> Option<()> {
    if temp.0 > 90. {
        Some(())
    } else {
        None
    }
}

fn voltage_critical(voltage: u16) -> Option<()> {
    if voltage > 300 {
        Some(())
    } else {
        None
    }
}

#[test]
fn test_lines() {
    let modbus_data = ModbusData {
        temperature_1: 950,
        voltage_1: 395,
        temperature_2: 250,
        voltage_2: 295,
    };
    let mut state = Rack::new();
    let mut processor = state.processor();
    let mut line1_active = true;
    let mut line2_active = true;
    state.set_recording(true);
    let s = processor.line("line1", &modbus_data);
    let s = s.then(&mut processor, Action::new("get_temp1", get_temp1));
    let s = s.then(&mut processor, Action::new("temperature_critical", temperature_critical));
    let s = s.then(
        &mut processor,
        Action::new("voltage", |()| Some(modbus_data.voltage_1))
            .with_recorded_input(InputValue::Uint(modbus_data.voltage_1 as u64)),
    );
    let s = s.then(&mut processor, Action::new("voltage_critical", voltage_critical));
    let s = s.then(
        &mut processor,
        Action::new("OFF", |()| {
            line1_active = false;
            Some(())
        }),
    );
    assert!(s.is_active());
    let s = processor.line("line2", &modbus_data);
    let s = s.then(&mut processor, Action::new("", get_temp2));
    let s = s.then(&mut processor, Action::new("temperature_critical", temperature_critical));
    let s = s.then(
        &mut processor,
        Action::new("voltage", |()| Some(modbus_data.voltage_2))
            .with_recorded_input(InputValue::Uint(modbus_data.voltage_2 as u64)),
    );
    let s = s.then(&mut processor, Action::new("voltage_critical", voltage_critical));
    let s = s.then(
        &mut processor,
        Action::new("OFF", |()| {
            line2_active = false;
            Some(())
        }),
    );
    assert!(!s.is_active());
    assert!(!line1_active);
    assert!(line2_active);
    state.ingress(&mut processor);
}

#[test]
fn fan_on_active_chain_records_two_passed_steps() {
    let mut rack = Rack::new().with_recording_enabled();
    let mut processor = rack.processor();
    let s = processor.line("fan_on", Temp(31.0));
    let s = s.then(
        &mut processor,
        Action::new("temp_high", |t: Temp| if t.0 > 30.0 { Some(()) } else { None }),
    );
    let s = s.then(&mut processor, Action::new("fan_on", |()| Some(())));
    assert!(s.is_active());
    rack.ingress(&mut processor);
    let snap = rack.snapshot();
    let line = snap.line_state("fan_on").expect("line recorded");
    assert_eq!(line.steps().len(), 2);
    let first = line.steps()[0].info();
    assert_eq!(first[0].name(), "temp_high");
    assert_eq!(*first[0].input(), InputValue::Raw("31".to_string()));
    assert_eq!(first[0].input_kind(), InputKind::Flow);
    assert!(first[0].passed());
    let second = line.steps()[1].info();
    assert_eq!(second[0].name(), "fan_on");
    assert_eq!(*second[0].input(), InputValue::Null);
    assert_eq!(second[0].input_kind(), InputKind::Flow);
    assert!(second[0].passed());
}

#[test]
fn failed_guard_short_circuits_but_keeps_recording() {
    let mut rack = Rack::new().with_recording_enabled();
    let mut processor = rack.processor();
    let s = processor.line("fan_on", Temp(20.0));
    let s = s.then(
        &mut processor,
        Action::new("temp_high", |t: Temp| if t.0 > 30.0 { Some(()) } else { None }),
    );
    let s = s.then(&mut processor, Action::new("fan_on", |()| Some(())));
    assert!(!s.is_active());
    let line = processor.line_state("fan_on").expect("line recorded");
    assert_eq!(line.steps().len(), 2);
    let first = line.steps()[0].info();
    assert!(!first[0].passed());
    assert_eq!(*first[0].input(), InputValue::Raw("20".to_string()));
    let second = line.steps()[1].info();
    assert!(!second[0].passed());
    assert_eq!(*second[0].input(), InputValue::Null);
}

#[test]
fn externally_recorded_input_is_marked_external() {
    let modbus_data = ModbusData {
        temperature_1: 950,
        voltage_1: 395,
        temperature_2: 250,
        voltage_2: 295,
    };
    let mut rack = Rack::new().with_recording_enabled();
    let mut processor = rack.processor();
    let s = processor.line("L", &modbus_data);
    let s = s.then(&mut processor, Action::new("get_temp1", get_temp1));
    let s = s.then(&mut processor, Action::new("temperature_critical", temperature_critical));
    let s = s.then(
        &mut processor,
        Action::new("voltage", |()| Some(modbus_data.voltage_1))
            .with_recorded_input(InputValue::Uint(395)),
    );
    let s = s.then(&mut processor, Action::new("voltage_critical", voltage_critical));
    let s = s.then(&mut processor, Action::new("OFF", |()| Some(())));
    assert!(s.is_active());
    rack.ingress(&mut processor);
    let snap = rack.snapshot();
    let line = snap.line_state("L").expect("line recorded");
    assert_eq!(line.steps().len(), 5);
    for (i, step) in line.steps().iter().enumerate() {
        let info = step.info();
        if i == 2 {
            assert_eq!(info[0].input_kind(), InputKind::External);
            assert_eq!(*info[0].input(), InputValue::Uint(395));
        } else {
            assert_eq!(info[0].input_kind(), InputKind::Flow);
        }
        assert!(info[0].passed());
    }
}

#[test]
fn then_any_prefers_first_branch_and_records_both() {
    let mut rack = Rack::new().with_recording_enabled();
    let mut processor = rack.processor();
    let s = processor.line("branches", 5i32);
    let s = s.then_any(
        &mut processor,
        Action::new("pos", |x: i32| if x > 0 { Some("pos".to_string()) } else { None }),
        Action::new("neg", |x: i32| if x < 0 { Some("neg".to_string()) } else { None }),
    );
    assert!(s.is_active());
    let line = processor.line_state("branches").expect("line recorded");
    assert_eq!(line.steps().len(), 1);
    let step = &line.steps()[0];
    assert!(step.is_multi());
    // at least one branch succeeded, so the step is active; but not every
    // branch passed, so the aggregate `passed` is false
    assert!(!step.passed());
    let info = step.info();
    assert_eq!(info.len(), 2);
    assert_eq!(info[0].name(), "pos");
    assert!(info[0].passed());
    assert_eq!(*info[0].input(), InputValue::Int(5));
    assert_eq!(info[1].name(), "neg");
    assert!(!info[1].passed());
    assert_eq!(*info[1].input(), InputValue::Int(5));
}

#[test]
fn then_any_on_halted_chain_records_two_placeholders() {
    let mut rack = Rack::new().with_recording_enabled();
    let mut processor = rack.processor();
    let s = processor.line("branches", 5i32);
    let s = s.then(&mut processor, Action::new("halt", |_x: i32| None::<i32>));
    let s = s.then_any(
        &mut processor,
        Action::new("a", |x: i32| Some(x)),
        Action::new("b", |x: i32| Some(x)),
    );
    assert!(!s.is_active());
    let line = processor.line_state("branches").expect("line recorded");
    assert_eq!(line.steps().len(), 2);
    let info = line.steps()[1].info();
    assert_eq!(info.len(), 2);
    assert!(!info[0].passed());
    assert_eq!(*info[0].input(), InputValue::Null);
    assert!(!info[1].passed());
    assert_eq!(*info[1].input(), InputValue::Null);
}

#[test]
fn ingress_of_reset_processor_keeps_rack_unchanged() {
    let mut rack = Rack::new().with_recording_enabled();
    let mut processor = rack.processor();
    let s = processor.line("L", 1u64);
    let s = s.then(&mut processor, Action::new("keep", |x: u64| Some(x)));
    assert!(s.is_active());
    rack.ingress(&mut processor);
    let before = rack.snapshot().to_json();
    let mut fresh = rack.processor();
    fresh.reset();
    rack.ingress(&mut fresh);
    let after = rack.snapshot().to_json();
    assert_eq!(before, after);
}

#[test]
fn restarting_a_line_keeps_only_the_second_chain() {
    let mut rack = Rack::new().with_recording_enabled();
    let mut processor = rack.processor();
    let s = processor.line("L", 1u64);
    let s = s.then(&mut processor, Action::new("first", |x: u64| Some(x)));
    let s = s.then(&mut processor, Action::new("second", |x: u64| Some(x)));
    assert!(s.is_active());
    let s = processor.line("L", 2u64);
    let s = s.then(&mut processor, Action::new("only", |x: u64| Some(x)));
    assert!(s.is_active());
    rack.ingress(&mut processor);
    let line = rack.line_state("L").expect("line recorded");
    assert_eq!(line.steps().len(), 1);
    let info = line.steps()[0].info();
    assert_eq!(info[0].name(), "only");
    assert_eq!(*info[0].input(), InputValue::Uint(2));
}

#[test]
fn recording_off_gives_same_outcomes_and_no_traces() {
    let run = |recording: bool| -> (bool, bool, usize) {
        let mut rack = Rack::new();
        rack.set_recording(recording);
        let mut processor = rack.processor();
        let s = processor.line("pass", 10u64);
        let s = s.then(&mut processor, Action::new("big", |x: u64| if x > 5 { Some(x) } else { None }));
        let a = s.is_active();
        let s = processor.line("fail", 1u64);
        let s = s.then(&mut processor, Action::new("big", |x: u64| if x > 5 { Some(x) } else { None }));
        let b = s.is_active();
        rack.ingress(&mut processor);
        let n = rack.lines().len();
        (a, b, n)
    };
    let (a_on, b_on, n_on) = run(true);
    let (a_off, b_off, n_off) = run(false);
    assert_eq!(a_on, a_off);
    assert_eq!(b_on, b_off);
    assert_eq!(n_on, 2);
    assert_eq!(n_off, 0);
}

#[test]
fn recording_off_processor_records_nothing() {
    let rack = Rack::new();
    let mut processor = rack.processor();
    assert!(!processor.is_recording());
    let s = processor.line("L", 1u64);
    let s = s.then(&mut processor, Action::new("a", |x: u64| Some(x)));
    assert!(s.is_active());
    assert!(processor.line_state("L").is_none());
}

#[test]
fn free_standing_step_records_nowhere() {
    let mut processor = Processor::new();
    let s: Step<u64> = Step::new(7);
    assert!(s.is_active());
    let s = s.then(&mut processor, Action::new("a", |x: u64| Some(x + 1)));
    assert!(s.is_active());
    assert!(processor.line_state("a").is_none());
}

#[test]
fn ops_not_inverts_unit_options() {
    assert_eq!(logicline::ops::not(Some(())), None);
    assert_eq!(logicline::ops::not(None), Some(()));
}

#[test]
fn to_modified_replaces_only_given_fields() {
    let base = logicline::StepStateInfo::new("a", InputValue::Uint(1), InputKind::Flow, true);
    let m = base.to_modified(Some("b"), None, Some(InputKind::External), Some(false));
    assert_eq!(m.name(), "b");
    assert_eq!(*m.input(), InputValue::Uint(1));
    assert_eq!(m.input_kind(), InputKind::External);
    assert!(!m.passed());
    let same = base.to_modified(None, Some(InputValue::Null), None, None);
    assert_eq!(same.name(), "a");
    assert_eq!(*same.input(), InputValue::Null);
    assert_eq!(same.input_kind(), InputKind::Flow);
    assert!(same.passed());
}

#[test]
fn lines_iterate_in_name_order() {
    let mut rack = Rack::new().with_recording_enabled();
    let mut processor = rack.processor();
    for name in ["zeta", "alpha", "mid"] {
        let s = processor.line(name, 1u64);
        let s = s.then(&mut processor, Action::new("a", |x: u64| Some(x)));
        assert!(s.is_active());
    }
    rack.ingress(&mut processor);
    let names: Vec<&str> = rack.lines().iter().map(|l| l.name()).collect();
    assert_eq!(names, vec!["alpha", "mid", "zeta"]);
}

#[test]
fn set_recording_is_visible_to_live_processors() {
    let mut rack = Rack::new();
    let mut processor = rack.processor();
    assert!(!processor.is_recording());
    rack.set_recording(true);
    assert!(processor.is_recording());
    let s = processor.line("L", 1u64);
    let s = s.then(&mut processor, Action::new("a", |x: u64| Some(x)));
    assert!(s.is_active());
    rack.ingress(&mut processor);
    assert!(rack.line_state("L").is_some());
    rack.set_recording(false);
    assert!(!processor.is_recording());
    let s = processor.line("M", 1u64);
    let s = s.then(&mut processor, Action::new("a", |x: u64| Some(x)));
    assert!(s.is_active());
    assert!(processor.line_state("M").is_none());
}

#[test]
fn with_recording_enabled_shares_the_same_flag() {
    let rack = Rack::new();
    let processor = rack.processor();
    let rack = rack.with_recording_enabled();
    assert!(processor.is_recording());
    let processor2 = rack.processor();
    assert!(processor2.is_recording());
}
