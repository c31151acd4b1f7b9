use angelio::Angelio;
use angelio::ErrorKind;
use angelio::PID;
use angelio::PwmRoute;
use angelio::Rat;
use angelio::SimAdapter;
use angelio::pwm_route;

fn rat_f64(r: Rat) -> f64 {
    r.num as f64 / r.den as f64
}

#[test]
fn invalid_register_type_aborts() {
    let mut script = Angelio::from_str("lx123");
    let e = script.run().unwrap_err();
    assert_eq!(e.kind, ErrorKind::InvalidRegisterType);
    assert_eq!(e.at, 2);
    assert_eq!(script.r1, 0);
}

#[test]
fn invalid_register_number_aborts() {
    let mut script = Angelio::from_str("lr523");
    let e = script.run().unwrap_err();
    assert_eq!(e.kind, ErrorKind::InvalidRegisterNumber);
    assert_eq!(e.at, 3);
    assert_eq!(script.r1, 0);
}

#[test]
fn invalid_second_register_aborts() {
    let mut script = Angelio::from_str("lr15+r1x2");
    let e = script.run().unwrap_err();
    assert_eq!(e.kind, ErrorKind::InvalidRegisterType);
    assert_eq!(e.at, 8);
    assert_eq!(script.r3, 0);
}

#[test]
fn malformed_number_aborts() {
    let mut script = Angelio::from_str("lr1x");
    let e = script.run().unwrap_err();
    assert_eq!(e.kind, ErrorKind::MalformedNumber);
    assert_eq!(e.at, 4);
}

#[test]
fn two_decimal_points_abort() {
    let mut script = Angelio::from_str("lf11.2.3");
    let e = script.run().unwrap_err();
    assert_eq!(e.kind, ErrorKind::NumberParseError);
    assert_eq!(e.at, 4);
}

#[test]
fn lone_decimal_point_aborts() {
    let mut script = Angelio::from_str("P.");
    let e = script.run().unwrap_err();
    assert_eq!(e.kind, ErrorKind::NumberParseError);
    assert_eq!(e.at, 2);
}

#[test]
fn oversized_literal_aborts() {
    let mut script = Angelio::from_str("P99999999999999999999");
    let e = script.run().unwrap_err();
    assert_eq!(e.kind, ErrorKind::NumberParseError);
    assert_eq!(e.at, 2);
}

#[test]
fn sum_overflow_aborts() {
    let mut script = Angelio::from_str("lf19000000000000000000+f1f1");
    let e = script.run().unwrap_err();
    assert_eq!(e.kind, ErrorKind::NumericOverflow);
    assert_eq!(e.at, 23);
}

#[test]
fn port_number_over_255_aborts() {
    let mut script = Angelio::from_str("lr11or1999");
    let e = script.run().unwrap_err();
    assert_eq!(e.kind, ErrorKind::NumberParseError);
}

#[test]
fn error_message_names_position() {
    let mut script = Angelio::from_str("lx123");
    let e = script.run().unwrap_err();
    let msg = e.message();
    assert!(msg.contains("register type"));
    assert!(msg.contains("(character 2)"));
}

#[test]
fn set_register_directly() {
    let mut script = Angelio::from_str("");
    script.set_register(1, 5).unwrap();
    assert_eq!(script.r1, 5);
    let e = script.set_register(7, 5).unwrap_err();
    assert_eq!(e.kind, ErrorKind::InvalidRegister);
}

#[test]
fn set_float_register_directly() {
    let mut script = Angelio::from_str("");
    script.set_float_register(2, Rat { num: 1, den: 2 }).unwrap();
    assert_eq!(rat_f64(script.f2), 0.5);
    let e = script.set_float_register(0, Rat { num: 1, den: 2 }).unwrap_err();
    assert_eq!(e.kind, ErrorKind::InvalidRegister);
}

#[test]
fn set_register_by_name_checks_names() {
    let mut script = Angelio::from_str("");
    script.set_register_by_name(String::from("r2"), 9).unwrap();
    assert_eq!(script.r2, 9);
    let e = script.set_register_by_name(String::from("f2"), 9).unwrap_err();
    assert_eq!(e.kind, ErrorKind::InvalidRegister);
    let e = script.set_register_by_name(String::from("r5"), 9).unwrap_err();
    assert_eq!(e.kind, ErrorKind::InvalidRegister);
}

#[test]
fn set_float_register_by_name_checks_names() {
    let mut script = Angelio::from_str("");
    script.set_float_register_by_name(String::from("f3"), Rat { num: 7, den: 2 }).unwrap();
    assert_eq!(rat_f64(script.f3), 3.5);
    let e = script.set_float_register_by_name(String::from("r3"), Rat { num: 7, den: 2 });
    assert_eq!(e.unwrap_err().kind, ErrorKind::InvalidRegister);
}

#[test]
fn pid_controller_directly() {
    let mut pid = PID::new(
        Rat { num: 2, den: 1 },
        Rat { num: 13, den: 1 },
        Rat { num: 7, den: 1 },
    );
    pid.setpoint = Rat { num: 420, den: 1 };
    let out = pid.calculate(Rat { num: 69, den: 1 }).unwrap();
    assert_eq!(rat_f64(out), 123553.0);
}

#[test]
fn pid_zero_integral_gain_leaves_accumulator() {
    let mut pid = PID::new(
        Rat { num: 1, den: 1 },
        Rat { num: 0, den: 1 },
        Rat { num: 0, den: 1 },
    );
    pid.setpoint = Rat { num: 10, den: 1 };
    let out = pid.calculate(Rat { num: 4, den: 1 }).unwrap();
    assert_eq!(rat_f64(out), 6.0);
    assert_eq!(rat_f64(pid.tot_err), 0.0);
}

#[test]
fn digital_write_reaches_adapter() {
    let mut script = Angelio::with_adapter(String::from("lr11or15lr20or26"), SimAdapter::new(false));
    script.run().unwrap();
    assert_eq!(script.hw.digital_writes.len(), 2);
    assert_eq!(script.hw.digital_writes[0], (5u8, true));
    assert_eq!(script.hw.digital_writes[1], (6u8, false));
}

#[test]
fn digital_read_lands_in_register() {
    let mut script = Angelio::with_adapter(String::from("ir16if26"), SimAdapter::new(true));
    script.run().unwrap();
    assert_eq!(script.r1, 1);
    assert_eq!(rat_f64(script.f2), 1.0);
}

#[test]
fn pwm_write_reaches_adapter() {
    let mut script = Angelio::with_adapter(String::from("lf11pf118"), SimAdapter::new(false));
    script.run().unwrap();
    assert_eq!(script.hw.pwm_writes.len(), 1);
    assert_eq!(script.hw.pwm_writes[0], (18u8, 8u32, Rat { num: 1, den: 1 }));
}

#[test]
fn pwm_routing_rule() {
    assert_eq!(pwm_route(18), PwmRoute::Hardware(0));
    assert_eq!(pwm_route(19), PwmRoute::Hardware(1));
    assert_eq!(pwm_route(5), PwmRoute::Software);
}
