use angelio::Angelio;
use angelio::Rat;
use angelio::RegValue;

fn rat_f64(r: Rat) -> f64 {
    r.num as f64 / r.den as f64
}

#[test]
fn set_register() {
    let mut script = Angelio::from_str("lr123");
    script.run().unwrap();
    assert_eq!(script.r1, 23);
}

#[test]
fn basic_pid() {
    let mut script = Angelio::from_str("P2I13D7q420c69");
    script.run().unwrap();
    assert_eq!(rat_f64(script.f3), 123553.);
}

#[test]
fn add() {
    let mut script = Angelio::from_str("lr121lr237+r1r2lf13.14+r3f1");
    script.run().unwrap();
    assert_eq!(script.r3, 58);
    assert_eq!(rat_f64(script.f3), 61.14);
}

#[test]
fn move_register() {
    let mut script = Angelio::from_str("lr121lf137Tr1f1");
    script.run().unwrap();
    assert_eq!(script.r1, 37);
    assert_eq!(rat_f64(script.f1), 21.0);
}

#[test]
fn load_every_integer_register() {
    let mut script = Angelio::from_str("lr11lr22lr33lr44");
    script.run().unwrap();
    assert_eq!(script.r1, 1);
    assert_eq!(script.r2, 2);
    assert_eq!(script.r3, 3);
    assert_eq!(script.r4, 4);
}

#[test]
fn load_every_float_register() {
    let mut script = Angelio::from_str("lf11.5lf22.5lf33.5lf44.5");
    script.run().unwrap();
    assert_eq!(rat_f64(script.f1), 1.5);
    assert_eq!(rat_f64(script.f2), 2.5);
    assert_eq!(rat_f64(script.f3), 3.5);
    assert_eq!(rat_f64(script.f4), 4.5);
}

#[test]
fn load_truncates_into_integer_register() {
    let mut script = Angelio::from_str("lr15.75");
    script.run().unwrap();
    assert_eq!(script.r1, 5);
}

#[test]
fn add_is_commutative() {
    let mut ab = Angelio::from_str("lr121lf13.5+r1f1");
    ab.run().unwrap();
    let mut ba = Angelio::from_str("lr121lf13.5+f1r1");
    ba.run().unwrap();
    assert_eq!(rat_f64(ab.f3), 24.5);
    assert_eq!(rat_f64(ba.f3), 24.5);
}

#[test]
fn swap_same_typed_registers() {
    let mut script = Angelio::from_str("lr15lr29Tr1r2");
    script.run().unwrap();
    assert_eq!(script.r1, 9);
    assert_eq!(script.r2, 5);
}

#[test]
fn float_register_two_reads_its_own_value() {
    let mut script = Angelio::from_str("lf25lf19!f2");
    script.run().unwrap();
    assert_eq!(script.output.len(), 1);
    assert_eq!(script.output[0], RegValue::Rational(Rat { num: 5, den: 1 }));
    assert_eq!(rat_f64(script.f2), 5.0);
    assert_eq!(rat_f64(script.f1), 9.0);
}

#[test]
fn from_string_builds_the_same_machine() {
    let mut script = Angelio::from_string(String::from("lr123"));
    script.run().unwrap();
    assert_eq!(script.r1, 23);
}

#[test]
fn empty_script_runs() {
    let mut script = Angelio::from_str("");
    script.run().unwrap();
    assert_eq!(script.r1, 0);
    assert_eq!(rat_f64(script.f1), 0.0);
}

#[test]
fn unknown_characters_are_skipped() {
    let mut noisy = Angelio::from_str("z lr123#z~");
    noisy.run().unwrap();
    let mut plain = Angelio::from_str("lr123");
    plain.run().unwrap();
    assert_eq!(noisy.r1, plain.r1);
    assert_eq!(noisy.r1, 23);
}

#[test]
fn trailing_noise_keeps_register_state() {
    let mut noisy = Angelio::from_str("lr121lf137Tr1f1zzz###   ");
    noisy.run().unwrap();
    assert_eq!(noisy.r1, 37);
    assert_eq!(rat_f64(noisy.f1), 21.0);
}

#[test]
fn print_records_values() {
    let mut script = Angelio::from_str("lr17!r1!f2");
    script.run().unwrap();
    assert_eq!(script.output.len(), 2);
    assert_eq!(script.output[0], RegValue::Int(7));
    assert_eq!(script.output[1], RegValue::Rational(Rat { num: 0, den: 1 }));
}
