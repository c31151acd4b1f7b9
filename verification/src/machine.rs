use vstd::prelude::*;

use crate::err::ErrorKind;
use crate::err::RunError;
use crate::pid::PID;
use crate::rat::Rat;
use crate::scan;
use crate::scan::RegId;
use vstd::string::StrSliceExecFns;

verus! {

/// A value read out of a register: an unsigned integer or a rational.
#[derive(Clone, Copy, PartialEq, Eq, Structural, Debug)]
pub enum RegValue {
    Int(u32),
    Rational(Rat),
}

/// Why a hardware capability call failed.
#[derive(Clone, Copy, PartialEq, Eq, Structural, Debug)]
pub enum HwFault {
    /// The pin could not be opened or claimed.
    PinUnavailable,
    /// The PWM channel could not be configured.
    PwmUnavailable,
}

/// The fault, as an abort kind.
pub open spec fn hw_fault_kind(f: HwFault) -> ErrorKind {
    match f {
        HwFault::PinUnavailable => ErrorKind::PinUnavailable,
        HwFault::PwmUnavailable => ErrorKind::PwmUnavailable,
    }
}

/// The fault, as an abort kind, computed at run time.
fn hw_fault_error(f: HwFault) -> (r: ErrorKind)
    ensures
        r == hw_fault_kind(f),
{
    match f {
        HwFault::PinUnavailable => ErrorKind::PinUnavailable,
        HwFault::PwmUnavailable => ErrorKind::PwmUnavailable,
    }
}

/// The pin-level capabilities the dispatcher delegates to, injected at
/// construction.  Implementations decide what a pin is: physical GPIO, a
/// simulation, or nothing at all.  Nothing is promised of the results;
/// the dispatcher states what holds whatever comes back.
pub trait HardwareAdapter {
    /// Drives a digital pin high (`true`) or low (`false`).
    fn write_digital(&mut self, pin: u8, level: bool) -> Result<(), HwFault>;

    /// Reads a digital pin level.
    fn read_digital(&mut self, pin: u8) -> Result<bool, HwFault>;

    /// Configures a PWM signal of the given frequency and duty fraction.
    fn write_pwm(&mut self, pin: u8, frequency: u32, duty: Rat) -> Result<(), HwFault>
        requires
            duty.wf(),
    ;
}

/// A pure software adapter: digital reads return a preset level, writes
/// are recorded, and nothing ever fails.  It makes runs with hardware
/// opcodes deterministic and observable without any physical pins.
pub struct SimAdapter {
    /// The level every digital read reports.
    pub input_level: bool,
    /// Every digital write, in order: pin and level.
    pub digital_writes: Vec<(u8, bool)>,
    /// Every PWM write, in order: pin, frequency and duty.
    pub pwm_writes: Vec<(u8, u32, Rat)>,
}

impl SimAdapter {
    /// An adapter whose digital reads all report `input_level`.
    pub fn new(input_level: bool) -> (r: SimAdapter)
        ensures
            r.input_level == input_level,
            r.digital_writes@.len() == 0,
            r.pwm_writes@.len() == 0,
    {
        SimAdapter { input_level, digital_writes: Vec::new(), pwm_writes: Vec::new() }
    }
}

impl HardwareAdapter for SimAdapter {
    fn write_digital(&mut self, pin: u8, level: bool) -> Result<(), HwFault> {
        self.digital_writes.push((pin, level));
        Ok(())
    }

    fn read_digital(&mut self, pin: u8) -> Result<bool, HwFault> {
        Ok(self.input_level)
    }

    fn write_pwm(&mut self, pin: u8, frequency: u32, duty: Rat) -> Result<(), HwFault> {
        self.pwm_writes.push((pin, frequency, duty));
        Ok(())
    }
}

/// Where a PWM opcode routes: pins 18 and 19 drive the dedicated hardware
/// channels 0 and 1; every other pin uses software PWM.
#[derive(Clone, Copy, PartialEq, Eq, Structural, Debug)]
pub enum PwmRoute {
    Hardware(u8),
    Software,
}

/// The routing rule for PWM pins.
pub fn pwm_route(pin: u8) -> (r: PwmRoute)
    ensures
        pin == 18 ==> r == PwmRoute::Hardware(0u8),
        pin == 19 ==> r == PwmRoute::Hardware(1u8),
        pin != 18 && pin != 19 ==> r == PwmRoute::Software,
{
    if pin == 18 {
        PwmRoute::Hardware(0)
    } else if pin == 19 {
        PwmRoute::Hardware(1)
    } else {
        PwmRoute::Software
    }
}

/// The observable machine state: the register bank, the PID state, and
/// the values printed so far.
#[verifier::ext_equal]
pub struct St {
    pub r1: u32,
    pub r2: u32,
    pub r3: u32,
    pub r4: u32,
    pub f1: Rat,
    pub f2: Rat,
    pub f3: Rat,
    pub f4: Rat,
    pub pid: PID,
    pub out: Seq<RegValue>,
}

impl St {
    /// Every rational in the state keeps a positive denominator.
    pub open spec fn wf(self) -> bool {
        self.f1.wf() && self.f2.wf() && self.f3.wf() && self.f4.wf() && self.pid.wf()
    }
}

/// The machine state at construction: all registers and the whole PID
/// state zero, nothing printed.
pub open spec fn init_st() -> St {
    St {
        r1: 0,
        r2: 0,
        r3: 0,
        r4: 0,
        f1: Rat { num: 0, den: 1 },
        f2: Rat { num: 0, den: 1 },
        f3: Rat { num: 0, den: 1 },
        f4: Rat { num: 0, den: 1 },
        pid: PID {
            p: Rat { num: 0, den: 1 },
            i: Rat { num: 0, den: 1 },
            d: Rat { num: 0, den: 1 },
            setpoint: Rat { num: 0, den: 1 },
            prev_err: Rat { num: 0, den: 1 },
            tot_err: Rat { num: 0, den: 1 },
        },
        out: Seq::empty(),
    }
}

/// The integer register `idx` of `st`.
pub open spec fn int_reg(st: St, idx: u8) -> u32 {
    if idx == 1 {
        st.r1
    } else if idx == 2 {
        st.r2
    } else if idx == 3 {
        st.r3
    } else {
        st.r4
    }
}

/// The floating register `idx` of `st`.
pub open spec fn rat_reg(st: St, idx: u8) -> Rat {
    if idx == 1 {
        st.f1
    } else if idx == 2 {
        st.f2
    } else if idx == 3 {
        st.f3
    } else {
        st.f4
    }
}

/// The tagged value of the register `id` names.
pub open spec fn read_spec(st: St, id: RegId) -> RegValue {
    if id.float {
        RegValue::Rational(rat_reg(st, id.idx))
    } else {
        RegValue::Int(int_reg(st, id.idx))
    }
}

/// The register's numeric value, widened to a rational when the register
/// is an integer one.
pub open spec fn as_rat_spec(st: St, id: RegId) -> Rat {
    if id.float {
        rat_reg(st, id.idx)
    } else {
        Rat { num: int_reg(st, id.idx) as i64, den: 1 }
    }
}

/// `st` with integer register `idx` set to `v`.
pub open spec fn store_int_spec(st: St, idx: u8, v: u32) -> St {
    if idx == 1 {
        St { r1: v, ..st }
    } else if idx == 2 {
        St { r2: v, ..st }
    } else if idx == 3 {
        St { r3: v, ..st }
    } else {
        St { r4: v, ..st }
    }
}

/// `st` with floating register `idx` set to `v`.
pub open spec fn store_rat_spec(st: St, idx: u8, v: Rat) -> St {
    if idx == 1 {
        St { f1: v, ..st }
    } else if idx == 2 {
        St { f2: v, ..st }
    } else if idx == 3 {
        St { f3: v, ..st }
    } else {
        St { f4: v, ..st }
    }
}

/// `st` with the register `id` set to `v`, coerced to the register's
/// type: an integer register takes the value truncated toward zero and
/// saturated into `u32`.
pub open spec fn store_spec(st: St, id: RegId, v: Rat) -> St {
    if id.float {
        store_rat_spec(st, id.idx, v)
    } else {
        store_int_spec(st, id.idx, Rat::trunc_spec(v))
    }
}

/// The effect of the addition opcode on operands `a` and `b`: their
/// numeric sum lands truncated in integer register 3 when both operands
/// are integer registers, and exactly in floating register 3 otherwise.
/// `None` when the exact sum does not fit.
pub open spec fn add_regs_spec(st: St, a: RegId, b: RegId) -> Option<St> {
    match Rat::add_spec(as_rat_spec(st, a), as_rat_spec(st, b)) {
        None => None,
        Some(sum) => Some(
            if !a.float && !b.float {
                St { r3: Rat::trunc_spec(sum), ..st }
            } else {
                St { f3: sum, ..st }
            },
        ),
    }
}

/// The effect of the swap opcode: each register takes the other's value,
/// coerced to its own type.
pub open spec fn swap_regs_spec(st: St, a: RegId, b: RegId) -> St {
    store_spec(store_spec(st, b, as_rat_spec(st, a)), a, as_rat_spec(st, b))
}

/// An opcode that delegates to the hardware adapter.
pub open spec fn is_hw_opcode(b: u8) -> bool {
    b == 111 || b == 105 || b == 112
}

/// Any opcode character; every other character is skipped.
pub open spec fn is_opcode(b: u8) -> bool {
    b == 80 || b == 73 || b == 68 || b == 113 || b == 99 || b == 108 || b == 43 || b == 84 || b
        == 33 || is_hw_opcode(b)
}

/// How a run from a given position ends.
pub enum RunOut {
    /// The stream was exhausted; the final machine state.
    Done(St),
    /// A fault aborted the run: the state at the fault, its kind, and the
    /// 1-based character index nearest it.
    Fail(St, ErrorKind, int),
    /// A hardware opcode was reached: the state just before it and its
    /// position.  What follows depends on the adapter.
    Hw(St, int),
}

/// The interpreter: one left-to-right pass from `pos`, dispatching one
/// opcode at a time, up to the end of the script, the first fault, or the
/// first hardware opcode.
pub open spec fn interp(code: Seq<u8>, pos: int, st: St) -> RunOut
    decreases code.len() - pos
        when 0 <= pos <= code.len()
        via interp_decreases
{
    if pos >= code.len() {
        RunOut::Done(st)
    } else {
        let c = code[pos];
        if is_hw_opcode(c) {
            RunOut::Hw(st, pos)
        } else if c == 80 || c == 73 || c == 68 || c == 113 {
            // P, I, D, q: a float literal into a gain or the setpoint
            match scan::scan_number(code, pos + 1) {
                Err(e) => RunOut::Fail(st, e.0, e.1),
                Ok(v) => {
                    let pid2 = if c == 80 {
                        PID { p: v.0, ..st.pid }
                    } else if c == 73 {
                        PID { i: v.0, ..st.pid }
                    } else if c == 68 {
                        PID { d: v.0, ..st.pid }
                    } else {
                        PID { setpoint: v.0, ..st.pid }
                    };
                    interp(code, v.1, St { pid: pid2, ..st })
                },
            }
        } else if c == 99 {
            // c: one PID step on the literal measurement, into f3
            match scan::scan_number(code, pos + 1) {
                Err(e) => RunOut::Fail(st, e.0, e.1),
                Ok(v) => match PID::step_spec(st.pid, v.0) {
                    None => RunOut::Fail(st, ErrorKind::NumericOverflow, pos + 1),
                    Some(sr) => interp(code, v.1, St { pid: sr.0, f3: sr.1, ..st }),
                },
            }
        } else if c == 108 {
            // l: a literal into the named register
            match scan::scan_reg(code, pos + 1) {
                Err(e) => RunOut::Fail(st, e.0, e.1),
                Ok(rv) => match scan::scan_number(code, rv.1) {
                    Err(e) => RunOut::Fail(st, e.0, e.1),
                    Ok(nv) => interp(code, nv.1, store_spec(st, rv.0, nv.0)),
                },
            }
        } else if c == 43 {
            // +: sum of two registers into register 3
            match scan::scan_reg(code, pos + 1) {
                Err(e) => RunOut::Fail(st, e.0, e.1),
                Ok(av) => match scan::scan_reg(code, av.1) {
                    Err(e) => RunOut::Fail(st, e.0, e.1),
                    Ok(bv) => match add_regs_spec(st, av.0, bv.0) {
                        None => RunOut::Fail(st, ErrorKind::NumericOverflow, pos + 1),
                        Some(st2) => interp(code, bv.1, st2),
                    },
                },
            }
        } else if c == 84 {
            // T: swap two registers
            match scan::scan_reg(code, pos + 1) {
                Err(e) => RunOut::Fail(st, e.0, e.1),
                Ok(av) => match scan::scan_reg(code, av.1) {
                    Err(e) => RunOut::Fail(st, e.0, e.1),
                    Ok(bv) => interp(code, bv.1, swap_regs_spec(st, av.0, bv.0)),
                },
            }
        } else if c == 33 {
            // !: print the register's value
            match scan::scan_reg(code, pos + 1) {
                Err(e) => RunOut::Fail(st, e.0, e.1),
                Ok(rv) => interp(code, rv.1, St { out: st.out.push(read_spec(st, rv.0)), ..st }),
            }
        } else {
            // any other character: a no-op
            interp(code, pos + 1, st)
        }
    }
}

#[via_fn]
proof fn interp_decreases(code: Seq<u8>, pos: int, st: St) {
    if 0 <= pos && pos < code.len() {
        scan::lemma_scan_number_ok(code, pos + 1);
        if pos + 3 <= code.len() {
            scan::lemma_scan_number_ok(code, pos + 3);
        }
    }
}

/// Does a two-character register name denote index `1..4` under the given
/// type tag?
pub open spec fn reg_name_spec(s: Seq<char>, tag: char) -> Option<u8> {
    if s.len() == 2 && s[0] == tag && '1' <= s[1] && s[1] <= '4' {
        Some((((s[1] as u32) - 48) as u8))
    } else {
        None
    }
}

/// The interpreter: a script, the register bank, the PID state, the
/// values printed so far, and the injected hardware adapter.  One call to
/// `run` executes the whole script in a single pass.
pub struct Angelio<A> {
    pub r1: u32,
    pub r2: u32,
    pub r3: u32,
    pub r4: u32,
    pub f1: Rat,
    pub f2: Rat,
    pub f3: Rat,
    pub f4: Rat,
    /// The embedded PID controller.
    pub pid: PID,
    /// The values the print opcode has emitted, in order.
    pub output: Vec<RegValue>,
    /// The injected hardware adapter.
    pub hw: A,
    /// The script bytes, sentinel included; fixed at construction.
    pub code: Vec<u8>,
}

impl<A> Angelio<A> {
    /// The observable machine state.
    pub open spec fn st(self) -> St {
        St {
            r1: self.r1,
            r2: self.r2,
            r3: self.r3,
            r4: self.r4,
            f1: self.f1,
            f2: self.f2,
            f3: self.f3,
            f4: self.f4,
            pid: self.pid,
            out: self.output@,
        }
    }

    /// Every stored rational keeps a positive denominator.
    pub open spec fn wf(self) -> bool {
        self.st().wf()
    }

    /// The script bytes, sentinel included.
    pub open spec fn code_bytes(self) -> Seq<u8> {
        self.code@
    }
}

impl<A: HardwareAdapter> Angelio<A> {
    /// An interpreter over `source` with the given adapter injected.  The
    /// script is the text's bytes with a sentinel byte appended; all
    /// registers and the PID state start at zero.
    pub fn with_adapter(source: String, hw: A) -> (r: Angelio<A>)
        ensures
            r.wf(),
            r.st() == init_st(),
            r.code_bytes() == vstd::utf8::encode_utf8(source@).push(0u8),
            r.hw == hw,
    {
        let mut code = source.as_str().as_bytes_vec();
        code.push(0u8);
        let r = Angelio {
            r1: 0,
            r2: 0,
            r3: 0,
            r4: 0,
            f1: Rat { num: 0, den: 1 },
            f2: Rat { num: 0, den: 1 },
            f3: Rat { num: 0, den: 1 },
            f4: Rat { num: 0, den: 1 },
            pid: PID {
                p: Rat { num: 0, den: 1 },
                i: Rat { num: 0, den: 1 },
                d: Rat { num: 0, den: 1 },
                setpoint: Rat { num: 0, den: 1 },
                prev_err: Rat { num: 0, den: 1 },
                tot_err: Rat { num: 0, den: 1 },
            },
            output: Vec::new(),
            hw,
            code,
        };
        proof {
            assert(r.st() =~= init_st());
        }
        r
    }

    /// Stores `v` into the register `id` names, coerced to the register's
    /// type exactly as `store_spec` says.
    fn store(&mut self, id: RegId, v: Rat)
        requires
            old(self).wf(),
            id.wf(),
            v.wf(),
        ensures
            final(self).wf(),
            final(self).st() == store_spec(old(self).st(), id, v),
            final(self).code_bytes() == old(self).code_bytes(),
            final(self).hw == old(self).hw,
    {
        if id.float {
            if id.idx == 1 {
                self.f1 = v;
            } else if id.idx == 2 {
                self.f2 = v;
            } else if id.idx == 3 {
                self.f3 = v;
            } else {
                self.f4 = v;
            }
        } else {
            let t = v.trunc_u32();
            if id.idx == 1 {
                self.r1 = t;
            } else if id.idx == 2 {
                self.r2 = t;
            } else if id.idx == 3 {
                self.r3 = t;
            } else {
                self.r4 = t;
            }
        }
        proof {
            assert(self.st() =~= store_spec(old(self).st(), id, v));
        }
    }

    /// The register's numeric value, widened to a rational, exactly as
    /// `as_rat_spec` says.
    fn reg_as_rat(&self, id: RegId) -> (r: Rat)
        requires
            self.wf(),
            id.wf(),
        ensures
            r == as_rat_spec(self.st(), id),
            r.wf(),
    {
        if id.float {
            if id.idx == 1 {
                self.f1
            } else if id.idx == 2 {
                self.f2
            } else if id.idx == 3 {
                self.f3
            } else {
                self.f4
            }
        } else {
            let v = if id.idx == 1 {
                self.r1
            } else if id.idx == 2 {
                self.r2
            } else if id.idx == 3 {
                self.r3
            } else {
                self.r4
            };
            Rat { num: v as i64, den: 1 }
        }
    }

    /// The register's tagged value, exactly as `read_spec` says.
    fn reg_value(&self, id: RegId) -> (r: RegValue)
        requires
            self.wf(),
            id.wf(),
        ensures
            r == read_spec(self.st(), id),
    {
        if id.float {
            if id.idx == 1 {
                RegValue::Rational(self.f1)
            } else if id.idx == 2 {
                RegValue::Rational(self.f2)
            } else if id.idx == 3 {
                RegValue::Rational(self.f3)
            } else {
                RegValue::Rational(self.f4)
            }
        } else {
            let v = if id.idx == 1 {
                self.r1
            } else if id.idx == 2 {
                self.r2
            } else if id.idx == 3 {
                self.r3
            } else {
                self.r4
            };
            RegValue::Int(v)
        }
    }

    /// Sets integer register `register` (`1..4`) to `value`; any other
    /// index is an invalid register.
    pub fn set_register(&mut self, register: u32, value: u32) -> (r: Result<(), RunError>)
        requires
            old(self).wf(),
        ensures
            final(self).wf(),
            final(self).code_bytes() == old(self).code_bytes(),
            1 <= register <= 4 ==> r is Ok && final(self).st() == store_int_spec(
                old(self).st(),
                register as u8,
                value,
            ),
            !(1 <= register <= 4) ==> r == Err::<(), RunError>(
                RunError { kind: ErrorKind::InvalidRegister, at: 0 },
            ) && *final(self) == *old(self),
    {
        if register == 1 {
            self.r1 = value;
        } else if register == 2 {
            self.r2 = value;
        } else if register == 3 {
            self.r3 = value;
        } else if register == 4 {
            self.r4 = value;
        } else {
            return Err(RunError { kind: ErrorKind::InvalidRegister, at: 0 });
        }
        proof {
            assert(self.st() =~= store_int_spec(old(self).st(), register as u8, value));
        }
        Ok(())
    }

    /// Sets floating register `register` (`1..4`) to `value`; any other
    /// index is an invalid register.
    pub fn set_float_register(&mut self, register: u32, value: Rat) -> (r: Result<(), RunError>)
        requires
            old(self).wf(),
            value.wf(),
        ensures
            final(self).wf(),
            final(self).code_bytes() == old(self).code_bytes(),
            1 <= register <= 4 ==> r is Ok && final(self).st() == store_rat_spec(
                old(self).st(),
                register as u8,
                value,
            ),
            !(1 <= register <= 4) ==> r == Err::<(), RunError>(
                RunError { kind: ErrorKind::InvalidRegister, at: 0 },
            ) && *final(self) == *old(self),
    {
        if register == 1 {
            self.f1 = value;
        } else if register == 2 {
            self.f2 = value;
        } else if register == 3 {
            self.f3 = value;
        } else if register == 4 {
            self.f4 = value;
        } else {
            return Err(RunError { kind: ErrorKind::InvalidRegister, at: 0 });
        }
        proof {
            assert(self.st() =~= store_rat_spec(old(self).st(), register as u8, value));
        }
        Ok(())
    }

    /// Sets an integer register by its two-character name (`"r1"`.."`r4`").
    pub fn set_register_by_name(&mut self, reg: String, value: u32) -> (r: Result<(), RunError>)
        requires
            old(self).wf(),
        ensures
            final(self).wf(),
            final(self).code_bytes() == old(self).code_bytes(),
            match reg_name_spec(reg@, 'r') {
                Some(idx) => r is Ok && final(self).st() == store_int_spec(
                    old(self).st(),
                    idx,
                    value,
                ),
                None => r == Err::<(), RunError>(
                    RunError { kind: ErrorKind::InvalidRegister, at: 0 },
                ) && *final(self) == *old(self),
            },
    {
        let s = reg.as_str();
        if s.unicode_len() == 2 {
            let c0 = s.get_char(0);
            let c1 = s.get_char(1);
            if c0 == 'r' && '1' <= c1 && c1 <= '4' {
                let idx: u8 = ((c1 as u32) - 48) as u8;
                return self.set_register(idx as u32, value);
            }
        }
        Err(RunError { kind: ErrorKind::InvalidRegister, at: 0 })
    }

    /// Sets a floating register by its two-character name (`"f1"`.."`f4`").
    pub fn set_float_register_by_name(&mut self, reg: String, value: Rat) -> (r: Result<
        (),
        RunError,
    >)
        requires
            old(self).wf(),
            value.wf(),
        ensures
            final(self).wf(),
            final(self).code_bytes() == old(self).code_bytes(),
            match reg_name_spec(reg@, 'f') {
                Some(idx) => r is Ok && final(self).st() == store_rat_spec(
                    old(self).st(),
                    idx,
                    value,
                ),
                None => r == Err::<(), RunError>(
                    RunError { kind: ErrorKind::InvalidRegister, at: 0 },
                ) && *final(self) == *old(self),
            },
    {
        let s = reg.as_str();
        if s.unicode_len() == 2 {
            let c0 = s.get_char(0);
            let c1 = s.get_char(1);
            if c0 == 'f' && '1' <= c1 && c1 <= '4' {
                let idx: u8 = ((c1 as u32) - 48) as u8;
                return self.set_float_register(idx as u32, value);
            }
        }
        Err(RunError { kind: ErrorKind::InvalidRegister, at: 0 })
    }

    /// One dispatch step for `P`, `I`, `D` or `q` at `pos`: reads the
    /// float literal and sets the named gain or the setpoint, exactly as
    /// the matching `interp` arm says.
    fn step_gain(&mut self, pos: usize) -> (r: Result<usize, RunError>)
        requires
            old(self).wf(),
            pos < old(self).code@.len() <= usize::MAX,
            old(self).code@[pos as int] == 80 || old(self).code@[pos as int] == 73 || old(
                self,
            ).code@[pos as int] == 68 || old(self).code@[pos as int] == 113,
        ensures
            final(self).wf(),
            final(self).code@ == old(self).code@,
            final(self).hw == old(self).hw,
            match r {
                Ok(p2) => pos < p2 <= final(self).code@.len() && interp(
                    old(self).code@,
                    pos as int,
                    old(self).st(),
                ) == interp(final(self).code@, p2 as int, final(self).st()),
                Err(e) => interp(old(self).code@, pos as int, old(self).st()) == RunOut::Fail(
                    old(self).st(),
                    e.kind,
                    e.at as int,
                ) && final(self).st() == old(self).st(),
            },
    {
        let ghost stp = self.st();
        let c = self.code[pos];
        let nv = match scan::get_number(&self.code, pos + 1) {
            Ok(v) => v,
            Err(e) => {
                proof {
                    assert(interp(self.code@, pos as int, stp) == RunOut::Fail(
                        stp,
                        e.kind,
                        e.at as int,
                    ));
                }
                return Err(e);
            },
        };
        proof {
            scan::lemma_scan_number_ok(self.code@, pos + 1);
        }
        if c == 80 {
            self.pid.p = nv.0;
        } else if c == 73 {
            self.pid.i = nv.0;
        } else if c == 68 {
            self.pid.d = nv.0;
        } else {
            self.pid.setpoint = nv.0;
        }
        proof {
            let pid2 = if c == 80 {
                PID { p: nv.0, ..stp.pid }
            } else if c == 73 {
                PID { i: nv.0, ..stp.pid }
            } else if c == 68 {
                PID { d: nv.0, ..stp.pid }
            } else {
                PID { setpoint: nv.0, ..stp.pid }
            };
            assert(self.st() =~= (St { pid: pid2, ..stp }));
            assert(interp(self.code@, pos as int, stp) == interp(
                self.code@,
                nv.1 as int,
                self.st(),
            ));
        }
        Ok(nv.1)
    }

    /// One dispatch step for `c` at `pos`: reads the measurement literal,
    /// runs one PID step and stores its output in floating register 3,
    /// exactly as the matching `interp` arm says.
    fn step_measure(&mut self, pos: usize) -> (r: Result<usize, RunError>)
        requires
            old(self).wf(),
            pos < old(self).code@.len() <= usize::MAX,
            old(self).code@[pos as int] == 99,
        ensures
            final(self).wf(),
            final(self).code@ == old(self).code@,
            final(self).hw == old(self).hw,
            match r {
                Ok(p2) => pos < p2 <= final(self).code@.len() && interp(
                    old(self).code@,
                    pos as int,
                    old(self).st(),
                ) == interp(final(self).code@, p2 as int, final(self).st()),
                Err(e) => interp(old(self).code@, pos as int, old(self).st()) == RunOut::Fail(
                    old(self).st(),
                    e.kind,
                    e.at as int,
                ) && final(self).st() == old(self).st(),
            },
    {
        let ghost stp = self.st();
        let nv = match scan::get_number(&self.code, pos + 1) {
            Ok(v) => v,
            Err(e) => {
                proof {
                    assert(interp(self.code@, pos as int, stp) == RunOut::Fail(
                        stp,
                        e.kind,
                        e.at as int,
                    ));
                }
                return Err(e);
            },
        };
        proof {
            scan::lemma_scan_number_ok(self.code@, pos + 1);
        }
        match self.pid.calculate(nv.0) {
            None => {
                proof {
                    assert(interp(self.code@, pos as int, stp) == RunOut::Fail(
                        stp,
                        ErrorKind::NumericOverflow,
                        pos + 1,
                    ));
                }
                Err(RunError { kind: ErrorKind::NumericOverflow, at: pos + 1 })
            },
            Some(out) => {
                self.f3 = out;
                proof {
                    let sr = PID::step_spec(stp.pid, nv.0)->0;
                    assert(self.st() =~= (St { pid: sr.0, f3: sr.1, ..stp }));
                    assert(interp(self.code@, pos as int, stp) == interp(
                        self.code@,
                        nv.1 as int,
                        self.st(),
                    ));
                }
                Ok(nv.1)
            },
        }
    }

    /// One dispatch step for `l` at `pos`: reads the register reference
    /// and the literal and loads it, coerced to the register's type,
    /// exactly as the matching `interp` arm says.
    fn step_load(&mut self, pos: usize) -> (r: Result<usize, RunError>)
        requires
            old(self).wf(),
            pos < old(self).code@.len() <= usize::MAX,
            old(self).code@[pos as int] == 108,
        ensures
            final(self).wf(),
            final(self).code@ == old(self).code@,
            final(self).hw == old(self).hw,
            match r {
                Ok(p2) => pos < p2 <= final(self).code@.len() && interp(
                    old(self).code@,
                    pos as int,
                    old(self).st(),
                ) == interp(final(self).code@, p2 as int, final(self).st()),
                Err(e) => interp(old(self).code@, pos as int, old(self).st()) == RunOut::Fail(
                    old(self).st(),
                    e.kind,
                    e.at as int,
                ) && final(self).st() == old(self).st(),
            },
    {
        let ghost stp = self.st();
        let rv = match scan::get_register_argument(&self.code, pos + 1) {
            Ok(v) => v,
            Err(e) => {
                proof {
                    assert(interp(self.code@, pos as int, stp) == RunOut::Fail(
                        stp,
                        e.kind,
                        e.at as int,
                    ));
                }
                return Err(e);
            },
        };
        let nv = match scan::get_number(&self.code, rv.1) {
            Ok(v) => v,
            Err(e) => {
                proof {
                    assert(interp(self.code@, pos as int, stp) == RunOut::Fail(
                        stp,
                        e.kind,
                        e.at as int,
                    ));
                }
                return Err(e);
            },
        };
        proof {
            scan::lemma_scan_number_ok(self.code@, rv.1 as int);
        }
        self.store(rv.0, nv.0);
        proof {
            assert(interp(self.code@, pos as int, stp) == interp(
                self.code@,
                nv.1 as int,
                self.st(),
            ));
        }
        Ok(nv.1)
    }

    /// One dispatch step for `+` at `pos`: reads two register references
    /// and stores their sum in register 3, truncated there when both
    /// operands are integer registers, exactly as the matching `interp`
    /// arm says.
    fn step_add(&mut self, pos: usize) -> (r: Result<usize, RunError>)
        requires
            old(self).wf(),
            pos < old(self).code@.len() <= usize::MAX,
            old(self).code@[pos as int] == 43,
        ensures
            final(self).wf(),
            final(self).code@ == old(self).code@,
            final(self).hw == old(self).hw,
            match r {
                Ok(p2) => pos < p2 <= final(self).code@.len() && interp(
                    old(self).code@,
                    pos as int,
                    old(self).st(),
                ) == interp(final(self).code@, p2 as int, final(self).st()),
                Err(e) => interp(old(self).code@, pos as int, old(self).st()) == RunOut::Fail(
                    old(self).st(),
                    e.kind,
                    e.at as int,
                ) && final(self).st() == old(self).st(),
            },
    {
        let ghost stp = self.st();
        let av = match scan::get_register_argument(&self.code, pos + 1) {
            Ok(v) => v,
            Err(e) => {
                proof {
                    assert(interp(self.code@, pos as int, stp) == RunOut::Fail(
                        stp,
                        e.kind,
                        e.at as int,
                    ));
                }
                return Err(e);
            },
        };
        let bv = match scan::get_register_argument(&self.code, av.1) {
            Ok(v) => v,
            Err(e) => {
                proof {
                    assert(interp(self.code@, pos as int, stp) == RunOut::Fail(
                        stp,
                        e.kind,
                        e.at as int,
                    ));
                }
                return Err(e);
            },
        };
        let a = self.reg_as_rat(av.0);
        let b = self.reg_as_rat(bv.0);
        match a.checked_add(b) {
            None => {
                proof {
                    assert(interp(self.code@, pos as int, stp) == RunOut::Fail(
                        stp,
                        ErrorKind::NumericOverflow,
                        pos + 1,
                    ));
                }
                Err(RunError { kind: ErrorKind::NumericOverflow, at: pos + 1 })
            },
            Some(sum) => {
                if !av.0.float && !bv.0.float {
                    self.r3 = sum.trunc_u32();
                } else {
                    self.f3 = sum;
                }
                proof {
                    assert(self.st() =~= add_regs_spec(stp, av.0, bv.0)->0);
                    assert(interp(self.code@, pos as int, stp) == interp(
                        self.code@,
                        bv.1 as int,
                        self.st(),
                    ));
                }
                Ok(bv.1)
            },
        }
    }

    /// One dispatch step for `T` at `pos`: reads two register references
    /// and swaps their values, each coerced to its new register's type,
    /// exactly as the matching `interp` arm says.
    fn step_swap(&mut self, pos: usize) -> (r: Result<usize, RunError>)
        requires
            old(self).wf(),
            pos < old(self).code@.len() <= usize::MAX,
            old(self).code@[pos as int] == 84,
        ensures
            final(self).wf(),
            final(self).code@ == old(self).code@,
            final(self).hw == old(self).hw,
            match r {
                Ok(p2) => pos < p2 <= final(self).code@.len() && interp(
                    old(self).code@,
                    pos as int,
                    old(self).st(),
                ) == interp(final(self).code@, p2 as int, final(self).st()),
                Err(e) => interp(old(self).code@, pos as int, old(self).st()) == RunOut::Fail(
                    old(self).st(),
                    e.kind,
                    e.at as int,
                ) && final(self).st() == old(self).st(),
            },
    {
        let ghost stp = self.st();
        let av = match scan::get_register_argument(&self.code, pos + 1) {
            Ok(v) => v,
            Err(e) => {
                proof {
                    assert(interp(self.code@, pos as int, stp) == RunOut::Fail(
                        stp,
                        e.kind,
                        e.at as int,
                    ));
                }
                return Err(e);
            },
        };
        let bv = match scan::get_register_argument(&self.code, av.1) {
            Ok(v) => v,
            Err(e) => {
                proof {
                    assert(interp(self.code@, pos as int, stp) == RunOut::Fail(
                        stp,
                        e.kind,
                        e.at as int,
                    ));
                }
                return Err(e);
            },
        };
        let a = self.reg_as_rat(av.0);
        let b = self.reg_as_rat(bv.0);
        self.store(bv.0, a);
        self.store(av.0, b);
        proof {
            assert(self.st() == swap_regs_spec(stp, av.0, bv.0));
            assert(interp(self.code@, pos as int, stp) == interp(
                self.code@,
                bv.1 as int,
                self.st(),
            ));
        }
        Ok(bv.1)
    }

    /// One dispatch step for `!` at `pos`: reads the register reference
    /// and appends the register's value to the output, exactly as the
    /// matching `interp` arm says.
    fn step_print(&mut self, pos: usize) -> (r: Result<usize, RunError>)
        requires
            old(self).wf(),
            pos < old(self).code@.len() <= usize::MAX,
            old(self).code@[pos as int] == 33,
        ensures
            final(self).wf(),
            final(self).code@ == old(self).code@,
            final(self).hw == old(self).hw,
            match r {
                Ok(p2) => pos < p2 <= final(self).code@.len() && interp(
                    old(self).code@,
                    pos as int,
                    old(self).st(),
                ) == interp(final(self).code@, p2 as int, final(self).st()),
                Err(e) => interp(old(self).code@, pos as int, old(self).st()) == RunOut::Fail(
                    old(self).st(),
                    e.kind,
                    e.at as int,
                ) && final(self).st() == old(self).st(),
            },
    {
        let ghost stp = self.st();
        let rv = match scan::get_register_argument(&self.code, pos + 1) {
            Ok(v) => v,
            Err(e) => {
                proof {
                    assert(interp(self.code@, pos as int, stp) == RunOut::Fail(
                        stp,
                        e.kind,
                        e.at as int,
                    ));
                }
                return Err(e);
            },
        };
        let val = self.reg_value(rv.0);
        self.output.push(val);
        proof {
            assert(self.st() =~= (St { out: stp.out.push(read_spec(stp, rv.0)), ..stp }));
            assert(interp(self.code@, pos as int, stp) == interp(
                self.code@,
                rv.1 as int,
                self.st(),
            ));
        }
        Ok(rv.1)
    }

    /// One dispatch step for `o`, `i` or `p` at `pos`: reads the register
    /// reference and the port number, then delegates to the adapter — `o`
    /// drives the pin by the register's value coerced to a bit, `i` stores
    /// the level read as 0 or 1 coerced to the register's type, `p` hands
    /// the register's value over as a PWM duty fraction at the fixed
    /// carrier frequency of 8.  A write never changes the machine state;
    /// any fault aborts with the state unchanged.
    fn step_hw(&mut self, pos: usize) -> (r: Result<usize, RunError>)
        requires
            old(self).wf(),
            pos < old(self).code@.len() <= usize::MAX,
            is_hw_opcode(old(self).code@[pos as int]),
        ensures
            final(self).wf(),
            final(self).code@ == old(self).code@,
            match r {
                Ok(p2) => scan::scan_reg(old(self).code@, pos + 1) matches Ok(rv)
                    && scan::scan_port(old(self).code@, rv.1) matches Ok(pv) && p2 as int == pv.1
                    && pos < p2 <= old(self).code@.len() && (old(self).code@[pos as int] != 105
                    ==> final(self).st() == old(self).st()) && (old(self).code@[pos as int] == 105
                    ==> final(self).st() == store_spec(
                        old(self).st(),
                        rv.0,
                        (Rat { num: 0, den: 1 }),
                    ) || final(self).st() == store_spec(
                        old(self).st(),
                        rv.0,
                        (Rat { num: 1, den: 1 }),
                    )),
                Err(e) => final(self).st() == old(self).st() && {
                    ||| (scan::scan_reg(old(self).code@, pos + 1) matches Err(se) && e.kind == se.0
                        && e.at as int == se.1)
                    ||| (scan::scan_reg(old(self).code@, pos + 1) matches Ok(rv) && scan::scan_port(
                        old(self).code@,
                        rv.1,
                    ) matches Err(se) && e.kind == se.0 && e.at as int == se.1)
                    ||| ((e.kind == ErrorKind::PinUnavailable || e.kind == ErrorKind::PwmUnavailable)
                        && e.at == pos + 1)
                },
            },
    {
        let c = self.code[pos];
        let rv = match scan::get_register_argument(&self.code, pos + 1) {
            Ok(v) => v,
            Err(e) => {
                return Err(e);
            },
        };
        let pv = match scan::get_port_number(&self.code, rv.1) {
            Ok(v) => v,
            Err(e) => {
                return Err(e);
            },
        };
        proof {
            scan::lemma_scan_number_ok(self.code@, rv.1 as int);
        }
        if c == 111 {
            // o: drive the pin by the register's value as a bit
            let valu = self.reg_as_rat(rv.0).trunc_u32();
            if let Err(f) = self.hw.write_digital(pv.0, valu != 0) {
                return Err(RunError { kind: hw_fault_error(f), at: pos + 1 });
            }
        } else if c == 105 {
            // i: read the pin into the register as 0 or 1
            match self.hw.read_digital(pv.0) {
                Ok(level) => {
                    let bit: u32 = if level {
                        1
                    } else {
                        0
                    };
                    self.store(rv.0, Rat::from_u32(bit));
                },
                Err(f) => {
                    return Err(RunError { kind: hw_fault_error(f), at: pos + 1 });
                },
            }
        } else {
            // p: the register's value as a PWM duty fraction at the
            // fixed carrier frequency
            let duty = self.reg_as_rat(rv.0);
            if let Err(f) = self.hw.write_pwm(pv.0, 8, duty) {
                return Err(RunError { kind: hw_fault_error(f), at: pos + 1 });
            }
        }
        Ok(pv.1)
    }

    /// Executes the whole script in one pass, exactly as `interp` says:
    /// when the interpretation of the script from the initial position
    /// ends in `Done`, the run returns `Ok` and leaves that state; when it
    /// ends in `Fail`, the run returns that fault and leaves the state at
    /// the fault.  Past the first hardware opcode the outcome depends on
    /// the adapter, and only well-formedness is promised.
    #[verifier::rlimit(100)]
    pub fn run(&mut self) -> (r: Result<(), RunError>)
        requires
            old(self).wf(),
        ensures
            final(self).wf(),
            final(self).code_bytes() == old(self).code_bytes(),
            match interp(old(self).code_bytes(), 0, old(self).st()) {
                RunOut::Done(st) => r is Ok && final(self).st() == st,
                RunOut::Fail(st, k, at) => r matches Err(e) && e.kind == k && e.at as int == at
                    && final(self).st() == st,
                RunOut::Hw(st, p) => true,
            },
    {
        let ghost c0 = self.code@;
        let ghost s0 = self.st();
        let mut pos: usize = 0;
        let ghost mut hw_seen: bool = false;
        while pos < self.code.len()
            invariant
                self.wf(),
                self.code@ == c0,
                c0 == old(self).code_bytes(),
                s0 == old(self).st(),
                pos <= self.code.len(),
                !hw_seen ==> interp(c0, 0, s0) == interp(c0, pos as int, self.st()),
                hw_seen ==> interp(c0, 0, s0) matches RunOut::Hw(_, _),
            decreases self.code.len() - pos,
        {
            let ghost stp = self.st();
            let c = self.code[pos];
            if c == 111 || c == 105 || c == 112 {
                // o, i, p: hardware opcodes; past here the adapter decides
                proof {
                    if !hw_seen {
                        assert(interp(c0, pos as int, stp) == RunOut::Hw(stp, pos as int));
                    }
                    hw_seen = true;
                }
                pos = match self.step_hw(pos) {
                    Ok(p2) => p2,
                    Err(e) => {
                        return Err(e);
                    },
                };
            } else if c == 80 || c == 73 || c == 68 || c == 113 {
                pos = match self.step_gain(pos) {
                    Ok(p2) => p2,
                    Err(e) => {
                        return Err(e);
                    },
                };
            } else if c == 99 {
                pos = match self.step_measure(pos) {
                    Ok(p2) => p2,
                    Err(e) => {
                        return Err(e);
                    },
                };
            } else if c == 108 {
                pos = match self.step_load(pos) {
                    Ok(p2) => p2,
                    Err(e) => {
                        return Err(e);
                    },
                };
            } else if c == 43 {
                pos = match self.step_add(pos) {
                    Ok(p2) => p2,
                    Err(e) => {
                        return Err(e);
                    },
                };
            } else if c == 84 {
                pos = match self.step_swap(pos) {
                    Ok(p2) => p2,
                    Err(e) => {
                        return Err(e);
                    },
                };
            } else if c == 33 {
                pos = match self.step_print(pos) {
                    Ok(p2) => p2,
                    Err(e) => {
                        return Err(e);
                    },
                };
            } else {
                // any other character: a no-op
                proof {
                    if !hw_seen {
                        assert(interp(c0, pos as int, stp) == interp(c0, pos + 1, stp));
                    }
                }
                pos = pos + 1;
            }
        }
        proof {
            if !hw_seen {
                assert(interp(c0, pos as int, self.st()) == RunOut::Done(self.st()));
            }
        }
        Ok(())
    }
}

impl Angelio<SimAdapter> {
    /// An interpreter over `source`, with a pure software adapter whose
    /// digital reads report low.
    pub fn from_string(source: String) -> (r: Angelio<SimAdapter>)
        ensures
            r.wf(),
            r.st() == init_st(),
            r.code_bytes() == vstd::utf8::encode_utf8(source@).push(0u8),
    {
        Angelio::with_adapter(source, SimAdapter::new(false))
    }

    /// An interpreter over `source`, as `from_string`.
    pub fn from_str(source: &str) -> (r: Angelio<SimAdapter>)
        ensures
            r.wf(),
            r.st() == init_st(),
            r.code_bytes() == vstd::utf8::encode_utf8(source@).push(0u8),
    {
        Angelio::from_string(source.to_owned())
    }
}

} // verus!
