use vstd::prelude::*;

use crate::machine::RunOut;
use crate::machine::St;
use crate::machine::add_regs_spec;
use crate::machine::as_rat_spec;
use crate::machine::int_reg;
use crate::machine::interp;
use crate::machine::is_opcode;
use crate::machine::rat_reg;
use crate::machine::store_spec;
use crate::machine::swap_regs_spec;
use crate::pid::PID;
use crate::rat::Rat;
use crate::scan;
use crate::scan::RegId;

verus! {

/// Law: loading a value into any register and reading that register back
/// yields the value, coerced to the register's type — exact in a floating
/// register, truncated toward zero and saturated in an integer one.
pub proof fn lemma_load_then_read(st: St, id: RegId, v: Rat)
    requires
        id.wf(),
    ensures
        id.float ==> rat_reg(store_spec(st, id, v), id.idx) == v,
        !id.float ==> int_reg(store_spec(st, id, v), id.idx) == Rat::trunc_spec(v),
{
}

/// Law: a PID step is a function of the gains, the setpoint, the prior
/// state and the measurement alone — equal states and equal measurements
/// give equal outputs and equal successor states.
pub proof fn lemma_pid_step_deterministic(a: PID, b: PID, m1: Rat, m2: Rat)
    requires
        a == b,
        m1 == m2,
    ensures
        PID::step_spec(a, m1) == PID::step_spec(b, m2),
{
}

/// Law: with gains 2, 13 and 7, setpoint 420 and no history, one step on
/// measurement 69 succeeds and outputs exactly 123553.
pub proof fn lemma_pid_reference_step()
    ensures
        ({
            let st = PID {
                p: Rat { num: 2, den: 1 },
                i: Rat { num: 13, den: 1 },
                d: Rat { num: 7, den: 1 },
                setpoint: Rat { num: 420, den: 1 },
                prev_err: Rat { num: 0, den: 1 },
                tot_err: Rat { num: 0, den: 1 },
            };
            let r = PID::step_spec(st, Rat { num: 69, den: 1 });
            r matches Some(sr) && sr.1.n() == 123553 * sr.1.d()
        }),
{
    let st = PID {
        p: Rat { num: 2, den: 1 },
        i: Rat { num: 13, den: 1 },
        d: Rat { num: 7, den: 1 },
        setpoint: Rat { num: 420, den: 1 },
        prev_err: Rat { num: 0, den: 1 },
        tot_err: Rat { num: 0, den: 1 },
    };
    let m = Rat { num: 69, den: 1 };
    let pos_err = Rat { num: 351, den: 1 };
    let verr = Rat { num: 17550, den: 1 };
    assert(Rat::sub_spec(st.setpoint, m) == Some(pos_err));
    assert(Rat::sub_spec(pos_err, st.prev_err) == Some(pos_err));
    assert(Rat::mul_spec(pos_err, crate::pid::steps_per_unit()) == Some(verr));
    assert(Rat::mul_spec(pos_err, crate::pid::period()) == Some(Rat { num: 351, den: 50 }));
    assert(Rat::add_spec(st.tot_err, Rat { num: 351, den: 50 }) == Some(
        Rat { num: 351, den: 50 },
    ));
    assert(Rat::recip_spec(st.i) == Some(Rat { num: 1, den: 13 }));
    assert(Rat::neg_spec(Rat { num: 1, den: 13 }) == Some(Rat { num: -1i64, den: 13 }));
    assert(!Rat::lt_spec(Rat { num: 351, den: 50 }, Rat { num: -1i64, den: 13 }));
    assert(Rat::lt_spec(Rat { num: 1, den: 13 }, Rat { num: 351, den: 50 }));
    assert(PID::integral_spec(st, pos_err) == Some(Rat { num: 1, den: 13 }));
    let st2 = PID { prev_err: pos_err, tot_err: Rat { num: 1, den: 13 }, ..st };
    assert(Rat::mul_spec(st2.p, pos_err) == Some(Rat { num: 702, den: 1 }));
    assert(Rat::mul_spec(st2.i, st2.tot_err) == Some(Rat { num: 13, den: 13 }));
    assert(Rat::mul_spec(st2.d, verr) == Some(Rat { num: 122850, den: 1 }));
    assert(Rat::add_spec(Rat { num: 702, den: 1 }, Rat { num: 13, den: 13 }) == Some(
        Rat { num: 9139, den: 13 },
    ));
    assert(Rat::add_spec(Rat { num: 9139, den: 13 }, Rat { num: 122850, den: 1 }) == Some(
        Rat { num: 1606189, den: 13 },
    ));
    assert(PID::output_spec(st2, pos_err, verr) == Some(Rat { num: 1606189, den: 13 }));
    assert(PID::step_spec(st, m) == Some((st2, Rat { num: 1606189, den: 13 })));
}

/// Law: the addition opcode is commutative in its operands — reversing
/// the two register references gives the same outcome, overflow included,
/// whether the operands are same-typed or cross-typed.
pub proof fn lemma_add_opcode_commutes(st: St, a: RegId, b: RegId)
    requires
        a.wf(),
        b.wf(),
    ensures
        add_regs_spec(st, a, b) == add_regs_spec(st, b, a),
{
    let x = as_rat_spec(st, a);
    let y = as_rat_spec(st, b);
    assert(x.d() * y.d() == y.d() * x.d()) by (nonlinear_arith);
    assert(Rat::add_spec(x, y) == Rat::add_spec(y, x));
}

/// Law: the swap opcode exchanges the two registers' values, each coerced
/// to its new register's type — exact into a floating register, truncated
/// toward zero and saturated into an integer one.
pub proof fn lemma_swap_exchanges(st: St, a: RegId, b: RegId)
    requires
        a.wf(),
        b.wf(),
        a != b,
    ensures
        b.float ==> rat_reg(swap_regs_spec(st, a, b), b.idx) == as_rat_spec(st, a),
        !b.float ==> int_reg(swap_regs_spec(st, a, b), b.idx) == Rat::trunc_spec(
            as_rat_spec(st, a),
        ),
        a.float ==> rat_reg(swap_regs_spec(st, a, b), a.idx) == as_rat_spec(st, b),
        !a.float ==> int_reg(swap_regs_spec(st, a, b), a.idx) == Rat::trunc_spec(
            as_rat_spec(st, b),
        ),
{
}

/// Law: a malformed first register reference aborts the run at that
/// reference with the fault `scan_reg` names — an invalid type tag, a
/// digit outside the fixed range, or a truncated reference — and never
/// silently defaults.
pub proof fn lemma_bad_register_reference_aborts(code: Seq<u8>, pos: int, st: St)
    requires
        0 <= pos < code.len(),
        code[pos] == 108 || code[pos] == 43 || code[pos] == 84 || code[pos] == 33,
        scan::scan_reg(code, pos + 1) is Err,
    ensures
        scan::scan_reg(code, pos + 1) matches Err(e) ==> interp(code, pos, st) == RunOut::Fail(
            st,
            e.0,
            e.1,
        ),
{
}

/// Law: a malformed second register reference of a two-operand opcode
/// aborts the run the same way.
pub proof fn lemma_bad_second_register_aborts(code: Seq<u8>, pos: int, st: St)
    requires
        0 <= pos < code.len(),
        code[pos] == 43 || code[pos] == 84,
        scan::scan_reg(code, pos + 1) is Ok,
        scan::scan_reg(code, pos + 3) is Err,
    ensures
        scan::scan_reg(code, pos + 3) matches Err(e) ==> interp(code, pos, st) == RunOut::Fail(
            st,
            e.0,
            e.1,
        ),
{
}

/// Law: a character that is no opcode is skipped — dispatching it leaves
/// the machine state untouched and only advances the cursor.
pub proof fn lemma_nonopcode_skipped(code: Seq<u8>, pos: int, st: St)
    requires
        0 <= pos < code.len(),
        !is_opcode(code[pos]),
    ensures
        interp(code, pos, st) == interp(code, pos + 1, st),
{
}

/// Law: once only non-opcode characters remain, the run ends with the
/// machine state unchanged; in particular, characters appended to a
/// script that no opcode reads as an operand never change the final
/// register state.
pub proof fn lemma_trailing_noise_ignored(code: Seq<u8>, pos: int, st: St)
    requires
        0 <= pos <= code.len(),
        forall|k: int| pos <= k < code.len() ==> !is_opcode(#[trigger] code[k]),
    ensures
        interp(code, pos, st) == RunOut::Done(st),
    decreases code.len() - pos,
{
    if pos < code.len() {
        lemma_nonopcode_skipped(code, pos, st);
        lemma_trailing_noise_ignored(code, pos + 1, st);
    }
}

} // verus!
