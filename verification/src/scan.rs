use vstd::prelude::*;

use crate::err::ErrorKind;
use crate::err::RunError;
use crate::rat::Rat;

verus! {

/// An ASCII decimal digit.
pub open spec fn is_digit(b: u8) -> bool {
    48 <= b <= 57
}

/// A byte a numeric literal may contain: a digit or a decimal point.
pub open spec fn is_lit_byte(b: u8) -> bool {
    is_digit(b) || b == 46
}

/// The first position at or after `pos` holding no literal byte (or the
/// end of the script): one past the literal that starts at `pos`.
pub open spec fn lit_end(code: Seq<u8>, pos: int) -> int
    decreases code.len() - pos when 0 <= pos <= code.len()
{
    if pos >= code.len() {
        pos
    } else if is_lit_byte(code[pos]) {
        lit_end(code, pos + 1)
    } else {
        pos
    }
}

/// `lit_end` stays within the script and walks over literal bytes only.
pub proof fn lemma_lit_end(code: Seq<u8>, pos: int)
    requires
        0 <= pos <= code.len(),
    ensures
        pos <= lit_end(code, pos) <= code.len(),
        forall|k: int| pos <= k < lit_end(code, pos) ==> is_lit_byte(#[trigger] code[k]),
        lit_end(code, pos) < code.len() ==> !is_lit_byte(code[lit_end(code, pos)]),
    decreases code.len() - pos,
{
    if pos < code.len() && is_lit_byte(code[pos]) {
        lemma_lit_end(code, pos + 1);
    }
}

/// The value of the digits of `s` read left to right, dots skipped.
pub open spec fn digits_val(s: Seq<u8>) -> int
    decreases s.len(),
{
    if s.len() == 0 {
        0
    } else {
        let p = digits_val(s.drop_last());
        if is_digit(s.last()) {
            p * 10 + (s.last() - 48)
        } else {
            p
        }
    }
}

/// How many decimal points `s` holds.
pub open spec fn n_dots(s: Seq<u8>) -> nat
    decreases s.len(),
{
    if s.len() == 0 {
        0
    } else {
        n_dots(s.drop_last()) + if s.last() == 46 { 1nat } else { 0nat }
    }
}

/// How many digits of `s` stand after a decimal point.
pub open spec fn frac_len(s: Seq<u8>) -> nat
    decreases s.len(),
{
    if s.len() == 0 {
        0
    } else {
        frac_len(s.drop_last()) + if is_digit(s.last()) && n_dots(s.drop_last()) > 0 {
            1nat
        } else {
            0nat
        }
    }
}

/// Does `s` hold at least one digit?
pub open spec fn has_digit(s: Seq<u8>) -> bool
    decreases s.len(),
{
    s.len() > 0 && (is_digit(s.last()) || has_digit(s.drop_last()))
}

/// Ten to the `k`.
pub open spec fn pow10(k: nat) -> int
    decreases k,
{
    if k == 0 {
        1
    } else {
        10 * pow10((k - 1) as nat)
    }
}

/// Appending one byte extends each literal measure in the evident way.
proof fn lemma_lit_measures_push(s: Seq<u8>, b: u8)
    ensures
        digits_val(s.push(b)) == if is_digit(b) {
            digits_val(s) * 10 + (b - 48)
        } else {
            digits_val(s)
        },
        n_dots(s.push(b)) == n_dots(s) + if b == 46 { 1nat } else { 0nat },
        frac_len(s.push(b)) == frac_len(s) + if is_digit(b) && n_dots(s) > 0 { 1nat } else { 0nat },
        has_digit(s.push(b)) == (has_digit(s) || is_digit(b)),
{
    assert(s.push(b).drop_last() =~= s);
    assert(s.push(b).last() == b);
}

/// A digit value is never negative.
proof fn lemma_digits_val_nonneg(s: Seq<u8>)
    ensures
        digits_val(s) >= 0,
    decreases s.len(),
{
    if s.len() > 0 {
        lemma_digits_val_nonneg(s.drop_last());
        if is_digit(s.last()) {
            lemma_mul_ge_10(digits_val(s.drop_last()));
        }
    }
}

/// Ten times a nonnegative integer is at least the integer.
proof fn lemma_mul_ge_10(x: int)
    requires
        x >= 0,
    ensures
        x * 10 >= x,
        x * 10 >= 0,
{
    assert(x * 10 >= x && x * 10 >= 0) by (nonlinear_arith)
        requires
            x >= 0,
    ;
}

/// Powers of ten are positive, and bounded while the exponent is at
/// most 18.
pub proof fn lemma_pow10_pos(k: nat)
    ensures
        pow10(k) >= 1,
    decreases k,
{
    if k > 0 {
        lemma_pow10_pos((k - 1) as nat);
    }
}

/// Ten to the eighteenth still fits an `i64`.
pub proof fn lemma_pow10_le_18(k: nat)
    requires
        k <= 18,
    ensures
        pow10(k) <= 1000000000000000000,
    decreases 18 - k,
{
    if k == 18 {
        reveal_with_fuel(pow10, 19);
        assert(pow10(18) == 1000000000000000000);
    } else {
        lemma_pow10_pos(k);
        lemma_pow10_le_18(k + 1);
        assert(pow10(k + 1) == 10 * pow10(k));
    }
}

/// Does the literal text `s` denote a number: at most one decimal point
/// and at least one digit?
pub open spec fn lit_valid(s: Seq<u8>) -> bool {
    n_dots(s) <= 1 && has_digit(s)
}

/// Does the denoted value fit the exact representation: digits within
/// `i64` and at most eighteen fractional digits?
pub open spec fn lit_fits(s: Seq<u8>) -> bool {
    digits_val(s) <= i64::MAX && frac_len(s) <= 18
}

/// The rational the literal text `s` denotes: its digits over ten to the
/// number of fractional digits.
pub open spec fn lit_rat(s: Seq<u8>) -> Rat {
    Rat { num: digits_val(s) as i64, den: pow10(frac_len(s)) as i64 }
}

/// What reading a numeric literal at `pos` yields: the denoted rational
/// and the position of the terminating character, or the fault.  A literal
/// must be followed by at least one further character; faults at the end
/// of the script are reported at the script's length.
pub open spec fn scan_number(code: Seq<u8>, pos: int) -> Result<(Rat, int), (ErrorKind, int)> {
    let end = lit_end(code, pos);
    if end >= code.len() {
        Err((ErrorKind::UnexpectedEndOfInput, code.len() as int))
    } else if end == pos {
        Err((ErrorKind::MalformedNumber, pos + 1))
    } else {
        let s = code.subrange(pos, end);
        if lit_valid(s) && lit_fits(s) {
            Ok((lit_rat(s), end))
        } else {
            Err((ErrorKind::NumberParseError, pos + 1))
        }
    }
}

/// What reading a port number at `pos` yields: a dot-free literal whose
/// value is at most 255, and the position of the terminating character, or
/// the fault.
pub open spec fn scan_port(code: Seq<u8>, pos: int) -> Result<(u8, int), (ErrorKind, int)> {
    let end = lit_end(code, pos);
    if end >= code.len() {
        Err((ErrorKind::UnexpectedEndOfInput, code.len() as int))
    } else if end == pos {
        Err((ErrorKind::MalformedNumber, pos + 1))
    } else {
        let s = code.subrange(pos, end);
        if n_dots(s) == 0 && digits_val(s) <= 255 {
            Ok((digits_val(s) as u8, end))
        } else {
            Err((ErrorKind::NumberParseError, pos + 1))
        }
    }
}

/// A register reference: its type tag and its index in `1..4`.
#[derive(Clone, Copy, PartialEq, Eq, Structural, Debug)]
pub struct RegId {
    /// `true` for a floating register (`f`), `false` for an integer one (`r`).
    pub float: bool,
    /// The register index, `1..4`.
    pub idx: u8,
}

impl RegId {
    /// The index stays in the fixed set.
    pub open spec fn wf(self) -> bool {
        1 <= self.idx <= 4
    }
}

/// What reading a two-character register reference at `pos` yields: the
/// reference and the position after it, or the fault.
pub open spec fn scan_reg(code: Seq<u8>, pos: int) -> Result<(RegId, int), (ErrorKind, int)> {
    if pos >= code.len() {
        Err((ErrorKind::UnexpectedEndOfInput, code.len() as int))
    } else if code[pos] != 114 && code[pos] != 102 {
        Err((ErrorKind::InvalidRegisterType, pos + 1))
    } else if pos + 1 >= code.len() {
        Err((ErrorKind::UnexpectedEndOfInput, code.len() as int))
    } else if !(49 <= code[pos + 1] <= 52) {
        Err((ErrorKind::InvalidRegisterNumber, pos + 2))
    } else {
        Ok((RegId { float: code[pos] == 102, idx: (code[pos + 1] - 48) as u8 }, pos + 2))
    }
}

/// A successful literal read lands strictly between its start and the end
/// of the script.
pub proof fn lemma_scan_number_ok(code: Seq<u8>, pos: int)
    requires
        0 <= pos <= code.len(),
    ensures
        scan_number(code, pos) matches Ok(v) ==> pos < v.1 < code.len(),
        scan_port(code, pos) matches Ok(v) ==> pos < v.1 < code.len(),
{
    lemma_lit_end(code, pos);
}

/// Reads a numeric literal: greedily consumes digits and decimal points,
/// then interprets them, exactly as `scan_number` says.
pub fn get_number(code: &Vec<u8>, pos: usize) -> (r: Result<(Rat, usize), RunError>)
    requires
        pos <= code.len(),
    ensures
        match scan_number(code@, pos as int) {
            Ok(v) => r matches Ok(rv) && rv.0 == v.0 && rv.1 as int == v.1 && rv.0.wf()
                && rv.1 <= code.len(),
            Err(e) => r matches Err(re) && re.kind == e.0 && re.at as int == e.1,
        },
{
    proof {
        lemma_lit_end(code@, pos as int);
    }
    let ghost whole = code@;
    let mut i: usize = pos;
    let mut val: i64 = 0;
    let mut over: bool = false;
    let mut dots: usize = 0;
    let mut frac: usize = 0;
    let mut saw_digit: bool = false;
    while i < code.len() && (((48 <= code[i] && code[i] <= 57)) || code[i] == 46)
        invariant
            pos <= i <= code.len(),
            whole == code@,
            lit_end(whole, pos as int) == lit_end(whole, i as int),
            !over ==> 0 <= val && val as int == digits_val(whole.subrange(pos as int, i as int)),
            over ==> digits_val(whole.subrange(pos as int, i as int)) > i64::MAX,
            dots as int <= i - pos,
            dots as nat == n_dots(whole.subrange(pos as int, i as int)),
            frac as int <= i - pos,
            frac as nat == frac_len(whole.subrange(pos as int, i as int)),
            saw_digit == has_digit(whole.subrange(pos as int, i as int)),
        decreases code.len() - i,
    {
        let b = code[i];
        let ghost pre = whole.subrange(pos as int, i as int);
        proof {
            assert(whole.subrange(pos as int, i + 1) =~= pre.push(whole[i as int]));
            lemma_lit_measures_push(pre, b);
            lemma_digits_val_nonneg(pre);
        }
        if 48 <= b && b <= 57 {
            saw_digit = true;
            if !over {
                let next: i128 = (val as i128) * 10 + ((b - 48) as i128);
                if next > i64::MAX as i128 {
                    over = true;
                } else {
                    val = next as i64;
                }
            } else {
                proof {
                    lemma_mul_gt_keeps(digits_val(pre));
                }
            }
            if dots > 0 {
                frac = frac + 1;
            }
        } else {
            dots = dots + 1;
        }
        i = i + 1;
    }
    let ghost s = whole.subrange(pos as int, i as int);
    if i >= code.len() {
        return Err(RunError { kind: ErrorKind::UnexpectedEndOfInput, at: code.len() });
    }
    if i == pos {
        return Err(RunError { kind: ErrorKind::MalformedNumber, at: pos + 1 });
    }
    if dots > 1 || !saw_digit || over || frac > 18 {
        return Err(RunError { kind: ErrorKind::NumberParseError, at: pos + 1 });
    }
    proof {
        lemma_pow10_le_18(frac as nat);
        lemma_pow10_pos(frac as nat);
    }
    let mut den: i64 = 1;
    let mut j: usize = 0;
    while j < frac
        invariant
            j <= frac <= 18,
            den as int == pow10(j as nat),
            1 <= den as int <= 1000000000000000000,
        decreases frac - j,
    {
        proof {
            lemma_pow10_le_18((j + 1) as nat);
            lemma_pow10_pos(j as nat);
        }
        den = den * 10;
        j = j + 1;
    }
    Ok((Rat::new(val, den), i))
}

/// A value already past `i64::MAX` stays past it when another digit is
/// appended.
proof fn lemma_mul_gt_keeps(x: int)
    requires
        x > i64::MAX,
    ensures
        x * 10 > i64::MAX,
{
    assert(x * 10 > 0x7fff_ffff_ffff_ffff) by (nonlinear_arith)
        requires
            x > 0x7fff_ffff_ffff_ffff,
    ;
}

/// Reads a port number: a dot-free literal whose value fits in `0..255`,
/// exactly as `scan_port` says.
pub fn get_port_number(code: &Vec<u8>, pos: usize) -> (r: Result<(u8, usize), RunError>)
    requires
        pos <= code.len(),
    ensures
        match scan_port(code@, pos as int) {
            Ok(v) => r matches Ok(rv) && rv.0 == v.0 && rv.1 as int == v.1 && rv.1 <= code.len(),
            Err(e) => r matches Err(re) && re.kind == e.0 && re.at as int == e.1,
        },
{
    proof {
        lemma_lit_end(code@, pos as int);
    }
    let ghost whole = code@;
    let mut i: usize = pos;
    let mut val: u32 = 0;
    let mut dots: usize = 0;
    while i < code.len() && (((48 <= code[i] && code[i] <= 57)) || code[i] == 46)
        invariant
            pos <= i <= code.len(),
            whole == code@,
            lit_end(whole, pos as int) == lit_end(whole, i as int),
            val <= 2559,
            digits_val(whole.subrange(pos as int, i as int)) <= 255 ==> val as int == digits_val(
                whole.subrange(pos as int, i as int),
            ),
            digits_val(whole.subrange(pos as int, i as int)) > 255 ==> val > 255,
            dots as int <= i - pos,
            dots as nat == n_dots(whole.subrange(pos as int, i as int)),
        decreases code.len() - i,
    {
        let b = code[i];
        let ghost pre = whole.subrange(pos as int, i as int);
        proof {
            assert(whole.subrange(pos as int, i + 1) =~= pre.push(whole[i as int]));
            lemma_lit_measures_push(pre, b);
            lemma_digits_val_nonneg(pre);
        }
        if 48 <= b && b <= 57 {
            if val <= 255 {
                val = val * 10 + ((b - 48) as u32);
            } else {
                proof {
                    lemma_mul_ge_10(digits_val(pre));
                    assert(digits_val(pre) * 10 > 255 * 10) by (nonlinear_arith)
                        requires
                            digits_val(pre) > 255,
                    ;
                }
            }
        } else {
            dots = dots + 1;
        }
        i = i + 1;
    }
    if i >= code.len() {
        return Err(RunError { kind: ErrorKind::UnexpectedEndOfInput, at: code.len() });
    }
    if i == pos {
        return Err(RunError { kind: ErrorKind::MalformedNumber, at: pos + 1 });
    }
    if dots > 0 || val > 255 {
        return Err(RunError { kind: ErrorKind::NumberParseError, at: pos + 1 });
    }
    Ok((val as u8, i))
}

/// Reads a two-character register reference (`r` or `f`, then a digit in
/// `1..4`), exactly as `scan_reg` says.
pub fn get_register_argument(code: &Vec<u8>, pos: usize) -> (r: Result<(RegId, usize), RunError>)
    requires
        pos <= code.len(),
    ensures
        match scan_reg(code@, pos as int) {
            Ok(v) => r matches Ok(rv) && rv.0 == v.0 && rv.1 as int == v.1 && rv.0.wf()
                && rv.1 <= code.len(),
            Err(e) => r matches Err(re) && re.kind == e.0 && re.at as int == e.1,
        },
{
    if pos >= code.len() {
        return Err(RunError { kind: ErrorKind::UnexpectedEndOfInput, at: code.len() });
    }
    let tag = code[pos];
    if tag != 114 && tag != 102 {
        return Err(RunError { kind: ErrorKind::InvalidRegisterType, at: pos + 1 });
    }
    if pos + 1 >= code.len() {
        return Err(RunError { kind: ErrorKind::UnexpectedEndOfInput, at: code.len() });
    }
    let digit = code[pos + 1];
    if !(49 <= digit && digit <= 52) {
        return Err(RunError { kind: ErrorKind::InvalidRegisterNumber, at: pos + 2 });
    }
    Ok((RegId { float: tag == 102, idx: digit - 48 }, pos + 2))
}

} // verus!
