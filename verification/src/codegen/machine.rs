//! What the lines that compute values mean on an x86-64 machine, in AT&T syntax: a model of
//! the registers they read and write, and of each such line. With it, the code the generator
//! writes for a binary operator, a negation and a variable's address is shown to compute
//! what the operator means, as the evaluator computes it too.
use vstd::prelude::*;
use crate::ast::{BinaryExprKind, UnaryExprKind, ExprModel};
use crate::eval::semantics::{trunc_div, fits_isize, binary_result, Machine, EvalErrModel};
use crate::object::ObjModel;
use crate::codegen::semantics::{
    Instr, CState, operator_instrs, nullary_text, unary_text, binary_text, gen_left_val, gen_unary, gen_expr, run, ok_run,
    lemma_nat_text_value,
};
use crate::text::{nat_text, digit_char, is_digit};
use crate::grammar::digits_value;
use crate::lexer::all_digits;
use crate::ty::TypeModel;
use crate::typing::typed::{TExpr, TKind};

verus! {

/// The registers that the code for an operator reads and writes, as signed numbers: `%rax`,
/// `%rdx`, `%rdi`, the low byte `%al`, and the two values the last `cmp` compared.
pub struct Regs {
    pub rax: int,
    pub rdx: int,
    pub rdi: int,
    pub al: int,
    pub cmp_left: int,
    pub cmp_right: int,
}

/// A signed 64-bit value.
pub open spec fn fits_i64(v: int) -> bool {
    -0x8000_0000_0000_0000 <= v <= 0x7fff_ffff_ffff_ffff
}

/// The registers with `%al` set to 1 where `cond` holds and to 0 where it does not.
pub open spec fn set_al(r: Regs, cond: bool) -> Regs {
    Regs { rax: r.rax, rdx: r.rdx, rdi: r.rdi, al: if cond { 1 } else { 0 }, cmp_left: r.cmp_left, cmp_right: r.cmp_right }
}

/// The registers with `%rax` set to `v`.
pub open spec fn set_rax(r: Regs, v: int) -> Regs {
    Regs { rax: v, rdx: r.rdx, rdi: r.rdi, al: r.al, cmp_left: r.cmp_left, cmp_right: r.cmp_right }
}

/// `%rax` set to `v` where `v` fits in 64 bits; an overflow is outside the model.
pub open spec fn arith_result(r: Regs, v: int) -> Option<Regs> {
    if fits_i64(v) {
        Some(set_rax(r, v))
    } else {
        None
    }
}

/// One line of assembly, for the lines that combine `%rax` with `%rdi`:
/// - `cmp %rdi, %rax` compares `%rax` (left) with `%rdi` (right);
/// - `setl`, `setle`, `setg`, `setge`, `sete`, `setne` on `%al` set it to whether the left
///   value compared was less, less or equal, greater, greater or equal, equal or not equal
///   to the right one, as signed numbers;
/// - `movzb %al, %rax` copies `%al` into `%rax`;
/// - `add`, `sub`, `imul` of `%rdi` into `%rax` replace `%rax` with `%rax + %rdi`,
///   `%rax - %rdi`, `%rax * %rdi`;
/// - `neg %rax` replaces `%rax` with `-%rax`;
/// - `cqo` extends the sign of `%rax` into `%rdx`, and `idiv %rdi` divides the value that
///   `%rdx:%rax` holds by `%rdi`, rounding toward zero, leaving the quotient in `%rax`.
/// Any other line, a division by zero, a dividend wider than `%rax`, and a result that does
/// not fit in 64 bits have no meaning here.
pub open spec fn x86_line(line: Seq<char>, r: Regs) -> Option<Regs> {
    if line == "  cmp %rdi, %rax"@ {
        Some(Regs { rax: r.rax, rdx: r.rdx, rdi: r.rdi, al: r.al, cmp_left: r.rax, cmp_right: r.rdi })
    } else if line == "  setl %al"@ {
        Some(set_al(r, r.cmp_left < r.cmp_right))
    } else if line == "  setle %al"@ {
        Some(set_al(r, r.cmp_left <= r.cmp_right))
    } else if line == "  setg %al"@ {
        Some(set_al(r, r.cmp_left > r.cmp_right))
    } else if line == "  setge %al"@ {
        Some(set_al(r, r.cmp_left >= r.cmp_right))
    } else if line == "  sete %al"@ {
        Some(set_al(r, r.cmp_left == r.cmp_right))
    } else if line == "  setne %al"@ {
        Some(set_al(r, r.cmp_left != r.cmp_right))
    } else if line == "  movzb %al, %rax"@ {
        Some(set_rax(r, r.al))
    } else if line == "  add %rdi, %rax"@ {
        arith_result(r, r.rax + r.rdi)
    } else if line == "  sub %rdi, %rax"@ {
        arith_result(r, r.rax - r.rdi)
    } else if line == "  imul %rdi, %rax"@ {
        arith_result(r, r.rax * r.rdi)
    } else if line == "  neg %rax"@ {
        arith_result(r, -r.rax)
    } else if line == "  cqo"@ {
        Some(Regs { rax: r.rax, rdx: if r.rax < 0 { -1 } else { 0 }, rdi: r.rdi, al: r.al, cmp_left: r.cmp_left, cmp_right: r.cmp_right })
    } else if line == "  idiv %rdi"@ {
        if r.rdi != 0 && r.rdx == (if r.rax < 0 { -1int } else { 0 }) {
            arith_result(r, trunc_div(r.rax, r.rdi))
        } else {
            None
        }
    } else {
        None
    }
}

/// Runs lines one after the other; code that pushes or pops has no meaning here.
pub open spec fn run_lines(code: Seq<Instr>, r: Regs) -> Option<Regs>
    decreases code.len(),
{
    if code.len() == 0 {
        Some(r)
    } else {
        match code[0] {
            Instr::Line(line) => match x86_line(line, r) {
                Some(r2) => run_lines(code.drop_first(), r2),
                None => None,
            },
            _ => None,
        }
    }
}

/// What the code for `kind` leaves in `%rax` when it starts with `a` in `%rax`, `b` in `%rdi`
/// and the other registers as in `r`; `None` where the model gives it no meaning.
pub open spec fn result_rax(kind: BinaryExprKind, r: Regs, a: int, b: int) -> Option<int> {
    match run_lines(operator_instrs(kind), Regs { rax: a, rdx: r.rdx, rdi: b, al: r.al, cmp_left: r.cmp_left, cmp_right: r.cmp_right }) {
        Some(r2) => Some(r2.rax),
        None => None,
    }
}

/// The value a comparison leaves: 1 where it holds, 0 where it does not.
pub open spec fn flag(cond: bool) -> int {
    if cond { 1 } else { 0 }
}

proof fn lemma_run_cons(line: Seq<char>, rest: Seq<Instr>, r: Regs)
    ensures
        run_lines(seq![Instr::Line(line)] + rest, r) == (match x86_line(line, r) {
            Some(r1) => run_lines(rest, r1),
            None => None,
        }),
{
    let code = seq![Instr::Line(line)] + rest;
    assert(code.drop_first() =~= rest);
    assert(code[0] == Instr::Line(line));
}

proof fn lemma_run_one(l1: Seq<char>, r: Regs)
    ensures
        run_lines(seq![Instr::Line(l1)], r) == x86_line(l1, r),
{
    assert(seq![Instr::Line(l1)] =~= seq![Instr::Line(l1)] + Seq::<Instr>::empty());
    lemma_run_cons(l1, Seq::<Instr>::empty(), r);
}

proof fn lemma_run_two(l1: Seq<char>, l2: Seq<char>, r: Regs)
    ensures
        run_lines(seq![Instr::Line(l1), Instr::Line(l2)], r) == (match x86_line(l1, r) {
            Some(r1) => x86_line(l2, r1),
            None => None,
        }),
{
    assert(seq![Instr::Line(l1), Instr::Line(l2)] =~= seq![Instr::Line(l1)] + seq![Instr::Line(l2)]);
    lemma_run_cons(l1, seq![Instr::Line(l2)], r);
    if let Some(r1) = x86_line(l1, r) {
        lemma_run_one(l2, r1);
    }
}

proof fn lemma_run_three(l1: Seq<char>, l2: Seq<char>, l3: Seq<char>, r: Regs)
    ensures
        run_lines(seq![Instr::Line(l1), Instr::Line(l2), Instr::Line(l3)], r) == (match x86_line(l1, r) {
            Some(r1) => match x86_line(l2, r1) {
                Some(r2) => x86_line(l3, r2),
                None => None,
            },
            None => None,
        }),
{
    assert(seq![Instr::Line(l1), Instr::Line(l2), Instr::Line(l3)] =~= seq![Instr::Line(l1)] + seq![Instr::Line(l2), Instr::Line(l3)]);
    lemma_run_cons(l1, seq![Instr::Line(l2), Instr::Line(l3)], r);
    if let Some(r1) = x86_line(l1, r) {
        lemma_run_two(l2, l3, r1);
    }
}


/// The lengths of the lines the model knows, and the characters that tell them apart.
proof fn lemma_line_chars()
    ensures
        "  cmp %rdi, %rax"@.len() == 16,
        "  cmp %rdi, %rax"@[2] == 'c',
        "  cmp %rdi, %rax"@[5] == ' ',
        "  setl %al"@.len() == 10,
        "  setl %al"@[2] == 's',
        "  setl %al"@[5] == 'l',
        "  setle %al"@.len() == 11,
        "  setle %al"@[2] == 's',
        "  setle %al"@[5] == 'l',
        "  setg %al"@.len() == 10,
        "  setg %al"@[2] == 's',
        "  setg %al"@[5] == 'g',
        "  setge %al"@.len() == 11,
        "  setge %al"@[2] == 's',
        "  setge %al"@[5] == 'g',
        "  sete %al"@.len() == 10,
        "  sete %al"@[2] == 's',
        "  sete %al"@[5] == 'e',
        "  setne %al"@.len() == 11,
        "  setne %al"@[2] == 's',
        "  setne %al"@[5] == 'n',
        "  movzb %al, %rax"@.len() == 17,
        "  movzb %al, %rax"@[2] == 'm',
        "  movzb %al, %rax"@[5] == 'z',
        "  add %rdi, %rax"@.len() == 16,
        "  add %rdi, %rax"@[2] == 'a',
        "  add %rdi, %rax"@[5] == ' ',
        "  sub %rdi, %rax"@.len() == 16,
        "  sub %rdi, %rax"@[2] == 's',
        "  sub %rdi, %rax"@[5] == ' ',
        "  imul %rdi, %rax"@.len() == 17,
        "  imul %rdi, %rax"@[2] == 'i',
        "  imul %rdi, %rax"@[5] == 'l',
        "  neg %rax"@.len() == 10,
        "  neg %rax"@[2] == 'n',
        "  cqo"@.len() == 5,
        "  cqo"@[2] == 'c',
        "  idiv %rdi"@.len() == 11,
        "  idiv %rdi"@[2] == 'i',
        "  idiv %rdi"@[5] == 'v',
{
    reveal_strlit("  cmp %rdi, %rax");
    reveal_strlit("  setl %al");
    reveal_strlit("  setle %al");
    reveal_strlit("  setg %al");
    reveal_strlit("  setge %al");
    reveal_strlit("  sete %al");
    reveal_strlit("  setne %al");
    reveal_strlit("  movzb %al, %rax");
    reveal_strlit("  add %rdi, %rax");
    reveal_strlit("  sub %rdi, %rax");
    reveal_strlit("  imul %rdi, %rax");
    reveal_strlit("  cqo");
    reveal_strlit("  idiv %rdi");
    reveal_strlit("  neg %rax");
}

/// The lines the generator writes for the operators, character by character.
proof fn lemma_line_texts()
    ensures
        binary_text("cmp"@, "%rdi"@, "%rax"@) == "  cmp %rdi, %rax"@,
        unary_text("setl"@, "%al"@) == "  setl %al"@,
        unary_text("setle"@, "%al"@) == "  setle %al"@,
        unary_text("setg"@, "%al"@) == "  setg %al"@,
        unary_text("setge"@, "%al"@) == "  setge %al"@,
        unary_text("sete"@, "%al"@) == "  sete %al"@,
        unary_text("setne"@, "%al"@) == "  setne %al"@,
        binary_text("movzb"@, "%al"@, "%rax"@) == "  movzb %al, %rax"@,
        binary_text("add"@, "%rdi"@, "%rax"@) == "  add %rdi, %rax"@,
        binary_text("sub"@, "%rdi"@, "%rax"@) == "  sub %rdi, %rax"@,
        binary_text("imul"@, "%rdi"@, "%rax"@) == "  imul %rdi, %rax"@,
        nullary_text("cqo"@) == "  cqo"@,
        unary_text("idiv"@, "%rdi"@) == "  idiv %rdi"@,
{
    reveal_strlit("  ");
    reveal_strlit(" ");
    reveal_strlit(", ");
    reveal_strlit("cmp");
    reveal_strlit("%rdi");
    reveal_strlit("%rax");
    reveal_strlit("%al");
    reveal_strlit("setl");
    reveal_strlit("setle");
    reveal_strlit("setg");
    reveal_strlit("setge");
    reveal_strlit("sete");
    reveal_strlit("setne");
    reveal_strlit("movzb");
    reveal_strlit("add");
    reveal_strlit("sub");
    reveal_strlit("imul");
    reveal_strlit("cqo");
    reveal_strlit("idiv");
    reveal_strlit("  cmp %rdi, %rax");
    reveal_strlit("  setl %al");
    reveal_strlit("  setle %al");
    reveal_strlit("  setg %al");
    reveal_strlit("  setge %al");
    reveal_strlit("  sete %al");
    reveal_strlit("  setne %al");
    reveal_strlit("  movzb %al, %rax");
    reveal_strlit("  add %rdi, %rax");
    reveal_strlit("  sub %rdi, %rax");
    reveal_strlit("  imul %rdi, %rax");
    reveal_strlit("  cqo");
    reveal_strlit("  idiv %rdi");
    assert(binary_text("cmp"@, "%rdi"@, "%rax"@) =~= "  cmp %rdi, %rax"@);
    assert(unary_text("setl"@, "%al"@) =~= "  setl %al"@);
    assert(unary_text("setle"@, "%al"@) =~= "  setle %al"@);
    assert(unary_text("setg"@, "%al"@) =~= "  setg %al"@);
    assert(unary_text("setge"@, "%al"@) =~= "  setge %al"@);
    assert(unary_text("sete"@, "%al"@) =~= "  sete %al"@);
    assert(unary_text("setne"@, "%al"@) =~= "  setne %al"@);
    assert(binary_text("movzb"@, "%al"@, "%rax"@) =~= "  movzb %al, %rax"@);
    assert(binary_text("add"@, "%rdi"@, "%rax"@) =~= "  add %rdi, %rax"@);
    assert(binary_text("sub"@, "%rdi"@, "%rax"@) =~= "  sub %rdi, %rax"@);
    assert(binary_text("imul"@, "%rdi"@, "%rax"@) =~= "  imul %rdi, %rax"@);
    assert(nullary_text("cqo"@) =~= "  cqo"@);
    assert(unary_text("idiv"@, "%rdi"@) =~= "  idiv %rdi"@);
}

/// The registers at the start of the code for an operator with operands `a` and `b`.
pub open spec fn start_regs(r: Regs, a: int, b: int) -> Regs {
    Regs { rax: a, rdx: r.rdx, rdi: b, al: r.al, cmp_left: r.cmp_left, cmp_right: r.cmp_right }
}

/// The registers after `cmp %rdi, %rax` at the start of the code.
spec fn compared_regs(r: Regs, a: int, b: int) -> Regs {
    Regs { rax: a, rdx: r.rdx, rdi: b, al: r.al, cmp_left: a, cmp_right: b }
}

proof fn lemma_compare_code(kind: BinaryExprKind, set: Seq<char>, r: Regs, a: int, b: int, cond: bool)
    requires
        operator_instrs(kind) == seq![
            Instr::Line(binary_text("cmp"@, "%rdi"@, "%rax"@)),
            Instr::Line(unary_text(set, "%al"@)),
            Instr::Line(binary_text("movzb"@, "%al"@, "%rax"@)),
        ],
        x86_line(unary_text(set, "%al"@), compared_regs(r, a, b)) == Some(set_al(compared_regs(r, a, b), cond)),
    ensures
        result_rax(kind, r, a, b) == Some(flag(cond)),
{
    lemma_line_texts();
    lemma_line_chars();
    let r0 = start_regs(r, a, b);
    let r1 = compared_regs(r, a, b);
    let r2 = set_al(r1, cond);
    assert(x86_line(binary_text("cmp"@, "%rdi"@, "%rax"@), r0) == Some(r1));
    let mz = binary_text("movzb"@, "%al"@, "%rax"@);
    assert(mz[2] == 'm');
    assert(x86_line(mz, r2) == Some(set_rax(r2, flag(cond))));
    lemma_run_three(binary_text("cmp"@, "%rdi"@, "%rax"@), unary_text(set, "%al"@), mz, r0);
}

/// The code written for each binary operator computes that operator. Started with the left
/// operand `a` in `%rax` and the right operand `b` in `%rdi`, the code for `<`, `<=`, `>`,
/// `>=`, `==` and `!=` leaves in `%rax` 1 where that signed comparison of `a` with `b`
/// holds and 0 where it does not; the code for `+`, `-` and `*` leaves the sum, difference
/// and product where it fits in 64 bits, and the code for `/` the quotient rounded toward
/// zero where the divisor is not zero and the quotient fits.
pub proof fn lemma_operator_code_computes(r: Regs, a: int, b: int)
    ensures
        result_rax(BinaryExprKind::Lt, r, a, b) == Some(flag(a < b)),
        result_rax(BinaryExprKind::Le, r, a, b) == Some(flag(a <= b)),
        result_rax(BinaryExprKind::Gt, r, a, b) == Some(flag(a > b)),
        result_rax(BinaryExprKind::Ge, r, a, b) == Some(flag(a >= b)),
        result_rax(BinaryExprKind::Eq, r, a, b) == Some(flag(a == b)),
        result_rax(BinaryExprKind::Ne, r, a, b) == Some(flag(a != b)),
        fits_i64(a + b) ==> result_rax(BinaryExprKind::Add, r, a, b) == Some(a + b),
        fits_i64(a - b) ==> result_rax(BinaryExprKind::Sub, r, a, b) == Some(a - b),
        fits_i64(a * b) ==> result_rax(BinaryExprKind::Mul, r, a, b) == Some(a * b),
        b != 0 && fits_i64(trunc_div(a, b)) ==> result_rax(BinaryExprKind::Div, r, a, b) == Some(trunc_div(a, b)),
{
    lemma_line_texts();
    lemma_line_chars();
    let r0 = start_regs(r, a, b);
    let r1 = compared_regs(r, a, b);
    let sl = unary_text("setl"@, "%al"@);
    let sle = unary_text("setle"@, "%al"@);
    let sg = unary_text("setg"@, "%al"@);
    let sge = unary_text("setge"@, "%al"@);
    let se = unary_text("sete"@, "%al"@);
    let sne = unary_text("setne"@, "%al"@);
    assert(sl[5] == 'l');
    assert(sle[5] == 'l');
    assert(sg[5] == 'g');
    assert(sge[5] == 'g');
    assert(se[5] == 'e');
    assert(sne[5] == 'n');
    assert(x86_line(sl, r1) == Some(set_al(r1, a < b)));
    lemma_compare_code(BinaryExprKind::Lt, "setl"@, r, a, b, a < b);
    assert(x86_line(sle, r1) == Some(set_al(r1, a <= b)));
    lemma_compare_code(BinaryExprKind::Le, "setle"@, r, a, b, a <= b);
    assert(x86_line(sg, r1) == Some(set_al(r1, a > b)));
    lemma_compare_code(BinaryExprKind::Gt, "setg"@, r, a, b, a > b);
    assert(x86_line(sge, r1) == Some(set_al(r1, a >= b)));
    lemma_compare_code(BinaryExprKind::Ge, "setge"@, r, a, b, a >= b);
    assert(x86_line(se, r1) == Some(set_al(r1, a == b)));
    lemma_compare_code(BinaryExprKind::Eq, "sete"@, r, a, b, a == b);
    assert(x86_line(sne, r1) == Some(set_al(r1, a != b)));
    lemma_compare_code(BinaryExprKind::Ne, "setne"@, r, a, b, a != b);
    let add = binary_text("add"@, "%rdi"@, "%rax"@);
    let sub = binary_text("sub"@, "%rdi"@, "%rax"@);
    let mul = binary_text("imul"@, "%rdi"@, "%rax"@);
    assert(add[2] == 'a');
    assert(sub[2] == 's');
    assert(mul[2] == 'i');
    lemma_run_one(add, r0);
    lemma_run_one(sub, r0);
    lemma_run_one(mul, r0);
    let cqo = nullary_text("cqo"@);
    let idiv = unary_text("idiv"@, "%rdi"@);
    assert(idiv[2] == 'i');
    lemma_run_two(cqo, idiv, r0);
}

/// `%rax` after one of the lines that compute an address from the frame pointer `rbp`, with
/// `%rax` holding `rax` before it: `mov %rbp, %rax` copies the frame pointer, and
/// `sub $n, %rax`, with `n` written in decimal digits, subtracts `n`.
pub open spec fn frame_line(line: Seq<char>, rbp: int, rax: int) -> Option<int> {
    if line == "  mov %rbp, %rax"@ {
        Some(rbp)
    } else if line.len() > 13 && line.subrange(0, 7) == "  sub $"@ && line.subrange(line.len() - 6, line.len() as int)
        == ", %rax"@ && all_digits(line.subrange(7, line.len() - 6)) {
        Some(rax - digits_value(line.subrange(7, line.len() - 6)))
    } else {
        None
    }
}

/// The decimal text of a number is a non-empty run of digits.
proof fn lemma_nat_text_digits(n: nat)
    ensures
        all_digits(nat_text(n)),
    decreases n,
{
    if n >= 10 {
        lemma_nat_text_digits(n / 10);
        let t = nat_text(n);
        assert(t =~= nat_text(n / 10).push(digit_char((n % 10) as int)));
        assert forall|i: int| 0 <= i < t.len() implies is_digit(#[trigger] t[i]) by {
            if i < t.len() - 1 {
                assert(t[i] == nat_text(n / 10)[i]);
            }
        }
    }
}

/// The code for the address of a variable is two lines that leave in `%rax` the frame
/// pointer less the variable's offset, followed by a push of `%rax`: a variable lives at
/// its offset below the frame pointer.
pub proof fn lemma_variable_address(st: CState, name: Seq<char>, offset: int, ty: TypeModel, rbp: int)
    requires
        offset >= 0,
    ensures
        exists|l1: Seq<char>, l2: Seq<char>|
            #![trigger frame_line(l1, rbp, 0), frame_line(l2, rbp, rbp)]
            gen_left_val(st, TExpr { kind: TKind::Ident { name, offset }, ty }) == ok_run(
                st,
                seq![Instr::Line(l1), Instr::Line(l2), Instr::Push("%rax"@)],
            ) && frame_line(l1, rbp, 0) == Some(rbp) && frame_line(l2, rbp, rbp) == Some(rbp - offset),
{
    reveal_strlit("  ");
    reveal_strlit(" ");
    reveal_strlit(", ");
    reveal_strlit("$");
    reveal_strlit("mov");
    reveal_strlit("sub");
    reveal_strlit("%rbp");
    reveal_strlit("%rax");
    reveal_strlit("  mov %rbp, %rax");
    reveal_strlit("  sub $");
    reveal_strlit(", %rax");
    let l1 = binary_text("mov"@, "%rbp"@, "%rax"@);
    let t = nat_text(offset as nat);
    let l2 = binary_text("sub"@, crate::codegen::semantics::imm(offset), "%rax"@);
    assert(l1 =~= "  mov %rbp, %rax"@);
    assert(crate::codegen::semantics::imm(offset) == "$"@ + t);
    assert(l2 =~= "  sub $"@ + t + ", %rax"@);
    lemma_nat_text_digits(offset as nat);
    lemma_nat_text_value(offset as nat);
    assert(l2.subrange(0, 7) =~= "  sub $"@);
    assert(l2.subrange(l2.len() - 6, l2.len() as int) =~= ", %rax"@);
    assert(l2.subrange(7, l2.len() - 6) =~= t);
    assert(l1 != l2) by {
        assert(l1.len() == 16);
        assert(l1[2] == 'm');
        assert(l2[2] == 's');
    }
    assert(frame_line(l1, rbp, 0) == Some(rbp));
    assert(frame_line(l2, rbp, rbp) == Some(rbp - offset));
}

/// The code for `-e` is the code for `e`, a pop of its value into `%rax`, then lines that
/// leave the negation of that value in `%rax`, and a push of `%rax`.
pub proof fn lemma_negation_code(st: CState, inner: TExpr, ty: TypeModel, r: Regs)
    ensures
        exists|code: Seq<Instr>|
            #![trigger run_lines(code, r)]
            gen_unary(st, TExpr { kind: TKind::Unary { kind: UnaryExprKind::Minus, expr: Box::new(inner) }, ty }) == (
            match gen_expr(st, inner) {
                None => None,
                Some((s1, Err(x))) => Some((s1, Err(x))),
                Some((s1, Ok(()))) => match run(s1, seq![Instr::Pop("%rax"@)]) {
                    None => None,
                    Some(s2) => ok_run(s2, code.push(Instr::Push("%rax"@))),
                },
            }) && (fits_i64(-r.rax) ==> run_lines(code, r) == Some(set_rax(r, -r.rax))),
{
    lemma_line_chars();
    reveal_strlit("  ");
    reveal_strlit(" ");
    reveal_strlit("neg");
    reveal_strlit("%rax");
    reveal_strlit("  neg %rax");
    let neg = unary_text("neg"@, "%rax"@);
    assert(neg =~= "  neg %rax"@);
    assert(neg[2] == 'n');
    let code = seq![Instr::Line(neg)];
    assert(code.push(Instr::Push("%rax"@)) =~= seq![Instr::Line(neg), Instr::Push("%rax"@)]);
    lemma_run_one(neg, r);
    assert(run_lines(code, r) == x86_line(neg, r));
}

/// The compiled code and the evaluator agree on the binary operators over integers: for a
/// comparison the code leaves 1 in `%rax` exactly where the evaluator gives `true` and 0
/// exactly where it gives `false`, and for `+`, `-`, `*` and `/`, wherever the evaluator
/// gives a number, the code leaves that number in `%rax`.
pub proof fn lemma_code_agrees_with_evaluator(r: Regs, m: Machine, lhs: ExprModel, kind: BinaryExprKind, a: int, b: int)
    requires
        kind != BinaryExprKind::Assign,
    ensures
        binary_result(m, kind, lhs, ObjModel::Integer(a), ObjModel::Integer(b)) == Some(
            (m, Ok::<ObjModel, EvalErrModel>(ObjModel::Boolean(true))),
        ) ==> result_rax(kind, r, a, b) == Some(1int),
        binary_result(m, kind, lhs, ObjModel::Integer(a), ObjModel::Integer(b)) == Some(
            (m, Ok::<ObjModel, EvalErrModel>(ObjModel::Boolean(false))),
        ) ==> result_rax(kind, r, a, b) == Some(0int),
        binary_result(m, kind, lhs, ObjModel::Integer(a), ObjModel::Integer(b)) matches Some(
            (_, Ok(ObjModel::Integer(v))),
        ) ==> result_rax(kind, r, a, b) == Some(v),
{
    lemma_operator_code_computes(r, a, b);
    crate::eval::semantics::lemma_integer_comparisons(m, lhs, a, b);
    crate::eval::semantics::lemma_integer_arithmetic(m, lhs, a, b);
    assert(fits_isize(a + b) ==> fits_i64(a + b));
    assert(fits_isize(a - b) ==> fits_i64(a - b));
    assert(fits_isize(a * b) ==> fits_i64(a * b));
    assert(fits_isize(trunc_div(a, b)) ==> fits_i64(trunc_div(a, b)));
}
} // verus!
