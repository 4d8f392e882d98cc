//! The assembly the code generator writes, as a function of the typed program. The
//! generator writes lines into output buffers: the program itself goes to the first one, and
//! each function definition to a buffer of its own appended at the end. It counts the labels
//! it has made, and the values pushed on the machine stack. A step that would stop with a
//! panic (popping from an empty stack, a call with more than six arguments, an arithmetic
//! overflow) has no result.
use vstd::prelude::*;
use crate::text::{int_text, nat_text, digit_char};
use crate::ast::{BinaryExprKind, UnaryExprKind};
use crate::grammar::{ErrorModel, digits_value};
use crate::ty::TypeModel;
use crate::typing::typed::{TExpr, TKind, TStmt};
use crate::typing::semantics::TcErr;

verus! {

/// The abstract value of a code generation error.
pub enum CErr {
    Unimplemented,
    ParserError(ErrorModel),
    InputIsNotProgram,
    NotLeftValue,
    ExpectedIdent(TExpr),
    TypeCheckError(TcErr),
}

/// The state of a code generator.
pub struct CState {
    pub outputs: Seq<Seq<char>>,
    pub label_count: int,
    pub depth: int,
    pub cur: int,
}

pub type CStep = Option<(CState, Result<(), CErr>)>;

/// The state of a new code generator: one empty buffer, written first.
pub open spec fn initial_cstate() -> CState {
    CState { outputs: seq![Seq::empty()], label_count: 0, depth: 0, cur: 0 }
}

/// One instruction: a line, or a line that pushes or pops a value.
pub enum Instr {
    Line(Seq<char>),
    Push(Seq<char>),
    Pop(Seq<char>),
}

pub open spec fn nullary_text(op: Seq<char>) -> Seq<char> {
    "  "@ + op
}

pub open spec fn unary_text(op: Seq<char>, x: Seq<char>) -> Seq<char> {
    "  "@ + op + " "@ + x
}

pub open spec fn binary_text(op: Seq<char>, a: Seq<char>, b: Seq<char>) -> Seq<char> {
    "  "@ + op + " "@ + a + ", "@ + b
}

/// An immediate operand.
pub open spec fn imm(v: int) -> Seq<char> {
    "$"@ + int_text(v)
}

/// A count written with at least three digits.
pub open spec fn pad3(n: nat) -> Seq<char> {
    let t = nat_text(n);
    if t.len() >= 3 {
        t
    } else {
        Seq::new((3 - t.len()) as nat, |i: int| '0') + t
    }
}

/// The label made from `prefix` and the count of labels made so far.
pub open spec fn serial_label(prefix: Seq<char>, count: nat) -> Seq<char> {
    ".L"@ + prefix + pad3(count)
}

/// The decimal text of a number denotes the number.
pub proof fn lemma_nat_text_value(n: nat)
    ensures
        digits_value(nat_text(n)) == n,
    decreases n,
{
    let t = nat_text(n);
    if n < 10 {
        assert(t.drop_last() =~= Seq::<char>::empty());
        assert(digits_value(t.drop_last()) == 0);
        assert(t.last() == digit_char(n as int));
        assert(digit_char(n as int) as int - '0' as int == n);
        assert(digits_value(t) == digits_value(t.drop_last()) * 10 + (t.last() as int - '0' as int));
    } else {
        lemma_nat_text_value(n / 10);
        assert(t.drop_last() =~= nat_text(n / 10));
        assert(t.last() == digit_char((n % 10) as int));
        assert(digit_char((n % 10) as int) as int - '0' as int == n % 10);
        assert(digits_value(t) == digits_value(t.drop_last()) * 10 + (t.last() as int - '0' as int));
        assert((n / 10) * 10 + n % 10 == n);
    }
}

/// Zeros in front of a text of digits leave its value as it is.
pub proof fn lemma_leading_zeros(z: Seq<char>, t: Seq<char>)
    requires
        forall|i: int| 0 <= i < z.len() ==> z[i] == '0',
    ensures
        digits_value(z + t) == digits_value(t),
    decreases t.len(),
{
    if t.len() == 0 {
        lemma_zeros_value(z);
        assert(z + t =~= z);
    } else {
        lemma_leading_zeros(z, t.drop_last());
        assert((z + t).drop_last() =~= z + t.drop_last());
    }
}

proof fn lemma_zeros_value(z: Seq<char>)
    requires
        forall|i: int| 0 <= i < z.len() ==> z[i] == '0',
    ensures
        digits_value(z) == 0,
    decreases z.len(),
{
    if z.len() > 0 {
        lemma_zeros_value(z.drop_last());
    }
}

/// The padded text of a count denotes the count.
pub proof fn lemma_pad3_value(n: nat)
    ensures
        digits_value(pad3(n)) == n,
{
    lemma_nat_text_value(n);
    let t = nat_text(n);
    if t.len() < 3 {
        lemma_leading_zeros(Seq::new((3 - t.len()) as nat, |i: int| '0'), t);
    }
}

/// Labels made from one prefix at different counts are different, so every label a
/// compilation makes is new.
pub proof fn lemma_serial_labels_distinct(prefix: Seq<char>, a: nat, b: nat)
    requires
        a != b,
    ensures
        serial_label(prefix, a) != serial_label(prefix, b),
{
    lemma_pad3_value(a);
    lemma_pad3_value(b);
    let head = ".L"@ + prefix;
    if serial_label(prefix, a) == serial_label(prefix, b) {
        assert(serial_label(prefix, a) == head + pad3(a));
        assert(serial_label(prefix, b) == head + pad3(b));
        assert((head + pad3(a)).subrange(head.len() as int, (head + pad3(a)).len() as int) =~= pad3(a));
        assert((head + pad3(b)).subrange(head.len() as int, (head + pad3(b)).len() as int) =~= pad3(b));
    }
}

/// Making a label raises the count of labels, so the next label is made at a new count.
pub proof fn lemma_next_label_count(st: CState, prefix: Seq<char>)
    requires
        next_label(st, prefix) is Some,
    ensures
        next_label(st, prefix).unwrap().0.label_count == st.label_count + 1,
        next_label(st, prefix).unwrap().1 == serial_label(prefix, st.label_count as nat),
{
}

/// The register that passes argument `i` of a call.
pub open spec fn arg_register(i: int) -> Seq<char> {
    if i == 0 {
        "%rdi"@
    } else if i == 1 {
        "%rsi"@
    } else if i == 2 {
        "%rdx"@
    } else if i == 3 {
        "%rcx"@
    } else if i == 4 {
        "%r8"@
    } else {
        "%r9"@
    }
}

/// Writes a line, followed by a line end, into the current buffer.
pub open spec fn emit(st: CState, line: Seq<char>) -> Option<CState> {
    if 0 <= st.cur < st.outputs.len() {
        Some(
            CState {
                outputs: st.outputs.update(st.cur, st.outputs[st.cur] + line + seq!['\n']),
                label_count: st.label_count,
                depth: st.depth,
                cur: st.cur,
            },
        )
    } else {
        None
    }
}

pub open spec fn with_depth(st: CState, depth: int) -> CState {
    CState { outputs: st.outputs, label_count: st.label_count, depth, cur: st.cur }
}

pub open spec fn exec_instr(st: CState, i: Instr) -> Option<CState> {
    match i {
        Instr::Line(t) => emit(st, t),
        Instr::Push(x) => match emit(st, unary_text("push"@, x)) {
            Some(s) => if s.depth < usize::MAX {
                Some(with_depth(s, s.depth + 1))
            } else {
                None
            },
            None => None,
        },
        Instr::Pop(x) => match emit(st, unary_text("pop"@, x)) {
            Some(s) => if s.depth > 0 {
                Some(with_depth(s, s.depth - 1))
            } else {
                None
            },
            None => None,
        },
    }
}

/// Writes the instructions in order.
pub open spec fn run(st: CState, instrs: Seq<Instr>) -> Option<CState>
    decreases instrs.len(),
{
    if instrs.len() == 0 {
        Some(st)
    } else {
        match exec_instr(st, instrs[0]) {
            Some(s) => run(s, instrs.drop_first()),
            None => None,
        }
    }
}

/// A step that writes the instructions.
pub open spec fn ok_run(st: CState, instrs: Seq<Instr>) -> CStep {
    match run(st, instrs) {
        Some(s) => Some((s, Ok(()))),
        None => None,
    }
}

/// After a successful step, writes the instructions.
pub open spec fn then_run(step: CStep, instrs: Seq<Instr>) -> CStep {
    match step {
        None => None,
        Some((s, Err(e))) => Some((s, Err(e))),
        Some((s, Ok(()))) => ok_run(s, instrs),
    }
}

pub open spec fn mov(a: Seq<char>, b: Seq<char>) -> Instr {
    Instr::Line(binary_text("mov"@, a, b))
}

/// The end of a function: its value is popped into `%rax`, and the frame is dropped.
pub open spec fn epilogue() -> Seq<Instr> {
    seq![Instr::Pop("%rax"@), mov("%rbp"@, "%rsp"@), Instr::Pop("%rbp"@), Instr::Line(nullary_text("ret"@))]
}

/// The instructions that combine `%rax` and `%rdi` for a binary operator other than `=`.
pub open spec fn operator_instrs(kind: BinaryExprKind) -> Seq<Instr> {
    let compare = |set: Seq<char>|
        seq![
            Instr::Line(binary_text("cmp"@, "%rdi"@, "%rax"@)),
            Instr::Line(unary_text(set, "%al"@)),
            Instr::Line(binary_text("movzb"@, "%al"@, "%rax"@)),
        ];
    match kind {
        BinaryExprKind::Add => seq![Instr::Line(binary_text("add"@, "%rdi"@, "%rax"@))],
        BinaryExprKind::Sub => seq![Instr::Line(binary_text("sub"@, "%rdi"@, "%rax"@))],
        BinaryExprKind::Mul => seq![Instr::Line(binary_text("imul"@, "%rdi"@, "%rax"@))],
        BinaryExprKind::Div => seq![Instr::Line(nullary_text("cqo"@)), Instr::Line(unary_text("idiv"@, "%rdi"@))],
        BinaryExprKind::Eq => compare("sete"@),
        BinaryExprKind::Ne => compare("setne"@),
        BinaryExprKind::Ge => compare("setge"@),
        BinaryExprKind::Gt => compare("setg"@),
        BinaryExprKind::Le => compare("setle"@),
        BinaryExprKind::Lt => compare("setl"@),
        BinaryExprKind::Assign => Seq::empty(),
    }
}

/// The address of a variable, pushed.
pub open spec fn gen_left_val(st: CState, e: TExpr) -> CStep {
    match e.kind {
        TKind::Ident { offset, .. } => ok_run(
            st,
            seq![mov("%rbp"@, "%rax"@), Instr::Line(binary_text("sub"@, imm(offset), "%rax"@)), Instr::Push("%rax"@)],
        ),
        _ => Some((st, Err(CErr::NotLeftValue))),
    }
}

/// The code of an expression, which leaves its value pushed.
pub open spec fn gen_expr(st: CState, e: TExpr) -> CStep
    decreases e, 1int,
{
    match e.kind {
        TKind::Integer(v) => ok_run(st, seq![Instr::Push(imm(v))]),
        TKind::Binary { .. } => gen_binary(st, e),
        TKind::Unary { .. } => gen_unary(st, e),
        TKind::Ident { .. } => then_run(gen_left_val(st, e), seq![Instr::Pop("%rax"@), mov("(%rax)"@, "%rax"@), Instr::Push("%rax"@)]),
        TKind::Return(v) => then_run(gen_expr(st, *v), epilogue()),
        TKind::If { .. } => gen_if(st, e),
        TKind::Block(stmts) => then_run(gen_statements(st, stmts), seq![Instr::Push("%rax"@)]),
        TKind::Call { .. } => gen_call(st, e),
        TKind::FnDef { .. } => gen_fndef(st, e),
        TKind::Let { name, value, .. } => match gen_left_val(st, *name) {
            None => None,
            Some((s1, Err(x))) => Some((s1, Err(x))),
            Some((s1, Ok(()))) => then_run(
                gen_expr(s1, *value),
                seq![
                    Instr::Pop("%rdi"@),
                    Instr::Pop("%rax"@),
                    mov("%rdi"@, "(%rax)"@),
                    Instr::Push("%rdi"@),
                    Instr::Push("%rax"@),
                ],
            ),
        },
        _ => Some((st, Err(CErr::Unimplemented))),
    }
}

pub open spec fn gen_binary(st: CState, e: TExpr) -> CStep
    decreases e, 0int,
{
    match e.kind {
        TKind::Binary { kind, lhs, rhs } => match gen_expr(st, *lhs) {
            None => None,
            Some((s1, Err(x))) => Some((s1, Err(x))),
            Some((s1, Ok(()))) => match gen_expr(s1, *rhs) {
                None => None,
                Some((s2, Err(x))) => Some((s2, Err(x))),
                Some((s2, Ok(()))) => match run(s2, seq![Instr::Pop("%rdi"@), Instr::Pop("%rax"@)]) {
                    None => None,
                    Some(s3) => if kind == BinaryExprKind::Assign {
                        match gen_left_val(s3, *lhs) {
                            None => None,
                            Some((s4, Err(x))) => Some((s4, Err(x))),
                            Some((s4, Ok(()))) => then_run(
                                gen_expr(s4, *rhs),
                                seq![
                                    Instr::Pop("%rdi"@),
                                    Instr::Pop("%rax"@),
                                    mov("%rdi"@, "(%rax)"@),
                                    Instr::Push("%rdi"@),
                                    Instr::Push("%rax"@),
                                ],
                            ),
                        }
                    } else {
                        ok_run(s3, operator_instrs(kind).push(Instr::Push("%rax"@)))
                    },
                },
            },
        },
        _ => None,
    }
}

pub open spec fn gen_unary(st: CState, e: TExpr) -> CStep
    decreases e, 0int,
{
    match e.kind {
        TKind::Unary { kind, expr } => match gen_expr(st, *expr) {
            None => None,
            Some((s1, Err(x))) => Some((s1, Err(x))),
            Some((s1, Ok(()))) => match run(s1, seq![Instr::Pop("%rax"@)]) {
                None => None,
                Some(s2) => match kind {
                    UnaryExprKind::Minus => ok_run(s2, seq![Instr::Line(unary_text("neg"@, "%rax"@)), Instr::Push("%rax"@)]),
                    UnaryExprKind::Addr => gen_left_val(s2, *expr),
                    UnaryExprKind::Deref => then_run(
                        gen_expr(s2, *expr),
                        seq![Instr::Pop("%rax"@), mov("(%rax)"@, "%rax"@), Instr::Push("%rax"@)],
                    ),
                    UnaryExprKind::Not => Some((s2, Err(CErr::Unimplemented))),
                },
            },
        },
        _ => None,
    }
}

/// Makes a new label from `prefix`.
pub open spec fn next_label(st: CState, prefix: Seq<char>) -> Option<(CState, Seq<char>)> {
    if 0 <= st.label_count < usize::MAX {
        Some((
            CState { outputs: st.outputs, label_count: st.label_count + 1, depth: st.depth, cur: st.cur },
            serial_label(prefix, st.label_count as nat),
        ))
    } else {
        None
    }
}

pub open spec fn label_line(label: Seq<char>) -> Instr {
    Instr::Line(label + ":"@)
}

pub open spec fn gen_if(st: CState, e: TExpr) -> CStep
    decreases e, 0int,
{
    match e.kind {
        TKind::If { condition, consequence, alternative } => match gen_expr(st, *condition) {
            None => None,
            Some((s1, Err(x))) => Some((s1, Err(x))),
            Some((s1, Ok(()))) => match run(s1, seq![Instr::Pop("%rax"@), Instr::Line(binary_text("cmp"@, imm(0), "%rax"@))]) {
                None => None,
                Some(s2) => match alternative {
                    Some(alt) => match next_label(s2, "else"@) {
                        None => None,
                        Some((s3, else_label)) => match next_label(s3, "end"@) {
                            None => None,
                            Some((s4, end_label)) => match run(s4, seq![Instr::Line(unary_text("je"@, else_label))]) {
                                None => None,
                                Some(s5) => match gen_expr(s5, *consequence) {
                                    None => None,
                                    Some((s6, Err(x))) => Some((s6, Err(x))),
                                    Some((s6, Ok(()))) => match run(
                                        s6,
                                        seq![Instr::Line(unary_text("jmp"@, end_label)), label_line(else_label)],
                                    ) {
                                        None => None,
                                        Some(s7) => then_run(gen_expr(s7, *alt), seq![label_line(end_label)]),
                                    },
                                },
                            },
                        },
                    },
                    None => match next_label(s2, "end"@) {
                        None => None,
                        Some((s3, end_label)) => match run(s3, seq![Instr::Line(unary_text("je"@, end_label))]) {
                            None => None,
                            Some(s4) => then_run(gen_expr(s4, *consequence), seq![label_line(end_label)]),
                        },
                    },
                },
            },
        },
        _ => None,
    }
}

/// The arguments of a call, each evaluated and pushed in turn.
pub open spec fn gen_args(st: CState, args: Seq<TExpr>) -> CStep
    decreases args,
{
    if args.len() == 0 {
        Some((st, Ok(())))
    } else {
        match gen_expr(st, args[0]) {
            None => None,
            Some((s1, Err(x))) => Some((s1, Err(x))),
            Some((s1, Ok(()))) => gen_args(s1, args.drop_first()),
        }
    }
}

/// The arguments popped into their registers, the last first.
pub open spec fn pop_args(n: int) -> Seq<Instr> {
    Seq::new(n as nat, |i: int| Instr::Pop(arg_register(n - i - 1)))
}

pub open spec fn gen_call(st: CState, e: TExpr) -> CStep
    decreases e, 0int,
{
    match e.kind {
        TKind::Call { func, args } => match func.kind {
            TKind::Ident { name, .. } => match gen_args(st, args) {
                None => None,
                Some((s1, Err(x))) => Some((s1, Err(x))),
                Some((s1, Ok(()))) => if args.len() > 6 {
                    None
                } else {
                    match run(s1, pop_args(args.len() as int).push(mov(imm(0), "%rax"@))) {
                        None => None,
                        Some(s2) => if s2.depth % 2 == 0 {
                            ok_run(s2, seq![Instr::Line(unary_text("call"@, name)), Instr::Push("%rax"@)])
                        } else {
                            ok_run(
                                s2,
                                seq![
                                    Instr::Line(binary_text("sub"@, imm(8), "%rsp"@)),
                                    Instr::Line(unary_text("call"@, name)),
                                    Instr::Line(binary_text("add"@, imm(8), "%rsp"@)),
                                    Instr::Push("%rax"@),
                                ],
                            )
                        },
                    }
                },
            },
            _ => Some((st, Err(CErr::Unimplemented))),
        },
        _ => None,
    }
}

/// The parameters of a function, each stored from its register below the frame; gives the
/// largest offset, starting from `max`.
pub open spec fn gen_params(st: CState, params: Seq<(TExpr, TypeModel)>, i: int, max: int) -> Option<
    (CState, Result<int, CErr>),
>
    decreases params.len() - i,
{
    if i >= params.len() || i < 0 {
        Some((st, Ok(max)))
    } else {
        match params[i].0.kind {
            TKind::Ident { offset, .. } => if i >= 6 || offset - 8 < isize::MIN {
                None
            } else {
                match run(
                    st,
                    seq![
                        Instr::Line(binary_text("sub"@, imm(offset - 8), "%rsp"@)),
                        Instr::Push(arg_register(i)),
                        mov("%rbp"@, "%rsp"@),
                    ],
                ) {
                    None => None,
                    Some(s1) => gen_params(s1, params, i + 1, if offset > max { offset } else { max }),
                }
            },
            _ => Some((st, Err(CErr::ExpectedIdent(params[i].0)))),
        }
    }
}

/// A function definition is written into a new buffer at the end; afterwards the first
/// buffer is written again.
pub open spec fn gen_fndef(st: CState, e: TExpr) -> CStep
    decreases e, 0int,
{
    match e.kind {
        TKind::FnDef { name, params, body, .. } => match name.kind {
            TKind::Ident { name: n, .. } => {
                let s0 = CState {
                    outputs: st.outputs.push(Seq::empty()),
                    label_count: st.label_count,
                    depth: st.depth,
                    cur: st.outputs.len() as int,
                };
                match run(
                    s0,
                    seq![
                        Instr::Line(".globl "@ + n),
                        label_line(n),
                        Instr::Push("%rbp"@),
                        mov("%rsp"@, "%rbp"@),
                    ],
                ) {
                    None => None,
                    Some(s1) => match gen_params(s1, params, 0, 0) {
                        None => None,
                        Some((s2, Err(x))) => Some((s2, Err(x))),
                        Some((s2, Ok(max))) => match run(s2, seq![Instr::Line(binary_text("sub"@, imm(max), "%rsp"@))]) {
                            None => None,
                            Some(s3) => match gen_expr(s3, *body) {
                                None => None,
                                Some((s4, Err(x))) => Some((s4, Err(x))),
                                Some((s4, Ok(()))) => match run(s4, epilogue()) {
                                    None => None,
                                    Some(s5) => Some((
                                        CState {
                                            outputs: s5.outputs,
                                            label_count: s5.label_count,
                                            depth: s5.depth,
                                            cur: 0,
                                        },
                                        Ok(()),
                                    )),
                                },
                            },
                        },
                    },
                }
            },
            _ => Some((st, Err(CErr::ExpectedIdent(*name)))),
        },
        _ => None,
    }
}

/// A statement leaves its value in `%rax` and pushed; one ending in ';' leaves zero in `%rax`.
pub open spec fn gen_statement(st: CState, s: TStmt) -> CStep
    decreases s,
{
    match s {
        TStmt::Expr(e) => then_run(gen_expr(st, e), seq![Instr::Pop("%rax"@), mov(imm(0), "%rax"@)]),
        TStmt::Return(e) => gen_expr(st, e),
    }
}

/// Statements in turn, each followed by a pop into `%rax`.
pub open spec fn gen_statements(st: CState, stmts: Seq<TStmt>) -> CStep
    decreases stmts,
{
    if stmts.len() == 0 {
        Some((st, Ok(())))
    } else {
        match then_run(gen_statement(st, stmts[0]), seq![Instr::Pop("%rax"@)]) {
            None => None,
            Some((s1, Err(x))) => Some((s1, Err(x))),
            Some((s1, Ok(()))) => gen_statements(s1, stmts.drop_first()),
        }
    }
}

/// A program: the entry point `main`, a frame of `total_offset` bytes, its statements, and
/// the return of the last value.
pub open spec fn gen_program(st: CState, stmts: Seq<TStmt>, total_offset: int) -> CStep {
    match run(
        st,
        seq![
            Instr::Line(".globl main"@),
            Instr::Line("main:"@),
            Instr::Push("%rbp"@),
            mov("%rsp"@, "%rbp"@),
            Instr::Line(binary_text("sub"@, imm(total_offset), "%rsp"@)),
        ],
    ) {
        None => None,
        Some(s1) => then_run(gen_statements(s1, stmts), seq![Instr::Push("%rax"@)] + epilogue()),
    }
}

} // verus!
