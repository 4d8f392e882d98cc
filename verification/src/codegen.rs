//! A code generator from wervc programs to x86-64 assembly in AT&T syntax.
pub mod semantics;
pub mod error;
pub mod machine;

use vstd::prelude::*;
use crate::text::{append_str, isize_to_string, nat_to_string, string_of_char};
use crate::ast::{Statement, BinaryExprKind, UnaryExprKind, Node};
use crate::parser::{Parser, parse_model};
use crate::typing::typed::{TypedNode, TypedExpression, TypedExpressionKind, TStmt, TNode, TKind, tstmt_models, texpr_models,
    tparam_models, lemma_tstmt_models, lemma_texpr_models, lemma_tparam_models, typed_stmts};
use crate::typing::semantics::{node_resolves, node_resolution};
use crate::codegen::error::CompileError;
use crate::codegen::semantics::{CErr, CState, CStep, Instr, initial_cstate, nullary_text, unary_text, binary_text, imm,
    pad3, serial_label, arg_register, emit, exec_instr, run, ok_run, then_run, mov, epilogue, operator_instrs,
    gen_left_val, gen_expr, gen_binary, gen_unary, next_label, label_line, gen_if, gen_args, pop_args, gen_call,
    gen_params, gen_fndef, gen_statement, gen_statements, gen_program};

verus! {

/// One instruction to write.
pub enum AsmInstr {
    Line(String),
    Push(String),
    Pop(String),
}

impl View for AsmInstr {
    type V = Instr;

    open spec fn view(&self) -> Instr {
        match self {
            AsmInstr::Line(t) => Instr::Line(t@),
            AsmInstr::Push(x) => Instr::Push(x@),
            AsmInstr::Pop(x) => Instr::Pop(x@),
        }
    }
}

pub open spec fn instr_models(s: Seq<AsmInstr>) -> Seq<Instr> {
    Seq::new(s.len(), |i: int| s[i]@)
}

/// The texts of the buffers, one after the other.
pub open spec fn concat(s: Seq<Seq<char>>) -> Seq<char>
    decreases s.len(),
{
    if s.len() == 0 {
        Seq::empty()
    } else {
        concat(s.drop_last()) + s.last()
    }
}

/// The step's outcome and the state after it agree with `r` and `st`.
pub open spec fn cstep_matches(step: CStep, st: CState, r: Result<(), CompileError>) -> bool {
    match step {
        Some((s, Ok(()))) => st == s && r is Ok,
        Some((s, Err(e))) => st == s && (r matches Err(x) && x@ == e),
        None => false,
    }
}

/// What compiling the source text `s` gives, from the state `st`: the program is parsed,
/// its types resolved, and its code written.
pub open spec fn compile_outcome(st: CState, s: Seq<char>) -> CStep {
    match parse_model(s) {
        Err(e) => Some((st, Err(CErr::ParserError(e)))),
        Ok(p) => match node_resolution(TNode::Program(typed_stmts(p))) {
            None => None,
            Some((_, _, Err(e))) => Some((st, Err(CErr::TypeCheckError(e)))),
            Some((rst, TNode::Program(stmts), Ok(_))) => gen_program(st, stmts, rst.offset),
            Some((_, _, Ok(_))) => Some((st, Err(CErr::InputIsNotProgram))),
        },
    }
}

/// Whether compiling `s` from the state `st` finishes without a panic.
pub open spec fn compile_finishes(st: CState, s: Seq<char>) -> bool {
    &&& parse_model(s) matches Ok(p) ==> node_resolves(TNode::Program(typed_stmts(p)))
    &&& compile_outcome(st, s) is Some
}

fn text(s: &str) -> (r: String)
    ensures
        r@ == s@,
{
    String::from_str(s)
}

fn nullary(op: &str) -> (r: String)
    ensures
        r@ == nullary_text(op@),
{
    let mut r = text("  ");
    r.append(op);
    r
}

fn unary(op: &str, x: &str) -> (r: String)
    ensures
        r@ == unary_text(op@, x@),
{
    let mut r = text("  ");
    r.append(op);
    r.append(" ");
    r.append(x);
    r
}

fn binary(op: &str, a: &str, b: &str) -> (r: String)
    ensures
        r@ == binary_text(op@, a@, b@),
{
    let mut r = text("  ");
    r.append(op);
    r.append(" ");
    r.append(a);
    r.append(", ");
    r.append(b);
    r
}

/// An integer as an immediate operand.
fn to_asm(v: isize) -> (r: String)
    ensures
        r@ == imm(v as int),
{
    let mut r = text("$");
    let digits = isize_to_string(v);
    append_str(&mut r, &digits);
    r
}

fn push_instr(x: &str) -> (r: AsmInstr)
    ensures
        r@ == Instr::Push(x@),
{
    AsmInstr::Push(text(x))
}

fn pop_instr(x: &str) -> (r: AsmInstr)
    ensures
        r@ == Instr::Pop(x@),
{
    AsmInstr::Pop(text(x))
}

fn mov_instr(a: &str, b: &str) -> (r: AsmInstr)
    ensures
        r@ == mov(a@, b@),
{
    AsmInstr::Line(binary("mov", a, b))
}

fn epilogue_instrs() -> (r: Vec<AsmInstr>)
    ensures
        instr_models(r@) == epilogue(),
{
    let r = vec![pop_instr("%rax"), mov_instr("%rbp", "%rsp"), pop_instr("%rbp"), AsmInstr::Line(nullary("ret"))];
    assert(instr_models(r@) =~= epilogue());
    r
}

/// A count written with at least three digits, as `{:>03}` writes it.
fn padded(n: usize) -> (r: String)
    ensures
        r@ == pad3(n as nat),
{
    let digits = nat_to_string(n as u64);
    let len = digits.as_str().unicode_len();
    if len >= 3 {
        return digits;
    }
    let mut r = String::new();
    let mut k: usize = 0;
    while k < 3 - len
        invariant
            len < 3,
            k <= 3 - len,
            r@ == Seq::new(k as nat, |i: int| '0'),
        decreases 3 - len - k,
    {
        r.push('0');
        k += 1;
        assert(r@ =~= Seq::new(k as nat, |i: int| '0'));
    }
    append_str(&mut r, &digits);
    r
}

/// The register that passes argument `i` of a call.
fn arg_register_text(i: usize) -> (r: String)
    requires
        i < 6,
    ensures
        r@ == arg_register(i as int),
{
    if i == 0 {
        text("%rdi")
    } else if i == 1 {
        text("%rsi")
    } else if i == 2 {
        text("%rdx")
    } else if i == 3 {
        text("%rcx")
    } else if i == 4 {
        text("%r8")
    } else {
        text("%r9")
    }
}

pub struct Compiler {
    pub outputs: Vec<String>,
    pub label_count: usize,
    /// The number of values pushed on the machine stack, which a call keeps aligned.
    pub depth: usize,
    pub cur_output_index: usize,
}

impl Compiler {
    /// The state of the generator.
    pub open spec fn state(&self) -> CState {
        CState {
            outputs: Seq::new(self.outputs@.len(), |i: int| self.outputs@[i]@),
            label_count: self.label_count as int,
            depth: self.depth as int,
            cur: self.cur_output_index as int,
        }
    }

    /// A generator with one empty buffer.
    pub fn new() -> (r: Compiler)
        ensures
            r.state() == initial_cstate(),
    {
        let r = Compiler { outputs: vec![String::new()], label_count: 0, depth: 0, cur_output_index: 0 };
        assert(r.state().outputs =~= seq![Seq::<char>::empty()]);
        r
    }

    /// The assembly written so far: all buffers, in order.
    pub fn output(&mut self) -> (r: String)
        ensures
            final(self).state() == old(self).state(),
            r@ == concat(old(self).state().outputs),
    {
        let mut r = String::new();
        let mut i: usize = 0;
        while i < self.outputs.len()
            invariant
                i <= self.outputs@.len(),
                r@ == concat(self.state().outputs.subrange(0, i as int)),
            decreases self.outputs@.len() - i,
        {
            append_str(&mut r, &self.outputs[i]);
            i += 1;
            proof {
                assert(self.state().outputs.subrange(0, i as int).drop_last() =~= self.state().outputs.subrange(
                    0,
                    i - 1,
                ));
            }
        }
        assert(self.state().outputs.subrange(0, i as int) =~= self.state().outputs);
        r
    }

    /// Writes a line into the current buffer.
    fn add_code(&mut self, code: &String)
        requires
            emit(old(self).state(), code@) is Some,
        ensures
            final(self).state() == emit(old(self).state(), code@)->0,
    {
        let idx = self.cur_output_index;
        let ghost before = self.outputs@;
        let mut buffer = String::new();
        self.outputs.set_and_swap(idx, &mut buffer);
        assert(buffer@ == before[idx as int]@);
        append_str(&mut buffer, code);
        buffer.push('\n');
        let ghost written = buffer@;
        self.outputs.set_and_swap(idx, &mut buffer);
        assert(self.outputs@ == before.update(idx as int, self.outputs@[idx as int]));
        assert(self.outputs@[idx as int]@ == written);
        assert(written == before[idx as int]@ + code@ + seq!['\n']);
        assert(self.state().outputs =~= old(self).state().outputs.update(
            idx as int,
            old(self).state().outputs[idx as int] + code@ + seq!['\n'],
        ));
    }

    /// Writes one instruction.
    fn instr(&mut self, i: &AsmInstr)
        requires
            exec_instr(old(self).state(), i@) is Some,
        ensures
            final(self).state() == exec_instr(old(self).state(), i@)->0,
    {
        match i {
            AsmInstr::Line(t) => self.add_code(t),
            AsmInstr::Push(x) => {
                let line = unary("push", x.as_str());
                self.add_code(&line);
                self.depth = self.depth + 1;
            },
            AsmInstr::Pop(x) => {
                let line = unary("pop", x.as_str());
                self.add_code(&line);
                self.depth = self.depth - 1;
            },
        }
    }

    /// Writes the instructions in order.
    fn run(&mut self, instrs: Vec<AsmInstr>)
        requires
            run(old(self).state(), instr_models(instrs@)) is Some,
        ensures
            final(self).state() == run(old(self).state(), instr_models(instrs@))->0,
    {
        let ghost all = instr_models(instrs@);
        let mut i: usize = 0;
        proof {
            assert(all.subrange(0, all.len() as int) =~= all);
        }
        while i < instrs.len()
            invariant
                i <= instrs@.len(),
                all == instr_models(instrs@),
                run(old(self).state(), all) == run(self.state(), all.subrange(i as int, all.len() as int)),
                run(old(self).state(), all) is Some,
            decreases instrs@.len() - i,
        {
            let ghost rest = all.subrange(i as int, all.len() as int);
            proof {
                assert(rest[0] == instrs@[i as int]@);
                assert(rest.drop_first() =~= all.subrange(i + 1, all.len() as int));
            }
            self.instr(&instrs[i]);
            i += 1;
        }
    }

    /// A new label made from `prefix`.
    fn get_serial_label(&mut self, prefix: &str) -> (r: String)
        requires
            next_label(old(self).state(), prefix@) is Some,
        ensures
            (final(self).state(), r@) == next_label(old(self).state(), prefix@)->0,
    {
        let mut label = text(".L");
        label.append(prefix);
        let count = padded(self.label_count);
        append_str(&mut label, &count);
        self.label_count = self.label_count + 1;
        label
    }
}


impl Compiler {
    /// The code of an expression, which leaves its value pushed.
    fn gen_expr(&mut self, e: &TypedExpression) -> (r: Result<(), CompileError>)
        requires
            gen_expr(old(self).state(), e@) is Some,
        ensures
            cstep_matches(gen_expr(old(self).state(), e@), final(self).state(), r),
        decreases e, 1int,
    {
        match &e.kind {
            TypedExpressionKind::Integer(i) => self.gen_integer(i.value),
            TypedExpressionKind::BinaryExpr(_) => self.gen_binary_expr(e),
            TypedExpressionKind::UnaryExpr(_) => self.gen_unary_expr(e),
            TypedExpressionKind::Ident(_) => self.gen_ident(e),
            TypedExpressionKind::ReturnExpr(_) => self.gen_return_expr(e),
            TypedExpressionKind::IfExpr(_) => self.gen_if_expr(e),
            TypedExpressionKind::BlockExpr(_) => self.gen_block_expr(e),
            TypedExpressionKind::CallExpr(_) => self.gen_call_expr(e),
            TypedExpressionKind::FunctionDefExpr(_) => self.gen_function_def_expr(e),
            TypedExpressionKind::LetExpr(_) => self.gen_let_expr(e),
            _ => Err(CompileError::Unimplemented),
        }
    }

    fn gen_integer(&mut self, value: isize) -> (r: Result<(), CompileError>)
        requires
            ok_run(old(self).state(), seq![Instr::Push(imm(value as int))]) is Some,
        ensures
            cstep_matches(ok_run(old(self).state(), seq![Instr::Push(imm(value as int))]), final(self).state(), r),
    {
        let instrs = vec![AsmInstr::Push(to_asm(value))];
        assert(instr_models(instrs@) =~= seq![Instr::Push(imm(value as int))]);
        self.run(instrs);
        Ok(())
    }

    fn gen_binary_expr(&mut self, e: &TypedExpression) -> (r: Result<(), CompileError>)
        requires
            e@.kind is Binary,
            gen_binary(old(self).state(), e@) is Some,
        ensures
            cstep_matches(gen_binary(old(self).state(), e@), final(self).state(), r),
        decreases e, 0int,
    {
        match &e.kind {
            TypedExpressionKind::BinaryExpr(b) => {
                if let Err(x) = self.gen_expr(&b.lhs) {
                    return Err(x);
                }
                if let Err(x) = self.gen_expr(&b.rhs) {
                    return Err(x);
                }
                let pops = vec![pop_instr("%rdi"), pop_instr("%rax")];
                assert(instr_models(pops@) =~= seq![Instr::Pop("%rdi"@), Instr::Pop("%rax"@)]);
                self.run(pops);
                if b.kind == BinaryExprKind::Assign {
                    if let Err(x) = self.gen_left_val(&b.lhs) {
                        return Err(x);
                    }
                    if let Err(x) = self.gen_expr(&b.rhs) {
                        return Err(x);
                    }
                    let store = vec![
                        pop_instr("%rdi"),
                        pop_instr("%rax"),
                        mov_instr("%rdi", "(%rax)"),
                        push_instr("%rdi"),
                        push_instr("%rax"),
                    ];
                    assert(instr_models(store@) =~= seq![
                        Instr::Pop("%rdi"@),
                        Instr::Pop("%rax"@),
                        mov("%rdi"@, "(%rax)"@),
                        Instr::Push("%rdi"@),
                        Instr::Push("%rax"@),
                    ]);
                    self.run(store);
                    return Ok(());
                }
                let mut instrs = operator_code(b.kind);
                instrs.push(push_instr("%rax"));
                assert(instr_models(instrs@) =~= operator_instrs(b.kind).push(Instr::Push("%rax"@)));
                self.run(instrs);
                Ok(())
            },
            _ => Err(CompileError::Unimplemented),
        }
    }

    fn gen_unary_expr(&mut self, e: &TypedExpression) -> (r: Result<(), CompileError>)
        requires
            e@.kind is Unary,
            gen_unary(old(self).state(), e@) is Some,
        ensures
            cstep_matches(gen_unary(old(self).state(), e@), final(self).state(), r),
        decreases e, 0int,
    {
        match &e.kind {
            TypedExpressionKind::UnaryExpr(u) => {
                if let Err(x) = self.gen_expr(&u.expr) {
                    return Err(x);
                }
                let pop = vec![pop_instr("%rax")];
                assert(instr_models(pop@) =~= seq![Instr::Pop("%rax"@)]);
                self.run(pop);
                match u.kind {
                    UnaryExprKind::Minus => {
                        let instrs = vec![AsmInstr::Line(unary("neg", "%rax")), push_instr("%rax")];
                        assert(instr_models(instrs@) =~= seq![
                            Instr::Line(unary_text("neg"@, "%rax"@)),
                            Instr::Push("%rax"@),
                        ]);
                        self.run(instrs);
                        Ok(())
                    },
                    UnaryExprKind::Addr => self.gen_left_val(&u.expr),
                    UnaryExprKind::Deref => {
                        if let Err(x) = self.gen_expr(&u.expr) {
                            return Err(x);
                        }
                        let instrs = vec![pop_instr("%rax"), mov_instr("(%rax)", "%rax"), push_instr("%rax")];
                        assert(instr_models(instrs@) =~= seq![
                            Instr::Pop("%rax"@),
                            mov("(%rax)"@, "%rax"@),
                            Instr::Push("%rax"@),
                        ]);
                        self.run(instrs);
                        Ok(())
                    },
                    UnaryExprKind::Not => Err(CompileError::Unimplemented),
                }
            },
            _ => Err(CompileError::Unimplemented),
        }
    }

    /// The address of a variable, pushed.
    fn gen_left_val(&mut self, e: &TypedExpression) -> (r: Result<(), CompileError>)
        requires
            gen_left_val(old(self).state(), e@) is Some,
        ensures
            cstep_matches(gen_left_val(old(self).state(), e@), final(self).state(), r),
    {
        match &e.kind {
            TypedExpressionKind::Ident(ident) => {
                let offset = to_asm(ident.offset);
                let instrs = vec![
                    mov_instr("%rbp", "%rax"),
                    AsmInstr::Line(binary("sub", offset.as_str(), "%rax")),
                    push_instr("%rax"),
                ];
                assert(instr_models(instrs@) =~= seq![
                    mov("%rbp"@, "%rax"@),
                    Instr::Line(binary_text("sub"@, imm(ident.offset as int), "%rax"@)),
                    Instr::Push("%rax"@),
                ]);
                self.run(instrs);
                Ok(())
            },
            _ => Err(CompileError::NotLeftValue),
        }
    }

    fn gen_ident(&mut self, e: &TypedExpression) -> (r: Result<(), CompileError>)
        requires
            e@.kind is Ident,
            gen_expr(old(self).state(), e@) is Some,
        ensures
            cstep_matches(gen_expr(old(self).state(), e@), final(self).state(), r),
        decreases e, 0int,
    {
        if let Err(x) = self.gen_left_val(e) {
            return Err(x);
        }
        let instrs = vec![pop_instr("%rax"), mov_instr("(%rax)", "%rax"), push_instr("%rax")];
        assert(instr_models(instrs@) =~= seq![Instr::Pop("%rax"@), mov("(%rax)"@, "%rax"@), Instr::Push("%rax"@)]);
        self.run(instrs);
        Ok(())
    }

    fn gen_return_expr(&mut self, e: &TypedExpression) -> (r: Result<(), CompileError>)
        requires
            e@.kind is Return,
            gen_expr(old(self).state(), e@) is Some,
        ensures
            cstep_matches(gen_expr(old(self).state(), e@), final(self).state(), r),
        decreases e, 0int,
    {
        match &e.kind {
            TypedExpressionKind::ReturnExpr(ret) => {
                if let Err(x) = self.gen_expr(&ret.value) {
                    return Err(x);
                }
                self.gen_epilogue();
                Ok(())
            },
            _ => Err(CompileError::Unimplemented),
        }
    }

    fn gen_epilogue(&mut self)
        requires
            run(old(self).state(), epilogue()) is Some,
        ensures
            final(self).state() == run(old(self).state(), epilogue())->0,
    {
        self.run(epilogue_instrs());
    }

    fn gen_if_expr(&mut self, e: &TypedExpression) -> (r: Result<(), CompileError>)
        requires
            e@.kind is If,
            gen_if(old(self).state(), e@) is Some,
        ensures
            cstep_matches(gen_if(old(self).state(), e@), final(self).state(), r),
        decreases e, 0int,
    {
        match &e.kind {
            TypedExpressionKind::IfExpr(i) => {
                if let Err(x) = self.gen_expr(&i.condition) {
                    return Err(x);
                }
                let zero = to_asm(0);
                let test = vec![pop_instr("%rax"), AsmInstr::Line(binary("cmp", zero.as_str(), "%rax"))];
                assert(instr_models(test@) =~= seq![
                    Instr::Pop("%rax"@),
                    Instr::Line(binary_text("cmp"@, imm(0), "%rax"@)),
                ]);
                self.run(test);
                match &i.alternative {
                    Some(alternative) => {
                        let else_label = self.get_serial_label("else");
                        let end_label = self.get_serial_label("end");
                        let jump = vec![AsmInstr::Line(unary("je", else_label.as_str()))];
                        assert(instr_models(jump@) =~= seq![Instr::Line(unary_text("je"@, else_label@))]);
                        self.run(jump);
                        if let Err(x) = self.gen_expr(&i.consequence) {
                            return Err(x);
                        }
                        let middle = vec![AsmInstr::Line(unary("jmp", end_label.as_str())), label_instr(&else_label)];
                        assert(instr_models(middle@) =~= seq![
                            Instr::Line(unary_text("jmp"@, end_label@)),
                            label_line(else_label@),
                        ]);
                        self.run(middle);
                        if let Err(x) = self.gen_expr(alternative) {
                            return Err(x);
                        }
                        let end = vec![label_instr(&end_label)];
                        assert(instr_models(end@) =~= seq![label_line(end_label@)]);
                        self.run(end);
                        Ok(())
                    },
                    None => {
                        let end_label = self.get_serial_label("end");
                        let jump = vec![AsmInstr::Line(unary("je", end_label.as_str()))];
                        assert(instr_models(jump@) =~= seq![Instr::Line(unary_text("je"@, end_label@))]);
                        self.run(jump);
                        if let Err(x) = self.gen_expr(&i.consequence) {
                            return Err(x);
                        }
                        let end = vec![label_instr(&end_label)];
                        assert(instr_models(end@) =~= seq![label_line(end_label@)]);
                        self.run(end);
                        Ok(())
                    },
                }
            },
            _ => Err(CompileError::Unimplemented),
        }
    }

    fn gen_block_expr(&mut self, e: &TypedExpression) -> (r: Result<(), CompileError>)
        requires
            e@.kind is Block,
            gen_expr(old(self).state(), e@) is Some,
        ensures
            cstep_matches(gen_expr(old(self).state(), e@), final(self).state(), r),
        decreases e, 0int,
    {
        match &e.kind {
            TypedExpressionKind::BlockExpr(b) => {
                if let Err(x) = self.gen_statements(&b.statements) {
                    return Err(x);
                }
                let push = vec![push_instr("%rax")];
                assert(instr_models(push@) =~= seq![Instr::Push("%rax"@)]);
                self.run(push);
                Ok(())
            },
            _ => Err(CompileError::Unimplemented),
        }
    }

    fn gen_let_expr(&mut self, e: &TypedExpression) -> (r: Result<(), CompileError>)
        requires
            e@.kind is Let,
            gen_expr(old(self).state(), e@) is Some,
        ensures
            cstep_matches(gen_expr(old(self).state(), e@), final(self).state(), r),
        decreases e, 0int,
    {
        match &e.kind {
            TypedExpressionKind::LetExpr(l) => {
                if let Err(x) = self.gen_left_val(&l.name) {
                    return Err(x);
                }
                if let Err(x) = self.gen_expr(&l.value) {
                    return Err(x);
                }
                let store = vec![
                    pop_instr("%rdi"),
                    pop_instr("%rax"),
                    mov_instr("%rdi", "(%rax)"),
                    push_instr("%rdi"),
                    push_instr("%rax"),
                ];
                assert(instr_models(store@) =~= seq![
                    Instr::Pop("%rdi"@),
                    Instr::Pop("%rax"@),
                    mov("%rdi"@, "(%rax)"@),
                    Instr::Push("%rdi"@),
                    Instr::Push("%rax"@),
                ]);
                self.run(store);
                Ok(())
            },
            _ => Err(CompileError::Unimplemented),
        }
    }
}

/// The instructions that combine `%rax` and `%rdi` for a binary operator other than `=`.
fn operator_code(kind: BinaryExprKind) -> (r: Vec<AsmInstr>)
    ensures
        instr_models(r@) == operator_instrs(kind),
{
    let r = match kind {
        BinaryExprKind::Add => vec![AsmInstr::Line(binary("add", "%rdi", "%rax"))],
        BinaryExprKind::Sub => vec![AsmInstr::Line(binary("sub", "%rdi", "%rax"))],
        BinaryExprKind::Mul => vec![AsmInstr::Line(binary("imul", "%rdi", "%rax"))],
        BinaryExprKind::Div => vec![AsmInstr::Line(nullary("cqo")), AsmInstr::Line(unary("idiv", "%rdi"))],
        BinaryExprKind::Eq => compare_code("sete"),
        BinaryExprKind::Ne => compare_code("setne"),
        BinaryExprKind::Ge => compare_code("setge"),
        BinaryExprKind::Gt => compare_code("setg"),
        BinaryExprKind::Le => compare_code("setle"),
        BinaryExprKind::Lt => compare_code("setl"),
        BinaryExprKind::Assign => Vec::new(),
    };
    assert(instr_models(r@) =~= operator_instrs(kind));
    r
}

fn compare_code(set: &str) -> (r: Vec<AsmInstr>)
    ensures
        instr_models(r@) == seq![
            Instr::Line(binary_text("cmp"@, "%rdi"@, "%rax"@)),
            Instr::Line(unary_text(set@, "%al"@)),
            Instr::Line(binary_text("movzb"@, "%al"@, "%rax"@)),
        ],
{
    let r = vec![
        AsmInstr::Line(binary("cmp", "%rdi", "%rax")),
        AsmInstr::Line(unary(set, "%al")),
        AsmInstr::Line(binary("movzb", "%al", "%rax")),
    ];
    assert(instr_models(r@) =~= seq![
        Instr::Line(binary_text("cmp"@, "%rdi"@, "%rax"@)),
        Instr::Line(unary_text(set@, "%al"@)),
        Instr::Line(binary_text("movzb"@, "%al"@, "%rax"@)),
    ]);
    r
}

fn label_instr(label: &String) -> (r: AsmInstr)
    ensures
        r@ == label_line(label@),
{
    let mut t = String::new();
    append_str(&mut t, label);
    t.append(":");
    AsmInstr::Line(t)
}


impl Compiler {
    fn gen_statement(&mut self, stmt: &Statement<TypedExpression>) -> (r: Result<(), CompileError>)
        requires
            gen_statement(old(self).state(), stmt@) is Some,
        ensures
            cstep_matches(gen_statement(old(self).state(), stmt@), final(self).state(), r),
        decreases stmt, 1int,
    {
        match stmt {
            Statement::ExprStmt(e) => {
                if let Err(x) = self.gen_expr(e) {
                    return Err(x);
                }
                let zero = to_asm(0);
                let instrs = vec![pop_instr("%rax"), mov_instr(zero.as_str(), "%rax")];
                assert(instr_models(instrs@) =~= seq![Instr::Pop("%rax"@), mov(imm(0), "%rax"@)]);
                self.run(instrs);
                Ok(())
            },
            Statement::ExprReturnStmt(e) => self.gen_expr(e),
        }
    }

    fn gen_statements(&mut self, stmts: &Vec<Statement<TypedExpression>>) -> (r: Result<(), CompileError>)
        requires
            gen_statements(old(self).state(), tstmt_models(stmts@)) is Some,
        ensures
            cstep_matches(gen_statements(old(self).state(), tstmt_models(stmts@)), final(self).state(), r),
        decreases stmts, 2int,
    {
        let ghost all = tstmt_models(stmts@);
        proof {
            lemma_tstmt_models(stmts@);
            assert(all.subrange(0, all.len() as int) =~= all);
        }
        let mut i: usize = 0;
        while i < stmts.len()
            invariant
                i <= stmts@.len(),
                all == tstmt_models(stmts@),
                all.len() == stmts@.len(),
                forall|j: int| 0 <= j < all.len() ==> #[trigger] all[j] == stmts@[j].tmodel(),
                gen_statements(old(self).state(), all) == gen_statements(
                    self.state(),
                    all.subrange(i as int, all.len() as int),
                ),
                gen_statements(old(self).state(), all) is Some,
            decreases stmts@.len() - i,
        {
            let ghost rest = all.subrange(i as int, all.len() as int);
            proof {
                assert(rest[0] == all[i as int]);
                assert(rest.drop_first() =~= all.subrange(i + 1, all.len() as int));
                assert(decreases_to!(stmts => stmts@[i as int]));
            }
            if let Err(x) = self.gen_statement(&stmts[i]) {
                return Err(x);
            }
            let pop = vec![pop_instr("%rax")];
            assert(instr_models(pop@) =~= seq![Instr::Pop("%rax"@)]);
            self.run(pop);
            i += 1;
        }
        Ok(())
    }

    /// The arguments of a call, each evaluated and pushed in turn.
    fn gen_args(&mut self, args: &Vec<TypedExpression>) -> (r: Result<(), CompileError>)
        requires
            gen_args(old(self).state(), texpr_models(args@)) is Some,
        ensures
            cstep_matches(gen_args(old(self).state(), texpr_models(args@)), final(self).state(), r),
        decreases args, 2int,
    {
        let ghost all = texpr_models(args@);
        proof {
            lemma_texpr_models(args@);
            assert(all.subrange(0, all.len() as int) =~= all);
        }
        let mut i: usize = 0;
        while i < args.len()
            invariant
                i <= args@.len(),
                all == texpr_models(args@),
                all.len() == args@.len(),
                forall|j: int| 0 <= j < all.len() ==> #[trigger] all[j] == args@[j].model(),
                gen_args(old(self).state(), all) == gen_args(self.state(), all.subrange(i as int, all.len() as int)),
                gen_args(old(self).state(), all) is Some,
            decreases args@.len() - i,
        {
            let ghost rest = all.subrange(i as int, all.len() as int);
            proof {
                assert(rest[0] == all[i as int]);
                assert(rest.drop_first() =~= all.subrange(i + 1, all.len() as int));
                assert(decreases_to!(args => args@[i as int]));
            }
            if let Err(x) = self.gen_expr(&args[i]) {
                return Err(x);
            }
            i += 1;
        }
        Ok(())
    }

    fn gen_call_expr(&mut self, e: &TypedExpression) -> (r: Result<(), CompileError>)
        requires
            e@.kind is Call,
            gen_call(old(self).state(), e@) is Some,
        ensures
            cstep_matches(gen_call(old(self).state(), e@), final(self).state(), r),
        decreases e, 0int,
    {
        match &e.kind {
            TypedExpressionKind::CallExpr(c) => match &c.func.kind {
                TypedExpressionKind::Ident(func_name) => {
                    proof {
                        assert(e@.kind == TKind::Call { func: Box::new(c.func@), args: texpr_models(c.args@) });
                        assert(c.func@.kind == TKind::Ident { name: func_name.name@, offset: func_name.offset as int });
                    }
                    if let Err(x) = self.gen_args(&c.args) {
                        return Err(x);
                    }
                    proof {
                        lemma_texpr_models(c.args@);
                    }
                    let register_num = c.args.len();
                    assert(register_num <= 6);
                    let mut instrs: Vec<AsmInstr> = Vec::new();
                    let mut k: usize = 0;
                    while k < register_num
                        invariant
                            register_num <= 6,
                            k <= register_num,
                            instrs@.len() == k,
                            forall|j: int| 0 <= j < k ==> #[trigger] instrs@[j]@ == Instr::Pop(
                                arg_register(register_num - j - 1),
                            ),
                        decreases register_num - k,
                    {
                        instrs.push(AsmInstr::Pop(arg_register_text(register_num - k - 1)));
                        k += 1;
                    }
                    assert(instr_models(instrs@) =~= pop_args(register_num as int));
                    let zero = to_asm(0);
                    instrs.push(mov_instr(zero.as_str(), "%rax"));
                    assert(instr_models(instrs@) =~= pop_args(register_num as int).push(mov(imm(0), "%rax"@)));
                    self.run(instrs);
                    let call_line = unary("call", func_name.name.as_str());
                    if self.depth % 2 == 0 {
                        let tail = vec![AsmInstr::Line(call_line), push_instr("%rax")];
                        assert(instr_models(tail@) =~= seq![
                            Instr::Line(unary_text("call"@, func_name.name@)),
                            Instr::Push("%rax"@),
                        ]);
                        self.run(tail);
                    } else {
                        let eight = to_asm(8);
                        let tail = vec![
                            AsmInstr::Line(binary("sub", eight.as_str(), "%rsp")),
                            AsmInstr::Line(call_line),
                            AsmInstr::Line(binary("add", eight.as_str(), "%rsp")),
                            push_instr("%rax"),
                        ];
                        assert(instr_models(tail@) =~= seq![
                            Instr::Line(binary_text("sub"@, imm(8), "%rsp"@)),
                            Instr::Line(unary_text("call"@, func_name.name@)),
                            Instr::Line(binary_text("add"@, imm(8), "%rsp"@)),
                            Instr::Push("%rax"@),
                        ]);
                        self.run(tail);
                    }
                    Ok(())
                },
                _ => Err(CompileError::Unimplemented),
            },
            _ => Err(CompileError::Unimplemented),
        }
    }

    /// The parameters of a function, as `gen_params` describes; gives the largest offset.
    fn gen_params(&mut self, params: &Vec<(TypedExpression, crate::ty::Type)>) -> (r: Result<isize, CompileError>)
        requires
            gen_params(old(self).state(), tparam_models(params@), 0, 0) is Some,
        ensures
            match gen_params(old(self).state(), tparam_models(params@), 0, 0) {
                Some((st, Ok(m))) => final(self).state() == st && r == Ok::<isize, CompileError>(m as isize)
                    && isize::MIN <= m <= isize::MAX,
                Some((st, Err(x))) => final(self).state() == st && (r matches Err(y) && y@ == x),
                None => false,
            },
    {
        let ghost all = tparam_models(params@);
        proof {
            lemma_tparam_models(params@);
        }
        let mut max_offset: isize = 0;
        let mut i: usize = 0;
        while i < params.len()
            invariant
                i <= params@.len(),
                all == tparam_models(params@),
                all.len() == params@.len(),
                forall|j: int| 0 <= j < all.len() ==> #[trigger] all[j] == (params@[j].0.model(), params@[j].1@),
                gen_params(old(self).state(), all, 0, 0) == gen_params(self.state(), all, i as int, max_offset as int),
                gen_params(old(self).state(), all, 0, 0) is Some,
            decreases params@.len() - i,
        {
            match &params[i].0.kind {
                TypedExpressionKind::Ident(param) => {
                    if param.offset > max_offset {
                        max_offset = param.offset;
                    }
                    let shift = to_asm(param.offset - 8);
                    let instrs = vec![
                        AsmInstr::Line(binary("sub", shift.as_str(), "%rsp")),
                        AsmInstr::Push(arg_register_text(i)),
                        mov_instr("%rbp", "%rsp"),
                    ];
                    assert(instr_models(instrs@) =~= seq![
                        Instr::Line(binary_text("sub"@, imm(param.offset - 8), "%rsp"@)),
                        Instr::Push(arg_register(i as int)),
                        mov("%rbp"@, "%rsp"@),
                    ]);
                    self.run(instrs);
                },
                _ => {
                    return Err(CompileError::ExpectedIdent { actual: params[i].0.duplicate() });
                },
            }
            i += 1;
        }
        Ok(max_offset)
    }

    fn gen_function_def_expr(&mut self, e: &TypedExpression) -> (r: Result<(), CompileError>)
        requires
            e@.kind is FnDef,
            gen_fndef(old(self).state(), e@) is Some,
        ensures
            cstep_matches(gen_fndef(old(self).state(), e@), final(self).state(), r),
        decreases e, 0int,
    {
        match &e.kind {
            TypedExpressionKind::FunctionDefExpr(d) => {
                proof {
                    assert(e@.kind == TKind::FnDef {
                        name: Box::new(d.name@),
                        params: tparam_models(d.params@),
                        return_ty: d.return_ty@,
                        body: Box::new(d.body@),
                    });
                }
                let func_name = match &d.name.kind {
                    TypedExpressionKind::Ident(ident) => {
                        assert(d.name@.kind == TKind::Ident { name: ident.name@, offset: ident.offset as int });
                        &ident.name
                    },
                    _ => {
                        return Err(CompileError::ExpectedIdent { actual: d.name.duplicate() });
                    },
                };
                self.add_output();
                self.change_output_to_end();
                let mut globl = text(".globl ");
                append_str(&mut globl, func_name);
                let head = vec![AsmInstr::Line(globl), label_instr(func_name), push_instr("%rbp"), mov_instr("%rsp", "%rbp")];
                assert(instr_models(head@) =~= seq![
                    Instr::Line(".globl "@ + func_name@),
                    label_line(func_name@),
                    Instr::Push("%rbp"@),
                    mov("%rsp"@, "%rbp"@),
                ]);
                self.run(head);
                let max_offset = match self.gen_params(&d.params) {
                    Ok(m) => m,
                    Err(x) => {
                        return Err(x);
                    },
                };
                let frame = to_asm(max_offset);
                let reserve = vec![AsmInstr::Line(binary("sub", frame.as_str(), "%rsp"))];
                assert(instr_models(reserve@) =~= seq![Instr::Line(binary_text("sub"@, imm(max_offset as int), "%rsp"@))]);
                self.run(reserve);
                if let Err(x) = self.gen_expr(&d.body) {
                    return Err(x);
                }
                self.gen_epilogue();
                self.change_output_to_head();
                Ok(())
            },
            _ => Err(CompileError::Unimplemented),
        }
    }

    /// Starts a new buffer at the end.
    fn add_output(&mut self)
        ensures
            final(self).state() == (CState {
                outputs: old(self).state().outputs.push(Seq::empty()),
                ..old(self).state()
            }),
    {
        self.outputs.push(String::new());
        assert(self.state().outputs =~= old(self).state().outputs.push(Seq::empty()));
    }

    /// Writes into the last buffer from now on.
    fn change_output_to_end(&mut self)
        requires
            old(self).outputs@.len() > 0,
        ensures
            final(self).state() == (CState { cur: old(self).state().outputs.len() - 1, ..old(self).state() }),
    {
        self.cur_output_index = self.outputs.len() - 1;
    }

    /// Writes into the first buffer from now on.
    fn change_output_to_head(&mut self)
        ensures
            final(self).state() == (CState { cur: 0, ..old(self).state() }),
    {
        self.cur_output_index = 0;
    }

    /// The code of a program whose variables take `total_offset` bytes of its frame.
    fn gen_program(&mut self, statements: &Vec<Statement<TypedExpression>>, total_offset: isize) -> (r: Result<
        (),
        CompileError,
    >)
        requires
            gen_program(old(self).state(), tstmt_models(statements@), total_offset as int) is Some,
        ensures
            cstep_matches(gen_program(old(self).state(), tstmt_models(statements@), total_offset as int), final(self).state(), r),
    {
        let frame = to_asm(total_offset);
        let head = vec![
            AsmInstr::Line(text(".globl main")),
            AsmInstr::Line(text("main:")),
            push_instr("%rbp"),
            mov_instr("%rsp", "%rbp"),
            AsmInstr::Line(binary("sub", frame.as_str(), "%rsp")),
        ];
        assert(instr_models(head@) =~= seq![
            Instr::Line(".globl main"@),
            Instr::Line("main:"@),
            Instr::Push("%rbp"@),
            mov("%rsp"@, "%rbp"@),
            Instr::Line(binary_text("sub"@, imm(total_offset as int), "%rsp"@)),
        ]);
        self.run(head);
        if let Err(x) = self.gen_statements(statements) {
            return Err(x);
        }
        let mut tail = vec![push_instr("%rax")];
        let mut ending = epilogue_instrs();
        tail.append(&mut ending);
        assert(instr_models(tail@) =~= seq![Instr::Push("%rax"@)] + epilogue());
        self.run(tail);
        Ok(())
    }

    /// Compiles the source text of a program: parses it, resolves its types, and writes its
    /// assembly.
    #[verifier::rlimit(40)]
    pub fn compile(&mut self, program: &str) -> (r: Result<(), CompileError>)
        requires
            program@.len() < usize::MAX,
            program.is_ascii(),
            compile_finishes(old(self).state(), program@),
        ensures
            cstep_matches(compile_outcome(old(self).state(), program@), final(self).state(), r),
    {
        let mut parser = Parser::new(program);
        let node = match parser.parse_program() {
            Ok(n) => n,
            Err(e) => {
                return Err(CompileError::ParserError(e));
            },
        };
        let mut typed = TypedNode::from_node(&node);
        let resolver = match typed.resolve_type() {
            Ok((_, resolver)) => resolver,
            Err(e) => {
                return Err(CompileError::TypeCheckError(e));
            },
        };
        match &typed {
            TypedNode::Program(p) => self.gen_program(&p.statements, resolver.cur_offset),
            _ => Err(CompileError::InputIsNotProgram),
        }
    }
}

} // verus!
