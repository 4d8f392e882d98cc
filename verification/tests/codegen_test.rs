use lib::codegen::Compiler;

#[test]
fn codegen_sum_test() {
    let mut compiler = Compiler::new();
    compiler.compile("1+2").unwrap();
    let expect = [
        ".globl main",
        "main:",
        "  push %rbp",
        "  mov %rsp, %rbp",
        "  sub $0, %rsp",
        "  push $1",
        "  push $2",
        "  pop %rdi",
        "  pop %rax",
        "  add %rdi, %rax",
        "  push %rax",
        "  pop %rax",
        "  push %rax",
        "  pop %rax",
        "  mov %rbp, %rsp",
        "  pop %rbp",
        "  ret",
    ];
    let mut text = String::new();
    for line in expect {
        text.push_str(line);
        text.push('\n');
    }
    assert_eq!(compiler.output(), text);
}

#[test]
fn codegen_labels_test() {
    let mut compiler = Compiler::new();
    compiler.compile("if 1 == 1 { 1 } else { 2 }; if 1 == 2 { 3 } else { 4 }").unwrap();
    let output = compiler.output();
    for label in [".Lelse000:", ".Lend001:", ".Lelse002:", ".Lend003:"] {
        assert!(output.contains(label), "{}", output);
    }
    assert!(output.contains("  je .Lelse000"));
    assert!(output.contains("  jmp .Lend003"));
}
