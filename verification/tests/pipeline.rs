use basic_compiler::compile;
use basic_compiler::errors::{CompileError, SemanticError};
use basic_compiler::ir::IrInst;
use basic_compiler::parser::parse;
use basic_compiler::sem_analysis::sem_analysis;
use basic_compiler::tokenizer::tokenize;

fn analyze(src: &str) -> Result<basic_compiler::ir::Ir, SemanticError> {
    let tokens = tokenize(src).expect("tokenization should succeed");
    let ast = parse(&tokens).expect("parsing should succeed");
    sem_analysis(&ast)
}

#[test]
fn decl_and_print_lower_to_expected_ir() {
    let ir = analyze("VAR MSG = \"hi\"\nPRINT MSG").expect("analysis should succeed");
    assert_eq!(ir.num_globals, 1);
    assert_eq!(ir.string_pool.len(), 1);
    assert_eq!(ir.string_pool[0], "hi");
    assert_eq!(ir.insts.len(), 4);
    assert!(matches!(ir.insts[0], IrInst::GetStaticStr(0)));
    assert!(matches!(ir.insts[1], IrInst::SetGlobal(0)));
    assert!(matches!(ir.insts[2], IrInst::GetGlobal(0)));
    assert!(matches!(ir.insts[3], IrInst::Print));
}

#[test]
fn print_with_two_arguments_is_an_arity_mismatch() {
    let err = analyze("PRINT \"hi\", \"there\"").expect_err("two arguments must be rejected");
    match err {
        SemanticError::ArityMismatch { location, found } => {
            assert_eq!(found, 2);
            assert_eq!(location.stringify(), "1:7-1:19");
        }
        other => panic!("expected an arity mismatch, got {:?}", other),
    }
}

#[test]
fn print_without_arguments_is_an_arity_mismatch() {
    let err = analyze("PRINT").expect_err("zero arguments must be rejected");
    match err {
        SemanticError::ArityMismatch { location, found } => {
            assert_eq!(found, 0);
            assert_eq!(location.stringify(), "1:1-1:5");
        }
        other => panic!("expected an arity mismatch, got {:?}", other),
    }
}

#[test]
fn assignment_to_undeclared_variable_is_rejected() {
    let err = analyze("X = \"hi\"").expect_err("X was never declared");
    match err {
        SemanticError::NotDeclared(ident) => assert_eq!(ident.name, "X"),
        other => panic!("expected an undeclared-variable error, got {:?}", other),
    }
}

#[test]
fn unterminated_string_literal_is_reported_at_the_opening_quote() {
    let err = compile("PRINT \"hi").expect_err("the literal is unterminated");
    match err {
        CompileError::Tokenization(e) => {
            assert_eq!(e.opened_at.stringify(), "1:7");
        }
        other => panic!("expected a tokenization error, got {:?}", other),
    }
}

#[test]
fn unterminated_string_literal_before_a_line_break() {
    let err = compile("PRINT \"hi\nPRINT \"there\"").expect_err("the first literal is open");
    match err {
        CompileError::Tokenization(e) => {
            assert_eq!(e.opened_at.stringify(), "1:7");
        }
        other => panic!("expected a tokenization error, got {:?}", other),
    }
}

#[test]
fn referencing_an_identifier_before_its_declaration_names_it() {
    let err = analyze("PRINT X").expect_err("X was never declared");
    match err {
        SemanticError::NotDefined(ident) => assert_eq!(ident.name, "X"),
        other => panic!("expected an undefined-variable error, got {:?}", other),
    }
    // a declaration's initializer runs before the slot exists
    let err = analyze("VAR X = Y").expect_err("Y was never declared");
    match err {
        SemanticError::NotDefined(ident) => assert_eq!(ident.name, "Y"),
        other => panic!("expected an undefined-variable error, got {:?}", other),
    }
    // declaring after the reference does not help
    let err = analyze("PRINT X\nVAR X = \"hi\"").expect_err("the reference comes first");
    assert!(matches!(err, SemanticError::NotDefined(i) if i.name == "X"));
}

#[test]
fn calling_an_unknown_procedure_is_rejected() {
    let err = analyze("SHOW \"hi\"").expect_err("only PRINT exists");
    match err {
        SemanticError::UnknownProcedure(ident) => assert_eq!(ident.name, "SHOW"),
        other => panic!("expected an unknown-procedure error, got {:?}", other),
    }
}

#[test]
fn print_accepts_a_declared_variable_or_a_literal() {
    let ir = analyze("PRINT \"direct\"").expect("a literal argument");
    assert_eq!(ir.num_globals, 0);
    assert_eq!(ir.insts.len(), 2);
    assert!(matches!(ir.insts[0], IrInst::GetStaticStr(0)));
    assert!(matches!(ir.insts[1], IrInst::Print));
}

#[test]
fn compiling_twice_yields_identical_text() {
    let src = "VAR MSG = \"hi\"\nPRINT MSG\n";
    let first = compile(src).expect("compilation should succeed");
    let second = compile(src).expect("compilation should succeed");
    assert_eq!(first, second);
}

#[test]
fn generated_assembly_for_decl_and_print() {
    let text = compile("VAR MSG = \"hi\"\nPRINT MSG").expect("compilation should succeed");
    let lines = [
        "bits 64",
        "global _start",
        "",
        "%define ERR_MSG 'Type Error', 0",
        "%strlen ERR_MSG_CNT ERR_MSG",
        "",
        "%define EXIT_FAILURE 1",
        "",
        "%define FD_STDOUT 1",
        "%define FD_STDERR 2",
        "",
        "%define SYS_EXIT 60",
        "%define SYS_WRITE 1",
        "",
        "%define TYPE_STR 1",
        "",
        "section .data",
        "    err_msg db ERR_MSG",
        "    str0 db 'hi', 0",
        "",
        "section .text",
        "_start:",
        "    sub rsp, 8",
        "    mov rbp, rsp",
        "    push str0",
        "    push TYPE_STR",
        "    add rsp, 8",
        "    pop rax",
        "    mov qword[rbp+0], rax",
        "    push qword[rbp+0]",
        "    push TYPE_STR",
        "    pop rax",
        "    cmp rax, TYPE_STR",
        "    jnz type_error",
        "    pop rdi",
        "    call print_string",
        "    add rsp, 8",
        "    mov rax, SYS_EXIT",
        "    xor rdi, rdi  ; exit code",
        "    syscall",
        "print_string:",
        "    call string_length",
        "    mov rdx, rax  ; length",
        "    mov rax, SYS_WRITE",
        "    mov rsi, rdi  ; address",
        "    mov rdi, FD_STDOUT",
        "    syscall",
        "    ret",
        "string_length:",
        "    xor rax, rax",
        ".loop:",
        "    cmp byte[rdi+rax], 0",
        "    je .end",
        "    inc rax",
        "    jmp .loop",
        ".end:",
        "    ret",
        "type_error:",
        "    mov rax, SYS_WRITE",
        "    mov rdi, FD_STDERR",
        "    mov rsi, err_msg",
        "    mov rdx, ERR_MSG_CNT",
        "    syscall",
        "    mov rax, SYS_EXIT",
        "    mov rdi, EXIT_FAILURE",
        "    syscall",
    ];
    let mut expected = String::new();
    for line in lines {
        expected.push_str(line);
        expected.push_str("\n");
    }
    assert_eq!(text, expected);
}

#[test]
fn empty_source_compiles_to_an_empty_program() {
    let text = compile("").expect("an empty program is well-formed");
    assert!(text.contains("sub rsp, 0"));
    assert!(text.contains("section .data"));
    assert!(!text.contains("str0"));
}

#[test]
fn blank_lines_are_ignored() {
    let ir = analyze("\n\nVAR A = \"x\"\n\n\nPRINT A\n\n").expect("analysis should succeed");
    assert_eq!(ir.num_globals, 1);
    assert_eq!(ir.insts.len(), 4);
}

#[test]
fn slots_are_allocated_in_declaration_order() {
    let ir = analyze("VAR A = \"1\"\nVAR B = \"2\"\nVAR C = \"3\"\nA = \"4\"")
        .expect("analysis should succeed");
    assert_eq!(ir.num_globals, 3);
    assert!(matches!(ir.insts[1], IrInst::SetGlobal(0)));
    assert!(matches!(ir.insts[3], IrInst::SetGlobal(1)));
    assert!(matches!(ir.insts[5], IrInst::SetGlobal(2)));
    // re-assigning A writes to the slot its declaration allocated
    assert!(matches!(ir.insts[7], IrInst::SetGlobal(0)));
}

#[test]
fn redeclaration_allocates_a_fresh_slot_and_shadows() {
    let ir = analyze("VAR A = \"1\"\nVAR A = \"2\"\nPRINT A").expect("analysis should succeed");
    assert_eq!(ir.num_globals, 2);
    assert!(matches!(ir.insts[1], IrInst::SetGlobal(0)));
    assert!(matches!(ir.insts[3], IrInst::SetGlobal(1)));
    // the reference reads the newest slot
    assert!(matches!(ir.insts[4], IrInst::GetGlobal(1)));
}

#[test]
fn repeated_literals_are_not_deduplicated() {
    let ir = analyze("VAR A = \"x\"\nVAR B = \"x\"").expect("analysis should succeed");
    assert_eq!(ir.string_pool.len(), 2);
    assert_eq!(ir.string_pool[0], "x");
    assert_eq!(ir.string_pool[1], "x");
}

#[test]
fn data_section_has_one_entry_per_literal_in_source_order() {
    let text = compile("VAR A = \"one\"\nPRINT \"two\"\nA = \"three\"")
        .expect("compilation should succeed");
    let one = text.find("str0 db 'one', 0").expect("first literal entry");
    let two = text.find("str1 db 'two', 0").expect("second literal entry");
    let three = text.find("str2 db 'three', 0").expect("third literal entry");
    assert!(one < two && two < three);
    assert!(text.contains("sub rsp, 8"));
}
