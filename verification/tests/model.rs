use basic_compiler::assembly::{Asm, DataSection, TextSection};
use basic_compiler::codegen::gen_asm;
use basic_compiler::ir::{Ir, IrInst};
use basic_compiler::location::{Location, Point};
use basic_compiler::text::{int_to_string, is_space, str_eq};

#[test]
fn int_to_string_renders_decimal() {
    assert_eq!(int_to_string(0), "0");
    assert_eq!(int_to_string(7), "7");
    assert_eq!(int_to_string(10), "10");
    assert_eq!(int_to_string(12345), "12345");
    assert_eq!(int_to_string(-1), "-1");
    assert_eq!(int_to_string(-120), "-120");
    assert_eq!(int_to_string(i64::MAX), "9223372036854775807");
    assert_eq!(int_to_string(i64::MIN), "-9223372036854775808");
}

#[test]
fn str_eq_compares_by_characters() {
    assert!(str_eq("", ""));
    assert!(str_eq("abc", "abc"));
    assert!(!str_eq("abc", "abd"));
    assert!(!str_eq("abc", "ab"));
    assert!(str_eq("héllo", "héllo"));
    assert!(!str_eq("héllo", "hello"));
}

#[test]
fn is_space_matches_unicode_whitespace() {
    for c in [' ', '\t', '\n', '\r', '\u{00A0}', '\u{2003}', '\u{3000}'] {
        assert!(is_space(c), "{:?} is whitespace", c);
        assert!(c.is_whitespace(), "{:?} agrees with the standard library", c);
    }
    for c in ['a', '0', '_', '"', ',', '\u{200B}'] {
        assert!(!is_space(c), "{:?} is not whitespace", c);
        assert!(!c.is_whitespace(), "{:?} agrees with the standard library", c);
    }
}

#[test]
fn points_and_locations_display_one_indexed() {
    let p = Point::new(0, 0);
    assert_eq!(p.stringify(), "1:1");
    let q = Point::new(2, 7);
    assert_eq!(q.stringify(), "3:8");
    let l = Location { start: p, end: q };
    assert_eq!(l.stringify(), "1:1-3:8");
}

#[test]
fn data_section_entries_render_in_order() {
    let mut dat = DataSection::default();
    dat.define("GREETING", "'hey', 0");
    dat.strlen("GREETING_CNT", "GREETING");
    dat.append("str0", "db", "'hi', 0");
    let mut txt = TextSection::default();
    txt.label("_start");
    txt.inst("ret");
    let program = Asm { data: dat, text: txt };
    let text = program.stringify();
    assert!(text.starts_with("bits 64\nglobal _start\n\n"));
    assert!(text.contains("section .data\n    err_msg db ERR_MSG\n"));
    assert!(text.contains("    %define GREETING 'hey', 0\n"));
    assert!(text.contains("    %strlen GREETING_CNT GREETING\n"));
    assert!(text.contains("    str0 db 'hi', 0\n"));
    assert!(text.contains("\nsection .text\n_start:\n    ret\n"));
    let defined = text.find("%define GREETING").expect("define entry");
    let measured = text.find("%strlen GREETING_CNT").expect("strlen entry");
    let datum = text.find("str0 db").expect("data entry");
    assert!(defined < measured && measured < datum);
}

#[test]
fn text_section_extend_keeps_both_orders() {
    let mut head = TextSection::new();
    head.label("_start");
    head.inst("sub rsp, 8");
    let mut tail = TextSection::new();
    tail.inst("add rsp, 8");
    tail.inst("ret");
    head.extend(tail);
    let program = Asm { data: DataSection::default(), text: head };
    let text = program.stringify();
    let a = text.find("_start:").expect("label");
    let b = text.find("    sub rsp, 8").expect("first instruction");
    let c = text.find("    add rsp, 8").expect("appended instruction");
    let d = text.find("    ret").expect("last instruction");
    assert!(a < b && b < c && c < d);
}

#[test]
fn stringify_is_idempotent() {
    let mut dat = DataSection::default();
    dat.append("str0", "db", "'x', 0");
    let mut txt = TextSection::new();
    txt.label("_start");
    let program = Asm { data: dat, text: txt };
    assert_eq!(program.stringify(), program.stringify());
}

#[test]
fn gen_asm_emits_the_frame_and_the_runtime() {
    let ir = Ir {
        num_globals: 2,
        string_pool: vec![String::from("a"), String::from("b")],
        insts: vec![
            IrInst::GetStaticStr(0),
            IrInst::SetGlobal(0),
            IrInst::GetStaticStr(1),
            IrInst::SetGlobal(1),
            IrInst::GetGlobal(1),
            IrInst::Print,
        ],
    };
    let program = gen_asm(&ir).expect("generation cannot fail on a well-formed program");
    let text = program.stringify();
    assert!(text.contains("sub rsp, 16"));
    assert!(text.contains("add rsp, 16"));
    assert!(text.contains("str0 db 'a', 0"));
    assert!(text.contains("str1 db 'b', 0"));
    assert!(text.contains("mov qword[rbp+8], rax"));
    assert!(text.contains("push qword[rbp+8]"));
    assert!(text.contains("jnz type_error"));
    assert!(text.contains("print_string:"));
    assert!(text.contains("string_length:"));
    assert!(text.contains("type_error:"));
}
