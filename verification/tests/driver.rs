use basic_compiler::{Target, get_io_info};
use std::str::FromStr;

#[test]
fn output_paths_replace_the_extension() {
    let io = get_io_info("dir/prog.bas").expect("a plain path");
    assert_eq!(io.input.src_path, "dir/prog.bas");
    assert_eq!(io.output.ast_path, "dir/prog.ast.json");
    assert_eq!(io.output.asm_path, "dir/prog.s");
    assert_eq!(io.output.obj_path, "dir/prog.o");
    assert_eq!(io.output.bin_path, "dir/prog.bin");
}

#[test]
fn output_paths_without_an_extension_append_one() {
    let io = get_io_info("prog").expect("a bare file name");
    assert_eq!(io.output.asm_path, "prog.s");
    assert_eq!(io.output.bin_path, "prog.bin");
}

#[test]
fn only_the_last_extension_is_replaced() {
    let io = get_io_info("a.tar.gz").expect("a double extension");
    assert_eq!(io.output.asm_path, "a.tar.s");
}

#[test]
fn a_leading_dot_is_a_hidden_file_not_an_extension() {
    let io = get_io_info("dir/.hidden").expect("a hidden file");
    assert_eq!(io.output.asm_path, "dir/.hidden.s");
}

#[test]
fn empty_and_root_paths_have_no_directory_info() {
    assert_eq!(get_io_info("").expect_err("empty path"), "Failed to get directory info");
    assert_eq!(get_io_info("/").expect_err("root path"), "Failed to get directory info");
}

#[test]
fn trailing_slash_and_dot_components_have_no_file_name() {
    let msg = "Failed to get name of the source file";
    assert_eq!(get_io_info("dir/").expect_err("no final component"), msg);
    assert_eq!(get_io_info("dir/.").expect_err("a dot component"), msg);
    assert_eq!(get_io_info("dir/..").expect_err("a dot-dot component"), msg);
}

#[test]
fn target_names_parse_and_print() {
    assert_eq!(Target::from_str("x86_64-linux").expect("a known target"), Target::X64Linux);
    assert_eq!(Target::from_str("x86_64-darwin").expect("a known target"), Target::X64Darwin);
    assert!(Target::from_str("dotnet").is_err());
    assert!(Target::from_str("riscv").is_err());
    assert_eq!(Target::X64Linux.name(), "x86_64-linux");
    assert_eq!(Target::X64Darwin.name(), "x86_64-darwin");
    assert_eq!(Target::Dotnet.name(), "dotnet");
}
