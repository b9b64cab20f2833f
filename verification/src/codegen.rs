//! The code generator: a pure fold over the instruction sequence of a
//! well-formed program, emitting its data section, its entry point, and
//! the fixed runtime routines.
//!
//! Every value pushed on the operand stack is followed by a one-word type
//! tag; consumption points pop the tag and, for `Print`, compare it
//! against `TYPE_STR` and jump to the fatal type-error routine on a
//! mismatch. Generation cannot fail once given a well-formed program.

use crate::assembly::{Asm, AsmV, DataItemV, DataSection, TextItemV, TextSection};
use crate::ir::{Ir, IrInst, IrInstV, IrV, wf_ir};
use crate::text::{dec_str, int_to_string};
use vstd::prelude::*;

verus! {

/// The data section entry for pool index `i` holding `value`: a
/// null-terminated byte string named after the index.
pub open spec fn pool_data_item(i: int, value: Seq<char>) -> DataItemV {
    DataItemV::Data {
        name: "str"@ + dec_str(i),
        size: "db"@,
        values: "'"@ + value + "', 0"@,
    }
}

/// The data section entries for the first `i` pool entries.
pub open spec fn pool_data(pool: Seq<Seq<char>>, i: int) -> Seq<DataItemV>
    decreases i,
{
    if i <= 0 {
        Seq::empty()
    } else {
        pool_data(pool, i - 1).push(pool_data_item(i - 1, pool[i - 1]))
    }
}

/// The text emitted for one instruction.
pub open spec fn inst_items(inst: IrInstV) -> Seq<TextItemV> {
    match inst {
        IrInstV::GetStaticStr(i) => seq![
            TextItemV::Instruction("push str"@ + dec_str(i)),
            TextItemV::Instruction("push TYPE_STR"@),
        ],
        IrInstV::GetGlobal(i) => seq![
            TextItemV::Instruction("push qword[rbp+"@ + dec_str(i * 8) + "]"@),
            TextItemV::Instruction("push TYPE_STR"@),
        ],
        IrInstV::SetGlobal(i) => seq![
            TextItemV::Instruction("add rsp, 8"@),
            TextItemV::Instruction("pop rax"@),
            TextItemV::Instruction("mov qword[rbp+"@ + dec_str(i * 8) + "], rax"@),
        ],
        IrInstV::Print => seq![
            TextItemV::Instruction("pop rax"@),
            TextItemV::Instruction("cmp rax, TYPE_STR"@),
            TextItemV::Instruction("jnz type_error"@),
            TextItemV::Instruction("pop rdi"@),
            TextItemV::Instruction("call print_string"@),
        ],
    }
}

/// The text emitted for the first `i` instructions.
pub open spec fn insts_items(insts: Seq<IrInstV>, i: int) -> Seq<TextItemV>
    decreases i,
{
    if i <= 0 {
        Seq::empty()
    } else {
        insts_items(insts, i - 1) + inst_items(insts[i - 1])
    }
}

/// The entry point: `_start` reserves `num_globals * 8` bytes for the
/// global-variable frame and points `rbp` at it.
pub open spec fn text_head(num_globals: int) -> Seq<TextItemV> {
    seq![
        TextItemV::Label("_start"@),
        TextItemV::Instruction("sub rsp, "@ + dec_str(num_globals * 8)),
        TextItemV::Instruction("mov rbp, rsp"@),
    ]
}

/// What follows the program's instructions: the frame is released, the
/// process exits successfully, and the fixed runtime routines
/// `print_string`, `string_length` and `type_error` close the section.
pub open spec fn text_tail(num_globals: int) -> Seq<TextItemV> {
    seq![
        TextItemV::Instruction("add rsp, "@ + dec_str(num_globals * 8)),
        TextItemV::Instruction("mov rax, SYS_EXIT"@),
        TextItemV::Instruction("xor rdi, rdi  ; exit code"@),
        TextItemV::Instruction("syscall"@),
        TextItemV::Label("print_string"@),
        TextItemV::Instruction("call string_length"@),
        TextItemV::Instruction("mov rdx, rax  ; length"@),
        TextItemV::Instruction("mov rax, SYS_WRITE"@),
        TextItemV::Instruction("mov rsi, rdi  ; address"@),
        TextItemV::Instruction("mov rdi, FD_STDOUT"@),
        TextItemV::Instruction("syscall"@),
        TextItemV::Instruction("ret"@),
        TextItemV::Label("string_length"@),
        TextItemV::Instruction("xor rax, rax"@),
        TextItemV::Label(".loop"@),
        TextItemV::Instruction("cmp byte[rdi+rax], 0"@),
        TextItemV::Instruction("je .end"@),
        TextItemV::Instruction("inc rax"@),
        TextItemV::Instruction("jmp .loop"@),
        TextItemV::Label(".end"@),
        TextItemV::Instruction("ret"@),
        TextItemV::Label("type_error"@),
        TextItemV::Instruction("mov rax, SYS_WRITE"@),
        TextItemV::Instruction("mov rdi, FD_STDERR"@),
        TextItemV::Instruction("mov rsi, err_msg"@),
        TextItemV::Instruction("mov rdx, ERR_MSG_CNT"@),
        TextItemV::Instruction("syscall"@),
        TextItemV::Instruction("mov rax, SYS_EXIT"@),
        TextItemV::Instruction("mov rdi, EXIT_FAILURE"@),
        TextItemV::Instruction("syscall"@),
    ]
}

/// What generation returns for a well-formed program: one data entry per
/// pool entry in order, and the entry point, the lowered instructions and
/// the runtime routines in the text section.
pub open spec fn spec_generate(ir: IrV) -> AsmV {
    AsmV {
        data: pool_data(ir.string_pool, ir.string_pool.len() as int),
        text: text_head(ir.num_globals) + insts_items(ir.insts, ir.insts.len() as int)
            + text_tail(ir.num_globals),
    }
}

/// Generates the assembly program of a well-formed intermediate
/// representation. Generation always succeeds: the well-formedness
/// invariant guarantees every slot and pool index is valid.
#[verifier::loop_isolation(false)]
pub fn gen_asm(ir: &Ir) -> (r: Result<Asm, String>)
    requires
        wf_ir(ir@),
    ensures
        r matches Ok(a) && a@ == spec_generate(ir@),
{
    let max_stack_size: i32 = ir.num_globals * 8;

    let mut dat = DataSection::default();
    let mut txt = TextSection::default();

    let n = ir.string_pool.len();
    let mut i: usize = 0;
    while i < n
        invariant
            n == ir.string_pool@.len(),
            i <= n,
            dat@ == pool_data(ir@.string_pool, i as int),
        decreases n - i,
    {
        let mut name = String::from_str("str");
        let num = int_to_string(i as i64);
        name.append(num.as_str());
        let mut values = String::from_str("'");
        values.append(ir.string_pool[i].as_str());
        values.append("', 0");
        dat.append(name.as_str(), "db", values.as_str());
        proof {
            assert(ir@.string_pool[i as int] == ir.string_pool@[i as int]@);
            assert(dat@ =~= pool_data(ir@.string_pool, i as int + 1));
        }
        i = i + 1;
    }

    txt.label("_start");
    let mut sub_inst = String::from_str("sub rsp, ");
    let stack_size_text = int_to_string(max_stack_size as i64);
    sub_inst.append(stack_size_text.as_str());
    txt.inst(sub_inst.as_str());
    txt.inst("mov rbp, rsp");
    proof {
        assert(txt@ =~= text_head(ir@.num_globals));
        assert(text_head(ir@.num_globals) + insts_items(ir@.insts, 0int) =~= txt@);
    }

    let m = ir.insts.len();
    let mut j: usize = 0;
    while j < m
        invariant
            m == ir.insts@.len(),
            j <= m,
            txt@ == text_head(ir@.num_globals) + insts_items(ir@.insts, j as int),
        decreases m - j,
    {
        proof {
            assert(ir@.insts[j as int] == ir.insts@[j as int]@);
        }
        match &ir.insts[j] {
            IrInst::GetStaticStr(index) => {
                let mut s = String::from_str("push str");
                let num = int_to_string(*index as i64);
                s.append(num.as_str());
                txt.inst(s.as_str());
                txt.inst("push TYPE_STR");
            },
            IrInst::GetGlobal(index) => {
                let mut s = String::from_str("push qword[rbp+");
                let num = int_to_string((*index * 8) as i64);
                s.append(num.as_str());
                s.append("]");
                txt.inst(s.as_str());
                txt.inst("push TYPE_STR");
            },
            IrInst::SetGlobal(index) => {
                txt.inst("add rsp, 8");
                txt.inst("pop rax");
                let mut s = String::from_str("mov qword[rbp+");
                let num = int_to_string((*index * 8) as i64);
                s.append(num.as_str());
                s.append("], rax");
                txt.inst(s.as_str());
            },
            IrInst::Print => {
                txt.inst("pop rax");
                txt.inst("cmp rax, TYPE_STR");
                txt.inst("jnz type_error");
                txt.inst("pop rdi");
                txt.inst("call print_string");
            },
        }
        proof {
            assert(txt@ =~= text_head(ir@.num_globals) + insts_items(ir@.insts, j as int + 1));
        }
        j = j + 1;
    }

    let mut add_inst = String::from_str("add rsp, ");
    add_inst.append(stack_size_text.as_str());
    txt.inst(add_inst.as_str());

    txt.inst("mov rax, SYS_EXIT");
    txt.inst("xor rdi, rdi  ; exit code");
    txt.inst("syscall");

    txt.label("print_string");
    txt.inst("call string_length");
    txt.inst("mov rdx, rax  ; length");
    txt.inst("mov rax, SYS_WRITE");
    txt.inst("mov rsi, rdi  ; address");
    txt.inst("mov rdi, FD_STDOUT");
    txt.inst("syscall");
    txt.inst("ret");

    txt.label("string_length");
    txt.inst("xor rax, rax");
    txt.label(".loop");
    txt.inst("cmp byte[rdi+rax], 0");
    txt.inst("je .end");
    txt.inst("inc rax");
    txt.inst("jmp .loop");
    txt.label(".end");
    txt.inst("ret");

    txt.label("type_error");
    txt.inst("mov rax, SYS_WRITE");
    txt.inst("mov rdi, FD_STDERR");
    txt.inst("mov rsi, err_msg");
    txt.inst("mov rdx, ERR_MSG_CNT");
    txt.inst("syscall");
    txt.inst("mov rax, SYS_EXIT");
    txt.inst("mov rdi, EXIT_FAILURE");
    txt.inst("syscall");

    proof {
        assert(txt@ =~= text_head(ir@.num_globals) + insts_items(
            ir@.insts,
            ir@.insts.len() as int,
        ) + text_tail(ir@.num_globals));
    }

    Ok(Asm { data: dat, text: txt })
}

} // verus!
