//! The flat, architecture-neutral intermediate representation produced by
//! semantic analysis and consumed by code generation.
//!
//! The instructions describe an implicit operand stack: the two `Get`
//! instructions push one tagged value, `SetGlobal` pops one, and `Print`
//! pops and prints one.

use vstd::prelude::*;

verus! {

/// Mathematical model of an [`IrInst`].
#[verifier::ext_equal]
pub enum IrInstV {
    GetStaticStr(int),
    GetGlobal(int),
    SetGlobal(int),
    Print,
}

/// Mathematical model of an [`Ir`].
#[verifier::ext_equal]
pub struct IrV {
    pub num_globals: int,
    pub string_pool: Seq<Seq<char>>,
    pub insts: Seq<IrInstV>,
}

/// One instruction of the intermediate representation.
#[derive(Debug)]
pub enum IrInst {
    /// Pushes the address of the string pool entry with the given index.
    GetStaticStr(i32),
    /// Pushes the value of the global variable in the given slot.
    GetGlobal(i32),
    /// Pops a value into the global variable in the given slot.
    SetGlobal(i32),
    /// Pops a value and prints it.
    Print,
}

impl View for IrInst {
    type V = IrInstV;

    open spec fn view(&self) -> IrInstV {
        match self {
            IrInst::GetStaticStr(i) => IrInstV::GetStaticStr(*i as int),
            IrInst::GetGlobal(i) => IrInstV::GetGlobal(*i as int),
            IrInst::SetGlobal(i) => IrInstV::SetGlobal(*i as int),
            IrInst::Print => IrInstV::Print,
        }
    }
}

/// The views of the string pool.
pub open spec fn pool_view(s: Seq<String>) -> Seq<Seq<char>> {
    s.map_values(|x: String| x@)
}

/// The views of an instruction sequence.
pub open spec fn insts_view(s: Seq<IrInst>) -> Seq<IrInstV> {
    s.map_values(|x: IrInst| x@)
}

/// The intermediate representation of a whole program: the number of
/// global-variable slots, the string pool in emission order, and the
/// instruction sequence.
#[derive(Debug)]
pub struct Ir {
    pub num_globals: i32,
    pub string_pool: Vec<String>,
    pub insts: Vec<IrInst>,
}

impl View for Ir {
    type V = IrV;

    open spec fn view(&self) -> IrV {
        IrV {
            num_globals: self.num_globals as int,
            string_pool: pool_view(self.string_pool@),
            insts: insts_view(self.insts@),
        }
    }
}

impl Default for Ir {
    /// An empty program: no globals, no pool entries, no instructions.
    fn default() -> (r: Self)
        ensures
            r@ == (IrV {
                num_globals: 0,
                string_pool: Seq::<Seq<char>>::empty(),
                insts: Seq::<IrInstV>::empty(),
            }),
    {
        let r = Ir { num_globals: 0, string_pool: Vec::new(), insts: Vec::new() };
        proof {
            assert(pool_view(r.string_pool@) =~= Seq::<Seq<char>>::empty());
            assert(insts_view(r.insts@) =~= Seq::<IrInstV>::empty());
        }
        r
    }
}

/// Whether one instruction respects the slot and pool bounds of its
/// program.
pub open spec fn wf_inst(inst: IrInstV, num_globals: int, pool_len: int) -> bool {
    match inst {
        IrInstV::GetStaticStr(i) => 0 <= i < pool_len,
        IrInstV::GetGlobal(i) => 0 <= i < num_globals,
        IrInstV::SetGlobal(i) => 0 <= i < num_globals,
        IrInstV::Print => true,
    }
}

/// The invariant of a well-formed program: every slot index lies below
/// `num_globals`, every pool index below the pool length, and both counts
/// stay small enough for the generator's 32-bit frame arithmetic.
pub open spec fn wf_ir(ir: IrV) -> bool {
    &&& 0 <= ir.num_globals <= 0x0FFF_FFFF
    &&& ir.string_pool.len() <= 0x0FFF_FFFF
    &&& forall|i: int|
        0 <= i < ir.insts.len() ==> wf_inst(#[trigger] ir.insts[i], ir.num_globals, ir.string_pool.len() as int)
}

} // verus!
