//! The semantic analyzer: resolves identifiers to global-variable slots,
//! builds the string pool, and lowers statements into the flat intermediate
//! representation.
//!
//! Slots are assigned monotonically in declaration order starting at zero,
//! and the mapping is scoped to the whole program. Re-declaring a name
//! allocates a fresh slot and shadows the earlier mapping; the earlier slot
//! is not freed. [`spec_analyze`] is the pass's mathematical statement, and
//! [`sem_analysis`] is proved to return exactly its result.

use crate::ast::{ExprAst, ExprV, StmtAst, StmtV, stmts_view};
use crate::errors::{SemanticError, SemanticErrorV};
use crate::location::Locatable;
use crate::text::str_eq;
use crate::ir::{Ir, IrInst, IrInstV, IrV, insts_view, pool_view};
use crate::location::{Location, LocationV};
use crate::token::{Identifier, IdentifierV};
use vstd::prelude::*;
use vstd::slice::slice_subrange;

verus! {

/// The analyzer state: the name-to-slot mapping and the program built so
/// far.
#[verifier::ext_equal]
pub struct AnState {
    pub mappings: Map<Seq<char>, int>,
    pub ir: IrV,
}

/// The state the analyzer starts in.
pub open spec fn init_an_state() -> AnState {
    AnState {
        mappings: Map::empty(),
        ir: IrV {
            num_globals: 0,
            string_pool: Seq::empty(),
            insts: Seq::empty(),
        },
    }
}

/// The location of an expression, for diagnostics.
pub open spec fn expr_loc(e: ExprV) -> LocationV {
    match e {
        ExprV::Ident(ident) => ident.location,
        ExprV::StrLit(str_lit) => str_lit.location,
    }
}

/// Lowers one expression: a reference becomes `GetGlobal` of its slot, a
/// string literal joins the pool (no deduplication) and becomes
/// `GetStaticStr` of its pool index.
pub open spec fn an_expr(st: AnState, e: ExprV) -> Result<AnState, SemanticErrorV> {
    match e {
        ExprV::Ident(ident) => if st.mappings.dom().contains(ident.name) {
            Ok(
                AnState {
                    mappings: st.mappings,
                    ir: IrV {
                        num_globals: st.ir.num_globals,
                        string_pool: st.ir.string_pool,
                        insts: st.ir.insts.push(IrInstV::GetGlobal(st.mappings[ident.name])),
                    },
                },
            )
        } else {
            Err(SemanticErrorV::NotDefined(ident))
        },
        ExprV::StrLit(str_lit) => Ok(
            AnState {
                mappings: st.mappings,
                ir: IrV {
                    num_globals: st.ir.num_globals,
                    string_pool: st.ir.string_pool.push(str_lit.value),
                    insts: st.ir.insts.push(
                        IrInstV::GetStaticStr(st.ir.string_pool.len() as int),
                    ),
                },
            },
        ),
    }
}

/// Lowers the arguments of a call in order, stopping at the first failure.
pub open spec fn an_args(st: AnState, args: Seq<ExprV>) -> Result<AnState, SemanticErrorV>
    decreases args.len(),
{
    if args.len() == 0 {
        Ok(st)
    } else {
        match an_expr(st, args[0]) {
            Ok(st1) => an_args(st1, args.drop_first()),
            Err(e) => Err(e),
        }
    }
}

/// The location reported for a call with the wrong number of arguments:
/// the whole argument list when there is one, the procedure name when
/// there is none.
pub open spec fn arity_loc(proc: IdentifierV, args: Seq<ExprV>) -> LocationV {
    if args.len() == 0 {
        proc.location
    } else {
        LocationV {
            start: expr_loc(args[0]).start,
            end: expr_loc(args[args.len() - 1]).end,
        }
    }
}

/// Lowers a procedure call: arguments first (for their side effects on the
/// pool), then the arity check of the one built-in, `PRINT`, which takes
/// exactly one argument.
pub open spec fn an_proc_call(st: AnState, proc: IdentifierV, args: Seq<ExprV>) -> Result<
    AnState,
    SemanticErrorV,
> {
    match an_args(st, args) {
        Err(e) => Err(e),
        Ok(st1) => {
            if proc.name == "PRINT"@ {
                if args.len() != 1 {
                    Err(
                        SemanticErrorV::ArityMismatch {
                            location: arity_loc(proc, args),
                            found: args.len() as int,
                        },
                    )
                } else {
                    Ok(
                        AnState {
                            mappings: st1.mappings,
                            ir: IrV {
                                num_globals: st1.ir.num_globals,
                                string_pool: st1.ir.string_pool,
                                insts: st1.ir.insts.push(IrInstV::Print),
                            },
                        },
                    )
                }
            } else {
                Err(SemanticErrorV::UnknownProcedure(proc))
            }
        },
    }
}

/// Lowers one statement.
pub open spec fn an_stmt(st: AnState, stmt: StmtV) -> Result<AnState, SemanticErrorV> {
    match stmt {
        StmtV::ProcCall(proc, args) => an_proc_call(st, proc, args),
        StmtV::VarDecl(ident, init_expr) => match an_expr(st, init_expr) {
            Ok(st1) => Ok(
                AnState {
                    mappings: st1.mappings.insert(ident.name, st1.ir.num_globals),
                    ir: IrV {
                        num_globals: st1.ir.num_globals + 1,
                        string_pool: st1.ir.string_pool,
                        insts: st1.ir.insts.push(IrInstV::SetGlobal(st1.ir.num_globals)),
                    },
                },
            ),
            Err(e) => Err(e),
        },
        StmtV::VarAssign(ident, expr) => if st.mappings.dom().contains(ident.name) {
            match an_expr(st, expr) {
                Ok(st1) => Ok(
                    AnState {
                        mappings: st1.mappings,
                        ir: IrV {
                            num_globals: st1.ir.num_globals,
                            string_pool: st1.ir.string_pool,
                            insts: st1.ir.insts.push(
                                IrInstV::SetGlobal(st.mappings[ident.name]),
                            ),
                        },
                    },
                ),
                Err(e) => Err(e),
            }
        } else {
            Err(SemanticErrorV::NotDeclared(ident))
        },
    }
}

/// Lowers a statement sequence in order, stopping at the first failure.
pub open spec fn an_stmts(st: AnState, stmts: Seq<StmtV>) -> Result<AnState, SemanticErrorV>
    decreases stmts.len(),
{
    if stmts.len() == 0 {
        Ok(st)
    } else {
        match an_stmt(st, stmts[0]) {
            Ok(st1) => an_stmts(st1, stmts.drop_first()),
            Err(e) => Err(e),
        }
    }
}

/// What semantic analysis returns for a program: its intermediate
/// representation, or the first semantic error.
pub open spec fn spec_analyze(stmts: Seq<StmtV>) -> Result<IrV, SemanticErrorV> {
    match an_stmts(init_an_state(), stmts) {
        Ok(st) => Ok(st.ir),
        Err(e) => Err(e),
    }
}

/// How many expressions a statement lowers.
pub open spec fn stmt_expr_count(stmt: StmtV) -> int {
    match stmt {
        StmtV::VarDecl(i, e) => 1,
        StmtV::VarAssign(i, e) => 1,
        StmtV::ProcCall(i, args) => args.len() as int,
    }
}

/// How many expressions a statement sequence lowers.
pub open spec fn expr_count(stmts: Seq<StmtV>) -> int
    decreases stmts.len(),
{
    if stmts.len() == 0 {
        0
    } else {
        stmt_expr_count(stmts[0]) + expr_count(stmts.drop_first())
    }
}

proof fn lemma_expr_count_nonneg(stmts: Seq<StmtV>)
    ensures
        expr_count(stmts) >= 0,
    decreases stmts.len(),
{
    if stmts.len() > 0 {
        lemma_expr_count_nonneg(stmts.drop_first());
    }
}

pub(crate) proof fn lemma_an_args_growth(st: AnState, args: Seq<ExprV>)
    ensures
        an_args(st, args) matches Ok(st1) ==> {
            &&& st1.ir.string_pool.len() <= st.ir.string_pool.len() + args.len()
            &&& st1.ir.num_globals == st.ir.num_globals
            &&& st1.mappings == st.mappings
        },
    decreases args.len(),
{
    if args.len() > 0 {
        match an_expr(st, args[0]) {
            Ok(st1) => {
                lemma_an_args_growth(st1, args.drop_first());
            },
            Err(_) => {},
        }
    }
}

proof fn lemma_an_stmt_growth(st: AnState, stmt: StmtV)
    ensures
        an_stmt(st, stmt) matches Ok(st1) ==> {
            &&& st1.ir.string_pool.len() <= st.ir.string_pool.len() + stmt_expr_count(stmt)
            &&& st.ir.num_globals <= st1.ir.num_globals <= st.ir.num_globals + 1
        },
{
    match stmt {
        StmtV::ProcCall(proc, args) => {
            lemma_an_args_growth(st, args);
        },
        _ => {},
    }
}

/// The invariant the analyzer maintains: slot indices are non-negative,
/// every emitted instruction respects the current slot and pool bounds,
/// and every mapped name resolves to an allocated slot.
pub open spec fn an_inv(st: AnState) -> bool {
    &&& 0 <= st.ir.num_globals
    &&& forall|k: int|
        0 <= k < st.ir.insts.len() ==> crate::ir::wf_inst(
            #[trigger] st.ir.insts[k],
            st.ir.num_globals,
            st.ir.string_pool.len() as int,
        )
    &&& forall|n: Seq<char>|
        st.mappings.dom().contains(n) ==> 0 <= #[trigger] st.mappings[n] < st.ir.num_globals
}

proof fn lemma_an_expr_inv(st: AnState, e: ExprV)
    requires
        an_inv(st),
    ensures
        an_expr(st, e) matches Ok(st1) ==> an_inv(st1),
{
    match an_expr(st, e) {
        Ok(st1) => {
            assert forall|k: int| 0 <= k < st1.ir.insts.len() implies crate::ir::wf_inst(
                #[trigger] st1.ir.insts[k],
                st1.ir.num_globals,
                st1.ir.string_pool.len() as int,
            ) by {
                if k < st.ir.insts.len() {
                    assert(crate::ir::wf_inst(
                        st.ir.insts[k],
                        st.ir.num_globals,
                        st.ir.string_pool.len() as int,
                    ));
                }
            }
        },
        Err(_) => {},
    }
}

proof fn lemma_an_args_inv(st: AnState, args: Seq<ExprV>)
    requires
        an_inv(st),
    ensures
        an_args(st, args) matches Ok(st1) ==> an_inv(st1),
    decreases args.len(),
{
    if args.len() > 0 {
        lemma_an_expr_inv(st, args[0]);
        match an_expr(st, args[0]) {
            Ok(st1) => {
                lemma_an_args_inv(st1, args.drop_first());
            },
            Err(_) => {},
        }
    }
}

proof fn lemma_an_stmt_inv(st: AnState, stmt: StmtV)
    requires
        an_inv(st),
    ensures
        an_stmt(st, stmt) matches Ok(st1) ==> an_inv(st1),
{
    match stmt {
        StmtV::ProcCall(proc, args) => {
            lemma_an_args_inv(st, args);
            lemma_an_args_growth(st, args);
            match an_args(st, args) {
                Ok(st1) => {
                    match an_stmt(st, stmt) {
                        Ok(st2) => {
                            assert forall|k: int|
                                0 <= k < st2.ir.insts.len() implies crate::ir::wf_inst(
                                #[trigger] st2.ir.insts[k],
                                st2.ir.num_globals,
                                st2.ir.string_pool.len() as int,
                            ) by {
                                if k < st1.ir.insts.len() {
                                    assert(crate::ir::wf_inst(
                                        st1.ir.insts[k],
                                        st1.ir.num_globals,
                                        st1.ir.string_pool.len() as int,
                                    ));
                                }
                            }
                        },
                        Err(_) => {},
                    }
                },
                Err(_) => {},
            }
        },
        StmtV::VarDecl(ident, init_expr) => {
            lemma_an_expr_inv(st, init_expr);
            match an_expr(st, init_expr) {
                Ok(st1) => {
                    match an_stmt(st, stmt) {
                        Ok(st2) => {
                            assert forall|k: int|
                                0 <= k < st2.ir.insts.len() implies crate::ir::wf_inst(
                                #[trigger] st2.ir.insts[k],
                                st2.ir.num_globals,
                                st2.ir.string_pool.len() as int,
                            ) by {
                                if k < st1.ir.insts.len() {
                                    assert(crate::ir::wf_inst(
                                        st1.ir.insts[k],
                                        st1.ir.num_globals,
                                        st1.ir.string_pool.len() as int,
                                    ));
                                }
                            }
                        },
                        Err(_) => {},
                    }
                },
                Err(_) => {},
            }
        },
        StmtV::VarAssign(ident, expr) => {
            lemma_an_expr_inv(st, expr);
            if st.mappings.dom().contains(ident.name) {
                match an_expr(st, expr) {
                    Ok(st1) => {
                        match an_stmt(st, stmt) {
                            Ok(st2) => {
                                assert forall|k: int|
                                    0 <= k < st2.ir.insts.len() implies crate::ir::wf_inst(
                                    #[trigger] st2.ir.insts[k],
                                    st2.ir.num_globals,
                                    st2.ir.string_pool.len() as int,
                                ) by {
                                    if k < st1.ir.insts.len() {
                                        assert(crate::ir::wf_inst(
                                            st1.ir.insts[k],
                                            st1.ir.num_globals,
                                            st1.ir.string_pool.len() as int,
                                        ));
                                    }
                                }
                            },
                            Err(_) => {},
                        }
                    },
                    Err(_) => {},
                }
            }
        },
    }
}

/// Analysis preserves its invariant and grows the slot count by at most
/// one per statement and the pool by at most one per lowered expression.
pub proof fn lemma_an_stmts_inv(st: AnState, stmts: Seq<StmtV>)
    requires
        an_inv(st),
    ensures
        an_stmts(st, stmts) matches Ok(st1) ==> {
            &&& an_inv(st1)
            &&& st.ir.num_globals <= st1.ir.num_globals <= st.ir.num_globals + stmts.len()
            &&& st1.ir.string_pool.len() <= st.ir.string_pool.len() + expr_count(stmts)
        },
    decreases stmts.len(),
{
    if stmts.len() > 0 {
        lemma_an_stmt_inv(st, stmts[0]);
        lemma_an_stmt_growth(st, stmts[0]);
        lemma_expr_count_nonneg(stmts.drop_first());
        match an_stmt(st, stmts[0]) {
            Ok(st1) => {
                lemma_an_stmts_inv(st1, stmts.drop_first());
            },
            Err(_) => {},
        }
    }
}

/// A successfully analyzed program of bounded size is well-formed: every
/// slot index lies below `num_globals` and every pool index below the
/// pool length.
pub proof fn lemma_analyze_wf(stmts: Seq<StmtV>)
    requires
        stmts.len() + expr_count(stmts) <= 0x0FFF_FFFF,
    ensures
        spec_analyze(stmts) matches Ok(ir) ==> crate::ir::wf_ir(ir),
{
    lemma_expr_count_nonneg(stmts);
    lemma_an_stmts_inv(init_an_state(), stmts);
}

/// The name-to-slot mapping that an association list denotes: later
/// entries shadow earlier ones.
pub open spec fn ctx_view(entries: Seq<(String, i32)>) -> Map<Seq<char>, int>
    decreases entries.len(),
{
    if entries.len() == 0 {
        Map::empty()
    } else {
        ctx_view(entries.drop_last()).insert(
            entries.last().0@,
            entries.last().1 as int,
        )
    }
}

/// Looks a name up in the association list, preferring the latest entry.
fn ctx_lookup(entries: &[(String, i32)], name: &String) -> (r: Option<i32>)
    ensures
        match r {
            Some(k) => ctx_view(entries@).dom().contains(name@) && ctx_view(entries@)[name@]
                == k as int,
            None => !ctx_view(entries@).dom().contains(name@),
        },
    decreases entries@.len(),
{
    let n = entries.len();
    if n == 0 {
        None
    } else {
        let e = &entries[n - 1];
        if e.0 == *name {
            Some(e.1)
        } else {
            proof {
                assert(entries@.subrange(0, n - 1 as int) =~= entries@.drop_last());
            }
            ctx_lookup(slice_subrange(entries, 0, n - 1), name)
        }
    }
}

proof fn lemma_pool_view_push(s: Seq<String>, x: String)
    ensures
        pool_view(s.push(x)) =~= pool_view(s).push(x@),
{
}

proof fn lemma_insts_view_push(s: Seq<IrInst>, x: IrInst)
    ensures
        insts_view(s.push(x)) =~= insts_view(s).push(x@),
{
}

/// The analyzer state that the executable pass maintains.
pub open spec fn exec_an_state(entries: Seq<(String, i32)>, ir: Ir) -> AnState {
    AnState { mappings: ctx_view(entries), ir: ir@ }
}

/// Lowers one expression into `ir`, resolving references through the
/// association list.
fn analyze_expr(
    expr_ast: &ExprAst,
    ir: &mut Ir,
    entries: &Vec<(String, i32)>,
) -> (r: Result<(), SemanticError>)
    requires
        old(ir).string_pool@.len() < 0x7FFF_FFFF,
    ensures
        match an_expr(exec_an_state(entries@, *old(ir)), expr_ast@) {
            Ok(st1) => r is Ok && exec_an_state(entries@, *final(ir)) == st1,
            Err(e) => r matches Err(q) && q@ == e,
        },
{
    match expr_ast {
        ExprAst::Ident(ident) => {
            match ctx_lookup(entries.as_slice(), &ident.name) {
                Some(var_index) => {
                    let inst = IrInst::GetGlobal(var_index);
                    proof {
                        lemma_insts_view_push(ir.insts@, inst);
                    }
                    ir.insts.push(inst);
                    proof {
                        assert(exec_an_state(entries@, *ir) =~= an_expr(
                            exec_an_state(entries@, *old(ir)),
                            expr_ast@,
                        )->Ok_0);
                    }
                    Ok(())
                },
                None => Err(SemanticError::NotDefined(ident.clone())),
            }
        },
        ExprAst::StrLit(str_lit) => {
            let index = ir.string_pool.len();
            proof {
                lemma_pool_view_push(ir.string_pool@, str_lit.value);
            }
            ir.string_pool.push(str_lit.value.clone());
            let inst = IrInst::GetStaticStr(index as i32);
            proof {
                lemma_insts_view_push(ir.insts@, inst);
            }
            ir.insts.push(inst);
            proof {
                assert(exec_an_state(entries@, *ir) =~= an_expr(
                    exec_an_state(entries@, *old(ir)),
                    expr_ast@,
                )->Ok_0);
            }
            Ok(())
        },
    }
}

/// Lowers a procedure call into `ir`: the arguments in order, then the
/// arity check of the `PRINT` built-in.
#[verifier::loop_isolation(false)]
fn analyze_proc_call(
    proc: &Identifier,
    args: &Vec<ExprAst>,
    ir: &mut Ir,
    entries: &Vec<(String, i32)>,
) -> (r: Result<(), SemanticError>)
    requires
        old(ir).string_pool@.len() + args@.len() < 0x7FFF_FFFF,
    ensures
        match an_proc_call(exec_an_state(entries@, *old(ir)), proc@, crate::ast::exprs_view(
            args@,
        )) {
            Ok(st1) => r is Ok && exec_an_state(entries@, *final(ir)) == st1,
            Err(e) => r matches Err(q) && q@ == e,
        },
{
    let ghost argsv = crate::ast::exprs_view(args@);
    let ghost st0 = exec_an_state(entries@, *ir);
    proof {
        assert(argsv.skip(0) =~= argsv);
    }
    let mut i: usize = 0;
    while i < args.len()
        invariant
            i <= args@.len(),
            ir.string_pool@.len() <= old(ir).string_pool@.len() + i,
            an_args(st0, argsv) == an_args(exec_an_state(entries@, *ir), argsv.skip(i as int)),
        decreases args@.len() - i,
    {
        proof {
            assert(argsv.skip(i as int)[0] == args@[i as int]@);
            assert(argsv.skip(i as int).drop_first() =~= argsv.skip(i as int + 1));
        }
        match analyze_expr(&args[i], ir, entries) {
            Ok(u) => {},
            Err(e) => {
                return Err(e);
            },
        }
        i = i + 1;
    }
    proof {
        assert(argsv.skip(args@.len() as int) =~= Seq::<ExprV>::empty());
        assert(an_args(st0, argsv) == Ok::<AnState, SemanticErrorV>(
            exec_an_state(entries@, *ir),
        ));
    }

    if str_eq(proc.name.as_str(), "PRINT") {
        let num_args = args.len();
        if num_args > 1 {
            let start = args[0].locate().start;
            let end = args[num_args - 1].locate().end;
            proof {
                assert(expr_loc(argsv[0]) == args@[0].spec_locate()@);
                assert(expr_loc(argsv[argsv.len() - 1]) == args@[args@.len() - 1].spec_locate()@);
            }
            Err(
                SemanticError::ArityMismatch {
                    location: Location { start, end },
                    found: num_args,
                },
            )
        } else if num_args == 0 {
            Err(SemanticError::ArityMismatch { location: proc.locate(), found: 0 })
        } else {
            let inst = IrInst::Print;
            proof {
                lemma_insts_view_push(ir.insts@, inst);
            }
            ir.insts.push(inst);
            proof {
                assert(exec_an_state(entries@, *ir) =~= an_proc_call(st0, proc@, argsv)->Ok_0);
            }
            Ok(())
        }
    } else {
        Err(SemanticError::UnknownProcedure(proc.clone()))
    }
}

/// Analyzes the program's statements in order and builds its intermediate
/// representation, or reports the first semantic error.
#[verifier::loop_isolation(false)]
pub fn sem_analysis(stmts: &[StmtAst]) -> (r: Result<Ir, SemanticError>)
    requires
        stmts@.len() + expr_count(stmts_view(stmts@)) <= 0x0FFF_FFFF,
    ensures
        match spec_analyze(stmts_view(stmts@)) {
            Ok(irv) => r matches Ok(ir) && ir@ == irv,
            Err(e) => r matches Err(q) && q@ == e,
        },
{
    let ghost all = stmts_view(stmts@);
    let mut entries: Vec<(String, i32)> = Vec::new();
    let mut ir = Ir::default();
    let mut i: usize = 0;

    proof {
        lemma_expr_count_nonneg(all);
        assert(ctx_view(entries@) =~= Map::<Seq<char>, int>::empty());
        assert(exec_an_state(entries@, ir) =~= init_an_state());
        assert(all.skip(0) =~= all);
    }

    while i < stmts.len()
        invariant
            i <= stmts@.len(),
            ir.num_globals as int + (stmts@.len() - i) <= 0x0FFF_FFFF,
            0 <= ir.num_globals as int,
            ir.string_pool@.len() + expr_count(all.skip(i as int)) <= 0x0FFF_FFFF,
            an_stmts(init_an_state(), all) == an_stmts(
                exec_an_state(entries@, ir),
                all.skip(i as int),
            ),
        decreases stmts@.len() - i,
    {
        let ghost rest = all.skip(i as int);
        let ghost st_i = exec_an_state(entries@, ir);
        proof {
            assert(rest[0] == stmts@[i as int]@);
            assert(rest.drop_first() =~= all.skip(i as int + 1));
            lemma_expr_count_nonneg(rest.drop_first());
            lemma_an_stmt_growth(st_i, rest[0]);
        }
        match &stmts[i] {
            StmtAst::ProcCall(proc, args) => {
                match analyze_proc_call(proc, args, &mut ir, &entries) {
                    Ok(u) => {},
                    Err(e) => {
                        return Err(e);
                    },
                }
            },
            StmtAst::VarDecl(var_ident, init_expr) => {
                match analyze_expr(init_expr, &mut ir, &entries) {
                    Ok(u) => {},
                    Err(e) => {
                        return Err(e);
                    },
                }
                let var_index = ir.num_globals;
                let ghost entries0 = entries@;
                entries.push((var_ident.name.clone(), var_index));
                let inst = IrInst::SetGlobal(var_index);
                proof {
                    lemma_insts_view_push(ir.insts@, inst);
                    assert(entries@.drop_last() =~= entries0);
                    assert(ctx_view(entries@) =~= ctx_view(entries0).insert(
                        var_ident.name@,
                        var_index as int,
                    ));
                }
                ir.insts.push(inst);
                ir.num_globals = ir.num_globals + 1;
                proof {
                    assert(exec_an_state(entries@, ir) =~= an_stmt(st_i, rest[0])->Ok_0);
                }
            },
            StmtAst::VarAssign(var_ident, expr) => {
                match ctx_lookup(entries.as_slice(), &var_ident.name) {
                    Some(var_index) => {
                        match analyze_expr(expr, &mut ir, &entries) {
                            Ok(u) => {},
                            Err(e) => {
                                return Err(e);
                            },
                        }
                        let inst = IrInst::SetGlobal(var_index);
                        proof {
                            lemma_insts_view_push(ir.insts@, inst);
                        }
                        ir.insts.push(inst);
                        proof {
                            assert(exec_an_state(entries@, ir) =~= an_stmt(st_i, rest[0])->Ok_0);
                        }
                    },
                    None => {
                        return Err(SemanticError::NotDeclared(var_ident.clone()));
                    },
                }
            },
        }
        i = i + 1;
    }
    proof {
        assert(all.skip(stmts@.len() as int) =~= Seq::<StmtV>::empty());
    }
    Ok(ir)
}

} // verus!
