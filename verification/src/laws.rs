//! Laws that relate the pipeline's stages: a parsed program is never
//! larger than its token sequence, analysis allocates slots in declaration
//! order and never emits an invalid index, and generation lays the data
//! section and frame out exactly as the program demands.

use crate::assembly::{TextItemV, spec_stringify};
use crate::ast::{ExprV, StmtV};
use crate::codegen::spec_generate;
use crate::errors::SemanticErrorV;
use crate::ir::{IrInstV, IrV, wf_ir};
use crate::parser::{
    lemma_parse_stmt_len, lemma_skip_breaks_len, skip_breaks, spec_parse, spec_parse_expr,
    spec_parse_more_args, spec_parse_stmt,
};
use crate::sem_analysis::{
    AnState, an_args, an_expr, an_proc_call, an_stmt, an_stmts, expr_count, init_an_state,
    lemma_an_args_growth, lemma_analyze_wf, spec_analyze, stmt_expr_count,
};
use crate::text::dec_str;
use crate::token::TokenV;
use crate::tokenizer::{lemma_tokenize_count, spec_tokenize};
use vstd::prelude::*;

verus! {

proof fn lemma_more_args_count(args: Seq<ExprV>, ts: Seq<TokenV>)
    ensures
        ({
            let p = spec_parse_more_args(args, ts);
            &&& p.1.len() <= ts.len()
            &&& p.0.len() - args.len() <= ts.len() - p.1.len()
        }),
    decreases ts.len(),
{
    if ts.len() > 0 && ts[0] is Comma {
        let after = ts.drop_first();
        match spec_parse_expr(after) {
            Ok(p) => {
                lemma_more_args_count(args.push(p.0), after.drop_first());
            },
            Err(_) => {},
        }
    }
}

proof fn lemma_parse_stmt_count(ts: Seq<TokenV>)
    requires
        ts.len() > 0,
    ensures
        spec_parse_stmt(ts) matches Ok(p) ==> 1 + stmt_expr_count(p.0) <= ts.len() - p.1.len(),
{
    match ts[0] {
        TokenV::Ident(ident) => {
            if ident.name == "VAR"@ {
            } else {
                let after = ts.drop_first();
                if after.len() == 0 || after[0] is LineBreak {
                } else {
                    match spec_parse_expr(after) {
                        Ok(p) => {
                            lemma_more_args_count(seq![p.0], p.1);
                        },
                        Err(_) => {},
                    }
                }
            }
        },
        _ => {},
    }
}

/// A parsed program is never larger than its token sequence: statements
/// plus lowered expressions are bounded by the tokens consumed.
pub proof fn lemma_parse_count(ts: Seq<TokenV>)
    ensures
        spec_parse(ts) matches Ok(ss) ==> ss.len() + expr_count(ss) <= ts.len(),
    decreases ts.len(),
{
    let sk = skip_breaks(ts);
    lemma_skip_breaks_len(ts);
    if sk.len() != 0 {
        lemma_parse_stmt_len(sk);
        lemma_parse_stmt_count(sk);
        match spec_parse_stmt(sk) {
            Ok(p) => {
                lemma_parse_count(p.1);
                match spec_parse(p.1) {
                    Ok(ss2) => {
                        assert((seq![p.0] + ss2).drop_first() =~= ss2);
                    },
                    Err(_) => {},
                }
            },
            Err(_) => {},
        }
    }
}

/// For every well-formed source text the whole pipeline succeeds, its
/// data section holds exactly one entry per string literal lowered from
/// the source in order, and `_start` reserves exactly `num_globals * 8`
/// bytes.
pub proof fn lemma_pipeline(s: Seq<char>, ts: Seq<TokenV>, ss: Seq<StmtV>, ir: IrV)
    requires
        s.len() <= 0x0FFF_FFFF,
        spec_tokenize(s) == Ok::<Seq<TokenV>, crate::location::PointV>(ts),
        spec_parse(ts) == Ok::<Seq<StmtV>, crate::errors::SyntaxErrorV>(ss),
        spec_analyze(ss) == Ok::<IrV, SemanticErrorV>(ir),
    ensures
        wf_ir(ir),
        spec_generate(ir).data.len() == ir.string_pool.len(),
        spec_generate(ir).text[0] == TextItemV::Label("_start"@),
        spec_generate(ir).text[1] == TextItemV::Instruction(
            "sub rsp, "@ + dec_str(ir.num_globals * 8),
        ),
{
    lemma_tokenize_count(s);
    lemma_parse_count(ts);
    lemma_analyze_wf(ss);
    lemma_pool_data_len(ir.string_pool, ir.string_pool.len() as int);
}

proof fn lemma_pool_data_len(pool: Seq<Seq<char>>, i: int)
    requires
        i >= 0,
    ensures
        crate::codegen::pool_data(pool, i).len() == i,
    decreases i,
{
    if i > 0 {
        lemma_pool_data_len(pool, i - 1);
    }
}

/// How many `Print` instructions a program holds.
pub open spec fn print_count(insts: Seq<IrInstV>) -> int
    decreases insts.len(),
{
    if insts.len() == 0 {
        0
    } else {
        (if insts.last() is Print {
            1int
        } else {
            0int
        }) + print_count(insts.drop_last())
    }
}

/// How many statements of a program are declarations.
pub open spec fn decl_count(stmts: Seq<StmtV>) -> int
    decreases stmts.len(),
{
    if stmts.len() == 0 {
        0
    } else {
        (if stmts[0] is VarDecl {
            1int
        } else {
            0int
        }) + decl_count(stmts.drop_first())
    }
}

/// How many statements of a program are procedure calls.
pub open spec fn call_count(stmts: Seq<StmtV>) -> int
    decreases stmts.len(),
{
    if stmts.len() == 0 {
        0
    } else {
        (if stmts[0] is ProcCall {
            1int
        } else {
            0int
        }) + call_count(stmts.drop_first())
    }
}

proof fn lemma_print_count_push(insts: Seq<IrInstV>, x: IrInstV)
    ensures
        print_count(insts.push(x)) == print_count(insts) + (if x is Print {
            1int
        } else {
            0int
        }),
{
    assert(insts.push(x).drop_last() =~= insts);
}

proof fn lemma_an_expr_shape(st: AnState, e: ExprV)
    ensures
        an_expr(st, e) matches Ok(st1) ==> {
            &&& print_count(st1.ir.insts) == print_count(st.ir.insts)
            &&& st1.ir.num_globals == st.ir.num_globals
        },
{
    match an_expr(st, e) {
        Ok(st1) => {
            lemma_print_count_push(st.ir.insts, st1.ir.insts.last());
            assert(st1.ir.insts.drop_last() =~= st.ir.insts);
        },
        Err(_) => {},
    }
}

proof fn lemma_an_args_shape(st: AnState, args: Seq<ExprV>)
    ensures
        an_args(st, args) matches Ok(st1) ==> {
            &&& print_count(st1.ir.insts) == print_count(st.ir.insts)
            &&& st1.ir.num_globals == st.ir.num_globals
        },
    decreases args.len(),
{
    if args.len() > 0 {
        lemma_an_expr_shape(st, args[0]);
        match an_expr(st, args[0]) {
            Ok(st1) => {
                lemma_an_args_shape(st1, args.drop_first());
            },
            Err(_) => {},
        }
    }
}

proof fn lemma_an_stmt_shape(st: AnState, stmt: StmtV)
    ensures
        an_stmt(st, stmt) matches Ok(st1) ==> {
            &&& print_count(st1.ir.insts) == print_count(st.ir.insts) + (if stmt is ProcCall {
                1int
            } else {
                0int
            })
            &&& st1.ir.num_globals == st.ir.num_globals + (if stmt is VarDecl {
                1int
            } else {
                0int
            })
            &&& (stmt matches StmtV::ProcCall(proc, args) ==> (proc.name == "PRINT"@
            && args.len() == 1))
        },
{
    match stmt {
        StmtV::ProcCall(proc, args) => {
            lemma_an_args_shape(st, args);
            match an_args(st, args) {
                Ok(st1) => {
                    match an_stmt(st, stmt) {
                        Ok(st2) => {
                            lemma_print_count_push(st1.ir.insts, IrInstV::Print);
                        },
                        Err(_) => {},
                    }
                },
                Err(_) => {},
            }
        },
        StmtV::VarDecl(ident, init_expr) => {
            lemma_an_expr_shape(st, init_expr);
            match an_expr(st, init_expr) {
                Ok(st1) => {
                    lemma_print_count_push(st1.ir.insts, IrInstV::SetGlobal(st1.ir.num_globals));
                },
                Err(_) => {},
            }
        },
        StmtV::VarAssign(ident, expr) => {
            if st.mappings.dom().contains(ident.name) {
                lemma_an_expr_shape(st, expr);
                match an_expr(st, expr) {
                    Ok(st1) => {
                        lemma_print_count_push(
                            st1.ir.insts,
                            IrInstV::SetGlobal(st.mappings[ident.name]),
                        );
                    },
                    Err(_) => {},
                }
            }
        },
    }
}

proof fn lemma_an_stmts_shape(st: AnState, stmts: Seq<StmtV>)
    ensures
        an_stmts(st, stmts) matches Ok(st1) ==> {
            &&& print_count(st1.ir.insts) == print_count(st.ir.insts) + call_count(stmts)
            &&& st1.ir.num_globals == st.ir.num_globals + decl_count(stmts)
            &&& forall|k: int|
                0 <= k < stmts.len() ==> ((#[trigger] stmts[k]) matches StmtV::ProcCall(
                    proc,
                    args,
                ) ==> (proc.name == "PRINT"@ && args.len() == 1))
        },
    decreases stmts.len(),
{
    if stmts.len() > 0 {
        lemma_an_stmt_shape(st, stmts[0]);
        match an_stmt(st, stmts[0]) {
            Ok(st1) => {
                lemma_an_stmts_shape(st1, stmts.drop_first());
                match an_stmts(st1, stmts.drop_first()) {
                    Ok(st2) => {
                        assert forall|k: int|
                            0 <= k < stmts.len() implies ((#[trigger] stmts[k])
                            matches StmtV::ProcCall(proc, args) ==> (proc.name == "PRINT"@
                            && args.len() == 1)) by {
                            if k > 0 {
                                assert(stmts.drop_first()[k - 1] == stmts[k]);
                            }
                        }
                    },
                    Err(_) => {},
                }
            },
            Err(_) => {},
        }
    }
}

/// Stringification is deterministic and side-effect free: the rendering
/// is a pure function of the program, so rendering one program twice
/// yields identical text.
pub proof fn lemma_stringify_deterministic(a: crate::assembly::AsmV, r1: Seq<char>, r2: Seq<char>)
    requires
        r1 == spec_stringify(a),
        r2 == spec_stringify(a),
    ensures
        r1 == r2,
{
}

/// The string literals an expression lowers, in order.
pub open spec fn expr_strlits(e: ExprV) -> Seq<Seq<char>> {
    match e {
        ExprV::Ident(ident) => Seq::empty(),
        ExprV::StrLit(s) => seq![s.value],
    }
}

/// The string literals an argument list lowers, in order.
pub open spec fn exprs_strlits(args: Seq<ExprV>) -> Seq<Seq<char>>
    decreases args.len(),
{
    if args.len() == 0 {
        Seq::empty()
    } else {
        expr_strlits(args[0]) + exprs_strlits(args.drop_first())
    }
}

/// The string literals a statement lowers, in order.
pub open spec fn stmt_strlits(stmt: StmtV) -> Seq<Seq<char>> {
    match stmt {
        StmtV::VarDecl(ident, e) => expr_strlits(e),
        StmtV::VarAssign(ident, e) => expr_strlits(e),
        StmtV::ProcCall(ident, args) => exprs_strlits(args),
    }
}

/// The string literals a program lowers, in order.
pub open spec fn strlits(stmts: Seq<StmtV>) -> Seq<Seq<char>>
    decreases stmts.len(),
{
    if stmts.len() == 0 {
        Seq::empty()
    } else {
        stmt_strlits(stmts[0]) + strlits(stmts.drop_first())
    }
}

proof fn lemma_an_expr_pool(st: AnState, e: ExprV)
    ensures
        an_expr(st, e) matches Ok(st1) ==> st1.ir.string_pool == st.ir.string_pool
            + expr_strlits(e),
{
    match an_expr(st, e) {
        Ok(st1) => {
            assert(st1.ir.string_pool =~= st.ir.string_pool + expr_strlits(e));
        },
        Err(_) => {},
    }
}

proof fn lemma_an_args_pool(st: AnState, args: Seq<ExprV>)
    ensures
        an_args(st, args) matches Ok(st1) ==> st1.ir.string_pool == st.ir.string_pool
            + exprs_strlits(args),
    decreases args.len(),
{
    if args.len() == 0 {
        match an_args(st, args) {
            Ok(st1) => {
                assert(st1.ir.string_pool =~= st.ir.string_pool + exprs_strlits(args));
            },
            Err(_) => {},
        }
    } else {
        lemma_an_expr_pool(st, args[0]);
        match an_expr(st, args[0]) {
            Ok(st1) => {
                lemma_an_args_pool(st1, args.drop_first());
                match an_args(st1, args.drop_first()) {
                    Ok(st2) => {
                        assert((st.ir.string_pool + expr_strlits(args[0])) + exprs_strlits(
                            args.drop_first(),
                        ) =~= st.ir.string_pool + exprs_strlits(args));
                    },
                    Err(_) => {},
                }
            },
            Err(_) => {},
        }
    }
}

proof fn lemma_an_stmt_pool(st: AnState, stmt: StmtV)
    ensures
        an_stmt(st, stmt) matches Ok(st1) ==> st1.ir.string_pool == st.ir.string_pool
            + stmt_strlits(stmt),
{
    match stmt {
        StmtV::ProcCall(proc, args) => {
            lemma_an_args_pool(st, args);
        },
        StmtV::VarDecl(ident, e) => {
            lemma_an_expr_pool(st, e);
        },
        StmtV::VarAssign(ident, e) => {
            lemma_an_expr_pool(st, e);
        },
    }
}

proof fn lemma_an_stmts_pool(st: AnState, stmts: Seq<StmtV>)
    ensures
        an_stmts(st, stmts) matches Ok(st1) ==> st1.ir.string_pool == st.ir.string_pool
            + strlits(stmts),
    decreases stmts.len(),
{
    if stmts.len() == 0 {
        match an_stmts(st, stmts) {
            Ok(st1) => {
                assert(st1.ir.string_pool =~= st.ir.string_pool + strlits(stmts));
            },
            Err(_) => {},
        }
    } else {
        lemma_an_stmt_pool(st, stmts[0]);
        match an_stmt(st, stmts[0]) {
            Ok(st1) => {
                lemma_an_stmts_pool(st1, stmts.drop_first());
                match an_stmts(st1, stmts.drop_first()) {
                    Ok(st2) => {
                        assert((st.ir.string_pool + stmt_strlits(stmts[0])) + strlits(
                            stmts.drop_first(),
                        ) =~= st.ir.string_pool + strlits(stmts));
                    },
                    Err(_) => {},
                }
            },
            Err(_) => {},
        }
    }
}

/// The string pool of an analyzed program holds exactly the program's
/// string literals, in the order they are lowered, with repetitions kept;
/// the generated data section holds one entry per pool member, each named
/// after its index and holding its null-terminated value.
pub proof fn lemma_string_pool(stmts: Seq<StmtV>)
    ensures
        spec_analyze(stmts) matches Ok(ir) ==> {
            &&& ir.string_pool == strlits(stmts)
            &&& spec_generate(ir).data.len() == ir.string_pool.len()
            &&& forall|k: int|
                0 <= k < ir.string_pool.len() ==> #[trigger] spec_generate(ir).data[k]
                    == crate::codegen::pool_data_item(k, ir.string_pool[k])
        },
{
    lemma_an_stmts_pool(init_an_state(), stmts);
    match spec_analyze(stmts) {
        Ok(ir) => {
            assert(Seq::<Seq<char>>::empty() + strlits(stmts) =~= strlits(stmts));
            lemma_pool_data_len(ir.string_pool, ir.string_pool.len() as int);
            lemma_pool_data_index(ir.string_pool, ir.string_pool.len() as int);
        },
        Err(_) => {},
    }
}

proof fn lemma_pool_data_index(pool: Seq<Seq<char>>, i: int)
    requires
        i >= 0,
    ensures
        forall|k: int|
            0 <= k < i ==> #[trigger] crate::codegen::pool_data(pool, i)[k]
                == crate::codegen::pool_data_item(k, pool[k]),
    decreases i,
{
    lemma_pool_data_len(pool, i);
    if i > 0 {
        lemma_pool_data_index(pool, i - 1);
        lemma_pool_data_len(pool, i - 1);
    }
}

/// The names a single statement declares: one for a declaration, none
/// otherwise.
pub open spec fn stmt_decl_names(stmt: StmtV) -> Seq<Seq<char>> {
    match stmt {
        StmtV::VarDecl(ident, e) => seq![ident.name],
        _ => Seq::empty(),
    }
}

/// The names introduced by the declarations of a program, in declaration
/// order.
pub open spec fn decl_names(stmts: Seq<StmtV>) -> Seq<Seq<char>>
    decreases stmts.len(),
{
    if stmts.len() == 0 {
        Seq::empty()
    } else {
        stmt_decl_names(stmts[0]) + decl_names(stmts.drop_first())
    }
}

proof fn lemma_an_stmt_dom(st: AnState, stmt: StmtV)
    ensures
        an_stmt(st, stmt) matches Ok(st1) ==> {
            &&& st.mappings.dom() <= st1.mappings.dom()
            &&& forall|n: Seq<char>|
                st.mappings.dom().contains(n) && !stmt_decl_names(stmt).contains(n)
                    ==> #[trigger] st1.mappings[n] == st.mappings[n]
            &&& forall|n: Seq<char>|
                #[trigger] stmt_decl_names(stmt).contains(n) ==> st1.mappings.dom().contains(n)
            &&& forall|n: Seq<char>|
                #[trigger] st1.mappings.dom().contains(n) ==> st.mappings.dom().contains(n)
                    || stmt_decl_names(stmt).contains(n)
        },
{
    match stmt {
        StmtV::ProcCall(proc, args) => {
            lemma_an_args_growth(st, args);
        },
        _ => {},
    }
    match an_stmt(st, stmt) {
        Ok(st1) => {
            match stmt {
                StmtV::VarDecl(ident, e) => {
                    assert forall|n: Seq<char>| #[trigger]
                        stmt_decl_names(stmt).contains(n) implies st1.mappings.dom().contains(
                        n,
                    ) by {
                        let k = choose|k: int|
                            0 <= k < stmt_decl_names(stmt).len() && stmt_decl_names(stmt)[k]
                                == n;
                        assert(n == ident.name);
                    }
                    assert forall|n: Seq<char>|
                        st.mappings.dom().contains(n) && !stmt_decl_names(stmt).contains(
                            n,
                        ) implies #[trigger] st1.mappings[n] == st.mappings[n] by {
                        if n == ident.name {
                            assert(stmt_decl_names(stmt)[0] == n);
                            assert(stmt_decl_names(stmt).contains(n));
                        }
                    }
                    assert forall|n: Seq<char>| #[trigger]
                        st1.mappings.dom().contains(n) implies st.mappings.dom().contains(n)
                        || stmt_decl_names(stmt).contains(n) by {
                        if n == ident.name {
                            assert(stmt_decl_names(stmt)[0] == n);
                            assert(stmt_decl_names(stmt).contains(n));
                        }
                    }
                },
                _ => {},
            }
        },
        Err(_) => {},
    }
}

proof fn lemma_no_dup_suffix(a: Seq<Seq<char>>, b: Seq<Seq<char>>)
    requires
        (a + b).no_duplicates(),
    ensures
        b.no_duplicates(),
{
    assert forall|i: int, j: int|
        0 <= i < b.len() && 0 <= j < b.len() && i != j implies b[i] != b[j] by {
        assert((a + b)[a.len() + i] == b[i]);
        assert((a + b)[a.len() + j] == b[j]);
    }
}

proof fn lemma_decl_slots_rec(st: AnState, stmts: Seq<StmtV>)
    requires
        decl_names(stmts).no_duplicates(),
    ensures
        an_stmts(st, stmts) matches Ok(st1) ==> forall|j: int|
            0 <= j < decl_names(stmts).len() ==> st1.mappings.dom().contains(
                #[trigger] decl_names(stmts)[j],
            ) && st1.mappings[decl_names(stmts)[j]] == st.ir.num_globals + j,
    decreases stmts.len(),
{
    if stmts.len() > 0 {
        let names = decl_names(stmts);
        let rest = stmts.drop_first();
        lemma_an_stmt_shape(st, stmts[0]);
        match an_stmt(st, stmts[0]) {
            Ok(st1) => {
                lemma_no_dup_suffix(stmt_decl_names(stmts[0]), decl_names(rest));
                match stmts[0] {
                    StmtV::VarDecl(ident, e) => {
                        assert(names == seq![ident.name] + decl_names(rest));
                        assert(names[0] == ident.name);
                        lemma_decl_slots_rec(st1, rest);
                        match an_stmts(st1, rest) {
                            Ok(st2) => {
                                assert(!decl_names(rest).contains(ident.name)) by {
                                    if decl_names(rest).contains(ident.name) {
                                        let k = choose|k: int|
                                            0 <= k < decl_names(rest).len() && decl_names(
                                                rest,
                                            )[k] == ident.name;
                                        assert(names[k + 1] == names[0]);
                                    }
                                }
                                lemma_mappings_stable(st1, rest, ident.name);
                                assert forall|j: int| 0 <= j < names.len() implies st2
                                    .mappings.dom().contains(#[trigger] names[j])
                                    && st2.mappings[names[j]] == st.ir.num_globals + j by {
                                    if j > 0 {
                                        assert(names[j] == decl_names(rest)[j - 1]);
                                    }
                                }
                            },
                            Err(_) => {},
                        }
                    },
                    _ => {
                        assert(names =~= decl_names(rest));
                        lemma_decl_slots_rec(st1, rest);
                    },
                }
            },
            Err(_) => {},
        }
    }
}

proof fn lemma_mappings_stable(st: AnState, stmts: Seq<StmtV>, name: Seq<char>)
    requires
        st.mappings.dom().contains(name),
        !decl_names(stmts).contains(name),
    ensures
        an_stmts(st, stmts) matches Ok(st1) ==> st1.mappings.dom().contains(name)
            && st1.mappings[name] == st.mappings[name],
    decreases stmts.len(),
{
    if stmts.len() > 0 {
        let rest = stmts.drop_first();
        lemma_an_stmt_dom(st, stmts[0]);
        match an_stmt(st, stmts[0]) {
            Ok(st1) => {
                assert(!stmt_decl_names(stmts[0]).contains(name)) by {
                    if stmt_decl_names(stmts[0]).contains(name) {
                        let k = choose|k: int|
                            0 <= k < stmt_decl_names(stmts[0]).len() && stmt_decl_names(
                                stmts[0],
                            )[k] == name;
                        assert(decl_names(stmts)[k] == name);
                    }
                }
                assert(!decl_names(rest).contains(name)) by {
                    if decl_names(rest).contains(name) {
                        let k = choose|k: int|
                            0 <= k < decl_names(rest).len() && decl_names(rest)[k] == name;
                        assert(decl_names(stmts)[stmt_decl_names(stmts[0]).len() + k] == name);
                    }
                }
                lemma_mappings_stable(st1, rest, name);
            },
            Err(_) => {},
        }
    }
}

/// Distinct declared names receive the slots `0 .. N-1` in declaration
/// order, and the whole program over — assignments and calls included —
/// each name still maps to the slot its declaration allocated.
pub proof fn lemma_declaration_slots(stmts: Seq<StmtV>)
    requires
        decl_names(stmts).no_duplicates(),
    ensures
        an_stmts(init_an_state(), stmts) matches Ok(st1) ==> forall|j: int|
            0 <= j < decl_names(stmts).len() ==> st1.mappings.dom().contains(
                #[trigger] decl_names(stmts)[j],
            ) && st1.mappings[decl_names(stmts)[j]] == j,
{
    lemma_decl_slots_rec(init_an_state(), stmts);
}

/// Whether an expression references `name` as a variable.
pub open spec fn expr_refs(e: ExprV, name: Seq<char>) -> bool {
    match e {
        ExprV::Ident(ident) => ident.name == name,
        ExprV::StrLit(s) => false,
    }
}

/// Whether a statement references `name` as a variable in an expression
/// it lowers.
pub open spec fn stmt_refs(stmt: StmtV, name: Seq<char>) -> bool {
    match stmt {
        StmtV::VarDecl(ident, e) => expr_refs(e, name),
        StmtV::VarAssign(ident, e) => expr_refs(e, name),
        StmtV::ProcCall(ident, args) => exists|k: int|
            0 <= k < args.len() && expr_refs(#[trigger] args[k], name),
    }
}

proof fn lemma_an_args_not_defined(st: AnState, args: Seq<ExprV>)
    ensures
        an_args(st, args) matches Err(e) ==> (e matches SemanticErrorV::NotDefined(id) ==> (
        exists|k: int| 0 <= k < args.len() && expr_refs(#[trigger] args[k], id.name))
            && !st.mappings.dom().contains(id.name)),
    decreases args.len(),
{
    if args.len() > 0 {
        match an_expr(st, args[0]) {
            Ok(st1) => {
                lemma_an_args_not_defined(st1, args.drop_first());
                match an_args(st1, args.drop_first()) {
                    Err(e) => {
                        match e {
                            SemanticErrorV::NotDefined(id) => {
                                let k = choose|k: int|
                                    0 <= k < args.drop_first().len() && expr_refs(
                                        #[trigger] args.drop_first()[k],
                                        id.name,
                                    );
                                assert(args[k + 1] == args.drop_first()[k]);
                            },
                            _ => {},
                        }
                    },
                    Ok(_) => {},
                }
            },
            Err(_) => {},
        }
    }
}

proof fn lemma_an_stmt_not_defined(st: AnState, stmt: StmtV)
    ensures
        an_stmt(st, stmt) matches Err(e) ==> (e matches SemanticErrorV::NotDefined(id) ==>
        stmt_refs(stmt, id.name) && !st.mappings.dom().contains(id.name)),
{
    match stmt {
        StmtV::ProcCall(proc, args) => {
            lemma_an_args_not_defined(st, args);
        },
        _ => {},
    }
}

/// An analysis that fails with an undefined-variable error names an
/// identifier that some statement references without any earlier
/// declaration of that name.
pub proof fn lemma_undefined_reference(st: AnState, stmts: Seq<StmtV>)
    ensures
        an_stmts(st, stmts) matches Err(e) ==> (e matches SemanticErrorV::NotDefined(id) ==>
        exists|i: int|
            0 <= i < stmts.len() && stmt_refs(#[trigger] stmts[i], id.name)
                && !st.mappings.dom().contains(id.name) && !decl_names(
                stmts.take(i),
            ).contains(id.name)),
    decreases stmts.len(),
{
    if stmts.len() > 0 {
        let rest = stmts.drop_first();
        lemma_an_stmt_not_defined(st, stmts[0]);
        lemma_an_stmt_dom(st, stmts[0]);
        match an_stmt(st, stmts[0]) {
            Ok(st1) => {
                lemma_undefined_reference(st1, rest);
                match an_stmts(st1, rest) {
                    Err(e) => {
                        match e {
                            SemanticErrorV::NotDefined(id) => {
                                let i = choose|i: int|
                                    0 <= i < rest.len() && stmt_refs(#[trigger] rest[i], id.name)
                                        && !st1.mappings.dom().contains(id.name) && !decl_names(
                                        rest.take(i),
                                    ).contains(id.name);
                                assert(stmts[i + 1] == rest[i]);
                                assert(!st.mappings.dom().contains(id.name));
                                assert(!decl_names(stmts.take(i + 1)).contains(id.name)) by {
                                    let head = stmts.take(i + 1);
                                    assert(head.drop_first() =~= rest.take(i));
                                    assert(head[0] == stmts[0]);
                                    assert(decl_names(head) == stmt_decl_names(stmts[0])
                                        + decl_names(rest.take(i)));
                                    if decl_names(head).contains(id.name) {
                                        let k = choose|k: int|
                                            0 <= k < decl_names(head).len() && decl_names(
                                                head,
                                            )[k] == id.name;
                                        if k < stmt_decl_names(stmts[0]).len() {
                                            assert(stmt_decl_names(stmts[0]).contains(id.name));
                                            assert(st1.mappings.dom().contains(id.name));
                                        } else {
                                            assert(decl_names(rest.take(i))[k - stmt_decl_names(
                                                stmts[0],
                                            ).len()] == id.name);
                                        }
                                    }
                                }
                            },
                            _ => {},
                        }
                    },
                    Ok(_) => {},
                }
            },
            Err(e) => {
                match e {
                    SemanticErrorV::NotDefined(id) => {
                        assert(stmts.take(0) =~= Seq::<StmtV>::empty());
                        assert(stmt_refs(stmts[0], id.name));
                    },
                    _ => {},
                }
            },
        }
    }
}

proof fn lemma_an_args_refs_resolved(st: AnState, args: Seq<ExprV>)
    ensures
        an_args(st, args) is Ok ==> forall|k: int, n: Seq<char>|
            0 <= k < args.len() && #[trigger] expr_refs(args[k], n)
                ==> st.mappings.dom().contains(n),
    decreases args.len(),
{
    if args.len() > 0 {
        match an_expr(st, args[0]) {
            Ok(st1) => {
                lemma_an_args_refs_resolved(st1, args.drop_first());
                if an_args(st, args) is Ok {
                    assert forall|k: int, n: Seq<char>|
                        0 <= k < args.len() && #[trigger] expr_refs(args[k], n) implies st
                        .mappings.dom().contains(n) by {
                        if k > 0 {
                            assert(args.drop_first()[k - 1] == args[k]);
                        }
                    }
                }
            },
            Err(_) => {},
        }
    }
}

proof fn lemma_an_stmt_refs_resolved(st: AnState, stmt: StmtV)
    ensures
        an_stmt(st, stmt) is Ok ==> forall|n: Seq<char>|
            stmt_refs(stmt, n) ==> st.mappings.dom().contains(n),
{
    match stmt {
        StmtV::ProcCall(proc, args) => {
            lemma_an_args_refs_resolved(st, args);
        },
        _ => {},
    }
}

/// In an accepted program every reference is backed by a declaration that
/// precedes it: whenever analysis succeeds, each identifier a statement
/// references was either mapped before the program began or declared by an
/// earlier statement.
pub proof fn lemma_references_declared(st: AnState, stmts: Seq<StmtV>)
    ensures
        an_stmts(st, stmts) is Ok ==> forall|i: int, n: Seq<char>|
            0 <= i < stmts.len() && #[trigger] stmt_refs(stmts[i], n)
                ==> st.mappings.dom().contains(n) || decl_names(stmts.take(i)).contains(n),
    decreases stmts.len(),
{
    if stmts.len() > 0 {
        let rest = stmts.drop_first();
        lemma_an_stmt_refs_resolved(st, stmts[0]);
        lemma_an_stmt_dom(st, stmts[0]);
        match an_stmt(st, stmts[0]) {
            Ok(st1) => {
                lemma_references_declared(st1, rest);
                if an_stmts(st, stmts) is Ok {
                    assert forall|i: int, n: Seq<char>|
                        0 <= i < stmts.len() && #[trigger] stmt_refs(stmts[i], n) implies st
                        .mappings.dom().contains(n) || decl_names(stmts.take(i)).contains(
                        n,
                    ) by {
                        if i > 0 {
                            assert(rest[i - 1] == stmts[i]);
                            assert(stmt_refs(rest[i - 1], n));
                            if !st.mappings.dom().contains(n) {
                                let head = stmts.take(i);
                                assert(head[0] == stmts[0]);
                                assert(head.drop_first() =~= rest.take(i - 1));
                                assert(decl_names(head) == stmt_decl_names(stmts[0])
                                    + decl_names(rest.take(i - 1)));
                                if st1.mappings.dom().contains(n) {
                                    // the name entered the mapping through the
                                    // first statement's declaration
                                    assert(stmt_decl_names(stmts[0]).contains(n));
                                    let k = choose|k: int|
                                        0 <= k < stmt_decl_names(stmts[0]).len()
                                            && stmt_decl_names(stmts[0])[k] == n;
                                    assert(decl_names(head)[k] == n);
                                    assert(decl_names(head).contains(n));
                                } else {
                                    assert(decl_names(rest.take(i - 1)).contains(n));
                                    let tail_names = decl_names(rest.take(i - 1));
                                    let k = choose|k: int|
                                        0 <= k < tail_names.len() && #[trigger] tail_names[k]
                                            == n;
                                    assert(decl_names(head)[stmt_decl_names(stmts[0]).len() + k]
                                        == n);
                                    assert(decl_names(head).contains(n));
                                }
                            }
                        }
                    }
                }
            },
            Err(_) => {},
        }
    }
}

/// `PRINT` demands exactly one argument: any other arity is rejected, and
/// when the arguments themselves resolve, the error is an arity mismatch
/// reporting the count found.
pub proof fn lemma_print_arity(st: AnState, proc: crate::token::IdentifierV, args: Seq<ExprV>)
    ensures
        proc.name == "PRINT"@ && args.len() != 1 ==> an_proc_call(st, proc, args) is Err,
        (proc.name == "PRINT"@ && args.len() != 1 && an_args(st, args) is Ok) ==> an_proc_call(
            st,
            proc,
            args,
        ) == Err::<AnState, SemanticErrorV>(
            SemanticErrorV::ArityMismatch {
                location: crate::sem_analysis::arity_loc(proc, args),
                found: args.len() as int,
            },
        ),
{
}

/// Declaring `N` variables allocates exactly the slots `0 .. N-1`:
/// `num_globals` equals the number of declarations, and assignments and
/// calls never change it. Moreover every accepted procedure call names
/// `PRINT` with exactly one argument, and the program holds exactly one
/// `Print` instruction per call.
pub proof fn lemma_slots_and_prints(stmts: Seq<StmtV>)
    ensures
        spec_analyze(stmts) matches Ok(ir) ==> {
            &&& ir.num_globals == decl_count(stmts)
            &&& print_count(ir.insts) == call_count(stmts)
            &&& forall|k: int|
                0 <= k < stmts.len() ==> ((#[trigger] stmts[k]) matches StmtV::ProcCall(
                    proc,
                    args,
                ) ==> (proc.name == "PRINT"@ && args.len() == 1))
        },
{
    lemma_an_stmts_shape(init_an_state(), stmts);
}

} // verus!
