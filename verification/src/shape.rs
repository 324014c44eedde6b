use vstd::prelude::*;
use crate::ast::Expr;
use crate::ast::Function;
use crate::ast::Program;
use crate::ast::Stmt;
use crate::text::same_text;

verus! {

/// Whether the built-in call of the reserved name `name` with `count`
/// arguments lowers an argument: the two known built-ins lower their one
/// argument; any other call is refused before an argument is looked at.
pub open spec fn lowers_argument(name: Seq<char>, count: nat) -> bool {
    (name == "__alloc"@ || name == "__dealloc"@) && count == 1
}

/// Whether an expression is a compile-time constant: an integer or a string
/// literal.
pub open spec fn is_constant(e: Expr) -> bool {
    e is Int || e is Str
}

/// Whether every declaration among the statements has a constant
/// initializer.
pub open spec fn globals_constant(stmts: Seq<Stmt>) -> bool {
    forall|i: int| 0 <= i < stmts.len() && (#[trigger] stmts[i]) is Let ==> is_constant(stmts[i]->Let_2)
}

/// Whether the initializer of a for-loop is refused: it is there, and
/// neither a declaration nor an expression.
pub open spec fn for_init_refused(init: Option<Box<Stmt>>) -> bool {
    match init {
        Some(first) => !(*first is Let || *first is Expr),
        None => false,
    }
}

/// Whether a function is the entry point.
pub open spec fn is_main(f: Function) -> bool {
    f.name@ == "main"@
}

/// Whether one of the functions is the entry point.
pub open spec fn has_main(functions: Seq<Function>) -> bool {
    exists|i: int| 0 <= i < functions.len() && is_main(#[trigger] functions[i])
}

/// Whether an expression can be lowered: in each scoped block within it,
/// every statement that is not a deferred action can be lowered, and so can
/// every deferred action's expression. Of a built-in call only the argument
/// that is lowered counts.
pub open spec fn expr_lowerable(e: Expr) -> bool
    decreases e,
{
    match e {
        Expr::Int(..) => true,
        Expr::Str(..) => true,
        Expr::Var(..) => true,
        Expr::BinOp(left, _, right, _, _) => expr_lowerable(*left) && expr_lowerable(*right),
        Expr::Assign(target, value, _, _) => expr_lowerable(*target) && expr_lowerable(*value),
        Expr::Call(_, args, _, _) => forall|i: int|
            0 <= i < args@.len() ==> expr_lowerable(#[trigger] args@[i]),
        Expr::IntrinsicCall(name, args, _, _) => lowers_argument(name@, args@.len())
            ==> expr_lowerable(args@[0]),
        Expr::Print(operand, _, _) => expr_lowerable(*operand),
        Expr::SafeBlock(stmts, _, _) => forall|i: int|
            0 <= i < stmts@.len() ==> block_item_lowerable(#[trigger] stmts@[i]),
        Expr::Deref(inner, _, _) => expr_lowerable(*inner),
        Expr::Cast(inner, _, _, _) => expr_lowerable(*inner),
        Expr::Other(..) => true,
    }
}

/// Whether a statement that stands directly in a scoped block can be
/// lowered there.
pub open spec fn block_item_lowerable(s: Stmt) -> bool
    decreases s, 1int,
{
    match s {
        Stmt::Defer(action, _) => expr_lowerable(action),
        _ => stmt_lowerable(s),
    }
}

/// Whether a statement can be lowered: it is no deferred action, and what
/// it holds can be lowered. A for-loop whose initializer is refused is
/// answered with a diagnostic before anything in it is lowered.
pub open spec fn stmt_lowerable(s: Stmt) -> bool
    decreases s, 0int,
{
    match s {
        Stmt::Let(_, _, init, _) => expr_lowerable(init),
        Stmt::Return(value, _) => expr_lowerable(value),
        Stmt::Expr(e, _) => expr_lowerable(e),
        Stmt::While(cond, body, _) => expr_lowerable(cond) && forall|i: int|
            0 <= i < body@.len() ==> stmt_lowerable(#[trigger] body@[i]),
        Stmt::For(init, cond, incr, body, _) => for_init_refused(init) || {
            &&& match init {
                Some(first) => match *first {
                    Stmt::Let(_, _, value, _) => expr_lowerable(value),
                    Stmt::Expr(e, _) => expr_lowerable(e),
                    _ => true,
                },
                None => true,
            }
            &&& match cond {
                Some(e) => expr_lowerable(e),
                None => true,
            }
            &&& match incr {
                Some(e) => expr_lowerable(e),
                None => true,
            }
            &&& forall|i: int| 0 <= i < body@.len() ==> stmt_lowerable(#[trigger] body@[i])
        },
        Stmt::Defer(..) => false,
    }
}

/// Whether every statement of a list can be lowered.
pub open spec fn stmts_lowerable(stmts: Seq<Stmt>) -> bool {
    forall|i: int| 0 <= i < stmts.len() ==> stmt_lowerable(#[trigger] stmts[i])
}

/// Whether every statement of a function's body can be lowered.
pub open spec fn function_lowerable(f: Function) -> bool {
    stmts_lowerable(f.body@)
}

/// Whether the top-level statements that are no declarations can be
/// lowered.
pub open spec fn top_level_lowerable(stmts: Seq<Stmt>) -> bool {
    forall|i: int| 0 <= i < stmts.len() ==> (#[trigger] stmts[i]) is Let || stmt_lowerable(stmts[i])
}

/// Whether a program can be lowered: each function can, and, where the
/// program defines no entry point, so can each top-level statement that is
/// no declaration. Where it defines one, those statements are not lowered;
/// where a global has an initializer that is no constant, the program is
/// answered with a diagnostic before anything else in it is lowered.
pub open spec fn program_lowerable(p: Program) -> bool {
    globals_constant(p.stmts@) ==> {
        &&& forall|i: int|
            0 <= i < p.functions@.len() ==> function_lowerable(#[trigger] p.functions@[i])
        &&& has_main(p.functions@) || top_level_lowerable(p.stmts@)
    }
}

/// Decides `expr_lowerable`.
pub fn check_expr(e: &Expr) -> (r: bool)
    ensures
        r == expr_lowerable(*e),
    decreases *e,
{
    match e {
        Expr::Int(..) => true,
        Expr::Str(..) => true,
        Expr::Var(..) => true,
        Expr::BinOp(left, _, right, _, _) => check_expr(left) && check_expr(right),
        Expr::Assign(target, value, _, _) => check_expr(target) && check_expr(value),
        Expr::Call(_, args, _, _) => check_exprs(args),
        Expr::IntrinsicCall(name, args, _, _) => {
            if (same_text(name, "__alloc") || same_text(name, "__dealloc")) && args.len() == 1 {
                check_expr(&args[0])
            } else {
                true
            }
        },
        Expr::Print(operand, _, _) => check_expr(operand),
        Expr::SafeBlock(stmts, _, _) => check_block(stmts),
        Expr::Deref(inner, _, _) => check_expr(inner),
        Expr::Cast(inner, _, _, _) => check_expr(inner),
        Expr::Other(..) => true,
    }
}

fn check_exprs(args: &Vec<Expr>) -> (r: bool)
    ensures
        r == forall|i: int| 0 <= i < args@.len() ==> expr_lowerable(#[trigger] args@[i]),
    decreases *args,
{
    let mut i: usize = 0;
    while i < args.len()
        invariant
            i <= args.len(),
            forall|j: int| 0 <= j < i ==> expr_lowerable(#[trigger] args@[j]),
        decreases args.len() - i,
    {
        if !check_expr(&args[i]) {
            return false;
        }
        i += 1;
    }
    true
}

fn check_block(stmts: &Vec<Stmt>) -> (r: bool)
    ensures
        r == forall|i: int| 0 <= i < stmts@.len() ==> block_item_lowerable(#[trigger] stmts@[i]),
    decreases *stmts,
{
    let mut i: usize = 0;
    while i < stmts.len()
        invariant
            i <= stmts.len(),
            forall|j: int| 0 <= j < i ==> block_item_lowerable(#[trigger] stmts@[j]),
        decreases stmts.len() - i,
    {
        let ok = match &stmts[i] {
            Stmt::Defer(action, _) => check_expr(action),
            other => check_stmt(other),
        };
        if !ok {
            return false;
        }
        i += 1;
    }
    true
}

fn check_optional_expr(e: &Option<Expr>) -> (r: bool)
    ensures
        r == match *e {
            Some(inner) => expr_lowerable(inner),
            None => true,
        },
    decreases *e,
{
    match e {
        Some(inner) => check_expr(inner),
        None => true,
    }
}

/// Decides `stmt_lowerable`.
pub fn check_stmt(s: &Stmt) -> (r: bool)
    ensures
        r == stmt_lowerable(*s),
    decreases *s,
{
    match s {
        Stmt::Let(_, _, init, _) => check_expr(init),
        Stmt::Return(value, _) => check_expr(value),
        Stmt::Expr(e, _) => check_expr(e),
        Stmt::While(cond, body, _) => check_expr(cond) && check_stmts(body),
        Stmt::For(init, cond, incr, body, _) => {
            match init {
                Some(first) => match &**first {
                    Stmt::Let(_, _, value, _) => check_expr(value) && check_optional_expr(cond)
                        && check_optional_expr(incr) && check_stmts(body),
                    Stmt::Expr(e, _) => check_expr(e) && check_optional_expr(cond)
                        && check_optional_expr(incr) && check_stmts(body),
                    _ => true,
                },
                None => check_optional_expr(cond) && check_optional_expr(incr) && check_stmts(body),
            }
        },
        Stmt::Defer(..) => false,
    }
}

/// Decides `stmts_lowerable`.
pub fn check_stmts(stmts: &Vec<Stmt>) -> (r: bool)
    ensures
        r == stmts_lowerable(stmts@),
    decreases *stmts,
{
    let mut i: usize = 0;
    while i < stmts.len()
        invariant
            i <= stmts.len(),
            forall|j: int| 0 <= j < i ==> stmt_lowerable(#[trigger] stmts@[j]),
        decreases stmts.len() - i,
    {
        if !check_stmt(&stmts[i]) {
            return false;
        }
        i += 1;
    }
    true
}

/// Decides `has_main`.
pub fn defines_main(functions: &Vec<Function>) -> (r: bool)
    ensures
        r == has_main(functions@),
{
    let mut i: usize = 0;
    while i < functions.len()
        invariant
            i <= functions.len(),
            forall|j: int| 0 <= j < i ==> !is_main(#[trigger] functions@[j]),
        decreases functions.len() - i,
    {
        if same_text(&functions[i].name, "main") {
            return true;
        }
        i += 1;
    }
    false
}

/// Decides `globals_constant`.
pub fn check_globals(stmts: &Vec<Stmt>) -> (r: bool)
    ensures
        r == globals_constant(stmts@),
{
    let mut i: usize = 0;
    while i < stmts.len()
        invariant
            i <= stmts.len(),
            forall|j: int| 0 <= j < i && (#[trigger] stmts@[j]) is Let ==> is_constant(stmts@[j]->Let_2),
        decreases stmts.len() - i,
    {
        let constant = match &stmts[i] {
            Stmt::Let(_, _, Expr::Int(..), _) => true,
            Stmt::Let(_, _, Expr::Str(..), _) => true,
            Stmt::Let(..) => false,
            _ => true,
        };
        if !constant {
            return false;
        }
        i += 1;
    }
    true
}

/// Decides `program_lowerable`.
pub fn check_program(p: &Program) -> (r: bool)
    ensures
        r == program_lowerable(*p),
{
    if !check_globals(&p.stmts) {
        return true;
    }
    let mut i: usize = 0;
    while i < p.functions.len()
        invariant
            i <= p.functions.len(),
            globals_constant(p.stmts@),
            forall|j: int| 0 <= j < i ==> function_lowerable(#[trigger] p.functions@[j]),
        decreases p.functions.len() - i,
    {
        if !check_stmts(&p.functions[i].body) {
            return false;
        }
        i += 1;
    }
    if defines_main(&p.functions) {
        return true;
    }
    let mut k: usize = 0;
    while k < p.stmts.len()
        invariant
            k <= p.stmts.len(),
            globals_constant(p.stmts@),
            !has_main(p.functions@),
            forall|j: int| 0 <= j < p.functions@.len() ==> function_lowerable(#[trigger] p.functions@[j]),
            forall|j: int|
                0 <= j < k ==> (#[trigger] p.stmts@[j]) is Let || stmt_lowerable(p.stmts@[j]),
        decreases p.stmts.len() - k,
    {
        let ok = match &p.stmts[k] {
            Stmt::Let(..) => true,
            other => check_stmt(other),
        };
        if !ok {
            return false;
        }
        k += 1;
    }
    true
}

} // verus!
