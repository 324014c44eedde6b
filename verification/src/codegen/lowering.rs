use vstd::prelude::*;
use codespan::Span;
use crate::ast::BinOp;
use crate::ast::Expr;
use crate::ast::Function;
use crate::ast::Program;
use crate::ast::Stmt;
use crate::ast::Type;
use crate::codegen::Diagnostic;
use crate::codegen::Host;
use crate::codegen::includes::Include;
use crate::shape::has_main;
use crate::shape::is_constant;
use crate::shape::is_main;
use crate::text::begins_with;
use crate::text::decimal;
use crate::text::finishes_with;

verus! {

/// What one compilation has gathered so far: the support headers asked for
/// and the spelling of each declared variable's type.
pub struct State {
    pub includes: Set<Include>,
    pub vars: Map<Seq<char>, Seq<char>>,
}

impl State {
    /// The state of a compilation that has not begun.
    pub open spec fn fresh() -> State {
        State { includes: Set::empty(), vars: Map::empty() }
    }

    /// The state after `inc` has been asked for.
    pub open spec fn with_include(self, inc: Include) -> State {
        State { includes: self.includes.insert(inc), vars: self.vars }
    }

    /// The state after `spelling` has been recorded for the variable `name`.
    pub open spec fn with_var(self, name: Seq<char>, spelling: Seq<char>) -> State {
        State { includes: self.includes, vars: self.vars.insert(name, spelling) }
    }
}

/// The outcome of lowering one piece of a program from a given state: the
/// text produced or the diagnostic that ends the compilation, and the state
/// reached at that point.
pub struct Lowered {
    pub out: Result<Seq<char>, Diagnostic>,
    pub state: State,
}

impl Lowered {
    /// The text produced; none where the lowering failed.
    pub open spec fn text(self) -> Seq<char> {
        match self.out {
            Ok(text) => text,
            Err(_) => Seq::empty(),
        }
    }
}

/// Lowering that produced `text` and reached `state`.
pub open spec fn done(text: Seq<char>, state: State) -> Lowered {
    Lowered { out: Ok(text), state }
}

/// Lowering that failed in `state`.
pub open spec fn rejected(message: Seq<char>, span: Option<Span>, state: State) -> Lowered {
    Lowered { out: Err(Diagnostic { message, span }), state }
}

/// `rest` behind text that was produced before it: a failure stays what it
/// is.
pub open spec fn prefixed(before: Seq<char>, rest: Lowered) -> Lowered {
    match rest.out {
        Ok(text) => done(before + text, rest.state),
        Err(_) => rest,
    }
}

/// `inner` between two fixed pieces of text: a failure stays what it is.
pub open spec fn wrapped(before: Seq<char>, inner: Lowered, after: Seq<char>) -> Lowered {
    match inner.out {
        Ok(text) => done(before + text + after, inner.state),
        Err(_) => inner,
    }
}

// ---------------------------------------------------------------------
// Types
// ---------------------------------------------------------------------

/// The target spelling of a type.
pub open spec fn c_type(ty: Type) -> Seq<char>
    decreases ty,
{
    match ty {
        Type::I32 => "int"@,
        Type::Bool => "bool"@,
        Type::String => "const char*"@,
        Type::Void => "void"@,
        Type::Pointer(inner) => c_type(*inner) + "*"@,
        Type::RawPtr => "void*"@,
        Type::Unknown => "/* UNSUPPORTED TYPE */"@,
    }
}

/// Whether the spelling of a type uses the boolean type of the target.
pub open spec fn mentions_bool(ty: Type) -> bool
    decreases ty,
{
    match ty {
        Type::Bool => true,
        Type::Pointer(inner) => mentions_bool(*inner),
        _ => false,
    }
}

/// The state after a type has been spelled.
pub open spec fn after_type(ty: Type, st: State) -> State {
    if mentions_bool(ty) {
        st.with_include(Include::StdBool)
    } else {
        st
    }
}

/// How a diagnostic names a type.
pub open spec fn type_label(ty: Type) -> Seq<char>
    decreases ty,
{
    match ty {
        Type::I32 => "i32"@,
        Type::Bool => "bool"@,
        Type::String => "string"@,
        Type::Void => "void"@,
        Type::Pointer(inner) => "*"@ + type_label(*inner),
        Type::RawPtr => "rawptr"@,
        Type::Unknown => "unknown"@,
    }
}

/// The type that a recorded spelling stands for, as far as printing can
/// tell: the integer, the boolean, the string, or a pointer, which any
/// other spelling that ends in a star is.
pub open spec fn spelled_type(spelling: Seq<char>) -> Type {
    if spelling == "int"@ {
        Type::I32
    } else if spelling == "bool"@ {
        Type::Bool
    } else if spelling == "const char*"@ {
        Type::String
    } else if finishes_with(spelling, '*') {
        Type::RawPtr
    } else {
        Type::Unknown
    }
}

// ---------------------------------------------------------------------
// Expressions
// ---------------------------------------------------------------------

/// The spelling of a binary operator.
pub open spec fn op_text(op: BinOp) -> Seq<char> {
    match op {
        BinOp::Add => "+"@,
        BinOp::Sub => "-"@,
        BinOp::Mul => "*"@,
        BinOp::Div => "/"@,
        BinOp::Gt => ">"@,
        BinOp::Eq => "=="@,
    }
}

/// Whether `name` is one of the two boolean literals.
pub open spec fn is_bool_word(name: Seq<char>) -> bool {
    name == "true"@ || name == "false"@
}

/// The type by which a printed operand is formatted. For a variable it is
/// the type that the recorded spelling stands for, unknown where none is
/// recorded; for any other operand it is the type attached to it.
pub open spec fn printed_type(operand: Expr, vars: Map<Seq<char>, Seq<char>>) -> Type {
    match operand {
        Expr::Var(name, _, _) => if vars.contains_key(name@) {
            spelled_type(vars[name@])
        } else {
            Type::Unknown
        },
        _ => operand.spec_get_type(),
    }
}

/// The print statement for a value of type `ty` whose lowered text is
/// `value`.
pub open spec fn lower_print(ty: Type, value: Seq<char>, span: Span, st: State) -> Lowered {
    match ty {
        Type::I32 => done("printf(\"%d\\n\", "@ + value + ");"@, st),
        Type::Bool => done("printf(\"%s\\n\", ("@ + value + " ? \"true\" : \"false\"));"@, st),
        Type::String => done("printf(\"%s\\n\", "@ + value + ");"@, st),
        Type::Pointer(_) => done(
            "printf(\"%\"PRIuPTR\"\\n\", (uintptr_t)"@ + value + ");"@,
            st.with_include(Include::IntTypes),
        ),
        Type::RawPtr => done(
            "printf(\"%\"PRIuPTR\"\\n\", (uintptr_t)"@ + value + ");"@,
            st.with_include(Include::IntTypes),
        ),
        _ => rejected("Cannot print type "@ + type_label(ty), Some(span), st),
    }
}

/// The cleanup statements of a block whose deferred actions were registered
/// in the order of `deferred`: the last registered comes first.
pub open spec fn cleanup(deferred: Seq<Seq<char>>) -> Seq<char>
    decreases deferred.len(),
{
    if deferred.len() == 0 {
        Seq::empty()
    } else {
        deferred.last() + ";\n"@ + cleanup(deferred.drop_last())
    }
}

/// The two parts of a block's inside.
pub struct BlockParts {
    /// The statements that are not deferred, lowered in order.
    pub body: Seq<char>,
    /// The deferred actions, lowered, in the order of their registration.
    pub deferred: Seq<Seq<char>>,
}

/// The outcome of lowering the inside of a block.
pub struct LoweredBlock {
    pub out: Result<BlockParts, Diagnostic>,
    pub state: State,
}

/// `rest` behind parts that were produced before it.
pub open spec fn block_prefixed(
    body: Seq<char>,
    deferred: Seq<Seq<char>>,
    rest: LoweredBlock,
) -> LoweredBlock {
    match rest.out {
        Ok(parts) => LoweredBlock {
            out: Ok(BlockParts { body: body + parts.body, deferred: deferred + parts.deferred }),
            state: rest.state,
        },
        Err(_) => rest,
    }
}

/// The lowering of an expression.
pub open spec fn lower_expr(e: Expr, st: State) -> Lowered
    decreases e,
{
    match e {
        Expr::Int(n, _, _) => done(decimal(n as int), st),
        Expr::Str(s, _, _) => done("\""@ + s@ + "\""@, st),
        Expr::Var(name, _, _) => if is_bool_word(name@) {
            done(name@, st.with_include(Include::StdBool))
        } else {
            done(name@, st)
        },
        Expr::BinOp(left, op, right, _, _) => {
            let l = lower_expr(*left, st);
            if l.out is Err {
                l
            } else {
                wrapped(
                    "("@ + l.text() + " "@ + op_text(op) + " "@,
                    lower_expr(*right, l.state),
                    ")"@,
                )
            }
        },
        Expr::Assign(target, value, _, _) => {
            let t = lower_expr(*target, st);
            if t.out is Err {
                t
            } else {
                wrapped("("@ + t.text() + " = "@, lower_expr(*value, t.state), ")"@)
            }
        },
        Expr::Call(name, args, _, _) => wrapped(name@ + "("@, lower_args(args@, st), ")"@),
        Expr::IntrinsicCall(name, args, span, _) => {
            if name@ == "__alloc"@ {
                if args@.len() != 1 {
                    rejected("__alloc expects 1 argument"@, Some(span), st)
                } else {
                    wrapped("malloc("@, lower_expr(args@[0], st), ")"@)
                }
            } else if name@ == "__dealloc"@ {
                if args@.len() != 1 {
                    rejected("__dealloc expects 1 argument"@, Some(span), st)
                } else {
                    wrapped("free("@, lower_expr(args@[0], st), ")"@)
                }
            } else {
                rejected("Unknown intrinsic function: "@ + name@, Some(span), st)
            }
        },
        Expr::Print(operand, _, _) => {
            let v = lower_expr(*operand, st);
            if v.out is Err {
                v
            } else {
                lower_print(
                    printed_type(*operand, v.state.vars),
                    v.text(),
                    operand.spec_span(),
                    v.state,
                )
            }
        },
        Expr::SafeBlock(stmts, _, _) => {
            let b = lower_block(stmts@, st);
            match b.out {
                Ok(parts) => done("{\n"@ + parts.body + cleanup(parts.deferred) + "}\n"@, b.state),
                Err(d) => Lowered { out: Err(d), state: b.state },
            }
        },
        Expr::Deref(inner, _, _) => wrapped("(*"@, lower_expr(*inner, st), ")"@),
        Expr::Cast(inner, target, _, _) => {
            let v = lower_expr(*inner, st);
            if v.out is Err {
                v
            } else if inner.spec_get_type().spec_is_pointer() && target is I32 {
                done(
                    "(uintptr_t)("@ + v.text() + ")"@,
                    v.state.with_include(Include::StdInt),
                )
            } else {
                done("("@ + c_type(target) + ")("@ + v.text() + ")"@, after_type(target, v.state))
            }
        },
        Expr::Other(span, _) => rejected("Unsupported expression"@, Some(span), st),
    }
}

/// The lowering of the arguments of a call, joined by a comma and a space.
pub open spec fn lower_args(args: Seq<Expr>, st: State) -> Lowered
    decreases args, 1int,
{
    if args.len() == 0 {
        done(Seq::empty(), st)
    } else {
        let first = lower_expr(args[0], st);
        if first.out is Err {
            first
        } else {
            prefixed(first.text(), lower_more_args(args.skip(1), first.state))
        }
    }
}

/// The lowering of the arguments behind the first: each behind a comma and
/// a space.
pub open spec fn lower_more_args(args: Seq<Expr>, st: State) -> Lowered
    decreases args, 0int,
{
    if args.len() == 0 {
        done(Seq::empty(), st)
    } else {
        let next = lower_expr(args[0], st);
        if next.out is Err {
            next
        } else {
            prefixed(", "@ + next.text(), lower_more_args(args.skip(1), next.state))
        }
    }
}

/// The inside of a block: a deferred action is lowered where it stands and
/// set aside, any other statement is lowered in place.
pub open spec fn lower_block(stmts: Seq<Stmt>, st: State) -> LoweredBlock
    decreases stmts,
{
    if stmts.len() == 0 {
        LoweredBlock {
            out: Ok(BlockParts { body: Seq::empty(), deferred: Seq::empty() }),
            state: st,
        }
    } else {
        match stmts[0] {
            Stmt::Defer(action, _) => {
                let a = lower_expr(action, st);
                match a.out {
                    Ok(code) => block_prefixed(
                        Seq::empty(),
                        seq![code],
                        lower_block(stmts.skip(1), a.state),
                    ),
                    Err(d) => LoweredBlock { out: Err(d), state: a.state },
                }
            },
            _ => {
                let s = lower_stmt(stmts[0], st);
                match s.out {
                    Ok(code) => block_prefixed(
                        code,
                        Seq::empty(),
                        lower_block(stmts.skip(1), s.state),
                    ),
                    Err(d) => LoweredBlock { out: Err(d), state: s.state },
                }
            },
        }
    }
}

// ---------------------------------------------------------------------
// Statements
// ---------------------------------------------------------------------

/// The type by which a declaration is spelled: the declared one, else the
/// one inferred from the initializer (a boolean literal is boolean whatever
/// is attached to it). `None` where nothing was resolved.
pub open spec fn declared_type(ty: Option<Type>, init: Expr) -> Option<Type> {
    match ty {
        Some(t) => Some(t),
        None => if init is Var && is_bool_word(init->Var_0@) {
            Some(Type::Bool)
        } else if init.spec_get_type() is Unknown {
            None
        } else {
            Some(init.spec_get_type())
        },
    }
}

/// The spelling of an optional type, with the 32-bit integer in place of a
/// missing one.
pub open spec fn spelling_or_int(ty: Option<Type>) -> Seq<char> {
    match ty {
        Some(t) => c_type(t),
        None => "int"@,
    }
}

/// The state after an optional type has been spelled.
pub open spec fn after_optional_type(ty: Option<Type>, st: State) -> State {
    match ty {
        Some(t) => after_type(t, st),
        None => st,
    }
}

/// The state in which the initializer of a declaration is lowered: the
/// type has been spelled and recorded for the name.
pub open spec fn declaring(name: Seq<char>, resolved: Option<Type>, st: State) -> State {
    after_optional_type(resolved, st).with_var(name, spelling_or_int(resolved))
}

/// A lowered expression in the place of a statement.
pub open spec fn as_statement(code: Seq<char>) -> Seq<char> {
    if begins_with(code, '{') {
        code
    } else if !finishes_with(code, ';') {
        code + ";\n"@
    } else {
        code + "\n"@
    }
}

/// The lowering of a statement. A deferred action is no statement of its
/// own: it is lowered by the block that holds it, and nothing is said of it
/// here.
pub open spec fn lower_stmt(s: Stmt, st: State) -> Lowered
    decreases s, 1int,
{
    match s {
        Stmt::Let(name, ty, init, _) => {
            let resolved = declared_type(ty, init);
            wrapped(
                spelling_or_int(resolved) + " "@ + name@ + " = "@,
                lower_expr(init, declaring(name@, resolved, st)),
                ";\n"@,
            )
        },
        Stmt::Return(value, _) => wrapped("return "@, lower_expr(value, st), ";\n"@),
        Stmt::Expr(e, _) => {
            let v = lower_expr(e, st);
            if v.out is Err {
                v
            } else {
                done(as_statement(v.text()), v.state)
            }
        },
        Stmt::While(cond, body, _) => {
            let c = lower_expr(cond, st);
            if c.out is Err {
                c
            } else {
                wrapped("while ("@ + c.text() + ") {\n"@, lower_stmts(body@, c.state), "}\n"@)
            }
        },
        Stmt::For(init, cond, incr, body, _) => {
            let i = lower_for_init(init, st);
            if i.out is Err {
                i
            } else {
                let c = lower_clause(cond, "1"@, i.state);
                if c.out is Err {
                    c
                } else {
                    let n = lower_clause(incr, Seq::empty(), c.state);
                    if n.out is Err {
                        n
                    } else {
                        wrapped(
                            "for ("@ + i.text() + "; "@ + c.text() + "; "@ + n.text() + ") {\n"@,
                            lower_stmts(body@, n.state),
                            "}\n"@,
                        )
                    }
                }
            }
        },
        Stmt::Defer(_, _) => arbitrary(),
    }
}

/// The initializer of a for-loop: a declaration without its end, or an
/// expression in parentheses; nothing where there is none. Any other
/// statement is refused.
pub open spec fn lower_for_init(init: Option<Box<Stmt>>, st: State) -> Lowered
    decreases init,
{
    match init {
        Some(first) => match *first {
            Stmt::Let(name, ty, value, _) => wrapped(
                spelling_or_int(declared_type(ty, value)) + " "@ + name@ + " = "@,
                lower_expr(value, declaring(name@, declared_type(ty, value), st)),
                Seq::empty(),
            ),
            Stmt::Expr(e, _) => wrapped("("@, lower_expr(e, st), ")"@),
            _ => rejected("Unsupported for loop initializer"@, None, st),
        },
        None => done(Seq::empty(), st),
    }
}

/// The condition or the increment of a for-loop: the expression in
/// parentheses, or `missing` where there is none.
pub open spec fn lower_clause(clause: Option<Expr>, missing: Seq<char>, st: State) -> Lowered
    decreases clause,
{
    match clause {
        Some(e) => wrapped("("@, lower_expr(e, st), ")"@),
        None => done(missing, st),
    }
}

/// The lowering of statements, one behind the other.
pub open spec fn lower_stmts(stmts: Seq<Stmt>, st: State) -> Lowered
    decreases stmts, 0int,
{
    if stmts.len() == 0 {
        done(Seq::empty(), st)
    } else {
        let first = lower_stmt(stmts[0], st);
        if first.out is Err {
            first
        } else {
            prefixed(first.text(), lower_stmts(stmts.skip(1), first.state))
        }
    }
}

// ---------------------------------------------------------------------
// Globals, functions and the entry point
// ---------------------------------------------------------------------

/// The text of a literal.
pub open spec fn literal_text(e: Expr) -> Seq<char> {
    match e {
        Expr::Int(n, _, _) => decimal(n as int),
        Expr::Str(s, _, _) => "\""@ + s@ + "\""@,
        _ => Seq::empty(),
    }
}

/// The declaration of the global `name` with the literal `init`: its type
/// is the declared one `ty`, else the one attached to the literal.
pub open spec fn global_declaration(name: Seq<char>, ty: Option<Type>, init: Expr) -> Seq<char> {
    spelling_or_int(declared_type(ty, init)) + " "@ + name + " = "@ + literal_text(init) + ";\n"@
}

/// The lowering of one top-level statement as a global: a declaration with
/// a constant initializer is declared, one with another initializer is
/// refused, any other statement is passed over.
pub open spec fn lower_global(s: Stmt, st: State) -> Lowered {
    match s {
        Stmt::Let(name, ty, init, _) => if is_constant(init) {
            done(
                global_declaration(name@, ty, init),
                declaring(name@, declared_type(ty, init), st),
            )
        } else {
            rejected(
                "Non-constant initializer for global '"@ + name@ + "'"@,
                Some(init.spec_span()),
                st,
            )
        },
        _ => done(Seq::empty(), st),
    }
}

/// The lowering of the top-level statements as globals.
pub open spec fn lower_globals(stmts: Seq<Stmt>, st: State) -> Lowered
    decreases stmts.len(),
{
    if stmts.len() == 0 {
        done(Seq::empty(), st)
    } else {
        let first = lower_global(stmts[0], st);
        if first.out is Err {
            first
        } else {
            prefixed(first.text(), lower_globals(stmts.skip(1), first.state))
        }
    }
}

/// The spelling of a function's return type: that of the entry point is
/// always `int`.
pub open spec fn return_spelling(f: Function) -> Seq<char> {
    if is_main(f) {
        "int"@
    } else {
        c_type(f.return_type)
    }
}

/// The parameters of a function, each as its type and its name, joined by
/// a comma and a space.
pub open spec fn params_text(params: Seq<(String, Type)>) -> Seq<char> {
    if params.len() == 0 {
        Seq::empty()
    } else {
        c_type(params[0].1) + " "@ + params[0].0@ + more_params_text(params.skip(1))
    }
}

/// The parameters behind the first: each behind a comma and a space.
pub open spec fn more_params_text(params: Seq<(String, Type)>) -> Seq<char>
    decreases params.len(),
{
    if params.len() == 0 {
        Seq::empty()
    } else {
        ", "@ + c_type(params[0].1) + " "@ + params[0].0@ + more_params_text(params.skip(1))
    }
}

/// The state after the types of parameters have been spelled.
pub open spec fn after_params(params: Seq<(String, Type)>, st: State) -> State
    decreases params.len(),
{
    if params.len() == 0 {
        st
    } else {
        after_params(params.skip(1), after_type(params[0].1, st))
    }
}

/// The head of a function: return type, name and parameters.
pub open spec fn signature(f: Function) -> Seq<char> {
    return_spelling(f) + " "@ + f.name@ + "("@ + params_text(f.params@) + ")"@
}

/// The state after the head of a function has been spelled.
pub open spec fn after_signature(f: Function, st: State) -> State {
    after_params(
        f.params@,
        if is_main(f) {
            st
        } else {
            after_type(f.return_type, st)
        },
    )
}

/// The forward declarations of functions, in order.
pub open spec fn declarations(functions: Seq<Function>) -> Seq<char>
    decreases functions.len(),
{
    if functions.len() == 0 {
        Seq::empty()
    } else {
        signature(functions[0]) + ";\n"@ + declarations(functions.skip(1))
    }
}

/// The state after functions have been declared.
pub open spec fn after_declarations(functions: Seq<Function>, st: State) -> State
    decreases functions.len(),
{
    if functions.len() == 0 {
        st
    } else {
        after_declarations(functions.skip(1), after_signature(functions[0], st))
    }
}

/// The statement by which the entry point waits before it returns.
pub open spec fn pause(host: Host) -> Seq<char> {
    match host {
        Host::Windows => "    system(\"pause\");\n"@,
        Host::Other => "    getchar();\n"@,
    }
}

/// Whether the last of the statements is a return.
pub open spec fn ends_with_return(stmts: Seq<Stmt>) -> bool {
    stmts.len() > 0 && stmts.last() is Return
}

/// What stands between the lowered body of a function and its closing
/// brace. The entry point waits, and returns zero unless its last statement
/// is a return; another function returns if it yields nothing.
pub open spec fn function_end(f: Function, host: Host) -> Seq<char> {
    if is_main(f) {
        if ends_with_return(f.body@) {
            pause(host)
        } else {
            pause(host) + "    return 0;\n"@
        }
    } else if f.return_type is Void {
        "    return;\n"@
    } else {
        Seq::empty()
    }
}

/// The definition of a function.
pub open spec fn lower_function(f: Function, host: Host, st: State) -> Lowered {
    wrapped(
        signature(f) + " {\n"@,
        lower_stmts(f.body@, after_signature(f, st)),
        function_end(f, host) + "}\n\n"@,
    )
}

/// The definitions of functions, in order.
pub open spec fn lower_functions(functions: Seq<Function>, host: Host, st: State) -> Lowered
    decreases functions.len(),
{
    if functions.len() == 0 {
        done(Seq::empty(), st)
    } else {
        let first = lower_function(functions[0], host, st);
        if first.out is Err {
            first
        } else {
            prefixed(first.text(), lower_functions(functions.skip(1), host, first.state))
        }
    }
}

/// The lowering of the top-level statements that are no declarations, in
/// order.
pub open spec fn lower_top_level(stmts: Seq<Stmt>, st: State) -> Lowered
    decreases stmts.len(),
{
    if stmts.len() == 0 {
        done(Seq::empty(), st)
    } else if stmts[0] is Let {
        lower_top_level(stmts.skip(1), st)
    } else {
        let first = lower_stmt(stmts[0], st);
        if first.out is Err {
            first
        } else {
            prefixed(first.text(), lower_top_level(stmts.skip(1), first.state))
        }
    }
}

/// The entry point that is made up for a program that defines none: the
/// top-level statements that are no declarations, then the wait and a
/// return of zero. Nothing for a program that defines its own.
pub open spec fn lower_entry_point(p: Program, host: Host, st: State) -> Lowered {
    if has_main(p.functions@) {
        done(Seq::empty(), st)
    } else {
        wrapped(
            "\nint main() {\n"@,
            lower_top_level(p.stmts@, st),
            pause(host) + "    return 0;\n}\n"@,
        )
    }
}

/// The forward declarations of the functions, an empty line, and their
/// definitions.
pub open spec fn lower_function_section(
    functions: Seq<Function>,
    host: Host,
    st: State,
) -> Lowered {
    prefixed(
        declarations(functions) + "\n"@,
        lower_functions(functions, host, after_declarations(functions, st)),
    )
}

/// The body of the output for a program: the globals, the functions, and
/// the entry point where the program defines none.
pub open spec fn lower_program(p: Program, host: Host, st: State) -> Lowered {
    let globals = lower_globals(p.stmts@, st);
    if globals.out is Err {
        globals
    } else {
        let functions = lower_function_section(p.functions@, host, globals.state);
        if functions.out is Err {
            functions
        } else {
            prefixed(
                globals.text() + functions.text(),
                lower_entry_point(p, host, functions.state),
            )
        }
    }
}

/// The line that asks for `inc`, if it is in `includes`.
pub open spec fn include_line(includes: Set<Include>, inc: Include) -> Seq<char> {
    if includes.contains(inc) {
        "#include "@ + inc.spec_header() + "\n"@
    } else {
        Seq::empty()
    }
}

/// The header of the output: the banner with the target triple, the two
/// headers that every output names, the headers asked for, and an empty
/// line.
pub open spec fn header_text(target: Seq<char>, includes: Set<Include>) -> Seq<char> {
    "// Generated by Verve Compiler (target: "@ + target + ")\n"@
        + "#include <stdio.h>\n#include <stdlib.h>\n"@ + include_line(includes, Include::StdBool)
        + include_line(includes, Include::IntTypes) + include_line(includes, Include::StdInt)
        + "\n"@
}

} // verus!
