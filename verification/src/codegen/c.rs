use vstd::prelude::*;
use vstd::string::StringExecFns;
use codespan::FileId;
use codespan::Span;
use crate::ast::BinOp;
use crate::ast::Expr;
use crate::ast::Function;
use crate::ast::Program;
use crate::ast::Stmt;
use crate::ast::Type;
use crate::codegen::CodegenConfig;
use crate::codegen::CompileError;
use crate::codegen::Diagnostic;
use crate::codegen::Host;
use crate::codegen::includes::Include;
use crate::codegen::includes::IncludeSet;
use crate::codegen::laws::lemma_globals_refused_iff_non_constant;
use crate::codegen::lowering::{
    after_declarations, after_optional_type, after_params, after_signature, after_type,
    as_statement, block_prefixed, c_type, cleanup, declarations, declared_type, function_end,
    global_declaration, header_text, include_line, lower_args, lower_block, lower_clause,
    lower_entry_point, lower_expr, lower_for_init, lower_function, lower_function_section,
    lower_functions, lower_global, lower_globals, lower_more_args, lower_print, lower_program,
    lower_stmt, lower_stmts, lower_top_level, more_params_text, op_text, params_text, pause,
    prefixed, signature, spelled_type, spelling_or_int, type_label, BlockParts, Lowered, State,
};
use crate::codegen::variables::VarTable;
use crate::shape::{
    block_item_lowerable, check_program, defines_main, expr_lowerable, function_lowerable,
    has_main, is_constant, program_lowerable, stmt_lowerable, stmts_lowerable, top_level_lowerable,
};
use crate::text::decimal_string;
use crate::text::ends_with_char;
use crate::text::same_text;
use crate::text::starts_with_char;

verus! {

/// One compilation session: it lowers a program to C text, which it holds
/// as a header and a body.
pub struct CBackend {
    config: CodegenConfig,
    header: String,
    body: String,
    file_id: FileId,
    includes: IncludeSet,
    variables: VarTable,
}

/// Whether `r` is what a lowering with outcome `l` hands to its caller in a
/// session on the file `file`: the text produced, or an error that carries
/// the diagnostic and the file.
pub open spec fn reports(r: Result<String, CompileError>, l: Lowered, file: FileId) -> bool {
    match r {
        Ok(text) => l.out == Ok::<Seq<char>, Diagnostic>(text@),
        Err(e) => l.out == Err::<Seq<char>, Diagnostic>(e.diagnostic()) && e.file() == file,
    }
}

proof fn lemma_prefixed_twice(a: Seq<char>, b: Seq<char>, rest: Lowered)
    ensures
        prefixed(a, prefixed(b, rest)) == prefixed(a + b, rest),
{
    if rest.out is Ok {
        assert(a + (b + rest.text()) =~= (a + b) + rest.text());
    }
}

impl CBackend {
    /// The headers asked for and the variables recorded so far.
    pub closed spec fn state(&self) -> State {
        State { includes: self.includes@, vars: self.variables@ }
    }

    /// The header text held.
    pub closed spec fn header_text(&self) -> Seq<char> {
        self.header@
    }

    /// The body text held.
    pub closed spec fn body_text(&self) -> Seq<char> {
        self.body@
    }

    /// The target triple that the session was configured with.
    pub closed spec fn target(&self) -> Seq<char> {
        self.config.target_triple@
    }

    /// The host family that the session was configured with.
    pub closed spec fn host(&self) -> Host {
        self.config.host
    }

    /// The source file that diagnostics are reported for.
    pub closed spec fn file(&self) -> FileId {
        self.file_id
    }

    /// Whether the session is configured as `before` is.
    pub open spec fn same_settings(&self, before: &Self) -> bool {
        &&& self.target() == before.target()
        &&& self.host() == before.host()
        &&& self.file() == before.file()
    }

    /// Whether the session differs from `before` in its state at most.
    pub open spec fn same_but_state(&self, before: &Self) -> bool {
        &&& self.same_settings(before)
        &&& self.header_text() == before.header_text()
        &&& self.body_text() == before.body_text()
    }

    /// A session that has held nothing yet.
    pub fn new(config: CodegenConfig, file_id: FileId) -> (r: Self)
        ensures
            r.state() == State::fresh(),
            r.header_text() == Seq::<char>::empty(),
            r.body_text() == Seq::<char>::empty(),
            r.target() == config.target_triple@,
            r.host() == config.host,
            r.file() == file_id,
    {
        CBackend {
            config,
            header: String::new(),
            body: String::new(),
            file_id,
            includes: IncludeSet::new(),
            variables: VarTable::new(),
        }
    }

    fn failure(&self, message: String, span: Option<Span>) -> (e: CompileError)
        ensures
            e.diagnostic() == (Diagnostic { message: message@, span }),
            e.file() == self.file(),
    {
        CompileError::CodegenError { message, span, file_id: self.file_id }
    }

    /// Spells a type in C and asks for the header that the spelling needs.
    pub fn type_to_c(&mut self, ty: &Type) -> (r: String)
        ensures
            r@ == c_type(*ty),
            final(self).state() == after_type(*ty, old(self).state()),
            final(self).same_but_state(old(self)),
        decreases *ty,
    {
        match ty {
            Type::I32 => String::from_str("int"),
            Type::Bool => {
                self.includes.register(Include::StdBool);
                String::from_str("bool")
            },
            Type::String => String::from_str("const char*"),
            Type::Void => String::from_str("void"),
            Type::Pointer(inner) => {
                let mut spelling = self.type_to_c(inner);
                spelling.append("*");
                spelling
            },
            Type::RawPtr => String::from_str("void*"),
            Type::Unknown => String::from_str("/* UNSUPPORTED TYPE */"),
        }
    }
}

/// Names a type as a diagnostic does.
pub fn type_label_string(ty: &Type) -> (r: String)
    ensures
        r@ == type_label(*ty),
    decreases *ty,
{
    match ty {
        Type::I32 => String::from_str("i32"),
        Type::Bool => String::from_str("bool"),
        Type::String => String::from_str("string"),
        Type::Void => String::from_str("void"),
        Type::Pointer(inner) => {
            let mut label = String::from_str("*");
            let rest = type_label_string(inner);
            label.append(rest.as_str());
            label
        },
        Type::RawPtr => String::from_str("rawptr"),
        Type::Unknown => String::from_str("unknown"),
    }
}

/// The type that a recorded spelling stands for.
fn type_of_spelling(spelling: &String) -> (r: Type)
    ensures
        r == spelled_type(spelling@),
{
    if same_text(spelling, "int") {
        Type::I32
    } else if same_text(spelling, "bool") {
        Type::Bool
    } else if same_text(spelling, "const char*") {
        Type::String
    } else if ends_with_char(spelling.as_str(), '*') {
        Type::RawPtr
    } else {
        Type::Unknown
    }
}

fn op_str(op: &BinOp) -> (r: &'static str)
    ensures
        r@ == op_text(*op),
{
    match op {
        BinOp::Add => "+",
        BinOp::Sub => "-",
        BinOp::Mul => "*",
        BinOp::Div => "/",
        BinOp::Gt => ">",
        BinOp::Eq => "==",
    }
}

/// Puts a lowered expression in the place of a statement.
fn statement_of(code: String) -> (r: String)
    ensures
        r@ == as_statement(code@),
{
    let mut code = code;
    if starts_with_char(code.as_str(), '{') {
        code
    } else if !ends_with_char(code.as_str(), ';') {
        code.append(";\n");
        code
    } else {
        code.append("\n");
        code
    }
}

/// Puts the lowered pieces of a for-loop together.
fn for_loop(init: String, cond: String, incr: String, body: String) -> (r: String)
    ensures
        r@ == "for ("@ + init@ + "; "@ + cond@ + "; "@ + incr@ + ") {\n"@ + body@ + "}\n"@,
{
    let mut out = String::from_str("for (");
    out.append(init.as_str());
    out.append("; ");
    out.append(cond.as_str());
    out.append("; ");
    out.append(incr.as_str());
    out.append(") {\n");
    out.append(body.as_str());
    out.append("}\n");
    out
}

impl CBackend {
    /// Lowers the print of a value of type `ty` whose lowered text is
    /// `value`.
    fn emit_print(&mut self, ty: &Type, value: String, span: Span) -> (r: Result<
        String,
        CompileError,
    >)
        ensures
            final(self).same_but_state(old(self)),
            final(self).state() == lower_print(*ty, value@, span, old(self).state()).state,
            reports(r, lower_print(*ty, value@, span, old(self).state()), old(self).file()),
    {
        match ty {
            Type::I32 => {
                let mut out = String::from_str("printf(\"%d\\n\", ");
                out.append(value.as_str());
                out.append(");");
                Ok(out)
            },
            Type::Bool => {
                let mut out = String::from_str("printf(\"%s\\n\", (");
                out.append(value.as_str());
                out.append(" ? \"true\" : \"false\"));");
                Ok(out)
            },
            Type::String => {
                let mut out = String::from_str("printf(\"%s\\n\", ");
                out.append(value.as_str());
                out.append(");");
                Ok(out)
            },
            Type::Pointer(_) => {
                self.includes.register(Include::IntTypes);
                let mut out = String::from_str("printf(\"%\"PRIuPTR\"\\n\", (uintptr_t)");
                out.append(value.as_str());
                out.append(");");
                Ok(out)
            },
            Type::RawPtr => {
                self.includes.register(Include::IntTypes);
                let mut out = String::from_str("printf(\"%\"PRIuPTR\"\\n\", (uintptr_t)");
                out.append(value.as_str());
                out.append(");");
                Ok(out)
            },
            _ => {
                let mut message = String::from_str("Cannot print type ");
                let label = type_label_string(ty);
                message.append(label.as_str());
                Err(self.failure(message, Some(span)))
            },
        }
    }

    /// Lowers an expression to C text.
    pub fn emit_expr(&mut self, expr: &Expr) -> (r: Result<String, CompileError>)
        requires
            expr_lowerable(*expr),
        ensures
            final(self).same_but_state(old(self)),
            final(self).state() == lower_expr(*expr, old(self).state()).state,
            reports(r, lower_expr(*expr, old(self).state()), old(self).file()),
        decreases *expr,
    {
        match expr {
            Expr::Int(n, _, _) => Ok(decimal_string(*n)),
            Expr::Str(s, _, _) => {
                let mut out = String::from_str("\"");
                out.append(s.as_str());
                out.append("\"");
                Ok(out)
            },
            Expr::Var(name, _, _) => {
                if same_text(name, "true") || same_text(name, "false") {
                    self.includes.register(Include::StdBool);
                }
                Ok(name.clone())
            },
            Expr::BinOp(left, op, right, _, _) => {
                let left_code = self.emit_expr(left)?;
                let right_code = self.emit_expr(right)?;
                let mut out = String::from_str("(");
                out.append(left_code.as_str());
                out.append(" ");
                out.append(op_str(op));
                out.append(" ");
                out.append(right_code.as_str());
                out.append(")");
                Ok(out)
            },
            Expr::Assign(target, value, _, _) => {
                let target_code = self.emit_expr(target)?;
                let value_code = self.emit_expr(value)?;
                let mut out = String::from_str("(");
                out.append(target_code.as_str());
                out.append(" = ");
                out.append(value_code.as_str());
                out.append(")");
                Ok(out)
            },
            Expr::Call(name, args, _, _) => {
                let args_code = self.emit_args(args)?;
                let mut out = name.clone();
                out.append("(");
                out.append(args_code.as_str());
                out.append(")");
                Ok(out)
            },
            Expr::IntrinsicCall(name, args, span, _) => {
                if same_text(name, "__alloc") {
                    if args.len() != 1 {
                        return Err(
                            self.failure(String::from_str("__alloc expects 1 argument"), Some(*span)),
                        );
                    }
                    let size = self.emit_expr(&args[0])?;
                    let mut out = String::from_str("malloc(");
                    out.append(size.as_str());
                    out.append(")");
                    Ok(out)
                } else if same_text(name, "__dealloc") {
                    if args.len() != 1 {
                        return Err(
                            self.failure(
                                String::from_str("__dealloc expects 1 argument"),
                                Some(*span),
                            ),
                        );
                    }
                    let ptr = self.emit_expr(&args[0])?;
                    let mut out = String::from_str("free(");
                    out.append(ptr.as_str());
                    out.append(")");
                    Ok(out)
                } else {
                    let mut message = String::from_str("Unknown intrinsic function: ");
                    message.append(name.as_str());
                    Err(self.failure(message, Some(*span)))
                }
            },
            Expr::Print(operand, _, _) => {
                let value = self.emit_expr(operand)?;
                let span = operand.span();
                match &**operand {
                    Expr::Var(var_name, _, _) => {
                        let resolved = match self.variables.lookup(var_name) {
                            Some(spelling) => type_of_spelling(spelling),
                            None => Type::Unknown,
                        };
                        self.emit_print(&resolved, value, span)
                    },
                    _ => self.emit_print(operand.get_type(), value, span),
                }
            },
            Expr::SafeBlock(stmts, _, _) => self.emit_block(stmts),
            Expr::Deref(inner, _, _) => {
                let inner_code = self.emit_expr(inner)?;
                let mut out = String::from_str("(*");
                out.append(inner_code.as_str());
                out.append(")");
                Ok(out)
            },
            Expr::Cast(inner, target, _, _) => {
                let inner_code = self.emit_expr(inner)?;
                let to_int = match target {
                    Type::I32 => true,
                    _ => false,
                };
                if inner.get_type().is_pointer() && to_int {
                    self.includes.register(Include::StdInt);
                    let mut out = String::from_str("(uintptr_t)(");
                    out.append(inner_code.as_str());
                    out.append(")");
                    Ok(out)
                } else {
                    let spelling = self.type_to_c(target);
                    let mut out = String::from_str("(");
                    out.append(spelling.as_str());
                    out.append(")(");
                    out.append(inner_code.as_str());
                    out.append(")");
                    Ok(out)
                }
            },
            Expr::Other(span, _) => Err(
                self.failure(String::from_str("Unsupported expression"), Some(*span)),
            ),
        }
    }

    /// Lowers the arguments of a call and joins them.
    fn emit_args(&mut self, args: &Vec<Expr>) -> (r: Result<String, CompileError>)
        requires
            forall|i: int| 0 <= i < args@.len() ==> expr_lowerable(#[trigger] args@[i]),
        ensures
            final(self).same_but_state(old(self)),
            final(self).state() == lower_args(args@, old(self).state()).state,
            reports(r, lower_args(args@, old(self).state()), old(self).file()),
        decreases *args,
    {
        if args.len() == 0 {
            return Ok(String::new());
        }
        let mut out = self.emit_expr(&args[0])?;
        let mut i: usize = 1;
        while i < args.len()
            invariant
                1 <= i <= args.len(),
                forall|j: int| 0 <= j < args@.len() ==> expr_lowerable(#[trigger] args@[j]),
                self.same_but_state(old(self)),
                lower_args(args@, old(self).state()) == prefixed(
                    out@,
                    lower_more_args(args@.skip(i as int), self.state()),
                ),
            decreases args.len() - i,
        {
            let ghost before = self.state();
            let ghost so_far = out@;
            proof {
                assert(args@.skip(i as int)[0] == args@[i as int]);
                assert(args@.skip(i as int).skip(1) =~= args@.skip(i + 1));
            }
            let code = self.emit_expr(&args[i])?;
            out.append(", ");
            out.append(code.as_str());
            proof {
                let rest = lower_more_args(args@.skip(i + 1), self.state());
                lemma_prefixed_twice(so_far, ", "@ + code@, rest);
                assert(so_far + (", "@ + code@) =~= out@);
            }
            i += 1;
        }
        proof {
            assert(out@ + Seq::<char>::empty() =~= out@);
        }
        Ok(out)
    }

    /// Lowers a scoped block: its statements in order, then its deferred
    /// actions, the last registered first.
    fn emit_block(&mut self, stmts: &Vec<Stmt>) -> (r: Result<String, CompileError>)
        requires
            forall|i: int| 0 <= i < stmts@.len() ==> block_item_lowerable(#[trigger] stmts@[i]),
        ensures
            final(self).same_but_state(old(self)),
            final(self).state() == lower_block(stmts@, old(self).state()).state,
            match r {
                Ok(text) => lower_block(stmts@, old(self).state()).out matches Ok(parts)
                    && text@ == "{\n"@ + parts.body + cleanup(parts.deferred) + "}\n"@,
                Err(e) => lower_block(stmts@, old(self).state()).out == Err::<
                    BlockParts,
                    Diagnostic,
                >(e.diagnostic()) && e.file() == old(self).file(),
            },
        decreases *stmts,
    {
        let mut body = String::new();
        let mut defers: Vec<String> = Vec::new();
        let ghost mut deferred: Seq<Seq<char>> = Seq::empty();
        let mut i: usize = 0;
        proof {
            assert(stmts@.skip(0) =~= stmts@);
            let all = lower_block(stmts@, self.state());
            if all.out is Ok {
                let parts = all.out->Ok_0;
                assert(body@ + parts.body =~= parts.body);
                assert(deferred + parts.deferred =~= parts.deferred);
            }
        }
        while i < stmts.len()
            invariant
                i <= stmts.len(),
                forall|j: int| 0 <= j < stmts@.len() ==> block_item_lowerable(#[trigger] stmts@[j]),
                self.same_but_state(old(self)),
                deferred.len() == defers@.len(),
                forall|j: int| 0 <= j < deferred.len() ==> deferred[j] == (#[trigger] defers@[j])@,
                lower_block(stmts@, old(self).state()) == block_prefixed(
                    body@,
                    deferred,
                    lower_block(stmts@.skip(i as int), self.state()),
                ),
            decreases stmts.len() - i,
        {
            let ghost body_before = body@;
            let ghost deferred_before = deferred;
            proof {
                assert(stmts@.skip(i as int)[0] == stmts@[i as int]);
                assert(stmts@.skip(i as int).skip(1) =~= stmts@.skip(i + 1));
                assert(block_item_lowerable(stmts@[i as int]));
            }
            match &stmts[i] {
                Stmt::Defer(action, _) => {
                    let code = self.emit_expr(action)?;
                    proof {
                        deferred = deferred.push(code@);
                        let rest = lower_block(stmts@.skip(i + 1), self.state());
                        if rest.out is Ok {
                            let parts = rest.out->Ok_0;
                            assert(body_before + (Seq::<char>::empty() + parts.body)
                                =~= body_before + parts.body);
                            assert(deferred_before + (seq![code@] + parts.deferred)
                                =~= deferred + parts.deferred);
                        }
                    }
                    defers.push(code);
                },
                other => {
                    let code = self.emit_stmt(other)?;
                    body.append(code.as_str());
                    proof {
                        let rest = lower_block(stmts@.skip(i + 1), self.state());
                        if rest.out is Ok {
                            let parts = rest.out->Ok_0;
                            assert(body_before + (code@ + parts.body) =~= body@ + parts.body);
                            assert(deferred_before + (Seq::<Seq<char>>::empty() + parts.deferred)
                                =~= deferred + parts.deferred);
                        }
                    }
                },
            }
            i += 1;
        }
        proof {
            assert(body@ + Seq::<char>::empty() =~= body@);
            assert(deferred + Seq::<Seq<char>>::empty() =~= deferred);
        }
        let mut out = String::from_str("{\n");
        out.append(body.as_str());
        let ghost opened = out@;
        let mut k: usize = defers.len();
        proof {
            assert(deferred.take(k as int) =~= deferred);
        }
        while k > 0
            invariant
                k <= defers@.len(),
                deferred.len() == defers@.len(),
                forall|j: int| 0 <= j < deferred.len() ==> deferred[j] == (#[trigger] defers@[j])@,
                out@ + cleanup(deferred.take(k as int)) == opened + cleanup(deferred),
            decreases k,
        {
            let ghost before = out@;
            k -= 1;
            out.append(defers[k].as_str());
            out.append(";\n");
            proof {
                let upto = deferred.take(k + 1);
                assert(upto.last() == deferred[k as int]);
                assert(upto.drop_last() =~= deferred.take(k as int));
                assert(before + (deferred[k as int] + ";\n"@ + cleanup(deferred.take(k as int)))
                    =~= out@ + cleanup(deferred.take(k as int)));
            }
        }
        proof {
            assert(out@ + cleanup(deferred.take(0)) =~= out@);
        }
        out.append("}\n");
        Ok(out)
    }

    /// Spells the type of a declaration and asks for the header that the
    /// spelling needs.
    fn declared_spelling(&mut self, ty: &Option<Type>, init: &Expr) -> (r: String)
        ensures
            r@ == spelling_or_int(declared_type(*ty, *init)),
            final(self).state() == after_optional_type(
                declared_type(*ty, *init),
                old(self).state(),
            ),
            final(self).same_but_state(old(self)),
    {
        match ty {
            Some(t) => self.type_to_c(t),
            None => {
                let bool_word = match init {
                    Expr::Var(name, _, _) => same_text(name, "true") || same_text(name, "false"),
                    _ => false,
                };
                if bool_word {
                    self.type_to_c(&Type::Bool)
                } else {
                    let attached = init.get_type();
                    match attached {
                        Type::Unknown => String::from_str("int"),
                        _ => self.type_to_c(attached),
                    }
                }
            },
        }
    }

    /// Lowers a statement to C text.
    pub fn emit_stmt(&mut self, stmt: &Stmt) -> (r: Result<String, CompileError>)
        requires
            stmt_lowerable(*stmt),
        ensures
            final(self).same_but_state(old(self)),
            final(self).state() == lower_stmt(*stmt, old(self).state()).state,
            reports(r, lower_stmt(*stmt, old(self).state()), old(self).file()),
        decreases *stmt, 1int,
    {
        match stmt {
            Stmt::Let(name, ty, init, _) => {
                let spelling = self.declared_spelling(ty, init);
                self.variables.insert(name.clone(), spelling.clone());
                let code = self.emit_expr(init)?;
                let mut out = spelling;
                out.append(" ");
                out.append(name.as_str());
                out.append(" = ");
                out.append(code.as_str());
                out.append(";\n");
                Ok(out)
            },
            Stmt::Return(value, _) => {
                let code = self.emit_expr(value)?;
                let mut out = String::from_str("return ");
                out.append(code.as_str());
                out.append(";\n");
                Ok(out)
            },
            Stmt::Expr(e, _) => {
                let code = self.emit_expr(e)?;
                Ok(statement_of(code))
            },
            Stmt::While(cond, body, _) => {
                let cond_code = self.emit_expr(cond)?;
                let body_code = self.emit_stmts(body)?;
                let mut out = String::from_str("while (");
                out.append(cond_code.as_str());
                out.append(") {\n");
                out.append(body_code.as_str());
                out.append("}\n");
                Ok(out)
            },
            Stmt::For(init, cond, incr, body, _) => {
                let init_code = self.emit_for_init(init)?;
                let cond_code = self.emit_clause(cond, "1")?;
                proof {
                    reveal_strlit("");
                    assert(""@ =~= Seq::<char>::empty());
                }
                let incr_code = self.emit_clause(incr, "")?;
                let body_code = self.emit_stmts(body)?;
                Ok(for_loop(init_code, cond_code, incr_code, body_code))
            },
            Stmt::Defer(..) => {
                // No deferred action is lowerable as a statement.
                assert(false);
                Ok(String::new())
            },
        }
    }

    /// Lowers the initializer of a for-loop.
    fn emit_for_init(&mut self, init: &Option<Box<Stmt>>) -> (r: Result<String, CompileError>)
        requires
            match *init {
                Some(first) => match *first {
                    Stmt::Let(_, _, value, _) => expr_lowerable(value),
                    Stmt::Expr(e, _) => expr_lowerable(e),
                    _ => true,
                },
                None => true,
            },
        ensures
            final(self).same_but_state(old(self)),
            final(self).state() == lower_for_init(*init, old(self).state()).state,
            reports(r, lower_for_init(*init, old(self).state()), old(self).file()),
        decreases *init,
    {
        match init {
            Some(first) => match &**first {
                Stmt::Let(name, ty, value, _) => {
                    let spelling = self.declared_spelling(ty, value);
                    self.variables.insert(name.clone(), spelling.clone());
                    let code = self.emit_expr(value)?;
                    let mut out = spelling;
                    out.append(" ");
                    out.append(name.as_str());
                    out.append(" = ");
                    out.append(code.as_str());
                    proof {
                        assert(out@ + Seq::<char>::empty() =~= out@);
                    }
                    Ok(out)
                },
                Stmt::Expr(e, _) => {
                    let code = self.emit_expr(e)?;
                    let mut out = String::from_str("(");
                    out.append(code.as_str());
                    out.append(")");
                    Ok(out)
                },
                _ => Err(
                    self.failure(String::from_str("Unsupported for loop initializer"), None),
                ),
            },
            None => Ok(String::new()),
        }
    }

    /// Lowers the condition or the increment of a for-loop.
    fn emit_clause(&mut self, clause: &Option<Expr>, missing: &str) -> (r: Result<
        String,
        CompileError,
    >)
        requires
            match *clause {
                Some(e) => expr_lowerable(e),
                None => true,
            },
        ensures
            final(self).same_but_state(old(self)),
            final(self).state() == lower_clause(*clause, missing@, old(self).state()).state,
            reports(r, lower_clause(*clause, missing@, old(self).state()), old(self).file()),
        decreases *clause,
    {
        match clause {
            Some(e) => {
                let code = self.emit_expr(e)?;
                let mut out = String::from_str("(");
                out.append(code.as_str());
                out.append(")");
                Ok(out)
            },
            None => Ok(String::from_str(missing)),
        }
    }

    /// Lowers statements, one behind the other.
    pub fn emit_stmts(&mut self, stmts: &Vec<Stmt>) -> (r: Result<String, CompileError>)
        requires
            stmts_lowerable(stmts@),
        ensures
            final(self).same_but_state(old(self)),
            final(self).state() == lower_stmts(stmts@, old(self).state()).state,
            reports(r, lower_stmts(stmts@, old(self).state()), old(self).file()),
        decreases *stmts, 0int,
    {
        let mut out = String::new();
        let mut i: usize = 0;
        proof {
            assert(stmts@.skip(0) =~= stmts@);
            let all = lower_stmts(stmts@, self.state());
            if all.out is Ok {
                assert(out@ + all.text() =~= all.text());
            }
        }
        while i < stmts.len()
            invariant
                i <= stmts.len(),
                stmts_lowerable(stmts@),
                self.same_but_state(old(self)),
                lower_stmts(stmts@, old(self).state()) == prefixed(
                    out@,
                    lower_stmts(stmts@.skip(i as int), self.state()),
                ),
            decreases stmts.len() - i,
        {
            let ghost so_far = out@;
            proof {
                assert(stmts@.skip(i as int)[0] == stmts@[i as int]);
                assert(stmts@.skip(i as int).skip(1) =~= stmts@.skip(i + 1));
            }
            let code = self.emit_stmt(&stmts[i])?;
            out.append(code.as_str());
            proof {
                lemma_prefixed_twice(so_far, code@, lower_stmts(stmts@.skip(i + 1), self.state()));
            }
            i += 1;
        }
        proof {
            assert(out@ + Seq::<char>::empty() =~= out@);
        }
        Ok(out)
    }
}

fn pause_str(host: Host) -> (r: &'static str)
    ensures
        r@ == pause(host),
{
    match host {
        Host::Windows => "    system(\"pause\");\n",
        Host::Other => "    getchar();\n",
    }
}

/// What stands between the lowered body of a function and its closing
/// brace.
fn function_end_string(f: &Function, host: Host) -> (r: String)
    ensures
        r@ == function_end(*f, host),
{
    if same_text(&f.name, "main") {
        let mut end = String::from_str(pause_str(host));
        let n = f.body.len();
        let last_is_return = n > 0 && match &f.body[n - 1] {
            Stmt::Return(..) => true,
            _ => false,
        };
        if !last_is_return {
            end.append("    return 0;\n");
        }
        end
    } else {
        match f.return_type {
            Type::Void => String::from_str("    return;\n"),
            _ => String::new(),
        }
    }
}

impl CBackend {
    /// Whether an expression is a compile-time constant.
    pub fn is_constant_expr(&self, expr: &Expr) -> (r: bool)
        ensures
            r == is_constant(*expr),
    {
        match expr {
            Expr::Int(..) => true,
            Expr::Str(..) => true,
            _ => false,
        }
    }

    /// Declares the globals: the top-level declarations, whose initializers
    /// must be constant.
    pub fn emit_globals(&mut self, program: &Program) -> (r: Result<String, CompileError>)
        ensures
            final(self).same_but_state(old(self)),
            final(self).state() == lower_globals(program.stmts@, old(self).state()).state,
            reports(r, lower_globals(program.stmts@, old(self).state()), old(self).file()),
    {
        let stmts = &program.stmts;
        let mut out = String::new();
        let mut i: usize = 0;
        proof {
            assert(stmts@.skip(0) =~= stmts@);
            let all = lower_globals(stmts@, self.state());
            if all.out is Ok {
                assert(out@ + all.text() =~= all.text());
            }
        }
        while i < stmts.len()
            invariant
                i <= stmts.len(),
                *stmts == program.stmts,
                self.same_but_state(old(self)),
                lower_globals(stmts@, old(self).state()) == prefixed(
                    out@,
                    lower_globals(stmts@.skip(i as int), self.state()),
                ),
            decreases stmts.len() - i,
        {
            let ghost so_far = out@;
            let ghost before = self.state();
            proof {
                assert(stmts@.skip(i as int)[0] == stmts@[i as int]);
                assert(stmts@.skip(i as int).skip(1) =~= stmts@.skip(i + 1));
            }
            match &stmts[i] {
                Stmt::Let(name, ty, init, _) => {
                    if self.is_constant_expr(init) {
                        let spelling = self.declared_spelling(ty, init);
                        self.variables.insert(name.clone(), spelling.clone());
                        let value = self.emit_expr(init)?;
                        let ghost at = out@;
                        out.append(spelling.as_str());
                        out.append(" ");
                        out.append(name.as_str());
                        out.append(" = ");
                        out.append(value.as_str());
                        out.append(";\n");
                        proof {
                            assert(out@ =~= at + global_declaration(name@, *ty, *init));
                        }
                    } else {
                        let mut message = String::from_str("Non-constant initializer for global '");
                        message.append(name.as_str());
                        message.append("'");
                        return Err(self.failure(message, Some(init.span())));
                    }
                },
                _ => {
                    proof {
                        assert(out@ + Seq::<char>::empty() =~= out@);
                    }
                },
            }
            proof {
                lemma_prefixed_twice(
                    so_far,
                    lower_global(stmts@[i as int], before).text(),
                    lower_globals(stmts@.skip(i + 1), self.state()),
                );
            }
            i += 1;
        }
        proof {
            assert(out@ + Seq::<char>::empty() =~= out@);
        }
        Ok(out)
    }

    /// Spells the parameters of a function.
    fn emit_params(&mut self, params: &Vec<(String, Type)>) -> (r: String)
        ensures
            r@ == params_text(params@),
            final(self).state() == after_params(params@, old(self).state()),
            final(self).same_but_state(old(self)),
    {
        let mut out = String::new();
        if params.len() == 0 {
            return out;
        }
        let first = self.type_to_c(&params[0].1);
        out.append(first.as_str());
        out.append(" ");
        out.append(params[0].0.as_str());
        let mut i: usize = 1;
        proof {
            assert(out@ =~= c_type(params@[0].1) + " "@ + params@[0].0@);
        }
        while i < params.len()
            invariant
                1 <= i <= params.len(),
                self.same_but_state(old(self)),
                params_text(params@) == out@ + more_params_text(params@.skip(i as int)),
                after_params(params@, old(self).state()) == after_params(
                    params@.skip(i as int),
                    self.state(),
                ),
            decreases params.len() - i,
        {
            let ghost so_far = out@;
            proof {
                assert(params@.skip(i as int)[0] == params@[i as int]);
                assert(params@.skip(i as int).skip(1) =~= params@.skip(i + 1));
            }
            let spelling = self.type_to_c(&params[i].1);
            out.append(", ");
            out.append(spelling.as_str());
            out.append(" ");
            out.append(params[i].0.as_str());
            proof {
                let rest = more_params_text(params@.skip(i + 1));
                assert(so_far + (", "@ + c_type(params@[i as int].1) + " "@ + params@[i as int].0@
                    + rest) =~= out@ + rest);
            }
            i += 1;
        }
        proof {
            assert(out@ + Seq::<char>::empty() =~= out@);
        }
        out
    }

    /// Spells the head of a function.
    fn emit_signature(&mut self, func: &Function) -> (r: String)
        ensures
            r@ == signature(*func),
            final(self).state() == after_signature(*func, old(self).state()),
            final(self).same_but_state(old(self)),
    {
        let mut out = if same_text(&func.name, "main") {
            String::from_str("int")
        } else {
            self.type_to_c(&func.return_type)
        };
        let params = self.emit_params(&func.params);
        out.append(" ");
        out.append(func.name.as_str());
        out.append("(");
        out.append(params.as_str());
        out.append(")");
        out
    }

    /// Defines a function.
    pub fn emit_function(&mut self, func: &Function) -> (r: Result<String, CompileError>)
        requires
            function_lowerable(*func),
        ensures
            final(self).same_but_state(old(self)),
            final(self).state() == lower_function(*func, old(self).host(), old(self).state()).state,
            reports(
                r,
                lower_function(*func, old(self).host(), old(self).state()),
                old(self).file(),
            ),
    {
        let mut out = self.emit_signature(func);
        out.append(" {\n");
        let body = self.emit_stmts(&func.body)?;
        out.append(body.as_str());
        let mut end = function_end_string(func, self.config.host);
        end.append("}\n\n");
        out.append(end.as_str());
        Ok(out)
    }

    /// Declares every function, then defines each.
    pub fn emit_functions(&mut self, program: &Program) -> (r: Result<String, CompileError>)
        requires
            forall|i: int|
                0 <= i < program.functions@.len() ==> function_lowerable(
                    #[trigger] program.functions@[i],
                ),
        ensures
            final(self).same_but_state(old(self)),
            final(self).state() == lower_function_section(
                program.functions@,
                old(self).host(),
                old(self).state(),
            ).state,
            reports(
                r,
                lower_function_section(program.functions@, old(self).host(), old(self).state()),
                old(self).file(),
            ),
    {
        let functions = &program.functions;
        let mut out = String::new();
        let mut i: usize = 0;
        proof {
            assert(functions@.skip(0) =~= functions@);
            assert(out@ + declarations(functions@) =~= declarations(functions@));
        }
        while i < functions.len()
            invariant
                i <= functions.len(),
                self.same_but_state(old(self)),
                declarations(functions@) == out@ + declarations(functions@.skip(i as int)),
                after_declarations(functions@, old(self).state()) == after_declarations(
                    functions@.skip(i as int),
                    self.state(),
                ),
            decreases functions.len() - i,
        {
            let ghost so_far = out@;
            proof {
                assert(functions@.skip(i as int)[0] == functions@[i as int]);
                assert(functions@.skip(i as int).skip(1) =~= functions@.skip(i + 1));
            }
            let head = self.emit_signature(&functions[i]);
            out.append(head.as_str());
            out.append(";\n");
            proof {
                let rest = declarations(functions@.skip(i + 1));
                assert(so_far + (signature(functions@[i as int]) + ";\n"@ + rest) =~= out@ + rest);
            }
            i += 1;
        }
        out.append("\n");
        let ghost declared = out@;
        let ghost start = self.state();
        proof {
            assert(declared =~= declarations(functions@) + "\n"@);
        }
        let mut k: usize = 0;
        proof {
            let all = lower_functions(functions@, self.config.host, self.state());
            if all.out is Ok {
                assert(Seq::<char>::empty() + all.text() =~= all.text());
            }
        }
        let mut defined = String::new();
        while k < functions.len()
            invariant
                k <= functions.len(),
                forall|j: int|
                    0 <= j < functions@.len() ==> function_lowerable(#[trigger] functions@[j]),
                *functions == program.functions,
                self.same_but_state(old(self)),
                start == after_declarations(functions@, old(self).state()),
                lower_functions(functions@, self.host(), start) == prefixed(
                    defined@,
                    lower_functions(functions@.skip(k as int), self.host(), self.state()),
                ),
            decreases functions.len() - k,
        {
            let ghost so_far = defined@;
            proof {
                assert(functions@.skip(k as int)[0] == functions@[k as int]);
                assert(functions@.skip(k as int).skip(1) =~= functions@.skip(k + 1));
            }
            let code = self.emit_function(&functions[k])?;
            defined.append(code.as_str());
            proof {
                lemma_prefixed_twice(
                    so_far,
                    code@,
                    lower_functions(functions@.skip(k + 1), self.host(), self.state()),
                );
            }
            k += 1;
        }
        proof {
            assert(defined@ + Seq::<char>::empty() =~= defined@);
        }
        out.append(defined.as_str());
        Ok(out)
    }

    /// Lowers the top-level statements that are no declarations.
    fn emit_top_level(&mut self, stmts: &Vec<Stmt>) -> (r: Result<String, CompileError>)
        requires
            top_level_lowerable(stmts@),
        ensures
            final(self).same_but_state(old(self)),
            final(self).state() == lower_top_level(stmts@, old(self).state()).state,
            reports(r, lower_top_level(stmts@, old(self).state()), old(self).file()),
    {
        let mut out = String::new();
        let mut i: usize = 0;
        proof {
            assert(stmts@.skip(0) =~= stmts@);
            let all = lower_top_level(stmts@, self.state());
            if all.out is Ok {
                assert(out@ + all.text() =~= all.text());
            }
        }
        while i < stmts.len()
            invariant
                i <= stmts.len(),
                top_level_lowerable(stmts@),
                self.same_but_state(old(self)),
                lower_top_level(stmts@, old(self).state()) == prefixed(
                    out@,
                    lower_top_level(stmts@.skip(i as int), self.state()),
                ),
            decreases stmts.len() - i,
        {
            let ghost so_far = out@;
            proof {
                assert(stmts@.skip(i as int)[0] == stmts@[i as int]);
                assert(stmts@.skip(i as int).skip(1) =~= stmts@.skip(i + 1));
            }
            match &stmts[i] {
                Stmt::Let(..) => {},
                other => {
                    let code = self.emit_stmt(other)?;
                    out.append(code.as_str());
                    proof {
                        lemma_prefixed_twice(
                            so_far,
                            code@,
                            lower_top_level(stmts@.skip(i + 1), self.state()),
                        );
                    }
                },
            }
            i += 1;
        }
        proof {
            assert(out@ + Seq::<char>::empty() =~= out@);
        }
        Ok(out)
    }

    /// Makes up the entry point of a program that defines none.
    pub fn emit_main_if_missing(&mut self, program: &Program) -> (r: Result<String, CompileError>)
        requires
            has_main(program.functions@) || top_level_lowerable(program.stmts@),
        ensures
            final(self).same_but_state(old(self)),
            final(self).state() == lower_entry_point(
                *program,
                old(self).host(),
                old(self).state(),
            ).state,
            reports(
                r,
                lower_entry_point(*program, old(self).host(), old(self).state()),
                old(self).file(),
            ),
    {
        if defines_main(&program.functions) {
            return Ok(String::new());
        }
        let body = self.emit_top_level(&program.stmts)?;
        let mut out = String::from_str("\nint main() {\n");
        out.append(body.as_str());
        let mut end = String::from_str(pause_str(self.config.host));
        end.append("    return 0;\n}\n");
        out.append(end.as_str());
        Ok(out)
    }

    /// Writes the header: the banner, the two headers that every output
    /// names, and the headers asked for.
    pub fn emit_header(&mut self)
        ensures
            final(self).header_text() == old(self).header_text() + header_text(
                old(self).target(),
                old(self).state().includes,
            ),
            final(self).body_text() == old(self).body_text(),
            final(self).state() == old(self).state(),
            final(self).same_settings(old(self)),
    {
        let mut text = String::from_str("// Generated by Verve Compiler (target: ");
        text.append(self.config.target_triple.as_str());
        text.append(")\n");
        text.append("#include <stdio.h>\n#include <stdlib.h>\n");
        self.append_include(&mut text, Include::StdBool);
        self.append_include(&mut text, Include::IntTypes);
        self.append_include(&mut text, Include::StdInt);
        text.append("\n");
        self.header.append(text.as_str());
    }

    /// Appends the line that asks for `inc`, if the session has asked for
    /// it.
    fn append_include(&self, text: &mut String, inc: Include)
        ensures
            final(text)@ == old(text)@ + include_line(self.state().includes, inc),
    {
        if self.includes.contains(inc) {
            let mut line = String::from_str("#include ");
            line.append(inc.header());
            line.append("\n");
            text.append(line.as_str());
        } else {
            proof {
                assert(text@ + Seq::<char>::empty() =~= text@);
            }
        }
    }

    /// Whether a compilation of `program` in this session ends in the
    /// session `after` with the result `r`. The state becomes that which the
    /// lowering reaches. On success the body of the output is added to the
    /// body held, and the header, which names the headers asked for by
    /// then, to the header held. On failure the error carries the diagnostic
    /// and the file, and the text held stays what it was.
    pub open spec fn compiled(&self, program: &Program, after: &Self, r: Result<(), CompileError>) -> bool {
        let lowered = lower_program(*program, self.host(), self.state());
        &&& after.same_settings(self)
        &&& after.state() == lowered.state
        &&& match r {
            Ok(_) => {
                &&& lowered.out is Ok
                &&& after.body_text() == self.body_text() + lowered.text()
                &&& after.header_text() == self.header_text() + header_text(
                    self.target(),
                    lowered.state.includes,
                )
            },
            Err(e) => {
                &&& lowered.out == Err::<Seq<char>, Diagnostic>(e.diagnostic())
                &&& e.file() == self.file()
                &&& after.body_text() == self.body_text()
                &&& after.header_text() == self.header_text()
            },
        }
    }

    /// Compiles `program` and holds the output.
    pub fn compile(&mut self, program: &Program) -> (r: Result<(), CompileError>)
        requires
            program_lowerable(*program),
        ensures
            old(self).compiled(program, final(self), r),
    {
        proof {
            lemma_globals_refused_iff_non_constant(program.stmts@, self.state());
        }
        let globals = self.emit_globals(program)?;
        let functions = self.emit_functions(program)?;
        let entry = self.emit_main_if_missing(program)?;
        let mut body = globals;
        body.append(functions.as_str());
        body.append(entry.as_str());
        self.body.append(body.as_str());
        self.emit_header();
        Ok(())
    }

    /// Compiles `program` if it can be lowered, and does nothing otherwise.
    pub fn try_compile(&mut self, program: &Program) -> (r: Option<Result<(), CompileError>>)
        ensures
            r is Some == program_lowerable(*program),
            r matches Some(result) ==> old(self).compiled(program, final(self), result),
            r is None ==> *final(self) == *old(self),
    {
        if check_program(program) {
            Some(self.compile(program))
        } else {
            None
        }
    }

    /// The text held: the header, then the body.
    pub open spec fn output_text(&self) -> Seq<char> {
        self.header_text() + self.body_text()
    }

    /// The output: the header, then the body.
    pub fn output(&self) -> (r: String)
        ensures
            r@ == self.output_text(),
    {
        let mut out = self.header.clone();
        out.append(self.body.as_str());
        out
    }
}

} // verus!
