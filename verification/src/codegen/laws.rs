use vstd::prelude::*;
use codespan::Span;
use crate::ast::Expr;
use crate::ast::Function;
use crate::ast::Program;
use crate::ast::Stmt;
use crate::ast::Type;
use crate::codegen::c::CBackend;
use crate::codegen::CompileError;
use crate::codegen::Diagnostic;
use crate::codegen::Host;
use crate::codegen::includes::Include;
use crate::shape::globals_constant;
use crate::shape::has_main;
use crate::shape::is_constant;
use crate::shape::is_main;
use crate::codegen::lowering::{
    after_signature, block_prefixed, c_type, cleanup, declared_type, declaring, done,
    global_declaration, lower_block, lower_entry_point, lower_expr, lower_function,
    lower_function_section, lower_global, lower_globals, lower_program, lower_stmt, lower_stmts,
    lower_top_level, pause, printed_type, rejected, signature, spelled_type, type_label, wrapped,
    LoweredBlock, State,
};

verus! {

/// Whether `piece` stands somewhere in `text`.
pub open spec fn occurs_in(piece: Seq<char>, text: Seq<char>) -> bool {
    exists|before: Seq<char>, after: Seq<char>| text == before + piece + after
}

proof fn lemma_occurs_behind(piece: Seq<char>, text: Seq<char>, front: Seq<char>)
    requires
        occurs_in(piece, text),
    ensures
        occurs_in(piece, front + text),
{
    let (before, after) = choose|before: Seq<char>, after: Seq<char>|
        text == before + piece + after;
    assert(front + text =~= (front + before) + piece + after);
}

proof fn lemma_occurs_before(piece: Seq<char>, text: Seq<char>, back: Seq<char>)
    requires
        occurs_in(piece, text),
    ensures
        occurs_in(piece, text + back),
{
    let (before, after) = choose|before: Seq<char>, after: Seq<char>|
        text == before + piece + after;
    assert(text + back =~= before + piece + (after + back));
}

/// A constant global is declared with the spelling of its declared type
/// (`int` without one), its name, and its literal as it was written: where
/// the globals are lowered, the declaration of each stands in the text.
pub proof fn lemma_globals_declare_constants(stmts: Seq<Stmt>, st: State, i: int)
    requires
        0 <= i < stmts.len(),
        stmts[i] is Let,
        lower_globals(stmts, st).out is Ok,
    ensures
        is_constant(stmts[i]->Let_2),
        occurs_in(
            global_declaration(stmts[i]->Let_0@, stmts[i]->Let_1, stmts[i]->Let_2),
            lower_globals(stmts, st).text(),
        ),
    decreases stmts.len(),
{
    let first = lower_global(stmts[0], st);
    let rest = lower_globals(stmts.skip(1), first.state);
    if i == 0 {
        let piece = global_declaration(stmts[0]->Let_0@, stmts[0]->Let_1, stmts[0]->Let_2);
        assert(lower_globals(stmts, st).text() =~= Seq::<char>::empty() + piece + rest.text());
    } else {
        assert(stmts.skip(1)[i - 1] == stmts[i]);
        lemma_globals_declare_constants(stmts.skip(1), first.state, i - 1);
        lemma_occurs_behind(
            global_declaration(stmts[i]->Let_0@, stmts[i]->Let_1, stmts[i]->Let_2),
            rest.text(),
            first.text(),
        );
    }
}

/// The declaration of each constant global stands in the body of the
/// output, type, name and literal unchanged.
pub proof fn lemma_program_declares_constants(p: Program, host: Host, st: State, i: int)
    requires
        0 <= i < p.stmts@.len(),
        p.stmts@[i] is Let,
        lower_program(p, host, st).out is Ok,
    ensures
        is_constant(p.stmts@[i]->Let_2),
        occurs_in(
            global_declaration(p.stmts@[i]->Let_0@, p.stmts@[i]->Let_1, p.stmts@[i]->Let_2),
            lower_program(p, host, st).text(),
        ),
{
    let globals = lower_globals(p.stmts@, st);
    let functions = lower_function_section(p.functions@, host, globals.state);
    let entry = lower_entry_point(p, host, functions.state);
    let piece = global_declaration(p.stmts@[i]->Let_0@, p.stmts@[i]->Let_1, p.stmts@[i]->Let_2);
    lemma_globals_declare_constants(p.stmts@, st, i);
    lemma_occurs_before(piece, globals.text(), functions.text());
    lemma_occurs_before(piece, globals.text() + functions.text(), entry.text());
}

/// Whether the declarations among the first `n` statements all have
/// constant initializers.
pub open spec fn constants_before(stmts: Seq<Stmt>, n: int) -> bool {
    forall|j: int| 0 <= j < n && (#[trigger] stmts[j]) is Let ==> is_constant(stmts[j]->Let_2)
}

/// The declarations of the globals among statements, one behind the other
/// in the order of the statements; a statement that is no declaration adds
/// nothing.
pub open spec fn globals_text(stmts: Seq<Stmt>) -> Seq<char>
    decreases stmts.len(),
{
    if stmts.len() == 0 {
        Seq::empty()
    } else {
        match stmts[0] {
            Stmt::Let(name, ty, init, _) => global_declaration(name@, ty, init) + globals_text(
                stmts.skip(1),
            ),
            _ => globals_text(stmts.skip(1)),
        }
    }
}

proof fn lemma_constants_behind_first(stmts: Seq<Stmt>)
    requires
        stmts.len() > 0,
    ensures
        constants_before(stmts, stmts.len() as int) == ((stmts[0] is Let ==> is_constant(
            stmts[0]->Let_2,
        )) && constants_before(stmts.skip(1), stmts.len() - 1)),
{
    let rest = stmts.skip(1);
    if constants_before(stmts, stmts.len() as int) {
        assert forall|j: int| 0 <= j < rest.len() && (#[trigger] rest[j]) is Let implies is_constant(
            rest[j]->Let_2,
        ) by {
            assert(rest[j] == stmts[j + 1]);
        }
    }
    if (stmts[0] is Let ==> is_constant(stmts[0]->Let_2)) && constants_before(
        rest,
        stmts.len() - 1,
    ) {
        assert forall|j: int| 0 <= j < stmts.len() && (#[trigger] stmts[j]) is Let implies is_constant(
            stmts[j]->Let_2,
        ) by {
            if j > 0 {
                assert(rest[j - 1] == stmts[j]);
            }
        }
    }
}

/// Where every global has a constant initializer, the globals lower to
/// their declarations, in order.
pub proof fn lemma_globals_lower_to_declarations(stmts: Seq<Stmt>, st: State)
    requires
        constants_before(stmts, stmts.len() as int),
    ensures
        lower_globals(stmts, st).out == Ok::<Seq<char>, Diagnostic>(globals_text(stmts)),
    decreases stmts.len(),
{
    if stmts.len() > 0 {
        lemma_constants_behind_first(stmts);
        let first = lower_global(stmts[0], st);
        lemma_globals_lower_to_declarations(stmts.skip(1), first.state);
        if !(stmts[0] is Let) {
            assert(Seq::<char>::empty() + globals_text(stmts.skip(1)) =~= globals_text(
                stmts.skip(1),
            ));
        }
    }
}

/// The globals are refused if and only if one of them has an initializer
/// that is no constant.
pub proof fn lemma_globals_refused_iff_non_constant(stmts: Seq<Stmt>, st: State)
    ensures
        lower_globals(stmts, st).out is Err <==> !constants_before(stmts, stmts.len() as int),
        lower_globals(stmts, st).out is Err <==> !globals_constant(stmts),
    decreases stmts.len(),
{
    if stmts.len() > 0 {
        lemma_constants_behind_first(stmts);
        let first = lower_global(stmts[0], st);
        lemma_globals_refused_iff_non_constant(stmts.skip(1), first.state);
    }
}

/// The diagnostic for a global whose initializer is no constant.
pub open spec fn non_constant_global(name: Seq<char>, init: Expr) -> Diagnostic {
    Diagnostic {
        message: "Non-constant initializer for global '"@ + name + "'"@,
        span: Some(init.spec_span()),
    }
}

/// The first global whose initializer is no constant ends the lowering of
/// the globals with the diagnostic that names it.
pub proof fn lemma_globals_reject_non_constant(stmts: Seq<Stmt>, st: State, i: int)
    requires
        0 <= i < stmts.len(),
        stmts[i] is Let,
        !is_constant(stmts[i]->Let_2),
        constants_before(stmts, i),
    ensures
        lower_globals(stmts, st).out == Err::<Seq<char>, Diagnostic>(
            non_constant_global(stmts[i]->Let_0@, stmts[i]->Let_2),
        ),
    decreases stmts.len(),
{
    if i > 0 {
        let first = lower_global(stmts[0], st);
        assert(first.out is Ok) by {
            if stmts[0] is Let {
                assert(is_constant(stmts[0]->Let_2));
            }
        }
        assert(stmts.skip(1)[i - 1] == stmts[i]);
        assert(constants_before(stmts.skip(1), i - 1)) by {
            assert forall|j: int| 0 <= j < i - 1 && (#[trigger] stmts.skip(1)[j]) is Let implies is_constant(
                stmts.skip(1)[j]->Let_2,
            ) by {
                assert(stmts.skip(1)[j] == stmts[j + 1]);
            }
        }
        lemma_globals_reject_non_constant(stmts.skip(1), first.state, i - 1);
    }
}

/// A program with a global whose initializer is no constant does not
/// compile: the diagnostic names the first such global.
pub proof fn lemma_program_rejects_non_constant(p: Program, host: Host, st: State, i: int)
    requires
        0 <= i < p.stmts@.len(),
        p.stmts@[i] is Let,
        !is_constant(p.stmts@[i]->Let_2),
        constants_before(p.stmts@, i),
    ensures
        lower_program(p, host, st).out == Err::<Seq<char>, Diagnostic>(
            non_constant_global(p.stmts@[i]->Let_0@, p.stmts@[i]->Let_2),
        ),
{
    lemma_globals_reject_non_constant(p.stmts@, st, i);
}

/// The statements of a list that are no declarations, in order.
pub open spec fn without_declarations(stmts: Seq<Stmt>) -> Seq<Stmt>
    decreases stmts.len(),
{
    if stmts.len() == 0 {
        Seq::empty()
    } else if stmts[0] is Let {
        without_declarations(stmts.skip(1))
    } else {
        seq![stmts[0]] + without_declarations(stmts.skip(1))
    }
}

/// Lowering the top level is lowering the statements that are no
/// declarations, one behind the other.
pub proof fn lemma_top_level_skips_declarations(stmts: Seq<Stmt>, st: State)
    ensures
        lower_top_level(stmts, st) == lower_stmts(without_declarations(stmts), st),
    decreases stmts.len(),
{
    if stmts.len() == 0 {
    } else if stmts[0] is Let {
        lemma_top_level_skips_declarations(stmts.skip(1), st);
    } else {
        let kept = without_declarations(stmts);
        let first = lower_stmt(stmts[0], st);
        assert(kept[0] == stmts[0]);
        assert(kept.skip(1) =~= without_declarations(stmts.skip(1)));
        lemma_top_level_skips_declarations(stmts.skip(1), first.state);
    }
}

/// The entry point that is made up for a program that defines no `main`:
/// the opening line, the lowering of the top-level statements that are no
/// declarations, the wait, a return of zero, and the closing brace.
pub proof fn lemma_entry_point_text(p: Program, host: Host, st: State)
    requires
        !has_main(p.functions@),
        lower_entry_point(p, host, st).out is Ok,
    ensures
        lower_stmts(without_declarations(p.stmts@), st).out is Ok,
        lower_entry_point(p, host, st).text() == "\nint main() {\n"@ + lower_stmts(
            without_declarations(p.stmts@),
            st,
        ).text() + (pause(host) + "    return 0;\n}\n"@),
        lower_entry_point(p, host, st).state == lower_stmts(
            without_declarations(p.stmts@),
            st,
        ).state,
{
    lemma_top_level_skips_declarations(p.stmts@, st);
}

/// A program that defines its own `main` gets no other.
pub proof fn lemma_no_entry_point_beside_main(p: Program, host: Host, st: State)
    requires
        has_main(p.functions@),
    ensures
        lower_entry_point(p, host, st) == done(Seq::empty(), st),
{
}

/// For a program that defines no `main`, the entry point that is made up
/// holds the lowering of the top-level statements that are no declarations,
/// then the wait, then a return of zero; it ends the body of the output.
pub proof fn lemma_synthesized_entry_point(p: Program, host: Host, st: State)
    requires
        !has_main(p.functions@),
        lower_program(p, host, st).out is Ok,
    ensures
        ({
            let globals = lower_globals(p.stmts@, st);
            let functions = lower_function_section(p.functions@, host, globals.state);
            let inside = lower_stmts(without_declarations(p.stmts@), functions.state);
            &&& inside.out is Ok
            &&& lower_program(p, host, st).text() == globals.text() + functions.text() + (
            "\nint main() {\n"@ + inside.text() + (pause(host) + "    return 0;\n}\n"@))
        }),
{
    let globals = lower_globals(p.stmts@, st);
    let functions = lower_function_section(p.functions@, host, globals.state);
    lemma_top_level_skips_declarations(p.stmts@, functions.state);
}

/// The entry point that a program defines waits before it ends. Where its
/// last statement is a return, nothing follows the wait; otherwise a return
/// of zero follows it.
pub proof fn lemma_main_ending(f: Function, host: Host, st: State)
    requires
        is_main(f),
        lower_function(f, host, st).out is Ok,
    ensures
        f.body@.len() > 0 && f.body@.last() is Return ==> lower_function(f, host, st).text()
            == signature(f) + " {\n"@ + lower_stmts(f.body@, after_signature(f, st)).text() + (pause(
            host,
        ) + "}\n\n"@),
        !(f.body@.len() > 0 && f.body@.last() is Return) ==> lower_function(f, host, st).text()
            == signature(f) + " {\n"@ + lower_stmts(f.body@, after_signature(f, st)).text() + (pause(
            host,
        ) + "    return 0;\n"@ + "}\n\n"@),
{
}

/// Cleanup runs against the order of registration: the cleanup of actions
/// registered in two runs is the cleanup of the later run, then that of the
/// earlier one.
pub proof fn lemma_cleanup_reverses(earlier: Seq<Seq<char>>, later: Seq<Seq<char>>)
    ensures
        cleanup(earlier + later) == cleanup(later) + cleanup(earlier),
    decreases later.len(),
{
    if later.len() == 0 {
        assert(earlier + later =~= earlier);
        assert(cleanup(later) + cleanup(earlier) =~= cleanup(earlier));
    } else {
        let all = earlier + later;
        assert(all.last() == later.last());
        assert(all.drop_last() =~= earlier + later.drop_last());
        lemma_cleanup_reverses(earlier, later.drop_last());
        assert(later.last() + ";\n"@ + (cleanup(later.drop_last()) + cleanup(earlier)) =~= (
        later.last() + ";\n"@ + cleanup(later.drop_last())) + cleanup(earlier));
    }
}

/// Three deferred actions registered as `a`, `b`, `c` are cleaned up as
/// `c`, `b`, `a`.
pub proof fn lemma_cleanup_of_three(a: Seq<char>, b: Seq<char>, c: Seq<char>)
    ensures
        cleanup(seq![a, b, c]) == c + ";\n"@ + (b + ";\n"@ + (a + ";\n"@)),
{
    let abc = seq![a, b, c];
    let ab = seq![a, b];
    let one = seq![a];
    assert(abc.drop_last() =~= ab);
    assert(ab.drop_last() =~= one);
    assert(one.drop_last() =~= Seq::<Seq<char>>::empty());
    assert(cleanup(one.drop_last()) =~= Seq::<char>::empty());
    assert(cleanup(one) =~= a + ";\n"@);
    assert(cleanup(ab) == b + ";\n"@ + cleanup(one));
    assert(cleanup(abc) == c + ";\n"@ + cleanup(ab));
}

proof fn lemma_block_prefixed_twice(
    body: Seq<char>,
    deferred: Seq<Seq<char>>,
    more_body: Seq<char>,
    more_deferred: Seq<Seq<char>>,
    rest: LoweredBlock,
)
    ensures
        block_prefixed(body, deferred, block_prefixed(more_body, more_deferred, rest))
            == block_prefixed(body + more_body, deferred + more_deferred, rest),
{
    if rest.out is Ok {
        let parts = rest.out->Ok_0;
        assert(body + (more_body + parts.body) =~= (body + more_body) + parts.body);
        assert(deferred + (more_deferred + parts.deferred) =~= (deferred + more_deferred)
            + parts.deferred);
    }
}

/// A block can be lowered in two runs: the second run goes on from the
/// state that the first one reached, its statements stand behind those of
/// the first, and its deferred actions are registered behind those of the
/// first.
pub proof fn lemma_block_splits(front: Seq<Stmt>, back: Seq<Stmt>, st: State)
    ensures
        lower_block(front + back, st) == match lower_block(front, st).out {
            Ok(parts) => block_prefixed(
                parts.body,
                parts.deferred,
                lower_block(back, lower_block(front, st).state),
            ),
            Err(_) => lower_block(front, st),
        },
    decreases front.len(),
{
    let all = front + back;
    if front.len() == 0 {
        assert(all =~= back);
        let whole = lower_block(back, st);
        if whole.out is Ok {
            let parts = whole.out->Ok_0;
            assert(Seq::<char>::empty() + parts.body =~= parts.body);
            assert(Seq::<Seq<char>>::empty() + parts.deferred =~= parts.deferred);
        }
    } else {
        assert(all[0] == front[0]);
        assert(all.skip(1) =~= front.skip(1) + back);
        match front[0] {
            Stmt::Defer(action, _) => {
                let a = lower_expr(action, st);
                if a.out is Ok {
                    lemma_block_splits(front.skip(1), back, a.state);
                    let tail = lower_block(front.skip(1), a.state);
                    if tail.out is Ok {
                        lemma_block_prefixed_twice(
                            Seq::empty(),
                            seq![a.text()],
                            tail.out->Ok_0.body,
                            tail.out->Ok_0.deferred,
                            lower_block(back, tail.state),
                        );
                    }
                }
            },
            _ => {
                let s = lower_stmt(front[0], st);
                if s.out is Ok {
                    lemma_block_splits(front.skip(1), back, s.state);
                    let tail = lower_block(front.skip(1), s.state);
                    if tail.out is Ok {
                        lemma_block_prefixed_twice(
                            s.text(),
                            Seq::empty(),
                            tail.out->Ok_0.body,
                            tail.out->Ok_0.deferred,
                            lower_block(back, tail.state),
                        );
                    }
                }
            },
        }
    }
}

/// Wherever a block is cut in two, the cleanup of the actions deferred
/// behind the cut comes before the cleanup of those deferred before it, and
/// both come behind all the statements that are not deferred.
pub proof fn lemma_block_cleans_up_in_reverse(
    front: Vec<Stmt>,
    back: Vec<Stmt>,
    whole: Vec<Stmt>,
    span: Span,
    ty: Type,
    st: State,
)
    requires
        whole@ == front@ + back@,
        lower_expr(Expr::SafeBlock(whole, span, ty), st).out is Ok,
    ensures
        ({
            let first = lower_block(front@, st);
            let second = lower_block(back@, first.state);
            &&& first.out is Ok
            &&& second.out is Ok
            &&& lower_expr(Expr::SafeBlock(whole, span, ty), st).text() == "{\n"@ + (
            first.out->Ok_0.body + second.out->Ok_0.body) + (cleanup(second.out->Ok_0.deferred)
                + cleanup(first.out->Ok_0.deferred)) + "}\n"@
        }),
{
    lemma_block_splits(front@, back@, st);
    let first = lower_block(front@, st);
    let second = lower_block(back@, first.state);
    lemma_cleanup_reverses(first.out->Ok_0.deferred, second.out->Ok_0.deferred);
}

/// The number of deferred actions among statements.
pub open spec fn count_deferred(stmts: Seq<Stmt>) -> nat
    decreases stmts.len(),
{
    if stmts.len() == 0 {
        0
    } else if stmts[0] is Defer {
        1 + count_deferred(stmts.skip(1))
    } else {
        count_deferred(stmts.skip(1))
    }
}

/// A block sets aside one cleanup statement for each deferred action that
/// it holds.
pub proof fn lemma_block_defers_each(stmts: Seq<Stmt>, st: State)
    requires
        lower_block(stmts, st).out is Ok,
    ensures
        lower_block(stmts, st).out->Ok_0.deferred.len() == count_deferred(stmts),
    decreases stmts.len(),
{
    if stmts.len() > 0 {
        match stmts[0] {
            Stmt::Defer(action, _) => {
                let a = lower_expr(action, st);
                lemma_block_defers_each(stmts.skip(1), a.state);
            },
            _ => {
                let s = lower_stmt(stmts[0], st);
                lemma_block_defers_each(stmts.skip(1), s.state);
            },
        }
    }
}

/// The text of a scoped block: the statements that are not deferred, in
/// order, then the cleanup of the deferred actions, between braces.
pub proof fn lemma_block_cleans_up_last(stmts: Vec<Stmt>, span: Span, ty: Type, st: State)
    requires
        lower_expr(Expr::SafeBlock(stmts, span, ty), st).out is Ok,
    ensures
        lower_block(stmts@, st).out is Ok,
        lower_expr(Expr::SafeBlock(stmts, span, ty), st).text() == "{\n"@ + lower_block(
            stmts@,
            st,
        ).out->Ok_0.body + cleanup(lower_block(stmts@, st).out->Ok_0.deferred) + "}\n"@,
{
}

/// An allocation call with one argument lowers to a call of `malloc` with
/// the lowered argument; with any other number of arguments it is refused
/// with a diagnostic at the call's span.
pub proof fn lemma_alloc_arity(name: String, args: Vec<Expr>, span: Span, ty: Type, st: State)
    requires
        name@ == "__alloc"@,
    ensures
        args@.len() == 1 ==> lower_expr(Expr::IntrinsicCall(name, args, span, ty), st) == wrapped(
            "malloc("@,
            lower_expr(args@[0], st),
            ")"@,
        ),
        args@.len() != 1 ==> lower_expr(Expr::IntrinsicCall(name, args, span, ty), st) == rejected(
            "__alloc expects 1 argument"@,
            Some(span),
            st,
        ),
{
}

/// A release call with one argument lowers to a call of `free` with the
/// lowered argument; with any other number of arguments it is refused with
/// a diagnostic at the call's span.
pub proof fn lemma_dealloc_arity(name: String, args: Vec<Expr>, span: Span, ty: Type, st: State)
    requires
        name@ == "__dealloc"@,
    ensures
        args@.len() == 1 ==> lower_expr(Expr::IntrinsicCall(name, args, span, ty), st) == wrapped(
            "free("@,
            lower_expr(args@[0], st),
            ")"@,
        ),
        args@.len() != 1 ==> lower_expr(Expr::IntrinsicCall(name, args, span, ty), st) == rejected(
            "__dealloc expects 1 argument"@,
            Some(span),
            st,
        ),
{
    reveal_strlit("__alloc");
    reveal_strlit("__dealloc");
    assert("__alloc"@.len() != "__dealloc"@.len());
}

proof fn lemma_no_type_is_spelled_const_char(ty: Type)
    ensures
        !(c_type(ty).len() == 10 && c_type(ty)[9] == 'r'),
{
    reveal_strlit("int");
    reveal_strlit("bool");
    reveal_strlit("const char*");
    reveal_strlit("void");
    reveal_strlit("void*");
    reveal_strlit("/* UNSUPPORTED TYPE */");
    reveal_strlit("*");
    match ty {
        Type::Pointer(inner) => {
            let s = c_type(*inner) + "*"@;
            assert(s[s.len() - 1] == '*');
        },
        _ => {},
    }
}

/// The spelling of a pointer type stands for a pointer.
pub proof fn lemma_pointer_spelling(ty: Type)
    requires
        ty.spec_is_pointer(),
    ensures
        spelled_type(c_type(ty)).spec_is_pointer(),
{
    reveal_strlit("int");
    reveal_strlit("bool");
    reveal_strlit("const char*");
    reveal_strlit("void*");
    reveal_strlit("*");
    let s = c_type(ty);
    match ty {
        Type::Pointer(inner) => {
            let front = c_type(*inner);
            assert(s == front + "*"@);
            assert(s.len() == front.len() + 1);
            assert(s[s.len() - 1] == '*');
            assert(s != "int"@) by {
                if s == "int"@ {
                    assert(s[s.len() - 1] == 't');
                }
            }
            assert(s != "bool"@) by {
                if s == "bool"@ {
                    assert(s[s.len() - 1] == 'l');
                }
            }
            assert(s != "const char*"@) by {
                if s == "const char*"@ {
                    assert(front.len() == 10);
                    assert(front[9] == s[9]);
                    assert(s[9] == 'r');
                    lemma_no_type_is_spelled_const_char(*inner);
                }
            }
        },
        _ => {
            assert(s == "void*"@);
            assert(s.len() == 5);
            assert(s[s.len() - 1] == '*');
        },
    }
}

/// Printing an operand that is no variable and whose type is a pointer
/// casts it to `uintptr_t`, formats it as `PRIuPTR`, and asks for
/// `<inttypes.h>`.
pub proof fn lemma_print_pointer(operand: Expr, span: Span, ty: Type, st: State)
    requires
        !(operand is Var),
        operand.spec_get_type().spec_is_pointer(),
        lower_expr(operand, st).out is Ok,
    ensures
        lower_expr(Expr::Print(Box::new(operand), span, ty), st) == done(
            "printf(\"%\"PRIuPTR\"\\n\", (uintptr_t)"@ + lower_expr(operand, st).text() + ");"@,
            lower_expr(operand, st).state.with_include(Include::IntTypes),
        ),
{
}

/// Printing a variable for which the spelling of a pointer type is recorded
/// casts it to `uintptr_t`, formats it as `PRIuPTR`, and asks for
/// `<inttypes.h>`, whatever type is attached to the reference.
pub proof fn lemma_print_pointer_variable(
    name: String,
    at: Span,
    attached: Type,
    declared: Type,
    span: Span,
    ty: Type,
    st: State,
)
    requires
        declared.spec_is_pointer(),
        st.vars.contains_key(name@),
        st.vars[name@] == c_type(declared),
    ensures
        lower_expr(Expr::Print(Box::new(Expr::Var(name, at, attached)), span, ty), st) == done(
            "printf(\"%\"PRIuPTR\"\\n\", (uintptr_t)"@ + name@ + ");"@,
            lower_expr(Expr::Var(name, at, attached), st).state.with_include(Include::IntTypes),
        ),
{
    lemma_pointer_spelling(declared);
}

/// A declaration of a pointer type records the spelling of that type for
/// the name before its initializer is lowered.
pub proof fn lemma_declaration_records_pointer(name: String, declared: Type, init: Expr, st: State)
    requires
        declared.spec_is_pointer(),
    ensures
        declaring(name@, declared_type(Some(declared), init), st).vars.contains_key(name@),
        declaring(name@, declared_type(Some(declared), init), st).vars[name@] == c_type(declared),
{
}

/// Whether a value of the type can be printed.
pub open spec fn printable(ty: Type) -> bool {
    ty is I32 || ty is Bool || ty is String || ty is Pointer || ty is RawPtr
}

/// Printing an operand whose type cannot be printed is refused with a
/// diagnostic that names the type and carries the operand's span.
pub proof fn lemma_print_unprintable(operand: Expr, span: Span, ty: Type, st: State)
    requires
        lower_expr(operand, st).out is Ok,
        !printable(printed_type(operand, lower_expr(operand, st).state.vars)),
    ensures
        lower_expr(Expr::Print(Box::new(operand), span, ty), st) == rejected(
            "Cannot print type "@ + type_label(
                printed_type(operand, lower_expr(operand, st).state.vars),
            ),
            Some(operand.spec_span()),
            lower_expr(operand, st).state,
        ),
{
}

/// Two sessions that agree in what they hold and how they are configured
/// compile a program alike: both succeed or both fail with one diagnostic,
/// and they end with one output.
pub proof fn lemma_compile_deterministic(
    first: CBackend,
    second: CBackend,
    program: Program,
    first_after: CBackend,
    second_after: CBackend,
    first_result: Result<(), CompileError>,
    second_result: Result<(), CompileError>,
)
    requires
        first.state() == second.state(),
        first.header_text() == second.header_text(),
        first.body_text() == second.body_text(),
        first.target() == second.target(),
        first.host() == second.host(),
        first.compiled(&program, &first_after, first_result),
        second.compiled(&program, &second_after, second_result),
    ensures
        first_result is Ok == second_result is Ok,
        first_result matches Err(e1) ==> second_result matches Err(e2) && e1.diagnostic()
            == e2.diagnostic(),
        first_after.output_text() == second_after.output_text(),
        first_after.state() == second_after.state(),
{
}

} // verus!
