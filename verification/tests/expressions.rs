use codespan::{FileId, Files, Span};
use verve_codegen::ast::{BinOp, Expr, Stmt, Type};
use verve_codegen::codegen::c::CBackend;
use verve_codegen::codegen::{CodegenConfig, CompileError, Host};

fn sp() -> Span {
    Span::new(0u32, 0u32)
}

fn at(start: u32, end: u32) -> Span {
    Span::new(start, end)
}

fn file() -> FileId {
    let mut files: Files<String> = Files::new();
    files.add("main.vv", String::from("source"))
}

fn backend() -> CBackend {
    CBackend::new(
        CodegenConfig { target_triple: String::from("x86_64-unknown-linux-gnu"), host: Host::Other },
        file(),
    )
}

fn whole(n: i64) -> Expr {
    Expr::Int(n, sp(), Type::I32)
}

fn var(name: &str) -> Expr {
    Expr::Var(String::from(name), sp(), Type::Unknown)
}

fn typed_var(name: &str, ty: Type) -> Expr {
    Expr::Var(String::from(name), sp(), ty)
}

fn text(s: &str) -> Expr {
    Expr::Str(String::from(s), sp(), Type::String)
}

fn lower(e: &Expr) -> Result<String, CompileError> {
    backend().emit_expr(e)
}

fn failure(r: Result<String, CompileError>) -> (String, Option<Span>) {
    match r {
        Err(CompileError::CodegenError { message, span, .. }) => (message, span),
        Ok(code) => panic!("lowered to {}", code),
    }
}

fn header_after(e: &Expr) -> String {
    let mut b = backend();
    b.emit_expr(e).unwrap();
    b.emit_header();
    b.output()
}

const BANNER: &str = "// Generated by Verve Compiler (target: x86_64-unknown-linux-gnu)\n#include <stdio.h>\n#include <stdlib.h>\n";

#[test]
fn integer_literals_are_spelled_in_decimal() {
    assert_eq!(lower(&whole(0)).unwrap(), "0");
    assert_eq!(lower(&whole(7)).unwrap(), "7");
    assert_eq!(lower(&whole(10)).unwrap(), "10");
    assert_eq!(lower(&whole(42)).unwrap(), "42");
    assert_eq!(lower(&whole(1234567890)).unwrap(), "1234567890");
    assert_eq!(lower(&whole(-1)).unwrap(), "-1");
    assert_eq!(lower(&whole(-305)).unwrap(), "-305");
    assert_eq!(lower(&whole(i64::MAX)).unwrap(), "9223372036854775807");
    assert_eq!(lower(&whole(i64::MIN)).unwrap(), "-9223372036854775808");
}

#[test]
fn string_literals_are_quoted_and_not_escaped() {
    assert_eq!(lower(&text("hello")).unwrap(), "\"hello\"");
    assert_eq!(lower(&text("")).unwrap(), "\"\"");
    assert_eq!(lower(&text("say \"hi\"")).unwrap(), "\"say \"hi\"\"");
}

#[test]
fn variables_are_emitted_unchanged() {
    assert_eq!(lower(&var("counter")).unwrap(), "counter");
    assert_eq!(header_after(&var("counter")), format!("{}\n", BANNER));
}

#[test]
fn boolean_words_ask_for_stdbool() {
    assert_eq!(lower(&var("true")).unwrap(), "true");
    assert_eq!(lower(&var("false")).unwrap(), "false");
    assert_eq!(header_after(&var("true")), format!("{}#include <stdbool.h>\n\n", BANNER));
    assert_eq!(header_after(&var("false")), format!("{}#include <stdbool.h>\n\n", BANNER));
}

#[test]
fn binary_operations_are_parenthesized() {
    let ops = [
        (BinOp::Add, "+"),
        (BinOp::Sub, "-"),
        (BinOp::Mul, "*"),
        (BinOp::Div, "/"),
        (BinOp::Gt, ">"),
        (BinOp::Eq, "=="),
    ];
    for (op, spelled) in ops {
        let e = Expr::BinOp(Box::new(var("a")), op, Box::new(whole(2)), sp(), Type::I32);
        assert_eq!(lower(&e).unwrap(), format!("(a {} 2)", spelled));
    }
}

#[test]
fn nested_binary_operations_keep_their_grouping() {
    let sum = Expr::BinOp(Box::new(whole(1)), BinOp::Add, Box::new(whole(2)), sp(), Type::I32);
    let product = Expr::BinOp(Box::new(sum), BinOp::Mul, Box::new(var("x")), sp(), Type::I32);
    assert_eq!(lower(&product).unwrap(), "((1 + 2) * x)");
}

#[test]
fn assignment_is_a_parenthesized_expression() {
    let e = Expr::Assign(Box::new(var("x")), Box::new(whole(5)), sp(), Type::I32);
    assert_eq!(lower(&e).unwrap(), "(x = 5)");
}

#[test]
fn calls_join_their_arguments() {
    let none = Expr::Call(String::from("f"), vec![], sp(), Type::Void);
    assert_eq!(lower(&none).unwrap(), "f()");
    let one = Expr::Call(String::from("f"), vec![whole(1)], sp(), Type::Void);
    assert_eq!(lower(&one).unwrap(), "f(1)");
    let three = Expr::Call(String::from("add3"), vec![whole(1), var("b"), text("c")], sp(), Type::I32);
    assert_eq!(lower(&three).unwrap(), "add3(1, b, \"c\")");
}

#[test]
fn a_failing_argument_fails_the_call() {
    let e = Expr::Call(
        String::from("f"),
        vec![whole(1), Expr::Other(at(3, 9), Type::Unknown), whole(2)],
        sp(),
        Type::Void,
    );
    assert_eq!(failure(lower(&e)), (String::from("Unsupported expression"), Some(at(3, 9))));
}

#[test]
fn alloc_with_one_argument_is_malloc() {
    let e = Expr::IntrinsicCall(String::from("__alloc"), vec![whole(16)], sp(), Type::RawPtr);
    assert_eq!(lower(&e).unwrap(), "malloc(16)");
}

#[test]
fn alloc_with_no_argument_is_refused() {
    let e = Expr::IntrinsicCall(String::from("__alloc"), vec![], at(4, 13), Type::RawPtr);
    assert_eq!(failure(lower(&e)), (String::from("__alloc expects 1 argument"), Some(at(4, 13))));
}

#[test]
fn alloc_with_two_arguments_is_refused() {
    let e = Expr::IntrinsicCall(String::from("__alloc"), vec![whole(1), whole(2)], at(1, 2), Type::RawPtr);
    assert_eq!(failure(lower(&e)), (String::from("__alloc expects 1 argument"), Some(at(1, 2))));
}

#[test]
fn dealloc_with_one_argument_is_free() {
    let e = Expr::IntrinsicCall(String::from("__dealloc"), vec![var("p")], sp(), Type::Void);
    assert_eq!(lower(&e).unwrap(), "free(p)");
}

#[test]
fn dealloc_with_another_arity_is_refused() {
    let none = Expr::IntrinsicCall(String::from("__dealloc"), vec![], at(2, 5), Type::Void);
    assert_eq!(failure(lower(&none)), (String::from("__dealloc expects 1 argument"), Some(at(2, 5))));
    let two = Expr::IntrinsicCall(String::from("__dealloc"), vec![var("p"), var("q")], at(2, 7), Type::Void);
    assert_eq!(failure(lower(&two)), (String::from("__dealloc expects 1 argument"), Some(at(2, 7))));
}

#[test]
fn unknown_intrinsics_are_refused_by_name() {
    let e = Expr::IntrinsicCall(String::from("__launch"), vec![whole(1)], at(8, 20), Type::Void);
    assert_eq!(
        failure(lower(&e)),
        (String::from("Unknown intrinsic function: __launch"), Some(at(8, 20)))
    );
}

#[test]
fn errors_carry_the_file_of_the_session() {
    let id = file();
    let mut b = CBackend::new(
        CodegenConfig { target_triple: String::from("t"), host: Host::Other },
        id,
    );
    match b.emit_expr(&Expr::Other(at(1, 4), Type::Unknown)) {
        Err(CompileError::CodegenError { message, span, file_id }) => {
            assert_eq!(message, "Unsupported expression");
            assert_eq!(span, Some(at(1, 4)));
            assert_eq!(file_id, id);
        }
        Ok(code) => panic!("lowered to {}", code),
    }
}

#[test]
fn print_formats_by_the_attached_type() {
    let number = Expr::Print(Box::new(whole(3)), sp(), Type::Void);
    assert_eq!(lower(&number).unwrap(), "printf(\"%d\\n\", 3);");
    let words = Expr::Print(Box::new(text("hi")), sp(), Type::Void);
    assert_eq!(lower(&words).unwrap(), "printf(\"%s\\n\", \"hi\");");
    let flag = Expr::Print(
        Box::new(Expr::BinOp(Box::new(whole(1)), BinOp::Gt, Box::new(whole(0)), sp(), Type::Bool)),
        sp(),
        Type::Void,
    );
    assert_eq!(lower(&flag).unwrap(), "printf(\"%s\\n\", ((1 > 0) ? \"true\" : \"false\"));");
}

#[test]
fn print_of_a_pointer_goes_through_uintptr() {
    let call = Expr::Call(String::from("get"), vec![], sp(), Type::Pointer(Box::new(Type::I32)));
    let e = Expr::Print(Box::new(call), sp(), Type::Void);
    assert_eq!(lower(&e).unwrap(), "printf(\"%\"PRIuPTR\"\\n\", (uintptr_t)get());");
    assert_eq!(header_after(&e), format!("{}#include <inttypes.h>\n\n", BANNER));
    let raw = Expr::IntrinsicCall(String::from("__alloc"), vec![whole(8)], sp(), Type::RawPtr);
    let e = Expr::Print(Box::new(raw), sp(), Type::Void);
    assert_eq!(lower(&e).unwrap(), "printf(\"%\"PRIuPTR\"\\n\", (uintptr_t)malloc(8));");
    assert_eq!(header_after(&e), format!("{}#include <inttypes.h>\n\n", BANNER));
}

#[test]
fn print_of_an_unresolved_type_is_refused() {
    let call = Expr::Call(String::from("f"), vec![], at(6, 9), Type::Unknown);
    let e = Expr::Print(Box::new(call), at(0, 10), Type::Void);
    assert_eq!(failure(lower(&e)), (String::from("Cannot print type unknown"), Some(at(6, 9))));
    let call = Expr::Call(String::from("f"), vec![], at(6, 9), Type::Void);
    let e = Expr::Print(Box::new(call), at(0, 10), Type::Void);
    assert_eq!(failure(lower(&e)), (String::from("Cannot print type void"), Some(at(6, 9))));
}

#[test]
fn print_of_a_variable_goes_by_the_table() {
    let mut b = backend();
    b.emit_stmt(&Stmt::Let(String::from("n"), Some(Type::I32), whole(1), sp())).unwrap();
    b.emit_stmt(&Stmt::Let(String::from("s"), Some(Type::String), text("x"), sp())).unwrap();
    b.emit_stmt(&Stmt::Let(String::from("t"), None, var("true"), sp())).unwrap();
    b.emit_stmt(&Stmt::Let(String::from("p"), Some(Type::RawPtr), var("q"), sp())).unwrap();
    // The type attached to the operand is not consulted for a variable.
    let n = Expr::Print(Box::new(typed_var("n", Type::String)), sp(), Type::Void);
    assert_eq!(b.emit_expr(&n).unwrap(), "printf(\"%d\\n\", n);");
    let s = Expr::Print(Box::new(typed_var("s", Type::I32)), sp(), Type::Void);
    assert_eq!(b.emit_expr(&s).unwrap(), "printf(\"%s\\n\", s);");
    let t = Expr::Print(Box::new(var("t")), sp(), Type::Void);
    assert_eq!(b.emit_expr(&t).unwrap(), "printf(\"%s\\n\", (t ? \"true\" : \"false\"));");
    // A pointer's spelling stands for a pointer, whatever is attached.
    let p = Expr::Print(Box::new(Expr::Var(String::from("p"), at(2, 3), Type::Unknown)), sp(), Type::Void);
    assert_eq!(b.emit_expr(&p).unwrap(), "printf(\"%\"PRIuPTR\"\\n\", (uintptr_t)p);");
}

#[test]
fn print_of_a_pointer_variable_goes_through_uintptr() {
    let pointer = || Type::Pointer(Box::new(Type::I32));
    let mut b = backend();
    assert_eq!(
        b.emit_stmt(&Stmt::Let(String::from("p"), Some(pointer()), var("q"), sp())).unwrap(),
        "int* p = q;\n"
    );
    let e = Expr::Print(Box::new(typed_var("p", pointer())), sp(), Type::Void);
    assert_eq!(b.emit_expr(&e).unwrap(), "printf(\"%\"PRIuPTR\"\\n\", (uintptr_t)p);");
    b.emit_header();
    assert_eq!(b.output(), format!("{}#include <inttypes.h>\n\n", BANNER));
    let mut b = backend();
    let deep = Type::Pointer(Box::new(Type::String));
    b.emit_stmt(&Stmt::Let(String::from("names"), Some(deep), var("q"), sp())).unwrap();
    let e = Expr::Print(Box::new(var("names")), sp(), Type::Void);
    assert_eq!(b.emit_expr(&e).unwrap(), "printf(\"%\"PRIuPTR\"\\n\", (uintptr_t)names);");
    let mut b = backend();
    let call = Expr::Call(String::from("get"), vec![], sp(), Type::RawPtr);
    b.emit_stmt(&Stmt::Let(String::from("r"), None, call, sp())).unwrap();
    let e = Expr::Print(Box::new(var("r")), sp(), Type::Void);
    assert_eq!(b.emit_expr(&e).unwrap(), "printf(\"%\"PRIuPTR\"\\n\", (uintptr_t)r);");
}

#[test]
fn print_of_a_variable_of_no_printable_type_is_refused() {
    let mut b = backend();
    b.emit_stmt(&Stmt::Let(String::from("v"), Some(Type::Void), var("q"), sp())).unwrap();
    let e = Expr::Print(Box::new(Expr::Var(String::from("v"), at(2, 3), Type::I32)), sp(), Type::Void);
    assert_eq!(failure(b.emit_expr(&e)), (String::from("Cannot print type unknown"), Some(at(2, 3))));
    let mut b = backend();
    b.emit_stmt(&Stmt::Let(String::from("u"), Some(Type::Unknown), var("q"), sp())).unwrap();
    let e = Expr::Print(Box::new(Expr::Var(String::from("u"), at(4, 5), Type::I32)), sp(), Type::Void);
    assert_eq!(failure(b.emit_expr(&e)), (String::from("Cannot print type unknown"), Some(at(4, 5))));
}

#[test]
fn print_of_an_undeclared_variable_is_refused() {
    let e = Expr::Print(Box::new(Expr::Var(String::from("ghost"), at(5, 10), Type::I32)), sp(), Type::Void);
    assert_eq!(failure(lower(&e)), (String::from("Cannot print type unknown"), Some(at(5, 10))));
}

#[test]
fn a_later_declaration_replaces_an_earlier_one() {
    let mut b = backend();
    b.emit_stmt(&Stmt::Let(String::from("v"), Some(Type::I32), whole(1), sp())).unwrap();
    b.emit_stmt(&Stmt::Let(String::from("v"), Some(Type::String), text("x"), sp())).unwrap();
    let e = Expr::Print(Box::new(var("v")), sp(), Type::Void);
    assert_eq!(b.emit_expr(&e).unwrap(), "printf(\"%s\\n\", v);");
}

#[test]
fn deferred_actions_run_last_in_first_out() {
    let defer = |name: &str| {
        Stmt::Defer(
            Expr::IntrinsicCall(String::from("__dealloc"), vec![var(name)], sp(), Type::Void),
            sp(),
        )
    };
    let call = |name: &str| Stmt::Expr(Expr::Call(String::from(name), vec![], sp(), Type::Void), sp());
    let block = Expr::SafeBlock(
        vec![defer("a"), call("one"), defer("b"), call("two"), defer("c"), call("three")],
        sp(),
        Type::Void,
    );
    assert_eq!(
        lower(&block).unwrap(),
        "{\none();\ntwo();\nthree();\nfree(c);\nfree(b);\nfree(a);\n}\n"
    );
    let block = Expr::SafeBlock(
        vec![call("one"), call("two"), call("three"), defer("a"), defer("b"), defer("c")],
        sp(),
        Type::Void,
    );
    assert_eq!(
        lower(&block).unwrap(),
        "{\none();\ntwo();\nthree();\nfree(c);\nfree(b);\nfree(a);\n}\n"
    );
}

#[test]
fn an_empty_block_is_a_pair_of_braces() {
    assert_eq!(lower(&Expr::SafeBlock(vec![], sp(), Type::Void)).unwrap(), "{\n}\n");
}

#[test]
fn a_failing_deferred_action_fails_the_block() {
    let block = Expr::SafeBlock(
        vec![Stmt::Defer(Expr::Other(at(7, 8), Type::Unknown), sp())],
        sp(),
        Type::Void,
    );
    assert_eq!(failure(lower(&block)), (String::from("Unsupported expression"), Some(at(7, 8))));
}

#[test]
fn dereference_is_parenthesized() {
    let e = Expr::Deref(Box::new(var("p")), sp(), Type::I32);
    assert_eq!(lower(&e).unwrap(), "(*p)");
}

#[test]
fn casts_spell_the_target_type() {
    let e = Expr::Cast(Box::new(whole(1)), Type::Bool, sp(), Type::Bool);
    assert_eq!(lower(&e).unwrap(), "(bool)(1)");
    assert_eq!(header_after(&e), format!("{}#include <stdbool.h>\n\n", BANNER));
    let e = Expr::Cast(Box::new(var("p")), Type::Pointer(Box::new(Type::I32)), sp(), Type::Unknown);
    assert_eq!(lower(&e).unwrap(), "(int*)(p)");
    let e = Expr::Cast(Box::new(whole(1)), Type::I32, sp(), Type::I32);
    assert_eq!(lower(&e).unwrap(), "(int)(1)");
    assert_eq!(header_after(&e), format!("{}\n", BANNER));
}

#[test]
fn a_pointer_cast_to_i32_widens_to_uintptr() {
    let p = typed_var("p", Type::Pointer(Box::new(Type::I32)));
    let e = Expr::Cast(Box::new(p), Type::I32, sp(), Type::I32);
    assert_eq!(lower(&e).unwrap(), "(uintptr_t)(p)");
    assert_eq!(header_after(&e), format!("{}#include <stdint.h>\n\n", BANNER));
    let raw = typed_var("r", Type::RawPtr);
    let e = Expr::Cast(Box::new(raw), Type::I32, sp(), Type::I32);
    assert_eq!(lower(&e).unwrap(), "(uintptr_t)(r)");
}

#[test]
fn an_expression_without_lowering_is_refused() {
    let e = Expr::Other(at(11, 17), Type::I32);
    assert_eq!(failure(lower(&e)), (String::from("Unsupported expression"), Some(at(11, 17))));
    let inside = Expr::Deref(Box::new(Expr::Other(at(1, 2), Type::I32)), sp(), Type::I32);
    assert_eq!(failure(lower(&inside)), (String::from("Unsupported expression"), Some(at(1, 2))));
}

#[test]
fn the_headers_stand_in_one_order_each_once() {
    let mut b = backend();
    let p = typed_var("p", Type::RawPtr);
    b.emit_expr(&Expr::Cast(Box::new(p), Type::I32, sp(), Type::I32)).unwrap();
    let call = Expr::Call(String::from("get"), vec![], sp(), Type::RawPtr);
    b.emit_expr(&Expr::Print(Box::new(call), sp(), Type::Void)).unwrap();
    b.emit_expr(&var("true")).unwrap();
    b.emit_expr(&var("false")).unwrap();
    b.emit_header();
    assert_eq!(
        b.output(),
        format!("{}#include <stdbool.h>\n#include <inttypes.h>\n#include <stdint.h>\n\n", BANNER)
    );
}
