use langcore::ast::{
    Assign, Call, Define, Deref, Eval, Expr, Flag, If, Literal, Load, Program, Refer, Return,
    UserFn, While,
};
use langcore::compile::{call, define, define_no_cp, get, get_return, set_return, Compile, Lower};
use langcore::context::Context;
use langcore::env::Env;
use langcore::error::Error;
use langcore::registry::{deforfun, ForeignFn, Native, Registry};
use langcore::value::{Datum, Machine, Op, Value};

/// Native bodies used by these tests.
enum Body {
    /// Returns the byte 2.
    Two,
    /// Returns what the parameter `p` holds.
    Echo,
    /// Fails.
    Fail,
    /// Does nothing.
    Idle,
}

impl Native for Body {
    fn run(&self, frame: &mut Env, machine: &mut Machine) -> Result<(), Error> {
        match self {
            Body::Two => {
                let v = machine.allocate(Datum::Byte(2));
                machine.set_return(v);
                Ok(())
            }
            Body::Echo => {
                let v = frame.get("p")?;
                machine.set_return(v);
                Ok(())
            }
            Body::Fail => Err(Error::FunctionNotDefined("inner".to_string())),
            Body::Idle => Ok(()),
        }
    }
}

fn byte(b: u8) -> Eval {
    Eval::Literal(Literal::byte_int(b))
}

fn load(name: &str) -> Eval {
    Eval::Load(Load::new(name))
}

fn define_stmt(name: &str, value: Eval) -> Expr {
    Expr::Define(Define::new(name, value))
}

fn empty() -> Registry<Body> {
    Registry::new()
}

#[test]
fn value_lowers_to_itself() {
    let reg = empty();
    let mut cx = Context::new(4);
    let v = Value { cell: 0, reference: false };
    assert_eq!(Eval::Value(v).lower(&reg, &mut cx).unwrap(), v);
    assert_eq!(v.lower(&reg, &mut cx).unwrap(), v);
    assert!(cx.machine().code().is_empty());
    assert_eq!(cx.stack_ptr(), 0);
}

#[test]
fn load_of_missing_variable_fails() {
    let reg = empty();
    let mut cx = Context::new(4);
    match load("missing").lower(&reg, &mut cx) {
        Err(Error::VariableNotDefined(name, snapshot)) => {
            assert_eq!(name, "missing");
            assert_eq!(snapshot.len(), 0);
        }
        other => panic!("unexpected {:?}", other),
    }
    assert!(matches!(get(&cx, "missing"), Err(Error::VariableNotDefined(_, _))));
}

#[test]
fn literal_is_bound_under_a_name_made_from_the_stack_pointer() {
    let reg = empty();
    let mut cx = Context::new(4);
    let a = byte(5).lower(&reg, &mut cx).unwrap();
    assert_eq!(a, Value { cell: 1, reference: false });
    assert_eq!(get(&cx, "%TEMP_BYTE_LITERAL0%").unwrap(), a);
    assert_eq!(cx.machine().read(a), Datum::Byte(5));
    assert_eq!(cx.stack_ptr(), 1);
    let b = Eval::Literal(Literal::unsigned_4byte_int(77)).lower(&reg, &mut cx).unwrap();
    assert_eq!(get(&cx, "%TEMP_U32_LITERAL1%").unwrap(), b);
    assert_eq!(cx.machine().read(b), Datum::Word(77));
    assert_eq!(cx.stack_ptr(), 5);
    let c = Eval::Literal(Literal::character('z')).lower(&reg, &mut cx).unwrap();
    assert_eq!(get(&cx, "%TEMP_CHAR_LITERAL5%").unwrap(), c);
    assert_eq!(cx.machine().read(c), Datum::Char('z'));
    let d = Eval::Literal(Literal::string("hey")).lower(&reg, &mut cx).unwrap();
    assert_eq!(get(&cx, "%TEMP_STR_LITERAL6%").unwrap(), d);
    assert_eq!(cx.machine().read(d), Datum::Text("hey".to_string()));
    assert_eq!(cx.stack_ptr(), 9);
    assert_eq!(cx.top().len(), 4);
    assert_eq!(
        cx.machine().code(),
        &vec![Op::Alloc(a), Op::Alloc(b), Op::Alloc(c), Op::Alloc(d)]
    );
}

#[test]
fn literal_at_the_same_stack_pointer_displaces_the_earlier_one() {
    let reg = empty();
    let mut cx = Context::new(4);
    let e1 = Eval::Literal(Literal::string("")).lower(&reg, &mut cx).unwrap();
    let e2 = Eval::Literal(Literal::string("")).lower(&reg, &mut cx).unwrap();
    assert_ne!(e1, e2);
    assert_eq!(get(&cx, "%TEMP_STR_LITERAL0%").unwrap(), e2);
    assert_eq!(cx.top().len(), 1);
    assert_eq!(cx.machine().code(), &vec![Op::Alloc(e1), Op::Alloc(e2), Op::Zero(e1)]);
}

#[test]
fn refer_of_refer_fails() {
    let reg = empty();
    let mut cx = Context::new(4);
    define_stmt("x", byte(1)).compile(&reg, &mut cx).unwrap();
    let once = Eval::Refer(Refer::new(load("x")));
    let r = once.lower(&reg, &mut cx).unwrap();
    assert!(r.is_ref());
    assert_eq!(r.deref(), get(&cx, "x").unwrap());
    let twice = Eval::Refer(Refer::new(Eval::Refer(Refer::new(load("x")))));
    assert!(matches!(twice.lower(&reg, &mut cx), Err(Error::CannotReferenceAReference)));
    let literal = Eval::Refer(Refer::new(Eval::Refer(Refer::new(byte(3)))));
    assert!(matches!(literal.lower(&reg, &mut cx), Err(Error::CannotReferenceAReference)));
}

#[test]
fn refer_of_a_failing_expression_gives_that_failure() {
    let reg = empty();
    let mut cx = Context::new(4);
    let twice = Eval::Refer(Refer::new(Eval::Refer(Refer::new(load("nope")))));
    assert!(matches!(twice.lower(&reg, &mut cx), Err(Error::VariableNotDefined(_, _))));
}

#[test]
fn assignment_through_a_dereferenced_reference_writes_the_variable() {
    let reg = empty();
    let mut cx = Context::new(4);
    define_stmt("x", byte(1)).compile(&reg, &mut cx).unwrap();
    define_stmt("p", Eval::Refer(Refer::new(load("x")))).compile(&reg, &mut cx).unwrap();
    let x = get(&cx, "x").unwrap();
    let p = get(&cx, "p").unwrap();
    assert_eq!(p, Value { cell: x.cell, reference: true });
    Expr::Assign(Assign::new(Eval::Deref(Deref::new(load("p"))), byte(7)))
        .compile(&reg, &mut cx)
        .unwrap();
    assert_eq!(cx.machine().read(x), Datum::Byte(7));
    assert_eq!(Eval::Deref(Deref::new(load("x"))).lower(&reg, &mut cx).unwrap(), x);
}

#[test]
fn define_copies_and_redefine_clears_once() {
    let reg = empty();
    let mut cx = Context::new(4);
    define_stmt("n1", byte(1)).compile(&reg, &mut cx).unwrap();
    define_stmt("n2", byte(2)).compile(&reg, &mut cx).unwrap();
    let n1 = get(&cx, "n1").unwrap();
    let n2 = get(&cx, "n2").unwrap();
    assert_ne!(n1.cell, n2.cell);
    assert_eq!(cx.machine().read(n1), Datum::Byte(1));
    assert_eq!(cx.machine().read(n2), Datum::Byte(2));
    define_stmt("n1", byte(3)).compile(&reg, &mut cx).unwrap();
    let again = get(&cx, "n1").unwrap();
    assert_ne!(again, n1);
    assert_eq!(cx.machine().read(again), Datum::Byte(3));
    assert_eq!(cx.machine().read(n1), Datum::Empty);
    assert_eq!(cx.machine().read(n2), Datum::Byte(2));
    let zeros = cx.machine().code().iter().filter(|op| **op == Op::Zero(n1)).count();
    let frees = cx.machine().code().iter().filter(|op| matches!(op, Op::Free(_))).count();
    assert_eq!((zeros, frees), (1, 0));
}

#[test]
fn assign_lowers_target_then_source() {
    let reg = empty();
    let mut cx = Context::new(4);
    define_stmt("x", byte(1)).compile(&reg, &mut cx).unwrap();
    let x = get(&cx, "x").unwrap();
    let before = cx.machine().code().len();
    Expr::Assign(Assign::new(load("x"), Eval::Literal(Literal::unsigned_4byte_int(9))))
        .compile(&reg, &mut cx)
        .unwrap();
    let nine = get(&cx, "%TEMP_U32_LITERAL2%").unwrap();
    assert_eq!(&cx.machine().code()[before..], &[Op::Alloc(nine), Op::Assign(x, nine)]);
    assert_eq!(cx.machine().read(x), Datum::Word(9));
    assert_eq!(cx.machine().size(x), 4);
    let failing = Expr::Assign(Assign::new(load("nope"), byte(1)));
    let emitted = cx.machine().code().len();
    assert!(failing.compile(&reg, &mut cx).is_err());
    assert_eq!(cx.machine().code().len(), emitted);
}

#[test]
fn if_compiles_the_then_branch_once_between_brackets_and_never_the_else() {
    let reg = empty();
    let mut cx = Context::new(4);
    let stmt = Expr::If(If::new(
        byte(1),
        vec![define_stmt("a", byte(2))],
        vec![define_stmt("b", byte(3))],
    ));
    stmt.compile(&reg, &mut cx).unwrap();
    let cond = get(&cx, "%TEMP_BYTE_LITERAL0%").unwrap();
    let two = get(&cx, "%TEMP_BYTE_LITERAL1%").unwrap();
    let a = get(&cx, "a").unwrap();
    assert!(get(&cx, "b").is_err());
    assert_eq!(
        cx.machine().code(),
        &vec![Op::Alloc(cond), Op::IfBegin(cond), Op::Alloc(two), Op::Copy(two, a), Op::IfEnd]
    );
}

#[test]
fn failing_statement_inside_if_leaves_the_bracket_open() {
    let reg = empty();
    let mut cx = Context::new(4);
    let stmt = Expr::If(If::new(byte(1), vec![Expr::Eval(load("nope"))], vec![]));
    assert!(matches!(stmt.compile(&reg, &mut cx), Err(Error::VariableNotDefined(_, _))));
    let cond = get(&cx, "%TEMP_BYTE_LITERAL0%").unwrap();
    assert_eq!(cx.machine().code(), &vec![Op::Alloc(cond), Op::IfBegin(cond)]);
    let failing_condition = Expr::If(If::new(load("nope"), vec![], vec![]));
    assert!(failing_condition.compile(&reg, &mut cx).is_err());
    assert_eq!(cx.machine().code().len(), 2);
}

#[test]
fn while_lowers_the_condition_once_and_brackets_the_body() {
    let reg = empty();
    let mut cx = Context::new(4);
    let stmt = Expr::While(While::new(byte(1), vec![define_stmt("a", byte(2))]));
    stmt.compile(&reg, &mut cx).unwrap();
    let cond = get(&cx, "%TEMP_BYTE_LITERAL0%").unwrap();
    let two = get(&cx, "%TEMP_BYTE_LITERAL1%").unwrap();
    let a = get(&cx, "a").unwrap();
    assert_eq!(
        cx.machine().code(),
        &vec![
            Op::Alloc(cond),
            Op::WhileBegin(cond),
            Op::Alloc(two),
            Op::Copy(two, a),
            Op::WhileEnd
        ]
    );
}

#[test]
fn eval_statement_discards_the_value() {
    let reg = empty();
    let mut cx = Context::new(4);
    Expr::Eval(byte(4)).compile(&reg, &mut cx).unwrap();
    assert_eq!(cx.stack_ptr(), 1);
    assert!(Expr::Eval(load("nope")).compile(&reg, &mut cx).is_err());
}

#[test]
fn return_statement_fills_the_register() {
    let reg = empty();
    let mut cx = Context::new(4);
    Expr::Return(Return::new(byte(5))).compile(&reg, &mut cx).unwrap();
    let register = cx.machine().return_register();
    assert_eq!(cx.machine().read(register), Datum::Byte(5));
    let five = get(&cx, "%TEMP_BYTE_LITERAL0%").unwrap();
    assert_eq!(
        cx.machine().code(),
        &vec![Op::Alloc(five), Op::Zero(register), Op::Assign(register, five)]
    );
    set_return(&mut cx, Value { cell: 77, reference: false });
    assert_eq!(cx.machine().read(register), Datum::Empty);
}

#[test]
fn get_return_captures_the_register_in_a_temporary() {
    let reg = empty();
    let mut cx = Context::new(4);
    let five = byte(5).lower(&reg, &mut cx).unwrap();
    set_return(&mut cx, five);
    let before = cx.machine().code().len();
    let t = get_return(&mut cx).unwrap();
    let register = cx.machine().return_register();
    let passed = get(&cx, "%TEMP_DEFINE%").unwrap();
    assert_eq!(get(&cx, "%TEMP_RETURN1%").unwrap(), t);
    assert!(!t.is_ref());
    assert_eq!(cx.machine().read(t), Datum::Byte(5));
    assert_eq!(&cx.machine().code()[before..], &[Op::Copy(register, passed), Op::Copy(passed, t)]);
    assert_eq!(cx.stack_ptr(), 3);
}

#[test]
fn define_goes_by_way_of_the_passing_name() {
    let reg = empty();
    let mut cx = Context::new(4);
    define(&reg, &mut cx, "x", byte(8)).unwrap();
    let lit = get(&cx, "%TEMP_BYTE_LITERAL0%").unwrap();
    let passed = get(&cx, "%TEMP_DEFINE%").unwrap();
    let x = get(&cx, "x").unwrap();
    assert_eq!(cx.machine().code(), &vec![Op::Alloc(lit), Op::Copy(lit, passed), Op::Copy(passed, x)]);
    assert_eq!(cx.machine().read(x), Datum::Byte(8));
    assert!(matches!(define(&reg, &mut cx, "y", load("nope")), Err(Error::VariableNotDefined(_, _))));
    assert!(get(&cx, "y").is_err());
}

#[test]
fn define_no_cp_moves_the_lowered_value_in() {
    let reg = empty();
    let mut cx = Context::new(4);
    define_no_cp(&reg, &mut cx, "x", byte(8)).unwrap();
    let lit = get(&cx, "%TEMP_BYTE_LITERAL0%").unwrap();
    assert_eq!(get(&cx, "x").unwrap(), lit);
    assert_eq!(cx.machine().code(), &vec![Op::Alloc(lit)]);
    assert!(define_no_cp(&reg, &mut cx, "y", load("nope")).is_err());
}

#[test]
fn call_of_unknown_function_fails() {
    let reg = empty();
    let mut cx = Context::new(4);
    match call(&reg, &mut cx, "missing", &vec![]) {
        Err(Error::FunctionNotDefined(name)) => assert_eq!(name, "missing"),
        other => panic!("unexpected {:?}", other),
    }
    assert!(cx.machine().code().is_empty());
    assert_eq!(cx.depth(), 1);
    let as_expr = Eval::Call(Call::new("missing", vec![byte(1)]));
    assert!(matches!(as_expr.lower(&reg, &mut cx), Err(Error::FunctionNotDefined(_))));
    assert!(cx.machine().code().is_empty());
}

#[test]
fn return_round_trip() {
    let mut reg = empty();
    UserFn::new("f", vec![], vec![Expr::Return(Return::new(byte(5)))]).compile(&mut reg);
    let mut cx = Context::new(4);
    define_stmt("x", Eval::Call(Call::new("f", vec![]))).compile(&reg, &mut cx).unwrap();
    let register = cx.machine().return_register();
    let x = get(&cx, "x").unwrap();
    assert_eq!(cx.machine().read(x), Datum::Byte(5));
    let five = Value { cell: 1, reference: false };
    let passed = get(&cx, "%TEMP_DEFINE%").unwrap();
    let temporary = get(&cx, "%TEMP_RETURN1%").unwrap();
    assert_eq!(
        cx.machine().code(),
        &vec![
            Op::Alloc(five),
            Op::Zero(register),
            Op::Assign(register, five),
            Op::Free(five),
            Op::Leave,
            Op::Copy(register, passed),
            Op::Copy(passed, temporary),
            Op::Copy(temporary, x),
        ]
    );
    assert_eq!(cx.stack_ptr(), 4);
    assert_eq!(cx.depth(), 1);
    assert!(!cx.machine().is_live(five));
    assert!(cx.machine().is_live(temporary));
    assert!(!temporary.is_ref());
    assert_eq!(cx.top().len(), 3);
    let mut m = Machine::new();
    let mut scope = cx.top().snapshot();
    scope.free(&mut m);
    assert_eq!(m.code(), &vec![Op::Free(passed), Op::Free(temporary), Op::Free(x)]);
}

#[test]
fn stack_pointer_after_a_call_is_frame_base_plus_size_of_the_result() {
    let mut reg = empty();
    UserFn::new(
        "f",
        vec![],
        vec![
            define_stmt("big", Eval::Literal(Literal::string("0123456789"))),
            Expr::Return(Return::new(Eval::Literal(Literal::unsigned_4byte_int(1)))),
        ],
    )
    .compile(&mut reg);
    let mut cx = Context::new(4);
    byte(0).lower(&reg, &mut cx).unwrap();
    byte(0).lower(&reg, &mut cx).unwrap();
    assert_eq!(cx.stack_ptr(), 2);
    call(&reg, &mut cx, "f", &vec![]).unwrap();
    assert_eq!(cx.stack_ptr(), 2 + 4);
    assert_eq!(cx.machine().code().last(), Some(&Op::Leave));
}

#[test]
fn parameters_are_bound_by_copy() {
    let mut reg = empty();
    UserFn::new(
        "g",
        vec!["p".to_string()],
        vec![Expr::Assign(Assign::new(load("p"), byte(9))), Expr::Return(Return::new(load("p")))],
    )
    .compile(&mut reg);
    let mut cx = Context::new(4);
    define_stmt("a", byte(1)).compile(&reg, &mut cx).unwrap();
    let a = get(&cx, "a").unwrap();
    let r = Eval::Call(Call::new("g", vec![load("a")])).lower(&reg, &mut cx).unwrap();
    assert_eq!(cx.machine().read(a), Datum::Byte(1));
    assert_eq!(cx.machine().read(r), Datum::Byte(9));
    assert!(cx.machine().is_live(a));
    assert!(get(&cx, "p").is_err());
}

#[test]
fn reference_argument_lets_the_callee_write_the_callers_storage() {
    let mut reg = empty();
    UserFn::new(
        "set",
        vec!["p".to_string()],
        vec![Expr::Assign(Assign::new(Eval::Deref(Deref::new(load("p"))), byte(9)))],
    )
    .compile(&mut reg);
    let mut cx = Context::new(4);
    define_stmt("a", byte(1)).compile(&reg, &mut cx).unwrap();
    let a = get(&cx, "a").unwrap();
    call(&reg, &mut cx, "set", &vec![Eval::Refer(Refer::new(load("a")))]).unwrap();
    assert_eq!(cx.machine().read(a), Datum::Byte(9));
    assert!(cx.machine().is_live(a));
}

#[test]
fn callee_sees_only_its_own_frame() {
    let mut reg = empty();
    UserFn::new("peek", vec![], vec![Expr::Return(Return::new(load("outer")))]).compile(&mut reg);
    let mut cx = Context::new(4);
    define_stmt("outer", byte(1)).compile(&reg, &mut cx).unwrap();
    match call(&reg, &mut cx, "peek", &vec![]) {
        Err(Error::VariableNotDefined(name, snapshot)) => {
            assert_eq!(name, "outer");
            assert_eq!(snapshot.len(), 0);
        }
        other => panic!("unexpected {:?}", other),
    }
    assert!(get(&cx, "outer").is_ok());
}

#[test]
fn user_function_comes_before_foreign_of_the_same_name() {
    let mut reg = empty();
    ForeignFn::define(&mut reg, "f", vec![], Body::Two);
    UserFn::new("f", vec![], vec![Expr::Return(Return::new(byte(1)))]).compile(&mut reg);
    ForeignFn::define(&mut reg, "f", vec![], Body::Two);
    let mut cx = Context::new(4);
    let r = Eval::Call(Call::new("f", vec![])).lower(&reg, &mut cx).unwrap();
    assert_eq!(cx.machine().read(r), Datum::Byte(1));
    assert!(reg.user("f").is_some());
    assert!(reg.foreign("f").is_some());
}

#[test]
fn foreign_function_gets_its_arguments_in_its_frame() {
    let mut reg = empty();
    deforfun(&mut reg, "echo", &["p"], Body::Echo);
    ForeignFn::define(&mut reg, "two", vec![], Body::Two);
    let mut cx = Context::new(0);
    let r = Eval::Call(Call::new("echo", vec![byte(6)])).lower(&reg, &mut cx).unwrap();
    assert_eq!(cx.machine().read(r), Datum::Byte(6));
    assert_eq!(cx.depth(), 1);
    let lit = Value { cell: 1, reference: false };
    let p = Value { cell: 2, reference: false };
    let register = cx.machine().return_register();
    assert_eq!(
        &cx.machine().code()[..6],
        &[
            Op::Alloc(lit),
            Op::Copy(lit, p),
            Op::Zero(register),
            Op::Assign(register, p),
            Op::Free(p),
            Op::Leave
        ]
    );
    assert!(!cx.machine().is_live(p));
    let t = Eval::Call(Call::new("two", vec![])).lower(&reg, &mut cx).unwrap();
    assert_eq!(cx.machine().read(t), Datum::Byte(2));
}

#[test]
fn failing_native_body_still_has_its_frame_torn_down() {
    let mut reg = empty();
    ForeignFn::define(&mut reg, "bad", vec!["p".to_string()], Body::Fail);
    let mut cx = Context::new(4);
    let r = call(&reg, &mut cx, "bad", &vec![byte(6)]);
    assert!(matches!(r, Err(Error::FunctionNotDefined(name)) if name == "inner"));
    let p = Value { cell: 2, reference: false };
    assert!(!cx.machine().is_live(p));
    assert_eq!(cx.machine().code().last(), Some(&Op::Leave));
    assert_eq!(cx.depth(), 1);
}

#[test]
fn frame_is_torn_down_after_success_and_after_failure() {
    let mut reg = empty();
    UserFn::new(
        "ok",
        vec!["p".to_string()],
        vec![define_stmt("local", byte(2))],
    )
    .compile(&mut reg);
    UserFn::new(
        "bad",
        vec!["p".to_string()],
        vec![define_stmt("local", byte(2)), Expr::Eval(load("nope")), define_stmt("late", byte(3))],
    )
    .compile(&mut reg);
    for name in ["ok", "bad"] {
        let mut cx = Context::new(4);
        let depth = cx.depth();
        let r = call(&reg, &mut cx, name, &vec![byte(1)]);
        assert_eq!(r.is_ok(), name == "ok");
        assert_eq!(cx.depth(), depth);
        let arg = Value { cell: 1, reference: false };
        let p = Value { cell: 2, reference: false };
        let two = Value { cell: 3, reference: false };
        let local = Value { cell: 4, reference: false };
        assert_eq!(
            cx.machine().code(),
            &vec![
                Op::Alloc(arg),
                Op::Copy(arg, p),
                Op::Alloc(two),
                Op::Copy(two, local),
                Op::Free(p),
                Op::Free(two),
                Op::Free(local),
                Op::Leave,
            ]
        );
        for v in [p, two, local] {
            assert!(!cx.machine().is_live(v));
            let frees = cx.machine().code().iter().filter(|op| **op == Op::Free(v)).count();
            assert_eq!(frees, 1);
        }
        assert!(cx.machine().is_live(arg));
        assert_eq!(cx.stack_ptr(), 0);
        assert_eq!(cx.top().len(), 1);
    }
}

#[test]
fn failing_argument_aborts_the_call_and_frees_what_was_bound() {
    let mut reg = empty();
    UserFn::new(
        "two",
        vec!["a".to_string(), "b".to_string()],
        vec![Expr::Return(Return::new(load("a")))],
    )
    .compile(&mut reg);
    let mut cx = Context::new(4);
    let r = call(&reg, &mut cx, "two", &vec![byte(1), load("nope")]);
    assert!(matches!(r, Err(Error::VariableNotDefined(_, _))));
    let a = Value { cell: 2, reference: false };
    assert!(!cx.machine().is_live(a));
    assert_eq!(cx.depth(), 1);
    assert_eq!(cx.machine().code().last(), Some(&Op::Leave));
}

#[test]
fn arguments_are_lowered_left_to_right() {
    let mut reg = empty();
    UserFn::new("two", vec!["a".to_string(), "b".to_string()], vec![]).compile(&mut reg);
    let mut cx = Context::new(4);
    call(&reg, &mut cx, "two", &vec![byte(1), Eval::Literal(Literal::unsigned_4byte_int(2))])
        .unwrap();
    let first = Value { cell: 1, reference: false };
    let a = Value { cell: 2, reference: false };
    let second = Value { cell: 3, reference: false };
    let b = Value { cell: 4, reference: false };
    assert_eq!(
        &cx.machine().code()[..4],
        &[Op::Alloc(first), Op::Copy(first, a), Op::Alloc(second), Op::Copy(second, b)]
    );
    assert_eq!(cx.machine().read(b), Datum::Word(2));
}

#[test]
fn wrong_number_of_arguments_is_refused_before_anything_is_lowered() {
    let mut reg = empty();
    UserFn::new("one", vec!["a".to_string()], vec![]).compile(&mut reg);
    ForeignFn::define(&mut reg, "echo", vec!["p".to_string()], Body::Echo);
    let mut cx = Context::new(4);
    assert!(matches!(call(&reg, &mut cx, "one", &vec![]), Err(Error::ArityMismatch(1, 0))));
    assert!(matches!(
        call(&reg, &mut cx, "one", &vec![byte(1), byte(2)]),
        Err(Error::ArityMismatch(1, 2))
    ));
    assert!(matches!(
        call(&reg, &mut cx, "echo", &vec![byte(1), byte(2)]),
        Err(Error::ArityMismatch(1, 2))
    ));
    assert!(cx.machine().code().is_empty());
    assert_eq!(cx.stack_ptr(), 0);
}

#[test]
fn calls_nest_no_deeper_than_the_limit() {
    let mut reg = empty();
    UserFn::new("loop", vec![], vec![Expr::Eval(Eval::Call(Call::new("loop", vec![])))])
        .compile(&mut reg);
    UserFn::new("leaf", vec![], vec![]).compile(&mut reg);
    UserFn::new("outer", vec![], vec![Expr::Eval(Eval::Call(Call::new("leaf", vec![])))])
        .compile(&mut reg);
    let mut cx = Context::new(3);
    assert!(matches!(call(&reg, &mut cx, "loop", &vec![]), Err(Error::CallDepthExceeded)));
    assert_eq!(cx.depth(), 1);
    let leaves = cx.machine().code().iter().filter(|op| **op == Op::Leave).count();
    assert_eq!(leaves, 3);
    let mut none = Context::new(0);
    assert!(matches!(call(&reg, &mut none, "leaf", &vec![]), Err(Error::CallDepthExceeded)));
    let mut one = Context::new(1);
    assert!(call(&reg, &mut one, "leaf", &vec![]).is_ok());
    assert!(matches!(call(&reg, &mut one, "outer", &vec![]), Err(Error::CallDepthExceeded)));
    let mut two = Context::new(2);
    assert!(call(&reg, &mut two, "outer", &vec![]).is_ok());
    assert_eq!((two.depth(), two.limit()), (1, 2));
}

#[test]
fn statements_run_in_written_order() {
    let mut reg = empty();
    UserFn::new(
        "f",
        vec![],
        vec![
            define_stmt("a", byte(1)),
            define_stmt("b", Eval::Literal(Literal::unsigned_4byte_int(2))),
            Expr::Return(Return::new(load("a"))),
        ],
    )
    .compile(&mut reg);
    let mut cx = Context::new(4);
    call(&reg, &mut cx, "f", &vec![]).unwrap();
    let one = Value { cell: 1, reference: false };
    let a = Value { cell: 2, reference: false };
    let two = Value { cell: 3, reference: false };
    let b = Value { cell: 4, reference: false };
    let register = cx.machine().return_register();
    assert_eq!(
        cx.machine().code(),
        &vec![
            Op::Alloc(one),
            Op::Copy(one, a),
            Op::Alloc(two),
            Op::Copy(two, b),
            Op::Zero(register),
            Op::Assign(register, a),
            Op::Free(one),
            Op::Free(a),
            Op::Free(two),
            Op::Free(b),
            Op::Leave,
        ]
    );
    assert_eq!(cx.machine().read(register), Datum::Byte(1));
    assert_eq!(cx.stack_ptr(), 1);
}

#[test]
fn program_registers_its_functions_and_runs_nothing() {
    let mut reg = empty();
    let program = Program::new(
        vec![Flag::DisablePtrs, Flag::EnableSizeWarn],
        vec![
            UserFn::new("f", vec![], vec![Expr::Return(Return::new(byte(1)))]),
            UserFn::new("g", vec!["x".to_string()], vec![]),
            UserFn::new("f", vec![], vec![Expr::Return(Return::new(byte(2)))]),
        ],
    );
    assert!(program.compile(&mut reg).is_ok());
    assert!(reg.user("g").is_some());
    assert!(reg.user("h").is_none());
    assert_eq!(reg.user("g").unwrap().parameters, vec!["x".to_string()]);
    let mut cx = Context::new(4);
    let r = Eval::Call(Call::new("f", vec![])).lower(&reg, &mut cx).unwrap();
    assert_eq!(cx.machine().read(r), Datum::Byte(2));
}

#[test]
fn deforfun_registers_the_parameter_names() {
    let mut reg = empty();
    deforfun(&mut reg, "idle", &["a", "b"], Body::Idle);
    let f = reg.foreign("idle").unwrap();
    assert_eq!(f.parameters, vec!["a".to_string(), "b".to_string()]);
    let again = ForeignFn::new(vec!["q".to_string()], Body::Idle);
    assert_eq!(again.parameters, vec!["q".to_string()]);
    let mut cx = Context::new(4);
    assert!(call(&reg, &mut cx, "idle", &vec![byte(1), byte(2)]).is_ok());
    assert_eq!(cx.depth(), 1);
}

#[test]
fn constructors_keep_what_they_are_given() {
    assert_eq!(Load::new("x"), Load("x".to_string()));
    assert_eq!(Literal::string("s"), Literal::String("s".to_string()));
    assert_eq!(Literal::character('c'), Literal::Character('c'));
    assert_eq!(Literal::byte_int(1), Literal::ByteInt(1));
    assert_eq!(Literal::unsigned_4byte_int(2), Literal::Unsigned4ByteInt(2));
    let call = Call::new("f", vec![byte(1)]);
    assert_eq!(call.0, "f");
    assert_eq!(call.1, vec![byte(1)]);
    assert_eq!(*Deref::new(load("p")).0, load("p"));
    assert_eq!(*Refer::new(load("p")).0, load("p"));
    assert_eq!(Return::new(byte(1)).0, byte(1));
    let d = Define::new("x", byte(1));
    assert_eq!((d.0.as_str(), &d.1), ("x", &byte(1)));
    let a = Assign::new(load("x"), byte(1));
    assert_eq!((&a.0, &a.1), (&load("x"), &byte(1)));
    let i = If::new(byte(1), vec![Expr::Eval(byte(2))], vec![Expr::Eval(byte(3))]);
    assert_eq!((i.1.len(), i.2.len()), (1, 1));
    let w = While::new(byte(1), vec![]);
    assert_eq!((&w.0, w.1.len()), (&byte(1), 0));
    let f = UserFn::new("f", vec!["a".to_string()], vec![]);
    assert_eq!((f.name.as_str(), f.parameters.len(), f.body.len()), ("f", 1, 0));
    let p = Program::new(vec![Flag::DisablePtrs], vec![]);
    assert_eq!((p.0, p.1.len()), (vec![Flag::DisablePtrs], 0));
}
