use vstd::prelude::*;
use crate::ast::Assign;
use crate::ast::Call;
use crate::ast::Define;
use crate::ast::Deref;
use crate::ast::Eval;
use crate::ast::Expr;
use crate::ast::If;
use crate::ast::Literal;
use crate::ast::Load;
use crate::ast::Refer;
use crate::ast::Return;
use crate::ast::UserFn;
use crate::ast::While;
use crate::context::ContextView;
use crate::context::Outcome;
use crate::env::Scope;
use crate::env::define_spec;
use crate::error::Failure;
use crate::names::define_name;
use crate::names::return_name;
use crate::names::temporary;
use crate::registry::ForeignFn;
use crate::registry::Native;
use crate::registry::Registry;
use crate::value::DatumView;
use crate::value::Op;
use crate::value::Value;
use crate::value::return_register;

verus! {

// What lowering and compiling mean.
//
// Each function takes the context before, and gives the context after and
// the result. `fuel` is the number of frames that may still be pushed. `o`
// tells what the native bodies do: the body that runs when the history is
// `k` long leaves `o[k]` behind. The language's own steps depend on nothing
// else.

/// A context after lowering, and the value or the failure.
pub type Lowered = (ContextView, Result<Value, Failure>);

/// A context after compiling, and success or the failure.
pub type Compiled = (ContextView, Result<(), Failure>);

/// A name is read in the top scope; the context stays as it is.
pub open spec fn lower_load(l: Load, c: ContextView) -> Lowered {
    (c, c.get(l.0@))
}

/// The stem of the name under which a literal of this kind is bound.
pub open spec fn literal_stem(l: Literal) -> Seq<char> {
    match l {
        Literal::String(_) => "%TEMP_STR_LITERAL"@,
        Literal::Character(_) => "%TEMP_CHAR_LITERAL"@,
        Literal::ByteInt(_) => "%TEMP_BYTE_LITERAL"@,
        Literal::Unsigned4ByteInt(_) => "%TEMP_U32_LITERAL"@,
    }
}

/// What a literal puts into storage.
pub open spec fn literal_datum(l: Literal) -> DatumView {
    match l {
        Literal::String(s) => DatumView::Text(s@),
        Literal::Character(c) => DatumView::Char(c),
        Literal::ByteInt(b) => DatumView::Byte(b),
        Literal::Unsigned4ByteInt(w) => DatumView::Word(w),
    }
}

/// The name under which a literal lowered at stack pointer `depth` is bound.
pub open spec fn literal_name(l: Literal, depth: nat) -> Seq<char> {
    temporary(literal_stem(l), depth)
}

/// A literal is put into fresh storage, which the top scope then owns
/// under a name made from the stack pointer before the allocation; the
/// name is read back.
pub open spec fn lower_literal(l: Literal, c: ContextView) -> Lowered {
    let name = literal_name(l, c.machine.stack_ptr);
    let v = c.machine.fresh();
    let after = c.with_machine(c.machine.allocate(literal_datum(l))).define_no_cp(name, v);
    (after, after.get(name))
}

/// Binds `name` to a copy of `v` by way of the passing name: the passing
/// name is bound to a copy of `v`, and `name` to a copy of that.
pub open spec fn capture(c: ContextView, name: Seq<char>, v: Value) -> Compiled {
    let passed = c.define(define_name(), v);
    match passed.get(define_name()) {
        Ok(w) => (passed.define(name, w), Ok(())),
        Err(e) => (passed, Err(e)),
    }
}

/// The return register is captured under a name made from the stack
/// pointer, and the name is read back.
pub open spec fn get_return_spec(c: ContextView) -> Lowered {
    let name = return_name(c.machine.stack_ptr);
    let (after, r) = capture(c, name, return_register());
    match r {
        Ok(()) => (after, after.get(name)),
        Err(e) => (after, Err(e)),
    }
}

/// Lowering, by the kind of the expression. A value is already lowered.
pub open spec fn lower_eval<N: Native>(
    reg: &Registry<N>,
    e: Eval,
    c: ContextView,
    fuel: nat,
    o: Seq<Outcome>,
) -> Lowered
    decreases fuel, 0nat, e, 0nat, 0nat,
{
    match e {
        Eval::Load(l) => lower_load(l, c),
        Eval::Literal(l) => lower_literal(l, c),
        Eval::Call(call) => lower_call(reg, call, c, fuel, o),
        Eval::Deref(d) => lower_deref(reg, d, c, fuel, o),
        Eval::Refer(r) => lower_refer(reg, r, c, fuel, o),
        Eval::Value(v) => (c, Ok(v)),
    }
}

/// The inner expression is lowered and the result read through.
pub open spec fn lower_deref<N: Native>(
    reg: &Registry<N>,
    d: Deref,
    c: ContextView,
    fuel: nat,
    o: Seq<Outcome>,
) -> Lowered
    decreases fuel, 0nat, d, 0nat, 0nat,
{
    let (after, r) = lower_eval(reg, *d.0, c, fuel, o);
    match r {
        Ok(v) => (after, Ok(v.target())),
        Err(e) => (after, Err(e)),
    }
}

/// The inner expression is lowered and a reference to the result taken,
/// which fails where the result is a reference already.
pub open spec fn lower_refer<N: Native>(
    reg: &Registry<N>,
    x: Refer,
    c: ContextView,
    fuel: nat,
    o: Seq<Outcome>,
) -> Lowered
    decreases fuel, 0nat, x, 0nat, 0nat,
{
    let (after, r) = lower_eval(reg, *x.0, c, fuel, o);
    match r {
        Ok(v) => (after, v.referred()),
        Err(e) => (after, Err(e)),
    }
}

/// The callee runs; its result is then taken from the return register.
pub open spec fn lower_call<N: Native>(
    reg: &Registry<N>,
    call: Call,
    c: ContextView,
    fuel: nat,
    o: Seq<Outcome>,
) -> Lowered
    decreases fuel, 0nat, call, 0nat, 0nat,
{
    let (after, r) = call_spec(reg, call.0@, call.1@, c, fuel, o);
    match r {
        Ok(()) => get_return_spec(after),
        Err(e) => (after, Err(e)),
    }
}

/// A function of the language comes before a foreign one of the same name.
pub open spec fn call_spec<N: Native>(
    reg: &Registry<N>,
    name: Seq<char>,
    args: Seq<Eval>,
    c: ContextView,
    fuel: nat,
    o: Seq<Outcome>,
) -> Compiled
    decreases fuel, 0nat, args, 2nat, 0nat,
{
    if reg.users().contains_key(name) {
        user_call(reg, reg.users()[name], args, c, fuel, o)
    } else if reg.foreigns().contains_key(name) {
        foreign_call(reg, reg.foreigns()[name], args, c, fuel, o)
    } else {
        (c, Err(Failure::FunctionNotDefined(name)))
    }
}

/// The arguments are lowered one by one in the caller's scope, and each
/// parameter is bound in the new frame to a copy of its argument. Stops at
/// the first argument that fails.
pub open spec fn bind_parameters<N: Native>(
    reg: &Registry<N>,
    parameters: Seq<String>,
    args: Seq<Eval>,
    i: nat,
    frame: Scope,
    c: ContextView,
    fuel: nat,
    o: Seq<Outcome>,
) -> (Scope, ContextView, Result<(), Failure>)
    decreases fuel, 0nat, args, 0nat, args.len() - i,
{
    if i >= args.len() || i >= parameters.len() {
        (frame, c, Ok(()))
    } else {
        let (lowered, r) = lower_eval(reg, args[i as int], c, fuel, o);
        match r {
            Err(e) => (frame, lowered, Err(e)),
            Ok(v) => {
                let (bound, m) = define_spec(frame, lowered.machine, parameters[i as int]@, v);
                bind_parameters(
                    reg,
                    parameters,
                    args,
                    i + 1,
                    bound,
                    lowered.with_machine(m),
                    fuel,
                    o,
                )
            },
        }
    }
}

/// One call of a function of the language. Whether the body succeeds or
/// not, the frame is popped, what it owns is freed, and the stack pointer
/// is reset.
pub open spec fn user_call<N: Native>(
    reg: &Registry<N>,
    f: UserFn,
    args: Seq<Eval>,
    c: ContextView,
    fuel: nat,
    o: Seq<Outcome>,
) -> Compiled
    decreases fuel, 0nat, args, 1nat, 0nat,
{
    if args.len() != f.parameters@.len() {
        (c, Err(Failure::ArityMismatch(f.parameters@.len() as usize, args.len() as usize)))
    } else if fuel == 0 {
        (c, Err(Failure::CallDepthExceeded))
    } else {
        let base = c.machine.stack_ptr;
        let (frame, bound, r) = bind_parameters(
            reg,
            f.parameters@,
            args,
            0,
            Scope::empty(),
            c,
            fuel,
            o,
        );
        match r {
            Err(e) => (bound.teardown(frame, base), Err(e)),
            Ok(()) => {
                let (ran, done) = compile_block(
                    reg,
                    f.body@,
                    0,
                    bound.push(frame),
                    (fuel - 1) as nat,
                    o,
                );
                (ran.pop().teardown(ran.top(), base), done)
            },
        }
    }
}

/// One call of a foreign function. The native body is handed the frame
/// and the machine; what it leaves behind is what `o` tells.
pub open spec fn foreign_call<N: Native>(
    reg: &Registry<N>,
    f: ForeignFn<N>,
    args: Seq<Eval>,
    c: ContextView,
    fuel: nat,
    o: Seq<Outcome>,
) -> Compiled
    decreases fuel, 0nat, args, 1nat, 0nat,
{
    if args.len() != f.parameters@.len() {
        (c, Err(Failure::ArityMismatch(f.parameters@.len() as usize, args.len() as usize)))
    } else {
        let base = c.machine.stack_ptr;
        let (frame, bound, r) = bind_parameters(
            reg,
            f.parameters@,
            args,
            0,
            Scope::empty(),
            c,
            fuel,
            o,
        );
        match r {
            Err(e) => (bound.teardown(frame, base), Err(e)),
            Ok(()) => {
                let out = o[bound.history.len() as int];
                (bound.ran(out).teardown(out.frame, base), out.result)
            },
        }
    }
}

/// Compiling, by the kind of the statement. An expression statement is
/// lowered and its value dropped.
pub open spec fn compile_expr<N: Native>(
    reg: &Registry<N>,
    x: Expr,
    c: ContextView,
    fuel: nat,
    o: Seq<Outcome>,
) -> Compiled
    decreases fuel, 2nat, x, 0nat, 0nat,
{
    match x {
        Expr::If(i) => compile_if(reg, i, c, fuel, o),
        Expr::While(w) => compile_while(reg, w, c, fuel, o),
        Expr::Eval(e) => {
            let (after, r) = lower_eval(reg, e, c, fuel, o);
            match r {
                Ok(_) => (after, Ok(())),
                Err(e) => (after, Err(e)),
            }
        },
        Expr::Define(d) => compile_define(reg, d, c, fuel, o),
        Expr::Assign(a) => compile_assign(reg, a, c, fuel, o),
        Expr::Return(r) => compile_return(reg, r, c, fuel, o),
    }
}

/// The statements from the `i`-th on, in order. Stops at the first that
/// fails.
pub open spec fn compile_block<N: Native>(
    reg: &Registry<N>,
    body: Seq<Expr>,
    i: nat,
    c: ContextView,
    fuel: nat,
    o: Seq<Outcome>,
) -> Compiled
    decreases fuel, 2nat, body, 0nat, body.len() - i,
{
    if i >= body.len() {
        (c, Ok(()))
    } else {
        let (after, r) = compile_expr(reg, body[i as int], c, fuel, o);
        match r {
            Err(e) => (after, Err(e)),
            Ok(()) => compile_block(reg, body, i + 1, after, fuel, o),
        }
    }
}

/// The value is lowered and handed to the return register.
pub open spec fn compile_return<N: Native>(
    reg: &Registry<N>,
    x: Return,
    c: ContextView,
    fuel: nat,
    o: Seq<Outcome>,
) -> Compiled
    decreases fuel, 1nat, x, 0nat, 0nat,
{
    let (after, r) = lower_eval(reg, x.0, c, fuel, o);
    match r {
        Ok(v) => (after.with_machine(after.machine.set_return(v)), Ok(())),
        Err(e) => (after, Err(e)),
    }
}

/// The value is lowered and the name is bound to a copy of it in the top
/// scope.
pub open spec fn compile_define<N: Native>(
    reg: &Registry<N>,
    x: Define,
    c: ContextView,
    fuel: nat,
    o: Seq<Outcome>,
) -> Compiled
    decreases fuel, 1nat, x, 0nat, 0nat,
{
    let (after, r) = lower_eval(reg, x.1, c, fuel, o);
    match r {
        Ok(v) => (after.define(x.0@, v), Ok(())),
        Err(e) => (after, Err(e)),
    }
}

/// The target is lowered, then the source, and the source is written into
/// the storage that the target denotes.
pub open spec fn compile_assign<N: Native>(
    reg: &Registry<N>,
    x: Assign,
    c: ContextView,
    fuel: nat,
    o: Seq<Outcome>,
) -> Compiled
    decreases fuel, 1nat, x, 0nat, 0nat,
{
    let (first, target) = lower_eval(reg, x.0, c, fuel, o);
    match target {
        Err(e) => (first, Err(e)),
        Ok(dst) => {
            let (second, source) = lower_eval(reg, x.1, first, fuel, o);
            match source {
                Err(e) => (second, Err(e)),
                Ok(src) => (second.with_machine(second.machine.assign(dst, src)), Ok(())),
            }
        },
    }
}

/// The condition is lowered once; the statements under it are compiled
/// once, between the opening and the closing of the conditional. The else
/// branch is not compiled.
pub open spec fn compile_if<N: Native>(
    reg: &Registry<N>,
    x: If,
    c: ContextView,
    fuel: nat,
    o: Seq<Outcome>,
) -> Compiled
    decreases fuel, 2nat, x, 0nat, 0nat,
{
    let (lowered, r) = lower_eval(reg, x.0, c, fuel, o);
    match r {
        Err(e) => (lowered, Err(e)),
        Ok(condition) => {
            let opened = lowered.with_machine(lowered.machine.emit(Op::IfBegin(condition)));
            let (inside, done) = compile_block(reg, x.1@, 0, opened, fuel, o);
            match done {
                Err(e) => (inside, Err(e)),
                Ok(()) => (inside.with_machine(inside.machine.emit(Op::IfEnd)), Ok(())),
            }
        },
    }
}

/// The condition is lowered once; the body is compiled once, between the
/// opening and the closing of the loop.
pub open spec fn compile_while<N: Native>(
    reg: &Registry<N>,
    x: While,
    c: ContextView,
    fuel: nat,
    o: Seq<Outcome>,
) -> Compiled
    decreases fuel, 2nat, x, 0nat, 0nat,
{
    let (lowered, r) = lower_eval(reg, x.0, c, fuel, o);
    match r {
        Err(e) => (lowered, Err(e)),
        Ok(condition) => {
            let opened = lowered.with_machine(lowered.machine.emit(Op::WhileBegin(condition)));
            let (inside, done) = compile_block(reg, x.1@, 0, opened, fuel, o);
            match done {
                Err(e) => (inside, Err(e)),
                Ok(()) => (inside.with_machine(inside.machine.emit(Op::WhileEnd)), Ok(())),
            }
        },
    }
}

/// The value is lowered and bound to `name` by way of the passing name.
pub open spec fn define_value<N: Native>(
    reg: &Registry<N>,
    name: Seq<char>,
    value: Eval,
    c: ContextView,
    fuel: nat,
    o: Seq<Outcome>,
) -> Compiled {
    let (after, r) = lower_eval(reg, value, c, fuel, o);
    match r {
        Ok(v) => capture(after, name, v),
        Err(e) => (after, Err(e)),
    }
}

/// The value is lowered and itself bound to `name` in the top scope.
pub open spec fn define_value_no_cp<N: Native>(
    reg: &Registry<N>,
    name: Seq<char>,
    value: Eval,
    c: ContextView,
    fuel: nat,
    o: Seq<Outcome>,
) -> Compiled {
    let (after, r) = lower_eval(reg, value, c, fuel, o);
    match r {
        Ok(v) => (after.define_no_cp(name, v), Ok(())),
        Err(e) => (after, Err(e)),
    }
}

} // verus!
