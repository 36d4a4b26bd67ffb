use vstd::prelude::*;
use vstd::string::*;
use crate::ast::Assign;
use crate::ast::Call;
use crate::ast::Define;
use crate::ast::Deref;
use crate::ast::Eval;
use crate::ast::Expr;
use crate::ast::If;
use crate::ast::Literal;
use crate::ast::Load;
use crate::ast::Refer;
use crate::ast::Return;
use crate::ast::UserFn;
use crate::ast::While;
use crate::context::Context;
use crate::context::Outcome;
use crate::context::told;
use crate::env::Env;
use crate::env::lemma_bind;
use crate::error::Error;
use crate::error::Failure;
use crate::error::outcome;
use crate::names::temporary_name;
use crate::registry::ForeignFn;
use crate::registry::Native;
use crate::registry::Registry;
use crate::semantics::call_spec;
use crate::semantics::capture;
use crate::semantics::compile_assign;
use crate::semantics::compile_block;
use crate::semantics::compile_define;
use crate::semantics::compile_expr;
use crate::semantics::compile_if;
use crate::semantics::compile_return;
use crate::semantics::compile_while;
use crate::semantics::define_value;
use crate::semantics::define_value_no_cp;
use crate::semantics::foreign_call;
use crate::semantics::get_return_spec;
use crate::semantics::lower_call;
use crate::semantics::lower_deref;
use crate::semantics::lower_eval;
use crate::semantics::lower_literal;
use crate::semantics::lower_load;
use crate::semantics::lower_refer;
use crate::semantics::user_call;
use crate::value::Datum;
use crate::value::Value;

verus! {

// How to read the contracts of this file.
//
// What lowering and compiling mean is written down once, as functions from
// the context before to the context after and the result. A native body
// may do anything to its frame and to the machine, so those functions take
// `o`, which tells what each native body left behind. A contract here says:
// whatever `o` tells of the native bodies that ran, if it tells what they
// did in fact do, then the meaning under `o` is what happened. Where no
// native body runs, `o` plays no part and the meaning is decided by the
// program alone.

/// Reducing an expression to a value, with whatever that does to the
/// context. Each kind of expression states what its lowering yields.
pub trait Lower {
    fn lower<N: Native>(&self, reg: &Registry<N>, cx: &mut Context) -> (r: Result<Value, Error>)
        requires
            old(cx)@.wf(),
        ensures
            final(cx)@.wf(),
            final(cx)@.follows(old(cx)@),
    ;
}

/// Executing a statement against the context. Each kind of statement
/// states what its compiling does.
pub trait Compile {
    fn compile<N: Native>(&self, reg: &Registry<N>, cx: &mut Context) -> (r: Result<(), Error>)
        requires
            old(cx)@.wf(),
        ensures
            final(cx)@.wf(),
            final(cx)@.follows(old(cx)@),
    ;
}

/// The value that `name` is bound to in the top scope.
pub fn get(cx: &Context, name: &str) -> (r: Result<Value, Error>)
    requires
        cx@.wf(),
    ensures
        outcome(r) == cx@.get(name@),
{
    cx.get(name)
}

/// Hands `val` to the return register: the register is cleared, then
/// `val` is copied into it.
pub fn set_return(cx: &mut Context, val: Value)
    requires
        old(cx)@.wf(),
    ensures
        final(cx)@ == old(cx)@.with_machine(old(cx)@.machine.set_return(val)),
        final(cx)@.wf(),
        final(cx)@.follows(old(cx)@),
{
    cx.set_return(val);
}

/// Binds `name` in the top scope to a copy of `v` by way of the passing name.
fn pass(cx: &mut Context, name: &str, v: Value) -> (r: Result<(), Error>)
    requires
        old(cx)@.wf(),
    ensures
        capture(old(cx)@, name@, v) == (final(cx)@, outcome(r)),
        final(cx)@.wf(),
        final(cx)@.follows(old(cx)@),
        final(cx)@.history == old(cx)@.history,
{
    cx.define("%TEMP_DEFINE%", v);
    match cx.get("%TEMP_DEFINE%") {
        Ok(w) => {
            cx.define(name, w);
            Ok(())
        },
        Err(e) => Err(e),
    }
}

/// Takes a callee's result from the return register into a temporary of
/// the top scope, named from the stack pointer, and reads it back.
pub fn get_return(cx: &mut Context) -> (r: Result<Value, Error>)
    requires
        old(cx)@.wf(),
    ensures
        get_return_spec(old(cx)@) == (final(cx)@, outcome(r)),
        final(cx)@.wf(),
        final(cx)@.follows(old(cx)@),
        final(cx)@.history == old(cx)@.history,
{
    let name = temporary_name("%TEMP_RETURN", cx.stack_ptr());
    let register = cx.machine().return_register();
    match pass(cx, name.as_str(), register) {
        Ok(()) => cx.get(name.as_str()),
        Err(e) => Err(e),
    }
}

impl Lower for Value {
    /// A value is already lowered.
    fn lower<N: Native>(&self, reg: &Registry<N>, cx: &mut Context) -> (r: Result<Value, Error>)
        ensures
            r == Ok::<Value, Error>(*self),
            final(cx)@ == old(cx)@,
    {
        Ok(*self)
    }
}

impl Lower for Load {
    fn lower<N: Native>(&self, reg: &Registry<N>, cx: &mut Context) -> (r: Result<Value, Error>)
        ensures
            lower_load(*self, old(cx)@) == (final(cx)@, outcome(r)),
    {
        get(cx, self.0.as_str())
    }
}

impl Lower for Literal {
    fn lower<N: Native>(&self, reg: &Registry<N>, cx: &mut Context) -> (r: Result<Value, Error>)
        ensures
            lower_literal(*self, old(cx)@) == (final(cx)@, outcome(r)),
            r == Ok::<Value, Error>(old(cx)@.machine.fresh()),
            final(cx)@.history == old(cx)@.history,
    {
        let depth = cx.stack_ptr();
        let name;
        let datum;
        match self {
            Literal::String(s) => {
                name = temporary_name("%TEMP_STR_LITERAL", depth);
                datum = Datum::Text(s.clone());
            },
            Literal::Character(ch) => {
                name = temporary_name("%TEMP_CHAR_LITERAL", depth);
                datum = Datum::Char(*ch);
            },
            Literal::ByteInt(byte) => {
                name = temporary_name("%TEMP_BYTE_LITERAL", depth);
                datum = Datum::Byte(*byte);
            },
            Literal::Unsigned4ByteInt(ui) => {
                name = temporary_name("%TEMP_U32_LITERAL", depth);
                datum = Datum::Word(*ui);
            },
        }
        let v = cx.allocate(datum);
        proof {
            lemma_bind(cx@.top(), name@, v, name@);
        }
        cx.define_no_cp(name.as_str(), v);
        get(cx, name.as_str())
    }
}

impl Lower for Deref {
    fn lower<N: Native>(&self, reg: &Registry<N>, cx: &mut Context) -> (r: Result<Value, Error>)
        ensures
            forall|o: Seq<Outcome>|
                told(o, old(cx)@, final(cx)@) ==> #[trigger] lower_deref(
                    reg,
                    *self,
                    old(cx)@,
                    old(cx)@.room(),
                    o,
                ) == (final(cx)@, outcome(r)),
        decreases old(cx)@.room(), 0nat, self, 0nat, 0nat,
    {
        let inner = self.0.lower(reg, cx);
        let r = match inner {
            Ok(v) => Ok(v.deref()),
            Err(e) => Err(e),
        };
        proof {
            let c0 = old(cx)@;
            assert forall|o: Seq<Outcome>| told(o, c0, cx@) implies #[trigger] lower_deref(
                reg,
                *self,
                c0,
                c0.room(),
                o,
            ) == (cx@, outcome(r)) by {
                assert(lower_eval(reg, *self.0, c0, c0.room(), o) == (cx@, outcome(inner)));
            }
        }
        r
    }
}

impl Lower for Refer {
    fn lower<N: Native>(&self, reg: &Registry<N>, cx: &mut Context) -> (r: Result<Value, Error>)
        ensures
            forall|o: Seq<Outcome>|
                told(o, old(cx)@, final(cx)@) ==> #[trigger] lower_refer(
                    reg,
                    *self,
                    old(cx)@,
                    old(cx)@.room(),
                    o,
                ) == (final(cx)@, outcome(r)),
        decreases old(cx)@.room(), 0nat, self, 0nat, 0nat,
    {
        let inner = self.0.lower(reg, cx);
        let r = match inner {
            Ok(v) => v.refer(),
            Err(e) => Err(e),
        };
        proof {
            let c0 = old(cx)@;
            assert forall|o: Seq<Outcome>| told(o, c0, cx@) implies #[trigger] lower_refer(
                reg,
                *self,
                c0,
                c0.room(),
                o,
            ) == (cx@, outcome(r)) by {
                assert(lower_eval(reg, *self.0, c0, c0.room(), o) == (cx@, outcome(inner)));
            }
        }
        r
    }
}

impl Lower for Call {
    fn lower<N: Native>(&self, reg: &Registry<N>, cx: &mut Context) -> (r: Result<Value, Error>)
        ensures
            forall|o: Seq<Outcome>|
                told(o, old(cx)@, final(cx)@) ==> #[trigger] lower_call(
                    reg,
                    *self,
                    old(cx)@,
                    old(cx)@.room(),
                    o,
                ) == (final(cx)@, outcome(r)),
        decreases old(cx)@.room(), 0nat, self, 0nat, 0nat,
    {
        let called = call(reg, cx, self.0.as_str(), &self.1);
        let ghost c1 = cx@;
        let r = match called {
            Ok(()) => get_return(cx),
            Err(e) => Err(e),
        };
        proof {
            let c0 = old(cx)@;
            assert forall|o: Seq<Outcome>| told(o, c0, cx@) implies #[trigger] lower_call(
                reg,
                *self,
                c0,
                c0.room(),
                o,
            ) == (cx@, outcome(r)) by {
                assert(told(o, c0, c1));
                assert(call_spec(reg, self.0@, self.1@, c0, c0.room(), o) == (c1, outcome(called)));
            }
        }
        r
    }
}

impl Lower for Eval {
    fn lower<N: Native>(&self, reg: &Registry<N>, cx: &mut Context) -> (r: Result<Value, Error>)
        ensures
            forall|o: Seq<Outcome>|
                told(o, old(cx)@, final(cx)@) ==> #[trigger] lower_eval(
                    reg,
                    *self,
                    old(cx)@,
                    old(cx)@.room(),
                    o,
                ) == (final(cx)@, outcome(r)),
        decreases old(cx)@.room(), 0nat, self, 0nat, 0nat,
    {
        let r = match self {
            Eval::Load(l) => l.lower(reg, cx),
            Eval::Literal(l) => l.lower(reg, cx),
            Eval::Deref(r) => r.lower(reg, cx),
            Eval::Call(c) => c.lower(reg, cx),
            Eval::Refer(v) => v.lower(reg, cx),
            Eval::Value(v) => v.lower(reg, cx),
        };
        proof {
            let c0 = old(cx)@;
            assert forall|o: Seq<Outcome>| told(o, c0, cx@) implies #[trigger] lower_eval(
                reg,
                *self,
                c0,
                c0.room(),
                o,
            ) == (cx@, outcome(r)) by {
                match *self {
                    Eval::Deref(d) => {
                        assert(lower_deref(reg, d, c0, c0.room(), o) == (cx@, outcome(r)));
                    },
                    Eval::Call(c) => {
                        assert(lower_call(reg, c, c0, c0.room(), o) == (cx@, outcome(r)));
                    },
                    Eval::Refer(v) => {
                        assert(lower_refer(reg, v, c0, c0.room(), o) == (cx@, outcome(r)));
                    },
                    _ => {},
                }
            }
        }
        r
    }
}

/// Lowers the arguments one by one in the caller's scope and binds each
/// parameter in `frame` to a copy of its argument.
fn bind_parameters<N: Native>(
    reg: &Registry<N>,
    cx: &mut Context,
    parameters: &Vec<String>,
    args: &Vec<Eval>,
    frame: &mut Env,
) -> (r: Result<(), Error>)
    requires
        old(cx)@.wf(),
    ensures
        final(cx)@.wf(),
        final(cx)@.follows(old(cx)@),
        forall|o: Seq<Outcome>|
            told(o, old(cx)@, final(cx)@) ==> #[trigger] crate::semantics::bind_parameters(
                reg,
                parameters@,
                args@,
                0,
                old(frame)@,
                old(cx)@,
                old(cx)@.room(),
                o,
            ) == (final(frame)@, final(cx)@, outcome(r)),
    decreases old(cx)@.room(), 0nat, args, 0nat, 0nat,
{
    let ghost c0 = cx@;
    let ghost f0 = frame@;
    let ghost fuel = cx@.room();
    let mut i: usize = 0;
    while i < args.len() && i < parameters.len()
        invariant
            cx@.wf(),
            cx@.follows(c0),
            c0 == old(cx)@,
            f0 == old(frame)@,
            fuel == c0.room(),
            forall|o: Seq<Outcome>|
                told(o, c0, cx@) ==> #[trigger] crate::semantics::bind_parameters(
                    reg,
                    parameters@,
                    args@,
                    0,
                    f0,
                    c0,
                    fuel,
                    o,
                ) == crate::semantics::bind_parameters(
                    reg,
                    parameters@,
                    args@,
                    i as nat,
                    frame@,
                    cx@,
                    fuel,
                    o,
                ),
        decreases args@.len() - i,
    {
        let ghost ci = cx@;
        let ghost fi = frame@;
        let lowered = args[i].lower(reg, cx);
        let ghost cl = cx@;
        proof {
            assert(ci.room() == fuel);
            assert forall|o: Seq<Outcome>| told(o, c0, cl) implies told(o, c0, ci) && told(
                o,
                ci,
                cl,
            ) && lower_eval(reg, args@[i as int], ci, fuel, o) == (cl, outcome(lowered)) by {
                assert(told(o, c0, ci));
                assert(told(o, ci, cl));
            }
        }
        match lowered {
            Err(e) => {
                proof {
                    assert forall|o: Seq<Outcome>| told(
                        o,
                        c0,
                        cx@,
                    ) implies #[trigger] crate::semantics::bind_parameters(
                        reg,
                        parameters@,
                        args@,
                        0,
                        f0,
                        c0,
                        fuel,
                        o,
                    ) == (frame@, cx@, outcome(Err::<(), Error>(e))) by {
                        assert(told(o, c0, ci));
                        assert(lower_eval(reg, args@[i as int], ci, fuel, o) == (
                            cl,
                            outcome(lowered),
                        ));
                        assert(crate::semantics::bind_parameters(
                            reg,
                            parameters@,
                            args@,
                            i as nat,
                            fi,
                            ci,
                            fuel,
                            o,
                        ) == (fi, cl, Err::<(), Failure>(e@)));
                    }
                }
                return Err(e);
            },
            Ok(v) => {
                cx.bind(frame, parameters[i].as_str(), v);
                proof {
                    assert forall|o: Seq<Outcome>| told(
                        o,
                        c0,
                        cx@,
                    ) implies #[trigger] crate::semantics::bind_parameters(
                        reg,
                        parameters@,
                        args@,
                        0,
                        f0,
                        c0,
                        fuel,
                        o,
                    ) == crate::semantics::bind_parameters(
                        reg,
                        parameters@,
                        args@,
                        (i + 1) as nat,
                        frame@,
                        cx@,
                        fuel,
                        o,
                    ) by {
                        assert(told(o, c0, cl));
                        assert(told(o, c0, ci));
                        assert(lower_eval(reg, args@[i as int], ci, fuel, o) == (
                            cl,
                            outcome(lowered),
                        ));
                        assert(crate::semantics::bind_parameters(
                            reg,
                            parameters@,
                            args@,
                            i as nat,
                            fi,
                            ci,
                            fuel,
                            o,
                        ) == crate::semantics::bind_parameters(
                            reg,
                            parameters@,
                            args@,
                            (i + 1) as nat,
                            frame@,
                            cx@,
                            fuel,
                            o,
                        ));
                    }
                }
            },
        }
        i = i + 1;
    }
    proof {
        assert forall|o: Seq<Outcome>| told(
            o,
            c0,
            cx@,
        ) implies #[trigger] crate::semantics::bind_parameters(
            reg,
            parameters@,
            args@,
            0,
            f0,
            c0,
            fuel,
            o,
        ) == (frame@, cx@, Ok::<(), Failure>(())) by {
            assert(crate::semantics::bind_parameters(
                reg,
                parameters@,
                args@,
                i as nat,
                frame@,
                cx@,
                fuel,
                o,
            ) == (frame@, cx@, Ok::<(), Failure>(())));
        }
    }
    Ok(())
}

/// Compiles the statements in order and stops at the first that fails.
fn run_block<N: Native>(reg: &Registry<N>, cx: &mut Context, body: &Vec<Expr>) -> (r: Result<
    (),
    Error,
>)
    requires
        old(cx)@.wf(),
    ensures
        final(cx)@.wf(),
        final(cx)@.follows(old(cx)@),
        forall|o: Seq<Outcome>|
            told(o, old(cx)@, final(cx)@) ==> #[trigger] compile_block(
                reg,
                body@,
                0,
                old(cx)@,
                old(cx)@.room(),
                o,
            ) == (final(cx)@, outcome(r)),
    decreases old(cx)@.room(), 2nat, body, 0nat, 0nat,
{
    let ghost c0 = cx@;
    let ghost fuel = cx@.room();
    let mut i: usize = 0;
    while i < body.len()
        invariant
            i <= body@.len(),
            cx@.wf(),
            cx@.follows(c0),
            c0 == old(cx)@,
            fuel == c0.room(),
            forall|o: Seq<Outcome>|
                told(o, c0, cx@) ==> #[trigger] compile_block(reg, body@, 0, c0, fuel, o)
                    == compile_block(reg, body@, i as nat, cx@, fuel, o),
        decreases body@.len() - i,
    {
        let ghost ci = cx@;
        let done = body[i].compile(reg, cx);
        proof {
            assert forall|o: Seq<Outcome>| told(o, c0, cx@) implies #[trigger] compile_block(
                reg,
                body@,
                0,
                c0,
                fuel,
                o,
            ) == (if done is Ok {
                compile_block(reg, body@, (i + 1) as nat, cx@, fuel, o)
            } else {
                (cx@, outcome(done))
            }) by {
                assert(told(o, c0, ci));
                assert(told(o, ci, cx@));
                assert(compile_expr(reg, body@[i as int], ci, fuel, o) == (cx@, outcome(done)));
                assert(compile_block(reg, body@, i as nat, ci, fuel, o) == (if done is Ok {
                    compile_block(reg, body@, (i + 1) as nat, cx@, fuel, o)
                } else {
                    (cx@, outcome(done))
                }));
            }
        }
        match done {
            Err(e) => {
                return Err(e);
            },
            Ok(()) => {},
        }
        i = i + 1;
    }
    proof {
        assert forall|o: Seq<Outcome>| told(o, c0, cx@) implies #[trigger] compile_block(
            reg,
            body@,
            0,
            c0,
            fuel,
            o,
        ) == (cx@, Ok::<(), Failure>(())) by {
            assert(compile_block(reg, body@, i as nat, cx@, fuel, o) == (
                cx@,
                Ok::<(), Failure>(()),
            ));
        }
    }
    Ok(())
}

impl UserFn {
    /// Calls the function: builds its frame from the arguments, runs the
    /// body in it, and tears the frame down whether the body succeeded or not.
    pub fn call<N: Native>(&self, reg: &Registry<N>, cx: &mut Context, args: &Vec<Eval>) -> (r:
        Result<(), Error>)
        requires
            old(cx)@.wf(),
        ensures
            final(cx)@.wf(),
            final(cx)@.follows(old(cx)@),
            forall|o: Seq<Outcome>|
                told(o, old(cx)@, final(cx)@) ==> #[trigger] user_call(
                    reg,
                    *self,
                    args@,
                    old(cx)@,
                    old(cx)@.room(),
                    o,
                ) == (final(cx)@, outcome(r)),
        decreases old(cx)@.room(), 0nat, args, 1nat, 0nat,
    {
        let ghost c0 = cx@;
        if args.len() != self.parameters.len() {
            return Err(Error::ArityMismatch(self.parameters.len(), args.len()));
        }
        if cx.depth() > cx.limit() {
            return Err(Error::CallDepthExceeded);
        }
        let base = cx.stack_ptr();
        let mut frame = Env::new();
        let bound = bind_parameters(reg, cx, &self.parameters, args, &mut frame);
        let ghost c1 = cx@;
        let ghost f1 = frame@;
        match bound {
            Err(e) => {
                cx.teardown(frame, base);
                proof {
                    assert forall|o: Seq<Outcome>| told(o, c0, cx@) implies #[trigger] user_call(
                        reg,
                        *self,
                        args@,
                        c0,
                        c0.room(),
                        o,
                    ) == (cx@, Err::<(), Failure>(e@)) by {
                        assert(told(o, c0, c1));
                        assert(crate::semantics::bind_parameters(
                            reg,
                            self.parameters@,
                            args@,
                            0,
                            Seq::empty(),
                            c0,
                            c0.room(),
                            o,
                        ) == (f1, c1, outcome(bound)));
                    }
                }
                Err(e)
            },
            Ok(()) => {
                cx.push_scope(frame);
                let ghost c2 = cx@;
                let done = run_block(reg, cx, &self.body);
                let ghost c3 = cx@;
                let frame = cx.pop_scope();
                cx.teardown(frame, base);
                proof {
                    assert(cx@.scopes =~= c1.scopes);
                    assert forall|o: Seq<Outcome>| told(o, c0, cx@) implies #[trigger] user_call(
                        reg,
                        *self,
                        args@,
                        c0,
                        c0.room(),
                        o,
                    ) == (cx@, outcome(done)) by {
                        assert(told(o, c0, c1));
                        assert(told(o, c2, c3));
                        assert(c2.room() == c0.room() - 1);
                        assert(crate::semantics::bind_parameters(
                            reg,
                            self.parameters@,
                            args@,
                            0,
                            Seq::empty(),
                            c0,
                            c0.room(),
                            o,
                        ) == (f1, c1, outcome(bound)));
                        assert(compile_block(
                            reg,
                            self.body@,
                            0,
                            c2,
                            (c0.room() - 1) as nat,
                            o,
                        ) == (c3, outcome(done)));
                    }
                }
                done
            },
        }
    }
}

impl<N: Native> ForeignFn<N> {
    /// Calls the function: builds its frame from the arguments, runs the
    /// native body on it, and tears the frame down whatever the body returned.
    pub fn call(&self, reg: &Registry<N>, cx: &mut Context, args: &Vec<Eval>) -> (r: Result<
        (),
        Error,
    >)
        requires
            old(cx)@.wf(),
        ensures
            final(cx)@.wf(),
            final(cx)@.follows(old(cx)@),
            forall|o: Seq<Outcome>|
                told(o, old(cx)@, final(cx)@) ==> #[trigger] foreign_call(
                    reg,
                    *self,
                    args@,
                    old(cx)@,
                    old(cx)@.room(),
                    o,
                ) == (final(cx)@, outcome(r)),
        decreases old(cx)@.room(), 0nat, args, 1nat, 0nat,
    {
        let ghost c0 = cx@;
        if args.len() != self.parameters.len() {
            return Err(Error::ArityMismatch(self.parameters.len(), args.len()));
        }
        let base = cx.stack_ptr();
        let mut frame = Env::new();
        let bound = bind_parameters(reg, cx, &self.parameters, args, &mut frame);
        let ghost c1 = cx@;
        let ghost f1 = frame@;
        match bound {
            Err(e) => {
                cx.teardown(frame, base);
                proof {
                    assert forall|o: Seq<Outcome>| told(
                        o,
                        c0,
                        cx@,
                    ) implies #[trigger] foreign_call(reg, *self, args@, c0, c0.room(), o) == (
                        cx@,
                        Err::<(), Failure>(e@),
                    ) by {
                        assert(told(o, c0, c1));
                        assert(crate::semantics::bind_parameters(
                            reg,
                            self.parameters@,
                            args@,
                            0,
                            Seq::empty(),
                            c0,
                            c0.room(),
                            o,
                        ) == (f1, c1, outcome(bound)));
                    }
                }
                Err(e)
            },
            Ok(()) => {
                let done = cx.run(&self.body, &mut frame);
                let ghost c2 = cx@;
                let ghost f2 = frame@;
                cx.teardown(frame, base);
                proof {
                    let out = Outcome { frame: f2, machine: c2.machine, result: outcome(done) };
                    assert(c2.history[c1.history.len() as int] == out);
                    assert forall|o: Seq<Outcome>| told(
                        o,
                        c0,
                        cx@,
                    ) implies #[trigger] foreign_call(reg, *self, args@, c0, c0.room(), o) == (
                        cx@,
                        outcome(done),
                    ) by {
                        assert(told(o, c0, c1));
                        assert(o[c1.history.len() as int] == cx@.history[c1.history.len() as int]);
                        assert(crate::semantics::bind_parameters(
                            reg,
                            self.parameters@,
                            args@,
                            0,
                            Seq::empty(),
                            c0,
                            c0.room(),
                            o,
                        ) == (f1, c1, outcome(bound)));
                    }
                }
                done
            },
        }
    }
}

/// Calls the function registered under `name`. A function of the language
/// comes before a foreign one of the same name.
pub fn call<N: Native>(reg: &Registry<N>, cx: &mut Context, name: &str, args: &Vec<Eval>) -> (r:
    Result<(), Error>)
    requires
        old(cx)@.wf(),
    ensures
        final(cx)@.wf(),
        final(cx)@.follows(old(cx)@),
        forall|o: Seq<Outcome>|
            told(o, old(cx)@, final(cx)@) ==> #[trigger] call_spec(
                reg,
                name@,
                args@,
                old(cx)@,
                old(cx)@.room(),
                o,
            ) == (final(cx)@, outcome(r)),
    decreases old(cx)@.room(), 0nat, args, 2nat, 0nat,
{
    let ghost c0 = cx@;
    match reg.user(name) {
        Some(f) => {
            let r = f.call(reg, cx, args);
            proof {
                assert forall|o: Seq<Outcome>| told(o, c0, cx@) implies #[trigger] call_spec(
                    reg,
                    name@,
                    args@,
                    c0,
                    c0.room(),
                    o,
                ) == (cx@, outcome(r)) by {
                    assert(user_call(reg, *f, args@, c0, c0.room(), o) == (cx@, outcome(r)));
                }
            }
            r
        },
        None => match reg.foreign(name) {
            Some(f) => {
                let r = f.call(reg, cx, args);
                proof {
                    assert forall|o: Seq<Outcome>| told(o, c0, cx@) implies #[trigger] call_spec(
                        reg,
                        name@,
                        args@,
                        c0,
                        c0.room(),
                        o,
                    ) == (cx@, outcome(r)) by {
                        assert(foreign_call(reg, *f, args@, c0, c0.room(), o) == (
                            cx@,
                            outcome(r),
                        ));
                    }
                }
                r
            },
            None => Err(Error::FunctionNotDefined(String::from_str(name))),
        },
    }
}

impl Compile for Return {
    fn compile<N: Native>(&self, reg: &Registry<N>, cx: &mut Context) -> (r: Result<(), Error>)
        ensures
            forall|o: Seq<Outcome>|
                told(o, old(cx)@, final(cx)@) ==> #[trigger] compile_return(
                    reg,
                    *self,
                    old(cx)@,
                    old(cx)@.room(),
                    o,
                ) == (final(cx)@, outcome(r)),
        decreases old(cx)@.room(), 1nat, self, 0nat, 0nat,
    {
        let lowered = self.0.lower(reg, cx);
        let ghost c1 = cx@;
        let r = match lowered {
            Ok(v) => {
                set_return(cx, v);
                Ok(())
            },
            Err(e) => Err(e),
        };
        proof {
            let c0 = old(cx)@;
            assert forall|o: Seq<Outcome>| told(o, c0, cx@) implies #[trigger] compile_return(
                reg,
                *self,
                c0,
                c0.room(),
                o,
            ) == (cx@, outcome(r)) by {
                assert(told(o, c0, c1));
                assert(lower_eval(reg, self.0, c0, c0.room(), o) == (c1, outcome(lowered)));
            }
        }
        r
    }
}

impl Compile for Define {
    fn compile<N: Native>(&self, reg: &Registry<N>, cx: &mut Context) -> (r: Result<(), Error>)
        ensures
            forall|o: Seq<Outcome>|
                told(o, old(cx)@, final(cx)@) ==> #[trigger] compile_define(
                    reg,
                    *self,
                    old(cx)@,
                    old(cx)@.room(),
                    o,
                ) == (final(cx)@, outcome(r)),
        decreases old(cx)@.room(), 1nat, self, 0nat, 0nat,
    {
        let lowered = self.1.lower(reg, cx);
        let ghost c1 = cx@;
        let r = match lowered {
            Ok(v) => {
                cx.define(self.0.as_str(), v);
                Ok(())
            },
            Err(e) => Err(e),
        };
        proof {
            let c0 = old(cx)@;
            assert forall|o: Seq<Outcome>| told(o, c0, cx@) implies #[trigger] compile_define(
                reg,
                *self,
                c0,
                c0.room(),
                o,
            ) == (cx@, outcome(r)) by {
                assert(told(o, c0, c1));
                assert(lower_eval(reg, self.1, c0, c0.room(), o) == (c1, outcome(lowered)));
            }
        }
        r
    }
}

impl Compile for Assign {
    fn compile<N: Native>(&self, reg: &Registry<N>, cx: &mut Context) -> (r: Result<(), Error>)
        ensures
            forall|o: Seq<Outcome>|
                told(o, old(cx)@, final(cx)@) ==> #[trigger] compile_assign(
                    reg,
                    *self,
                    old(cx)@,
                    old(cx)@.room(),
                    o,
                ) == (final(cx)@, outcome(r)),
        decreases old(cx)@.room(), 1nat, self, 0nat, 0nat,
    {
        let first = self.0.lower(reg, cx);
        let ghost c1 = cx@;
        let r = match first {
            Err(e) => Err(e),
            Ok(target) => {
                let second = self.1.lower(reg, cx);
                let ghost c2 = cx@;
                let r = match second {
                    Err(e) => Err(e),
                    Ok(source) => {
                        cx.assign(target, source);
                        Ok(())
                    },
                };
                proof {
                    let c0 = old(cx)@;
                    assert forall|o: Seq<Outcome>| told(
                        o,
                        c0,
                        cx@,
                    ) implies #[trigger] compile_assign(reg, *self, c0, c0.room(), o) == (
                        cx@,
                        outcome(r),
                    ) by {
                        assert(told(o, c0, c1));
                        assert(told(o, c1, c2));
                        assert(c1.room() == c0.room());
                        assert(lower_eval(reg, self.0, c0, c0.room(), o) == (c1, outcome(first)));
                        assert(lower_eval(reg, self.1, c1, c0.room(), o) == (c2, outcome(second)));
                    }
                }
                r
            },
        };
        proof {
            let c0 = old(cx)@;
            assert forall|o: Seq<Outcome>| told(o, c0, cx@) implies #[trigger] compile_assign(
                reg,
                *self,
                c0,
                c0.room(),
                o,
            ) == (cx@, outcome(r)) by {
                if first is Err {
                    assert(lower_eval(reg, self.0, c0, c0.room(), o) == (c1, outcome(first)));
                }
            }
        }
        r
    }
}

impl Compile for If {
    fn compile<N: Native>(&self, reg: &Registry<N>, cx: &mut Context) -> (r: Result<(), Error>)
        ensures
            forall|o: Seq<Outcome>|
                told(o, old(cx)@, final(cx)@) ==> #[trigger] compile_if(
                    reg,
                    *self,
                    old(cx)@,
                    old(cx)@.room(),
                    o,
                ) == (final(cx)@, outcome(r)),
        decreases old(cx)@.room(), 2nat, self, 0nat, 0nat,
    {
        let lowered = self.0.lower(reg, cx);
        let ghost c1 = cx@;
        let ghost c2;
        let ghost c3;
        let ghost inside;
        let r = match lowered {
            Err(e) => {
                proof {
                    c2 = c1;
                    c3 = c1;
                    inside = Err::<(), Failure>(e@);
                }
                Err(e)
            },
            Ok(condition) => {
                cx.if_begin(condition);
                proof {
                    c2 = cx@;
                }
                let done = run_block(reg, cx, &self.1);
                proof {
                    c3 = cx@;
                    inside = outcome(done);
                }
                match done {
                    Err(e) => Err(e),
                    Ok(()) => {
                        cx.if_end();
                        Ok(())
                    },
                }
            },
        };
        proof {
            let c0 = old(cx)@;
            assert forall|o: Seq<Outcome>| told(o, c0, cx@) implies #[trigger] compile_if(
                reg,
                *self,
                c0,
                c0.room(),
                o,
            ) == (cx@, outcome(r)) by {
                assert(told(o, c0, c1));
                assert(lower_eval(reg, self.0, c0, c0.room(), o) == (c1, outcome(lowered)));
                if lowered is Ok {
                    assert(told(o, c2, c3));
                    assert(c2.room() == c0.room());
                    assert(compile_block(reg, self.1@, 0, c2, c0.room(), o) == (c3, inside));
                }
            }
        }
        r
    }
}

impl Compile for While {
    fn compile<N: Native>(&self, reg: &Registry<N>, cx: &mut Context) -> (r: Result<(), Error>)
        ensures
            forall|o: Seq<Outcome>|
                told(o, old(cx)@, final(cx)@) ==> #[trigger] compile_while(
                    reg,
                    *self,
                    old(cx)@,
                    old(cx)@.room(),
                    o,
                ) == (final(cx)@, outcome(r)),
        decreases old(cx)@.room(), 2nat, self, 0nat, 0nat,
    {
        let lowered = self.0.lower(reg, cx);
        let ghost c1 = cx@;
        let ghost c2;
        let ghost c3;
        let ghost inside;
        let r = match lowered {
            Err(e) => {
                proof {
                    c2 = c1;
                    c3 = c1;
                    inside = Err::<(), Failure>(e@);
                }
                Err(e)
            },
            Ok(condition) => {
                cx.while_begin(condition);
                proof {
                    c2 = cx@;
                }
                let done = run_block(reg, cx, &self.1);
                proof {
                    c3 = cx@;
                    inside = outcome(done);
                }
                match done {
                    Err(e) => Err(e),
                    Ok(()) => {
                        cx.while_end();
                        Ok(())
                    },
                }
            },
        };
        proof {
            let c0 = old(cx)@;
            assert forall|o: Seq<Outcome>| told(o, c0, cx@) implies #[trigger] compile_while(
                reg,
                *self,
                c0,
                c0.room(),
                o,
            ) == (cx@, outcome(r)) by {
                assert(told(o, c0, c1));
                assert(lower_eval(reg, self.0, c0, c0.room(), o) == (c1, outcome(lowered)));
                if lowered is Ok {
                    assert(told(o, c2, c3));
                    assert(c2.room() == c0.room());
                    assert(compile_block(reg, self.1@, 0, c2, c0.room(), o) == (c3, inside));
                }
            }
        }
        r
    }
}

impl Compile for Expr {
    fn compile<N: Native>(&self, reg: &Registry<N>, cx: &mut Context) -> (r: Result<(), Error>)
        ensures
            forall|o: Seq<Outcome>|
                told(o, old(cx)@, final(cx)@) ==> #[trigger] compile_expr(
                    reg,
                    *self,
                    old(cx)@,
                    old(cx)@.room(),
                    o,
                ) == (final(cx)@, outcome(r)),
        decreases old(cx)@.room(), 2nat, self, 0nat, 0nat,
    {
        let ghost value;
        let r = match self {
            Expr::If(l) => l.compile(reg, cx),
            Expr::Eval(e) => {
                let lowered = e.lower(reg, cx);
                proof {
                    value = outcome(lowered);
                }
                match lowered {
                    Ok(_) => Ok(()),
                    Err(e) => Err(e),
                }
            },
            Expr::Define(def) => def.compile(reg, cx),
            Expr::Assign(a) => a.compile(reg, cx),
            Expr::While(w) => w.compile(reg, cx),
            Expr::Return(r) => r.compile(reg, cx),
        };
        proof {
            let c0 = old(cx)@;
            assert forall|o: Seq<Outcome>| told(o, c0, cx@) implies #[trigger] compile_expr(
                reg,
                *self,
                c0,
                c0.room(),
                o,
            ) == (cx@, outcome(r)) by {
                match *self {
                    Expr::If(x) => {
                        assert(compile_if(reg, x, c0, c0.room(), o) == (cx@, outcome(r)));
                    },
                    Expr::While(x) => {
                        assert(compile_while(reg, x, c0, c0.room(), o) == (cx@, outcome(r)));
                    },
                    Expr::Eval(e) => {
                        assert(lower_eval(reg, e, c0, c0.room(), o) == (cx@, value));
                    },
                    Expr::Define(x) => {
                        assert(compile_define(reg, x, c0, c0.room(), o) == (cx@, outcome(r)));
                    },
                    Expr::Assign(x) => {
                        assert(compile_assign(reg, x, c0, c0.room(), o) == (cx@, outcome(r)));
                    },
                    Expr::Return(x) => {
                        assert(compile_return(reg, x, c0, c0.room(), o) == (cx@, outcome(r)));
                    },
                }
            }
        }
        r
    }
}

/// Lowers `val` and binds `name` in the top scope to a copy of it, by way
/// of the passing name.
pub fn define<N: Native>(reg: &Registry<N>, cx: &mut Context, name: &str, val: Eval) -> (r: Result<
    (),
    Error,
>)
    requires
        old(cx)@.wf(),
    ensures
        final(cx)@.wf(),
        final(cx)@.follows(old(cx)@),
        forall|o: Seq<Outcome>|
            told(o, old(cx)@, final(cx)@) ==> #[trigger] define_value(
                reg,
                name@,
                val,
                old(cx)@,
                old(cx)@.room(),
                o,
            ) == (final(cx)@, outcome(r)),
{
    let ghost c0 = cx@;
    let passing = Define::new("%TEMP_DEFINE%", val);
    let first = passing.compile(reg, cx);
    let ghost c1 = cx@;
    match first {
        Err(e) => {
            proof {
                assert forall|o: Seq<Outcome>| told(o, c0, cx@) implies #[trigger] define_value(
                    reg,
                    name@,
                    val,
                    c0,
                    c0.room(),
                    o,
                ) == (cx@, Err::<(), Failure>(e@)) by {
                    assert(compile_define(reg, passing, c0, c0.room(), o) == (c1, outcome(first)));
                }
            }
            Err(e)
        },
        Ok(()) => {
            let naming = Define::new(name, Eval::Load(Load::new("%TEMP_DEFINE%")));
            let second = naming.compile(reg, cx);
            proof {
                assert forall|o: Seq<Outcome>| told(o, c0, cx@) implies #[trigger] define_value(
                    reg,
                    name@,
                    val,
                    c0,
                    c0.room(),
                    o,
                ) == (cx@, outcome(second)) by {
                    assert(told(o, c0, c1));
                    assert(told(o, c1, cx@));
                    assert(c1.room() == c0.room());
                    assert(compile_define(reg, passing, c0, c0.room(), o) == (c1, outcome(first)));
                    assert(compile_define(reg, naming, c1, c0.room(), o) == (cx@, outcome(second)));
                    assert(lower_eval(reg, naming.1, c1, c0.room(), o) == lower_load(
                        naming.1->Load_0,
                        c1,
                    ));
                }
            }
            second
        },
    }
}

/// Lowers `value` and binds `final_name` in the top scope to the value
/// itself, which the scope then owns.
pub fn define_no_cp<N: Native>(
    reg: &Registry<N>,
    cx: &mut Context,
    final_name: &str,
    value: Eval,
) -> (r: Result<(), Error>)
    requires
        old(cx)@.wf(),
    ensures
        final(cx)@.wf(),
        final(cx)@.follows(old(cx)@),
        forall|o: Seq<Outcome>|
            told(o, old(cx)@, final(cx)@) ==> #[trigger] define_value_no_cp(
                reg,
                final_name@,
                value,
                old(cx)@,
                old(cx)@.room(),
                o,
            ) == (final(cx)@, outcome(r)),
{
    let ghost c0 = cx@;
    let lowered = value.lower(reg, cx);
    let ghost c1 = cx@;
    let r = match lowered {
        Ok(v) => {
            cx.define_no_cp(final_name, v);
            Ok(())
        },
        Err(e) => Err(e),
    };
    proof {
        assert forall|o: Seq<Outcome>| told(o, c0, cx@) implies #[trigger] define_value_no_cp(
            reg,
            final_name@,
            value,
            c0,
            c0.room(),
            o,
        ) == (cx@, outcome(r)) by {
            assert(told(o, c0, c1));
            assert(lower_eval(reg, value, c0, c0.room(), o) == (c1, outcome(lowered)));
        }
    }
    r
}

} // verus!
