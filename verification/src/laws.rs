use vstd::prelude::*;
use crate::ast::Call;
use crate::ast::Eval;
use crate::ast::Expr;
use crate::ast::Literal;
use crate::ast::Load;
use crate::ast::Refer;
use crate::ast::UserFn;
use crate::context::ContextView;
use crate::context::Outcome;
use crate::env::Scope;
use crate::env::bind;
use crate::env::define_spec;
use crate::env::displace;
use crate::env::lemma_bind;
use crate::env::lemma_index_of;
use crate::env::lookup;
use crate::env::frees;
use crate::env::release;
use crate::env::release_frees_each_once;
use crate::error::Failure;
use crate::names::return_name;
use crate::registry::Native;
use crate::registry::Registry;
use crate::semantics::bind_parameters;
use crate::semantics::call_spec;
use crate::semantics::compile_assign;
use crate::semantics::compile_block;
use crate::semantics::compile_expr;
use crate::semantics::compile_return;
use crate::semantics::get_return_spec;
use crate::semantics::literal_datum;
use crate::semantics::literal_name;
use crate::semantics::lower_call;
use crate::semantics::lower_eval;
use crate::semantics::lower_literal;
use crate::semantics::lower_load;
use crate::semantics::lower_refer;
use crate::semantics::user_call;
use crate::value::DatumView;
use crate::value::MachineView;
use crate::value::Op;
use crate::value::Value;
use crate::value::return_register;

verus! {

/// Every value that the scope binds is storage of the machine, and none is
/// the return register.
pub open spec fn grounded(s: Scope, m: MachineView) -> bool {
    forall|i: int|
        0 <= i < s.len() ==> m.holds((#[trigger] s[i]).1) && s[i].1.cell != return_register().cell
}

/// Two names defined one after the other are both bound, each to a copy of
/// its value. The copies of two plain values are different cells, and each
/// holds what its value held when it was copied.
pub proof fn define_two_names(
    s: Scope,
    m: MachineView,
    first: Seq<char>,
    v: Value,
    second: Seq<char>,
    w: Value,
)
    requires
        first != second,
        grounded(s, m),
        m.cells.len() + 2 <= usize::MAX,
    ensures
        ({
            let (s1, m1) = define_spec(s, m, first, v);
            let (s2, m2) = define_spec(s1, m1, second, w);
            let a = displace(s, m, first).copied(v);
            let b = displace(s1, m1, second).copied(w);
            &&& lookup(s2, first) == Some(a)
            &&& lookup(s2, second) == Some(b)
            &&& !v.reference ==> m1.datum(a) == displace(s, m, first).datum(v)
            &&& !w.reference ==> m2.datum(b) == displace(s1, m1, second).datum(w)
            &&& !v.reference && !w.reference ==> a.cell != b.cell && m2.datum(a) == m1.datum(a)
        }),
{
    let (s1, m1) = define_spec(s, m, first, v);
    let a = displace(s, m, first).copied(v);
    let b = displace(s1, m1, second).copied(w);
    lemma_bind(s, first, a, second);
    lemma_bind(s1, second, b, first);
    lemma_index_of(s, first);
    lemma_index_of(s, second);
    lemma_index_of(s1, second);
}

/// Defining a name that holds a value clears that value exactly once and
/// frees nothing: a clearing of the previous value and the copying of the
/// new one are all that is emitted. The previous value, where it is plain
/// storage of the machine, is empty afterwards and as live as before.
pub proof fn redefine_clears_once(s: Scope, m: MachineView, name: Seq<char>, v: Value)
    requires
        lookup(s, name) is Some,
        m.cells.len() + 1 <= usize::MAX,
    ensures
        ({
            let previous = lookup(s, name)->0;
            let (after, machine) = define_spec(s, m, name, v);
            let copy = m.zero(previous).copied(v);
            &&& machine.code == m.code.push(Op::Zero(previous)).push(Op::Copy(v, copy))
            &&& lookup(after, name) == Some(copy)
            &&& after.len() == s.len()
            &&& !previous.reference && m.holds(previous) ==> machine.datum(previous)
                == DatumView::Empty && machine.live(previous) == m.live(previous)
        }),
{
    let previous = lookup(s, name)->0;
    let copy = m.zero(previous).copied(v);
    lemma_bind(s, name, copy, name);
    lemma_index_of(s, name);
}

/// Defining a name leaves every other name bound as it was.
pub proof fn define_keeps_others(
    s: Scope,
    m: MachineView,
    name: Seq<char>,
    v: Value,
    other: Seq<char>,
)
    requires
        other != name,
    ensures
        lookup(define_spec(s, m, name, v).0, other) == lookup(s, other),
{
    lemma_bind(s, name, displace(s, m, name).copied(v), other);
}

/// A reference to a reference cannot be had: where an expression `x`
/// lowers to a value, taking the reference of the reference of `x` fails,
/// in the context that lowering `x` left.
pub proof fn refer_of_refer_fails<N: Native>(
    reg: &Registry<N>,
    outer: Refer,
    inner: Refer,
    x: Eval,
    c: ContextView,
    fuel: nat,
    o: Seq<Outcome>,
)
    requires
        *outer.0 == Eval::Refer(inner),
        *inner.0 == x,
        lower_eval(reg, x, c, fuel, o).1 is Ok,
    ensures
        lower_refer(reg, outer, c, fuel, o) == (
            lower_eval(reg, x, c, fuel, o).0,
            Err::<Value, Failure>(Failure::CannotReferenceAReference),
        ),
{
    let (after, r) = lower_eval(reg, x, c, fuel, o);
    assert(lower_refer(reg, inner, c, fuel, o) == (after, r->Ok_0.referred()));
    assert(lower_eval(reg, Eval::Refer(inner), c, fuel, o) == lower_refer(reg, inner, c, fuel, o));
}

/// A copy of a plain value is storage of its own: writing to the copy, or
/// clearing it, leaves what the value holds as it was.
pub proof fn copy_is_independent(m: MachineView, v: Value, w: Value)
    requires
        !v.reference,
        m.holds(v),
        m.cells.len() + 1 <= usize::MAX,
    ensures
        m.copied(v).cell != v.cell,
        !m.holds(m.copied(v)),
        m.copy(v).datum(m.copied(v)) == m.datum(v),
        m.copy(v).assign(m.copied(v), w).datum(v) == m.datum(v),
        m.copy(v).zero(m.copied(v)).datum(v) == m.datum(v),
        m.copy(v).free(m.copied(v)).live(v) == m.live(v),
{
}

/// Parameters are bound by copy: a callee that assigns to its parameter
/// leaves the caller's argument as it was. The callee here has one
/// parameter and, for its body, one assignment of a value to that
/// parameter; the argument is plain storage of the machine.
pub proof fn assigning_a_parameter_spares_the_argument<N: Native>(
    reg: &Registry<N>,
    f: UserFn,
    a: Value,
    w: Value,
    c: ContextView,
    fuel: nat,
    o: Seq<Outcome>,
)
    requires
        f.parameters@.len() == 1,
        f.body@.len() == 1,
        f.body@[0] matches Expr::Assign(x) && x.1 == Eval::Value(w) && (x.0 matches Eval::Load(l)
            && l.0@ == f.parameters@[0]@),
        !a.reference,
        c.machine.holds(a),
        c.machine.cells.len() + 1 <= usize::MAX,
        fuel > 0,
    ensures
        ({
            let (after, r) = user_call(reg, f, seq![Eval::Value(a)], c, fuel, o);
            &&& r is Ok
            &&& after.machine.datum(a) == c.machine.datum(a)
            &&& after.machine.live(a) == c.machine.live(a)
            &&& after.scopes == c.scopes
        }),
{
    let args = seq![Eval::Value(a)];
    let name = f.parameters@[0]@;
    let copy = c.machine.copied(a);
    let (frame, m) = define_spec(Scope::empty(), c.machine, name, a);
    let bound = c.with_machine(m);
    assert(frame =~= seq![(name, copy)]);
    assert(lower_eval(reg, args[0], c, fuel, o) == (c, Ok::<Value, Failure>(a)));
    assert(bind_parameters(reg, f.parameters@, args, 1, frame, bound, fuel, o) == (
        frame,
        bound,
        Ok::<(), Failure>(()),
    ));
    assert(bind_parameters(reg, f.parameters@, args, 0, Scope::empty(), c, fuel, o) == (
        frame,
        bound,
        Ok::<(), Failure>(()),
    ));
    let inside = bound.push(frame);
    let less = (fuel - 1) as nat;
    let x = f.body@[0]->Assign_0;
    let l = x.0->Load_0;
    assert(inside.top() == frame);
    assert(frame.drop_last() =~= Scope::empty());
    assert(lookup(frame, name) == Some(copy));
    assert(lower_load(l, inside) == (inside, Ok::<Value, Failure>(copy)));
    assert(lower_eval(reg, x.0, inside, less, o) == (inside, Ok::<Value, Failure>(copy)));
    assert(lower_eval(reg, x.1, inside, less, o) == (inside, Ok::<Value, Failure>(w)));
    let written = inside.with_machine(inside.machine.assign(copy, w));
    assert(compile_assign(reg, x, inside, less, o) == (written, Ok::<(), Failure>(())));
    assert(compile_expr(reg, f.body@[0], inside, less, o) == (written, Ok::<(), Failure>(())));
    assert(compile_block(reg, f.body@, 1, written, less, o) == (written, Ok::<(), Failure>(())));
    assert(compile_block(reg, f.body@, 0, inside, less, o) == (written, Ok::<(), Failure>(())));
    assert(written.top() == frame);
    assert(written.pop().scopes =~= c.scopes);
    release_frees_each_once(frame, written.machine);
    assert(release(frame.drop_last(), written.machine) == written.machine);
}

/// Writing to one cell leaves every other cell as it was.
pub proof fn assign_changes_one_cell(m: MachineView, dst: Value, src: Value, other: Value)
    requires
        other.cell != dst.cell,
    ensures
        m.assign(dst, src).datum(other) == m.datum(other),
        m.assign(dst, src).size(other) == m.size(other),
        m.assign(dst, src).live(other) == m.live(other),
{
}

/// A name that both tables hold calls the function of the language.
pub proof fn user_comes_first<N: Native>(
    reg: &Registry<N>,
    name: Seq<char>,
    args: Seq<Eval>,
    c: ContextView,
    fuel: nat,
    o: Seq<Outcome>,
)
    requires
        reg.users().contains_key(name),
    ensures
        call_spec(reg, name, args, c, fuel, o) == user_call(
            reg,
            reg.users()[name],
            args,
            c,
            fuel,
            o,
        ),
{
}

/// Calling a name that neither table holds fails and changes nothing.
pub proof fn unknown_function_fails<N: Native>(
    reg: &Registry<N>,
    name: Seq<char>,
    args: Seq<Eval>,
    c: ContextView,
    fuel: nat,
    o: Seq<Outcome>,
)
    requires
        !reg.users().contains_key(name),
        !reg.foreigns().contains_key(name),
    ensures
        call_spec(reg, name, args, c, fuel, o) == (
            c,
            Err::<(), Failure>(Failure::FunctionNotDefined(name)),
        ),
{
}

/// Loading a name that the top scope does not bind fails with the name
/// and the scope, and changes nothing.
pub proof fn unknown_variable_fails(l: Load, c: ContextView)
    requires
        lookup(c.top(), l.0@) is None,
    ensures
        lower_load(l, c) == (
            c,
            Err::<Value, Failure>(Failure::VariableNotDefined(l.0@, c.top())),
        ),
{
}

/// What is handed to the return register is what the register holds
/// afterwards. The value handed over is any but the register itself, which
/// is cleared before it is written.
pub proof fn register_holds_what_was_returned(m: MachineView, v: Value)
    requires
        m.holds(return_register()),
        v.cell != return_register().cell,
    ensures
        m.set_return(v).datum(return_register()) == m.datum(v),
        m.set_return(v).size(return_register()) == m.size(v),
        m.set_return(v).cells.len() == m.cells.len(),
        m.set_return(v).stack_ptr == m.stack_ptr,
{
}

/// Taking a result from the return register yields a plain, live value
/// of the top scope, bound under the name made from the stack pointer,
/// that holds what the register holds.
pub proof fn get_return_reads_the_register(c: ContextView)
    requires
        c.scopes.len() >= 1,
        c.machine.holds(return_register()),
        grounded(c.top(), c.machine),
        c.machine.cells.len() + 2 <= usize::MAX,
    ensures
        ({
            let (after, r) = get_return_spec(c);
            &&& r matches Ok(t)
            &&& !t.reference
            &&& lookup(after.top(), return_name(c.machine.stack_ptr)) == Some(t)
            &&& after.machine.datum(t) == c.machine.datum(return_register())
            &&& after.machine.live(t)
            &&& after.scopes.len() == c.scopes.len()
            &&& after.scopes.drop_last() == c.scopes.drop_last()
        }),
{
    let name = return_name(c.machine.stack_ptr);
    let passing = crate::names::define_name();
    let register = return_register();
    let top = c.top();
    crate::names::lemma_return_name_differs(c.machine.stack_ptr);
    lemma_index_of(top, passing);
    lemma_index_of(top, name);
    let w = displace(top, c.machine, passing).copied(register);
    lemma_bind(top, passing, w, passing);
    lemma_bind(top, passing, w, name);
    let passed = c.define(passing, register);
    assert(passed.top() == bind(top, passing, w));
    assert(passed.get(passing) == Ok::<Value, Failure>(w));
    assert(passed.machine.datum(w) == c.machine.datum(register));
    let t = displace(passed.top(), passed.machine, name).copied(w);
    lemma_bind(passed.top(), name, t, name);
    let after = passed.define(name, w);
    assert(after.top() == bind(passed.top(), name, t));
    assert(after.get(name) == Ok::<Value, Failure>(t));
    assert(get_return_spec(c) == (after, Ok::<Value, Failure>(t)));
    assert(after.scopes.drop_last() =~= c.scopes.drop_last());
}

/// What is handed to the return register comes back to the caller: taking
/// the result yields a plain value of the top scope that holds what the
/// returned value held.
pub proof fn return_round_trip(c: ContextView, v: Value)
    requires
        c.wf(),
        grounded(c.top(), c.machine),
        v.cell != return_register().cell,
        c.machine.cells.len() + 2 <= usize::MAX,
    ensures
        ({
            let returned = c.with_machine(c.machine.set_return(v));
            let (after, r) = get_return_spec(returned);
            &&& r matches Ok(t)
            &&& !t.reference
            &&& lookup(after.top(), return_name(returned.machine.stack_ptr)) == Some(t)
            &&& after.machine.datum(t) == c.machine.datum(v)
            &&& after.machine.live(t)
            &&& after.scopes.len() == c.scopes.len()
        }),
{
    let returned = c.with_machine(c.machine.set_return(v));
    register_holds_what_was_returned(c.machine, v);
    assert(returned.top() == c.top());
    get_return_reads_the_register(returned);
}

/// A function without parameters whose body returns a literal, called as
/// an expression, yields a plain, live value of the caller's scope that
/// holds the literal. The scope stack is as deep as before the call.
pub proof fn call_returns_the_literal<N: Native>(
    reg: &Registry<N>,
    call: Call,
    literal: Literal,
    c: ContextView,
    fuel: nat,
    o: Seq<Outcome>,
)
    requires
        reg.users().contains_key(call.0@),
        reg.users()[call.0@].parameters@.len() == 0,
        reg.users()[call.0@].body@.len() == 1,
        reg.users()[call.0@].body@[0] matches Expr::Return(x) && x.0 == Eval::Literal(literal),
        call.1@.len() == 0,
        c.wf(),
        grounded(c.top(), c.machine),
        c.machine.cells.len() + 3 <= usize::MAX,
        fuel > 0,
    ensures
        ({
            let (after, r) = lower_call(reg, call, c, fuel, o);
            &&& r matches Ok(t)
            &&& !t.reference
            &&& after.machine.datum(t) == literal_datum(literal)
            &&& after.machine.live(t)
            &&& lookup(
                after.top(),
                return_name(c.machine.stack_ptr + literal_datum(literal).size()),
            ) == Some(t)
            &&& after.scopes.len() == c.scopes.len()
            &&& after.scopes.drop_last() == c.scopes.drop_last()
        }),
{
    let f = reg.users()[call.0@];
    let args = call.1@;
    let less = (fuel - 1) as nat;
    let x = f.body@[0]->Return_0;
    assert(bind_parameters(reg, f.parameters@, args, 0, Scope::empty(), c, fuel, o) == (
        Scope::empty(),
        c,
        Ok::<(), Failure>(()),
    ));
    let inside = c.push(Scope::empty());
    let name = literal_name(literal, c.machine.stack_ptr);
    let v = c.machine.fresh();
    let made = inside.with_machine(inside.machine.allocate(literal_datum(literal)));
    assert(made.top() == Scope::empty());
    lemma_bind(Scope::empty(), name, v, name);
    let owned = made.define_no_cp(name, v);
    assert(owned.top() =~= seq![(name, v)]);
    assert(lower_literal(literal, inside) == (owned, Ok::<Value, Failure>(v)));
    assert(lower_eval(reg, x.0, inside, less, o) == (owned, Ok::<Value, Failure>(v)));
    let returned = owned.with_machine(owned.machine.set_return(v));
    register_holds_what_was_returned(owned.machine, v);
    assert(compile_return(reg, x, inside, less, o) == (returned, Ok::<(), Failure>(())));
    assert(compile_expr(reg, f.body@[0], inside, less, o) == (returned, Ok::<(), Failure>(())));
    assert(compile_block(reg, f.body@, 1, returned, less, o) == (returned, Ok::<(), Failure>(())));
    assert(compile_block(reg, f.body@, 0, inside, less, o) == (returned, Ok::<(), Failure>(())));
    let frame = returned.top();
    assert(frame == owned.top());
    assert(returned.pop().scopes =~= c.scopes);
    release_frees_each_once(frame, returned.machine);
    let left = returned.pop().teardown(frame, c.machine.stack_ptr);
    assert(user_call(reg, f, args, c, fuel, o) == (left, Ok::<(), Failure>(())));
    assert(call_spec(reg, call.0@, args, c, fuel, o) == (left, Ok::<(), Failure>(())));
    assert(owned.machine.datum(v) == literal_datum(literal));
    assert(returned.machine.datum(return_register()) == literal_datum(literal));
    assert(release(frame, returned.machine).datum(return_register()) == literal_datum(literal));
    assert(release(frame, returned.machine).size(return_register()) == literal_datum(
        literal,
    ).size());
    assert(left.machine.datum(return_register()) == literal_datum(literal));
    assert(left.machine.size(return_register()) == literal_datum(literal).size());
    assert(left.top() == c.top());
    assert(left.machine.cells.len() == c.machine.cells.len() + 1);
    get_return_reads_the_register(left);
}

/// Tearing a frame down frees what the frame owns, resets the stack
/// pointer to where the frame began plus the room of what was returned,
/// and leaves the scope stack alone.
pub proof fn teardown_releases_frame(c: ContextView, frame: Scope, base: nat)
    ensures
        c.teardown(frame, base).machine.code == (c.machine.code + frees(frame)).push(Op::Leave),
        c.teardown(frame, base).machine.stack_ptr == base + c.machine.size(return_register()),
        c.teardown(frame, base).scopes == c.scopes,
        forall|i: int|
            0 <= i < frame.len() && !(#[trigger] frame[i]).1.reference ==> !c.teardown(
                frame,
                base,
            ).machine.live(frame[i].1),
{
    release_frees_each_once(frame, c.machine);
}

/// The context and the frame of a call of a function of the language, as
/// they are when the frame is about to be torn down: after the arguments
/// were bound and, where none failed, the body has run and the frame was
/// popped.
pub open spec fn frame_left<N: Native>(
    reg: &Registry<N>,
    f: UserFn,
    args: Seq<Eval>,
    c: ContextView,
    fuel: nat,
    o: Seq<Outcome>,
) -> (ContextView, Scope) {
    let (frame, bound, r) = bind_parameters(
        reg,
        f.parameters@,
        args,
        0,
        Scope::empty(),
        c,
        fuel,
        o,
    );
    match r {
        Err(_) => (bound, frame),
        Ok(()) => {
            let ran = compile_block(reg, f.body@, 0, bound.push(frame), (fuel - 1) as nat, o).0;
            (ran.pop(), ran.top())
        },
    }
}

/// A call that is taken up ends with its frame torn down, whether it
/// succeeds or fails: every plain value that the frame binds is freed, one
/// `Free` for each binding, and the stack pointer is where it was when the
/// call began, plus the room of what was returned.
pub proof fn call_tears_frame_down<N: Native>(
    reg: &Registry<N>,
    f: UserFn,
    args: Seq<Eval>,
    c: ContextView,
    fuel: nat,
    o: Seq<Outcome>,
)
    requires
        args.len() == f.parameters@.len(),
        fuel > 0,
    ensures
        ({
            let (before, frame) = frame_left(reg, f, args, c, fuel, o);
            let after = user_call(reg, f, args, c, fuel, o).0;
            &&& after == before.teardown(frame, c.machine.stack_ptr)
            &&& after.machine.code == (before.machine.code + frees(frame)).push(Op::Leave)
            &&& after.machine.stack_ptr == c.machine.stack_ptr + before.machine.size(
                return_register(),
            )
            &&& forall|i: int|
                0 <= i < frame.len() && !(#[trigger] frame[i]).1.reference
                    ==> !after.machine.live(frame[i].1)
        }),
{
    let (before, frame) = frame_left(reg, f, args, c, fuel, o);
    teardown_releases_frame(before, frame, c.machine.stack_ptr);
}

/// The statements of a block run in the order in which they are written:
/// the block from the `i`-th statement on is that statement, then the block
/// from the next one on, in the context that the statement left. A
/// statement that fails ends the block.
pub proof fn block_runs_in_order<N: Native>(
    reg: &Registry<N>,
    body: Seq<Expr>,
    i: nat,
    c: ContextView,
    fuel: nat,
    o: Seq<Outcome>,
)
    requires
        i < body.len(),
    ensures
        ({
            let (after, r) = compile_expr(reg, body[i as int], c, fuel, o);
            compile_block(reg, body, i, c, fuel, o) == if r is Ok {
                compile_block(reg, body, i + 1, after, fuel, o)
            } else {
                (after, r)
            }
        }),
{
}

/// Past its first part, a block of two parts is its second part.
proof fn lemma_block_second_part<N: Native>(
    reg: &Registry<N>,
    first: Seq<Expr>,
    second: Seq<Expr>,
    j: nat,
    c: ContextView,
    fuel: nat,
    o: Seq<Outcome>,
)
    requires
        j <= second.len(),
    ensures
        compile_block(reg, first + second, first.len() + j, c, fuel, o) == compile_block(
            reg,
            second,
            j,
            c,
            fuel,
            o,
        ),
    decreases second.len() - j,
{
    if j < second.len() {
        assert((first + second)[first.len() + j as int] == second[j as int]);
        let (after, r) = compile_expr(reg, second[j as int], c, fuel, o);
        if r is Ok {
            lemma_block_second_part(reg, first, second, j + 1, after, fuel, o);
        }
    }
}

/// A block of two parts is the first part, then the second part in the
/// context that the first part left. Where the first part fails, the
/// second does not run.
pub proof fn block_of_two_parts<N: Native>(
    reg: &Registry<N>,
    first: Seq<Expr>,
    second: Seq<Expr>,
    i: nat,
    c: ContextView,
    fuel: nat,
    o: Seq<Outcome>,
)
    requires
        i <= first.len(),
    ensures
        ({
            let (after, r) = compile_block(reg, first, i, c, fuel, o);
            compile_block(reg, first + second, i, c, fuel, o) == if r is Ok {
                compile_block(reg, second, 0, after, fuel, o)
            } else {
                (after, r)
            }
        }),
    decreases first.len() - i,
{
    if i < first.len() {
        assert((first + second)[i as int] == first[i as int]);
        let (after, r) = compile_expr(reg, first[i as int], c, fuel, o);
        if r is Ok {
            block_of_two_parts(reg, first, second, i + 1, after, fuel, o);
        }
    } else {
        lemma_block_second_part(reg, first, second, 0, c, fuel, o);
    }
}

} // verus!
