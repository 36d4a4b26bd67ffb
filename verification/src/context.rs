use vstd::prelude::*;
use crate::env::Env;
use crate::env::Scope;
use crate::env::define_no_cp_spec;
use crate::env::define_spec;
use crate::env::get_spec;
use crate::env::release;
use crate::env::release_frees_each_once;
use crate::error::Error;
use crate::error::Failure;
use crate::error::outcome;
use crate::registry::Native;
use crate::value::Datum;
use crate::value::Machine;
use crate::value::MachineView;
use crate::value::Op;
use crate::value::Value;

verus! {

/// What one run of a native body left behind: its frame, the machine, and
/// its result.
pub struct Outcome {
    pub frame: Scope,
    pub machine: MachineView,
    pub result: Result<(), Failure>,
}

/// The mathematical content of a [`Context`].
pub struct ContextView {
    /// The scope stack, the global scope first. Names resolve in the last.
    pub scopes: Seq<Scope>,
    pub machine: MachineView,
    /// How many frames may stand on the global scope.
    pub limit: nat,
    /// The outcome of every run of a native body so far, oldest first.
    pub history: Seq<Outcome>,
}

/// `o` tells what the native bodies did that ran between `before` and
/// `after`: it holds their outcomes at the places where the history does.
pub open spec fn told(o: Seq<Outcome>, before: ContextView, after: ContextView) -> bool {
    &&& after.history.len() <= o.len()
    &&& forall|k: int|
        before.history.len() <= k < after.history.len() ==> #[trigger] o[k] == after.history[k]
}

impl ContextView {
    /// An empty global scope, a fresh machine, and no native body run yet.
    pub open spec fn initial(limit: nat) -> ContextView {
        ContextView {
            scopes: seq![Scope::empty()],
            machine: MachineView::initial(),
            limit,
            history: Seq::empty(),
        }
    }

    /// There is a global scope, no more frames stand on it than the limit
    /// allows, and the machine is well formed.
    pub open spec fn wf(self) -> bool {
        &&& 1 <= self.scopes.len() <= self.limit + 1
        &&& self.machine.wf()
    }

    /// How many more frames may be pushed.
    pub open spec fn room(self) -> nat {
        (self.limit + 1 - self.scopes.len()) as nat
    }

    /// The scope in which names resolve.
    pub open spec fn top(self) -> Scope {
        self.scopes.last()
    }

    pub open spec fn with_top(self, s: Scope) -> ContextView {
        ContextView { scopes: self.scopes.update(self.scopes.len() - 1, s), ..self }
    }

    pub open spec fn with_machine(self, m: MachineView) -> ContextView {
        ContextView { machine: m, ..self }
    }

    pub open spec fn push(self, s: Scope) -> ContextView {
        ContextView { scopes: self.scopes.push(s), ..self }
    }

    pub open spec fn pop(self) -> ContextView {
        ContextView { scopes: self.scopes.drop_last(), ..self }
    }

    /// The value that `name` is bound to in the top scope.
    pub open spec fn get(self, name: Seq<char>) -> Result<Value, Failure> {
        get_spec(self.top(), name)
    }

    /// Binds `name` in the top scope to a copy of `v`.
    pub open spec fn define(self, name: Seq<char>, v: Value) -> ContextView {
        let (s, m) = define_spec(self.top(), self.machine, name, v);
        self.with_top(s).with_machine(m)
    }

    /// Binds `name` in the top scope to `v` itself.
    pub open spec fn define_no_cp(self, name: Seq<char>, v: Value) -> ContextView {
        let (s, m) = define_no_cp_spec(self.top(), self.machine, name, v);
        self.with_top(s).with_machine(m)
    }

    /// The same context with the stack pointer at `base`.
    pub open spec fn reset(self, base: nat) -> ContextView {
        self.with_machine(MachineView { stack_ptr: base, ..self.machine })
    }

    /// A native body ran and left `out` behind.
    pub open spec fn ran(self, out: Outcome) -> ContextView {
        ContextView { machine: out.machine, history: self.history.push(out), ..self }
    }

    /// Frees what a frame that was left owns, and resets the stack pointer
    /// to where the frame began, plus the room of what was returned.
    pub open spec fn teardown(self, frame: Scope, base: nat) -> ContextView {
        self.with_machine(release(frame, self.machine).leave(base))
    }

    /// The scope stack is as deep as before and unchanged under its top,
    /// the machine follows the earlier one, and the history has only grown.
    pub open spec fn follows(self, before: ContextView) -> bool {
        &&& self.scopes.len() == before.scopes.len()
        &&& self.limit == before.limit
        &&& self.scopes.drop_last() =~= before.scopes.drop_last()
        &&& self.machine.follows(before.machine)
        &&& before.history.len() <= self.history.len()
        &&& forall|k: int|
            0 <= k < before.history.len() ==> #[trigger] self.history[k] == before.history[k]
    }
}

/// What lowering and compiling act on: the scope stack and the machine.
pub struct Context {
    scopes: Vec<Env>,
    machine: Machine,
    limit: usize,
    history: Ghost<Seq<Outcome>>,
}

impl View for Context {
    type V = ContextView;

    closed spec fn view(&self) -> ContextView {
        ContextView {
            scopes: Seq::new(self.scopes@.len(), |i: int| self.scopes@[i]@),
            machine: self.machine@,
            limit: self.limit as nat,
            history: self.history@,
        }
    }
}

impl Context {
    /// A context with an empty global scope and a fresh machine, in which
    /// calls may nest `limit` deep.
    pub fn new(limit: usize) -> (cx: Context)
        ensures
            cx@ == ContextView::initial(limit as nat),
            cx@.wf(),
    {
        let mut scopes: Vec<Env> = Vec::new();
        scopes.push(Env::new());
        let cx = Context { scopes, machine: Machine::new(), limit, history: Ghost(Seq::empty()) };
        assert(cx@.scopes =~= seq![Scope::empty()]);
        cx
    }

    /// The number of scopes on the stack, the global one included.
    pub fn depth(&self) -> (n: usize)
        ensures
            n == self@.scopes.len(),
    {
        self.scopes.len()
    }

    /// How many frames may stand on the global scope.
    pub fn limit(&self) -> (n: usize)
        ensures
            n == self@.limit,
    {
        self.limit
    }

    /// The machine, to look at.
    pub fn machine(&self) -> (m: &Machine)
        ensures
            m@ == self@.machine,
    {
        &self.machine
    }

    /// The scope in which names resolve.
    pub fn top(&self) -> (env: &Env)
        requires
            self@.wf(),
        ensures
            env@ == self@.top(),
    {
        &self.scopes[self.scopes.len() - 1]
    }

    /// The machine's stack pointer.
    pub fn stack_ptr(&self) -> (p: u128)
        ensures
            p == self@.machine.stack_ptr,
    {
        self.machine.stack_ptr()
    }

    pub(crate) fn push_scope(&mut self, env: Env)
        requires
            old(self)@.wf(),
            old(self)@.room() > 0,
        ensures
            final(self)@ == old(self)@.push(env@),
            final(self)@.wf(),
    {
        self.scopes.push(env);
        assert(self@.scopes =~= old(self)@.scopes.push(env@));
    }

    pub(crate) fn pop_scope(&mut self) -> (env: Env)
        requires
            old(self)@.wf(),
            old(self)@.scopes.len() >= 2,
        ensures
            final(self)@ == old(self)@.pop(),
            env@ == old(self)@.top(),
            final(self)@.wf(),
    {
        let env = self.scopes.pop().unwrap();
        assert(self@.scopes =~= old(self)@.scopes.drop_last());
        env
    }

    pub(crate) fn get(&self, name: &str) -> (r: Result<Value, Error>)
        requires
            self@.wf(),
        ensures
            outcome(r) == self@.get(name@),
    {
        self.top().get(name)
    }

    pub(crate) fn define(&mut self, name: &str, value: Value)
        requires
            old(self)@.wf(),
        ensures
            final(self)@.follows(old(self)@),
            final(self)@ == old(self)@.define(name@, value),
            final(self)@.wf(),
    {
        let mut env = self.scopes.pop().unwrap();
        env.define(&mut self.machine, name, value);
        self.scopes.push(env);
        assert(self@.scopes =~= old(self)@.define(name@, value).scopes);
    }

    pub(crate) fn define_no_cp(&mut self, name: &str, value: Value)
        requires
            old(self)@.wf(),
        ensures
            final(self)@.follows(old(self)@),
            final(self)@ == old(self)@.define_no_cp(name@, value),
            final(self)@.wf(),
    {
        let mut env = self.scopes.pop().unwrap();
        env.define_no_cp(&mut self.machine, name, value);
        self.scopes.push(env);
        assert(self@.scopes =~= old(self)@.define_no_cp(name@, value).scopes);
    }

    pub(crate) fn allocate(&mut self, datum: Datum) -> (v: Value)
        requires
            old(self)@.wf(),
        ensures
            final(self)@.follows(old(self)@),
            final(self)@ == old(self)@.with_machine(old(self)@.machine.allocate(datum@)),
            v == old(self)@.machine.fresh(),
            final(self)@.wf(),
    {
        self.machine.allocate(datum)
    }

    pub(crate) fn assign(&mut self, dst: Value, src: Value)
        requires
            old(self)@.wf(),
        ensures
            final(self)@.follows(old(self)@),
            final(self)@ == old(self)@.with_machine(old(self)@.machine.assign(dst, src)),
            final(self)@.wf(),
    {
        self.machine.assign(dst, src)
    }

    pub(crate) fn set_return(&mut self, v: Value)
        requires
            old(self)@.wf(),
        ensures
            final(self)@.follows(old(self)@),
            final(self)@ == old(self)@.with_machine(old(self)@.machine.set_return(v)),
            final(self)@.wf(),
    {
        self.machine.set_return(v)
    }

    pub(crate) fn if_begin(&mut self, condition: Value)
        requires
            old(self)@.wf(),
        ensures
            final(self)@.follows(old(self)@),
            final(self)@ == old(self)@.with_machine(
                old(self)@.machine.emit(Op::IfBegin(condition)),
            ),
            final(self)@.wf(),
    {
        self.machine.if_begin(condition)
    }

    pub(crate) fn if_end(&mut self)
        requires
            old(self)@.wf(),
        ensures
            final(self)@.follows(old(self)@),
            final(self)@ == old(self)@.with_machine(old(self)@.machine.emit(Op::IfEnd)),
            final(self)@.wf(),
    {
        self.machine.if_end()
    }

    pub(crate) fn while_begin(&mut self, condition: Value)
        requires
            old(self)@.wf(),
        ensures
            final(self)@.follows(old(self)@),
            final(self)@ == old(self)@.with_machine(
                old(self)@.machine.emit(Op::WhileBegin(condition)),
            ),
            final(self)@.wf(),
    {
        self.machine.while_begin(condition)
    }

    pub(crate) fn while_end(&mut self)
        requires
            old(self)@.wf(),
        ensures
            final(self)@.follows(old(self)@),
            final(self)@ == old(self)@.with_machine(old(self)@.machine.emit(Op::WhileEnd)),
            final(self)@.wf(),
    {
        self.machine.while_end()
    }

    /// Binds a parameter in a frame under construction to a copy of `value`.
    pub(crate) fn bind(&mut self, frame: &mut Env, name: &str, value: Value)
        requires
            old(self)@.wf(),
        ensures
            final(self)@.follows(old(self)@),
            (final(frame)@, final(self)@.machine) == define_spec(
                old(frame)@,
                old(self)@.machine,
                name@,
                value,
            ),
            final(self)@ == old(self)@.with_machine(final(self)@.machine),
            final(self)@.wf(),
    {
        frame.define(&mut self.machine, name, value);
    }

    /// Runs a native body on its frame and the machine, and notes what it
    /// left behind.
    pub(crate) fn run<N: Native>(&mut self, native: &N, frame: &mut Env) -> (r: Result<(), Error>)
        requires
            old(self)@.wf(),
        ensures
            final(self)@ == old(self)@.ran(
                Outcome { frame: final(frame)@, machine: final(self)@.machine, result: outcome(r) },
            ),
            final(self)@.machine.follows(old(self)@.machine),
            final(self)@.wf(),
    {
        let r = native.run(frame, &mut self.machine);
        proof {
            let out = Outcome { frame: frame@, machine: self.machine@, result: outcome(r) };
            self.history@ = self.history@.push(out);
        }
        r
    }

    /// Frees what a frame that was left owns and resets the stack pointer.
    pub(crate) fn teardown(&mut self, frame: Env, base: u128)
        requires
            old(self)@.wf(),
            base <= old(self)@.machine.stack_ptr,
        ensures
            final(self)@ == old(self)@.teardown(frame@, base as nat),
            final(self)@.wf(),
            final(self)@.follows(old(self)@.reset(base as nat)),
    {
        let mut frame = frame;
        frame.free(&mut self.machine);
        proof {
            release_frees_each_once(frame@, old(self)@.machine);
        }
        self.machine.leave(base);
    }
}

} // verus!
