use vstd::prelude::*;
use vstd::string::*;
use crate::error::Error;
use crate::error::Failure;
use crate::error::outcome;
use crate::value::Machine;
use crate::value::MachineView;
use crate::value::Op;
use crate::value::Value;

verus! {

/// The mathematical content of an [`Env`]: its bindings, oldest first.
pub type Scope = Seq<(Seq<char>, Value)>;

/// No name is bound twice.
pub open spec fn distinct(s: Scope) -> bool {
    forall|i: int, j: int| 0 <= i < j < s.len() ==> (#[trigger] s[i]).0 != (#[trigger] s[j]).0
}

/// Where `name` is bound, if it is.
pub open spec fn index_of(s: Scope, name: Seq<char>) -> Option<int>
    decreases s.len(),
{
    if s.len() == 0 {
        None
    } else if s.last().0 == name {
        Some(s.len() - 1)
    } else {
        index_of(s.drop_last(), name)
    }
}

/// The value that `name` is bound to, if it is bound.
pub open spec fn lookup(s: Scope, name: Seq<char>) -> Option<Value> {
    match index_of(s, name) {
        Some(i) => Some(s[i].1),
        None => None,
    }
}

/// Binds `name` to `v`: in place where the name is bound, else at the end.
pub open spec fn bind(s: Scope, name: Seq<char>, v: Value) -> Scope {
    match index_of(s, name) {
        Some(i) => s.update(i, (name, v)),
        None => s.push((name, v)),
    }
}

/// The machine after the value that `name` held, if any, was cleared.
pub open spec fn displace(s: Scope, m: MachineView, name: Seq<char>) -> MachineView {
    match lookup(s, name) {
        Some(previous) => m.zero(previous),
        None => m,
    }
}

/// Binding a copy: the previous value is cleared, `v` is copied, and the
/// name is bound to the copy.
pub open spec fn define_spec(s: Scope, m: MachineView, name: Seq<char>, v: Value) -> (
    Scope,
    MachineView,
) {
    let cleared = displace(s, m, name);
    (bind(s, name, cleared.copied(v)), cleared.copy(v))
}

/// Binding the value itself: the previous value is cleared and the name is
/// bound to `v`.
pub open spec fn define_no_cp_spec(s: Scope, m: MachineView, name: Seq<char>, v: Value) -> (
    Scope,
    MachineView,
) {
    (bind(s, name, v), displace(s, m, name))
}

/// The machine after every plain value that the scope binds was freed,
/// oldest binding first. References are passed over.
pub open spec fn release(s: Scope, m: MachineView) -> MachineView
    decreases s.len(),
{
    if s.len() == 0 {
        m
    } else {
        let rest = release(s.drop_last(), m);
        if s.last().1.reference {
            rest
        } else {
            rest.free(s.last().1)
        }
    }
}

/// The operations that releasing a scope emits: one `Free` for each
/// binding of a plain value, oldest binding first, and none for a
/// reference.
pub open spec fn frees(s: Scope) -> Seq<Op>
    decreases s.len(),
{
    if s.len() == 0 {
        Seq::empty()
    } else if s.last().1.reference {
        frees(s.drop_last())
    } else {
        frees(s.drop_last()).push(Op::Free(s.last().1))
    }
}

/// Releasing a scope frees each binding of a plain value exactly once:
/// what it emits is `frees`, no plain value that it binds is live
/// afterwards, and nothing else of the machine changes.
pub proof fn release_frees_each_once(s: Scope, m: MachineView)
    ensures
        release(s, m).code == m.code + frees(s),
        release(s, m).stack_ptr == m.stack_ptr,
        release(s, m).cells.len() == m.cells.len(),
        release(s, m).follows(m),
        forall|v: Value| #[trigger] release(s, m).size(v) == m.size(v),
        forall|i: int|
            0 <= i < s.len() && !(#[trigger] s[i]).1.reference ==> !release(s, m).live(s[i].1),
        forall|v: Value| #[trigger] release(s, m).datum(v) == m.datum(v),
        forall|v: Value|
            (forall|i: int| 0 <= i < s.len() ==> (#[trigger] s[i]).1.cell != v.cell) ==> #[trigger] release(
                s,
                m,
            ).live(v) == m.live(v),
    decreases s.len(),
{
    if s.len() == 0 {
        assert(m.code + frees(s) =~= m.code);
    } else {
        let rest = release(s.drop_last(), m);
        release_frees_each_once(s.drop_last(), m);
        assert(release(s, m).code =~= m.code + frees(s));
        assert forall|i: int| 0 <= i < s.len() && !(#[trigger] s[i]).1.reference implies !release(
            s,
            m,
        ).live(s[i].1) by {
            if i < s.len() - 1 {
                assert(s.drop_last()[i] == s[i]);
                assert(!rest.live(s[i].1));
            }
        }
        assert forall|v: Value| #[trigger] release(s, m).datum(v) == m.datum(v) by {
            assert(rest.datum(v) == m.datum(v));
        }
        assert forall|v: Value| #[trigger] release(s, m).size(v) == m.size(v) by {
            assert(rest.size(v) == m.size(v));
        }
        assert forall|v: Value|
            (forall|i: int|
                0 <= i < s.len() ==> (#[trigger] s[i]).1.cell != v.cell) implies #[trigger] release(
            s,
            m,
        ).live(v) == m.live(v) by {
            assert forall|i: int| 0 <= i < s.drop_last().len() implies (#[trigger] s.drop_last()[i]).1.cell
                != v.cell by {
                assert(s.drop_last()[i] == s[i]);
            }
            assert(rest.live(v) == m.live(v));
            assert(s[s.len() - 1].1.cell != v.cell);
        }
    }
}

/// The value that `name` is bound to, or the failure that names `name`
/// and carries the scope.
pub open spec fn get_spec(s: Scope, name: Seq<char>) -> Result<Value, Failure> {
    match lookup(s, name) {
        Some(v) => Ok(v),
        None => Err(Failure::VariableNotDefined(name, s)),
    }
}

/// Where `index_of` finds a name, the name is bound there; where it finds
/// none, the name is bound nowhere.
pub proof fn lemma_index_of(s: Scope, name: Seq<char>)
    ensures
        index_of(s, name) matches Some(i) ==> 0 <= i < s.len() && s[i].0 == name,
        index_of(s, name) is None ==> forall|i: int| 0 <= i < s.len() ==> (#[trigger] s[i]).0 != name,
    decreases s.len(),
{
    if s.len() > 0 && s.last().0 != name {
        lemma_index_of(s.drop_last(), name);
        assert forall|i: int| 0 <= i < s.len() && index_of(s, name) is None implies (#[trigger] s[i]).0 != name by {
            if i < s.len() - 1 {
                assert(s.drop_last()[i] == s[i]);
            }
        }
    }
}

/// Binding changes no name but the one bound, and changes that one to `v`.
pub proof fn lemma_bind(s: Scope, name: Seq<char>, v: Value, other: Seq<char>)
    ensures
        lookup(bind(s, name, v), name) == Some(v),
        other != name ==> lookup(bind(s, name, v), other) == lookup(s, other),
        other != name ==> index_of(bind(s, name, v), other) == index_of(s, other),
        distinct(s) ==> distinct(bind(s, name, v)),
    decreases s.len(),
{
    lemma_index_of(s, name);
    lemma_index_of(s, other);
    let t = bind(s, name, v);
    match index_of(s, name) {
        Some(i) => {
            lemma_index_of_update(s, i, v, name);
            lemma_index_of_update(s, i, v, other);
            assert forall|a: int, b: int| 0 <= a < b < t.len() && distinct(s) implies (#[trigger] t[a]).0 != (#[trigger] t[b]).0 by {
                assert(t[a].0 == s[a].0);
                assert(t[b].0 == s[b].0);
            }
        },
        None => {
            assert(t.drop_last() =~= s);
            assert forall|a: int, b: int| 0 <= a < b < t.len() && distinct(s) implies (#[trigger] t[a]).0 != (#[trigger] t[b]).0 by {
                if b < s.len() {
                    assert(t[a] == s[a]);
                    assert(t[b] == s[b]);
                } else {
                    assert(t[a] == s[a]);
                }
            }
        },
    }
}

/// Replacing a binding's value moves no name.
proof fn lemma_index_of_update(s: Scope, i: int, v: Value, other: Seq<char>)
    requires
        0 <= i < s.len(),
    ensures
        index_of(s.update(i, (s[i].0, v)), other) == index_of(s, other),
    decreases s.len(),
{
    let t = s.update(i, (s[i].0, v));
    if s.last().0 != other {
        if i < s.len() - 1 {
            assert(t.drop_last() =~= s.drop_last().update(i, (s[i].0, v)));
            assert(s.drop_last()[i] == s[i]);
            lemma_index_of_update(s.drop_last(), i, v, other);
        } else {
            assert(t.drop_last() =~= s.drop_last());
        }
    }
}

#[derive(Clone, Debug)]
struct Binding {
    name: String,
    value: Value,
}

/// One lexical scope: names bound to values.
#[derive(Clone, Debug)]
pub struct Env {
    scope: Vec<Binding>,
}

impl View for Env {
    type V = Scope;

    closed spec fn view(&self) -> Scope {
        Seq::new(self.scope@.len(), |i: int| (self.scope@[i].name@, self.scope@[i].value))
    }
}

impl Env {
    /// A scope that binds nothing.
    pub fn new() -> (env: Env)
        ensures
            env@ == Scope::empty(),
            distinct(env@),
    {
        let env = Env { scope: Vec::new() };
        assert(env@ =~= Scope::empty());
        env
    }

    /// The number of bindings.
    pub fn len(&self) -> (n: usize)
        ensures
            n == self@.len(),
    {
        self.scope.len()
    }

    fn position(&self, key: &String) -> (at: Option<usize>)
        ensures
            at matches Some(i) ==> index_of(self@, key@) == Some(i as int) && i < self@.len(),
            at is None ==> index_of(self@, key@) is None,
    {
        let mut k: usize = self.scope.len();
        assert(self@.take(k as int) =~= self@);
        while k > 0
            invariant
                k <= self.scope@.len(),
                self@.len() == self.scope@.len(),
                index_of(self@, key@) == index_of(self@.take(k as int), key@),
            decreases k,
        {
            if self.scope[k - 1].name == *key {
                return Some(k - 1);
            }
            assert(self@.take(k as int).drop_last() =~= self@.take(k - 1));
            k = k - 1;
        }
        None
    }

    fn put(&mut self, at: Option<usize>, key: String, value: Value)
        requires
            at matches Some(i) ==> index_of(old(self)@, key@) == Some(i as int) && i < old(self)@.len(),
            at is None ==> index_of(old(self)@, key@) is None,
        ensures
            final(self)@ == bind(old(self)@, key@, value),
            distinct(old(self)@) ==> distinct(final(self)@),
    {
        proof {
            lemma_bind(self@, key@, value, key@);
        }
        match at {
            Some(i) => {
                self.scope.set(i, Binding { name: key, value });
            },
            None => {
                self.scope.push(Binding { name: key, value });
            },
        }
        assert(self@ =~= bind(old(self)@, key@, value));
    }

    /// Binds `name` to a copy of `value`. A value that the name held is
    /// cleared first.
    pub fn define(&mut self, machine: &mut Machine, name: &str, value: Value)
        requires
            old(machine)@.wf(),
        ensures
            final(machine)@.wf(),
            (final(self)@, final(machine)@) == define_spec(
                old(self)@,
                old(machine)@,
                name@,
                value,
            ),
            distinct(old(self)@) ==> distinct(final(self)@),
    {
        let key = String::from_str(name);
        let at = self.position(&key);
        match at {
            Some(i) => {
                machine.zero(self.scope[i].value);
            },
            None => {},
        }
        let stored = machine.copy(value);
        self.put(at, key, stored);
    }

    /// Binds `name` to `value` itself, which the scope then owns. A value
    /// that the name held is cleared first.
    pub fn define_no_cp(&mut self, machine: &mut Machine, name: &str, value: Value)
        requires
            old(machine)@.wf(),
        ensures
            final(machine)@.wf(),
            (final(self)@, final(machine)@) == define_no_cp_spec(
                old(self)@,
                old(machine)@,
                name@,
                value,
            ),
            distinct(old(self)@) ==> distinct(final(self)@),
    {
        let key = String::from_str(name);
        let at = self.position(&key);
        match at {
            Some(i) => {
                machine.zero(self.scope[i].value);
            },
            None => {},
        }
        self.put(at, key, value);
    }

    /// The bindings, copied.
    pub fn snapshot(&self) -> (copy: Env)
        ensures
            copy@ == self@,
    {
        let mut scope: Vec<Binding> = Vec::new();
        let mut i: usize = 0;
        while i < self.scope.len()
            invariant
                i <= self.scope@.len(),
                scope@.len() == i,
                forall|j: int|
                    0 <= j < i ==> (#[trigger] scope@[j]).name@ == self.scope@[j].name@
                        && scope@[j].value == self.scope@[j].value,
            decreases self.scope@.len() - i,
        {
            scope.push(Binding { name: self.scope[i].name.clone(), value: self.scope[i].value });
            i = i + 1;
        }
        assert(Seq::new(scope@.len(), |i: int| (scope@[i].name@, scope@[i].value)) =~= self@);
        Env { scope }
    }

    /// The value that `name` is bound to.
    pub fn get(&self, name: &str) -> (r: Result<Value, Error>)
        ensures
            outcome(r) == get_spec(self@, name@),
    {
        let key = String::from_str(name);
        match self.position(&key) {
            Some(i) => Ok(self.scope[i].value),
            None => Err(Error::VariableNotDefined(key, self.snapshot())),
        }
    }

    /// Frees every plain value that the scope binds, oldest binding first.
    /// References denote storage owned elsewhere and are passed over.
    pub fn free(&mut self, machine: &mut Machine)
        requires
            old(machine)@.wf(),
        ensures
            final(machine)@.wf(),
            final(machine)@ == release(old(self)@, old(machine)@),
            final(self)@ == old(self)@,
    {
        let mut i: usize = 0;
        assert(self@.take(0) =~= Scope::empty());
        while i < self.scope.len()
            invariant
                i <= self.scope@.len(),
                self@.len() == self.scope@.len(),
                self@ == old(self)@,
                machine@.wf(),
                machine@ == release(self@.take(i as int), old(machine)@),
            decreases self.scope@.len() - i,
        {
            let value = self.scope[i].value;
            assert(self@.take(i + 1).drop_last() =~= self@.take(i as int));
            assert(self@.take(i + 1).last() == self@[i as int]);
            if !value.is_ref() {
                machine.free(value);
            }
            i = i + 1;
        }
        assert(self@.take(i as int) =~= self@);
    }
}

} // verus!
