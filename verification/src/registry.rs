use vstd::prelude::*;
use vstd::string::*;
use crate::ast::Program;
use crate::ast::UserFn;
use crate::env::Env;
use crate::error::Error;
use crate::value::Machine;

verus! {

/// The body of a function implemented outside the language.
///
/// It is handed its frame, with the parameters bound, and the machine. It
/// reads its arguments from the frame and delivers its result through the
/// machine's return register, as a function of the language does.
///
/// Nothing is said here of what a body does. It is bound to one thing: it
/// works on the machine it was handed, through that machine's operations,
/// which only ever add to it.
pub trait Native: Sized {
    fn run(&self, frame: &mut Env, machine: &mut Machine) -> (r: Result<(), Error>)
        requires
            old(machine)@.wf(),
        ensures
            final(machine)@.wf(),
            final(machine)@.follows(old(machine)@),
    ;
}

/// A function implemented outside the language: parameter names and a
/// native body.
pub struct ForeignFn<N> {
    pub parameters: Vec<String>,
    pub body: N,
}

struct Foreign<N> {
    name: String,
    function: ForeignFn<N>,
}

/// The function that the newest entry of the given name holds.
pub open spec fn newest_user(fns: Seq<UserFn>, name: Seq<char>) -> Option<UserFn>
    decreases fns.len(),
{
    if fns.len() == 0 {
        None
    } else if fns.last().name@ == name {
        Some(fns.last())
    } else {
        newest_user(fns.drop_last(), name)
    }
}

spec fn newest_foreign<N>(fns: Seq<Foreign<N>>, name: Seq<char>) -> Option<ForeignFn<N>>
    decreases fns.len(),
{
    if fns.len() == 0 {
        None
    } else if fns.last().name@ == name {
        Some(fns.last().function)
    } else {
        newest_foreign(fns.drop_last(), name)
    }
}

/// The table after the functions were entered one by one, first to last,
/// each under its own name.
pub open spec fn enter_all(table: Map<Seq<char>, UserFn>, fns: Seq<UserFn>) -> Map<
    Seq<char>,
    UserFn,
>
    decreases fns.len(),
{
    if fns.len() == 0 {
        table
    } else {
        enter_all(table, fns.drop_last()).insert(fns.last().name@, fns.last())
    }
}

proof fn lemma_newest_user_append(a: Seq<UserFn>, b: Seq<UserFn>, name: Seq<char>)
    ensures
        newest_user(a + b, name) == match newest_user(b, name) {
            Some(f) => Some(f),
            None => newest_user(a, name),
        },
    decreases b.len(),
{
    if b.len() == 0 {
        assert(a + b =~= a);
    } else {
        assert((a + b).drop_last() =~= a + b.drop_last());
        assert((a + b).last() == b.last());
        lemma_newest_user_append(a, b.drop_last(), name);
    }
}

proof fn lemma_enter_all(table: Map<Seq<char>, UserFn>, fns: Seq<UserFn>, name: Seq<char>)
    ensures
        enter_all(table, fns).contains_key(name) <==> newest_user(fns, name) is Some
            || table.contains_key(name),
        newest_user(fns, name) matches Some(f) ==> enter_all(table, fns)[name] == f,
        newest_user(fns, name) is None ==> enter_all(table, fns)[name] == table[name],
    decreases fns.len(),
{
    if fns.len() > 0 {
        lemma_enter_all(table, fns.drop_last(), name);
    }
}

/// The two tables of callable functions, each keyed by name.
pub struct Registry<N> {
    user: Vec<UserFn>,
    foreign: Vec<Foreign<N>>,
}

impl<N: Native> Registry<N> {
    /// The functions of the language that were registered, by name.
    pub closed spec fn users(&self) -> Map<Seq<char>, UserFn> {
        Map::new(
            |name: Seq<char>| newest_user(self.user@, name) is Some,
            |name: Seq<char>| newest_user(self.user@, name)->0,
        )
    }

    /// The foreign functions that were registered, by name.
    pub closed spec fn foreigns(&self) -> Map<Seq<char>, ForeignFn<N>> {
        Map::new(
            |name: Seq<char>| newest_foreign(self.foreign@, name) is Some,
            |name: Seq<char>| newest_foreign(self.foreign@, name)->0,
        )
    }

    /// A registry that holds no function.
    pub fn new() -> (reg: Self)
        ensures
            reg.users() == Map::<Seq<char>, UserFn>::empty(),
            reg.foreigns() == Map::<Seq<char>, ForeignFn<N>>::empty(),
    {
        let reg = Registry { user: Vec::new(), foreign: Vec::new() };
        assert(reg.users() =~= Map::<Seq<char>, UserFn>::empty());
        assert(reg.foreigns() =~= Map::<Seq<char>, ForeignFn<N>>::empty());
        reg
    }

    /// The function of the language registered under `name`.
    pub fn user(&self, name: &str) -> (found: Option<&UserFn>)
        ensures
            found matches Some(f) ==> self.users().contains_key(name@) && self.users()[name@] == *f,
            found is None ==> !self.users().contains_key(name@),
    {
        let key = String::from_str(name);
        let mut k: usize = self.user.len();
        assert(self.user@.take(k as int) =~= self.user@);
        while k > 0
            invariant
                k <= self.user@.len(),
                key@ == name@,
                newest_user(self.user@, key@) == newest_user(self.user@.take(k as int), key@),
            decreases k,
        {
            if self.user[k - 1].name == key {
                return Some(&self.user[k - 1]);
            }
            assert(self.user@.take(k as int).drop_last() =~= self.user@.take(k - 1));
            k = k - 1;
        }
        None
    }

    /// The foreign function registered under `name`.
    pub fn foreign(&self, name: &str) -> (found: Option<&ForeignFn<N>>)
        ensures
            found matches Some(f) ==> self.foreigns().contains_key(name@) && self.foreigns()[name@]
                == *f,
            found is None ==> !self.foreigns().contains_key(name@),
    {
        let key = String::from_str(name);
        let mut k: usize = self.foreign.len();
        assert(self.foreign@.take(k as int) =~= self.foreign@);
        while k > 0
            invariant
                k <= self.foreign@.len(),
                key@ == name@,
                newest_foreign(self.foreign@, key@) == newest_foreign(
                    self.foreign@.take(k as int),
                    key@,
                ),
            decreases k,
        {
            if self.foreign[k - 1].name == key {
                return Some(&self.foreign[k - 1].function);
            }
            assert(self.foreign@.take(k as int).drop_last() =~= self.foreign@.take(k - 1));
            k = k - 1;
        }
        None
    }

    fn enter_user(&mut self, function: UserFn)
        ensures
            final(self).users() == old(self).users().insert(function.name@, function),
            final(self).foreigns() == old(self).foreigns(),
    {
        self.user.push(function);
        assert(self.user@.drop_last() =~= old(self).user@);
        assert(self.users() =~= old(self).users().insert(function.name@, function));
    }

    fn enter_foreign(&mut self, name: String, function: ForeignFn<N>)
        ensures
            final(self).foreigns() == old(self).foreigns().insert(name@, function),
            final(self).users() == old(self).users(),
    {
        self.foreign.push(Foreign { name, function });
        assert(self.foreign@.drop_last() =~= old(self).foreign@);
        assert(self.foreigns() =~= old(self).foreigns().insert(name@, function));
    }

    fn enter_users(&mut self, functions: Vec<UserFn>)
        ensures
            final(self).users() == enter_all(old(self).users(), functions@),
            final(self).foreigns() == old(self).foreigns(),
    {
        let ghost entered = functions@;
        let mut functions = functions;
        self.user.append(&mut functions);
        let ghost target = enter_all(old(self).users(), entered);
        assert forall|name: Seq<char>| #[trigger]
            self.users().dom().contains(name) == target.dom().contains(name) by {
            lemma_newest_user_append(old(self).user@, entered, name);
            lemma_enter_all(old(self).users(), entered, name);
        }
        assert forall|name: Seq<char>| self.users().dom().contains(name) implies #[trigger]
            self.users()[name] == target[name] by {
            lemma_newest_user_append(old(self).user@, entered, name);
            lemma_enter_all(old(self).users(), entered, name);
        }
        assert(self.users() =~= enter_all(old(self).users(), entered));
    }
}

impl UserFn {
    /// Registers the function under its name. A function registered under
    /// that name before is replaced.
    pub fn compile<N: Native>(self, reg: &mut Registry<N>)
        ensures
            final(reg).users() == old(reg).users().insert(self.name@, self),
            final(reg).foreigns() == old(reg).foreigns(),
    {
        reg.enter_user(self);
    }
}

impl Program {
    /// Registers every function of the program, first to last. Nothing runs.
    pub fn compile<N: Native>(self, reg: &mut Registry<N>) -> (r: Result<(), Error>)
        ensures
            r is Ok,
            final(reg).users() == enter_all(old(reg).users(), self.1@),
            final(reg).foreigns() == old(reg).foreigns(),
    {
        let Program(_flags, funs) = self;
        reg.enter_users(funs);
        Ok(())
    }
}

impl<N: Native> ForeignFn<N> {
    pub fn new(parameters: Vec<String>, body: N) -> (function: Self)
        ensures
            function.parameters == parameters,
            function.body == body,
    {
        ForeignFn { parameters, body }
    }

    /// Registers a foreign function under `name`. One registered under that
    /// name before is replaced.
    pub fn define(reg: &mut Registry<N>, name: &str, args: Vec<String>, fun: N)
        ensures
            final(reg).foreigns().contains_key(name@),
            final(reg).foreigns()[name@].parameters == args,
            final(reg).foreigns()[name@].body == fun,
            final(reg).foreigns().remove(name@) == old(reg).foreigns().remove(name@),
            final(reg).users() == old(reg).users(),
    {
        let function = ForeignFn::new(args, fun);
        reg.enter_foreign(String::from_str(name), function);
        assert(reg.foreigns().remove(name@) =~= old(reg).foreigns().remove(name@));
    }
}

/// The parameter names as plain sequences.
pub open spec fn names_of(parameters: Seq<String>) -> Seq<Seq<char>> {
    Seq::new(parameters.len(), |i: int| parameters[i]@)
}

/// The given names as plain sequences.
pub open spec fn texts_of(args: Seq<&str>) -> Seq<Seq<char>> {
    Seq::new(args.len(), |i: int| args[i]@)
}

/// Registers a foreign function under `name`, with the given parameter
/// names. One registered under that name before is replaced.
pub fn deforfun<N: Native>(reg: &mut Registry<N>, name: &str, args: &[&str], fun: N)
    ensures
        final(reg).foreigns().contains_key(name@),
        names_of(final(reg).foreigns()[name@].parameters@) == texts_of(args@),
        final(reg).foreigns()[name@].body == fun,
        final(reg).foreigns().remove(name@) == old(reg).foreigns().remove(name@),
        final(reg).users() == old(reg).users(),
{
    let mut parameters: Vec<String> = Vec::new();
    let mut i: usize = 0;
    while i < args.len()
        invariant
            i <= args@.len(),
            parameters@.len() == i,
            forall|j: int| 0 <= j < i ==> (#[trigger] parameters@[j])@ == args@[j]@,
        decreases args@.len() - i,
    {
        parameters.push(String::from_str(args[i]));
        i = i + 1;
    }
    assert(names_of(parameters@) =~= texts_of(args@));
    ForeignFn::define(reg, name, parameters, fun);
}

} // verus!
