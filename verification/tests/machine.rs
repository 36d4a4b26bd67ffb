use langcore::env::Env;
use langcore::error::Error;
use langcore::names::temporary_name;
use langcore::value::{Datum, Machine, Op, Value};

#[test]
fn new_machine_has_an_empty_live_return_register() {
    let m = Machine::new();
    let r = m.return_register();
    assert_eq!(r, Value { cell: 0, reference: false });
    assert_eq!(m.read(r), Datum::Empty);
    assert_eq!(m.size(r), 0);
    assert!(m.is_live(r));
    assert_eq!(m.stack_ptr(), 0);
    assert!(m.code().is_empty());
}

#[test]
fn allocate_sizes_follow_the_datum() {
    let mut m = Machine::new();
    let b = m.allocate(Datum::Byte(9));
    assert_eq!(m.stack_ptr(), 1);
    let w = m.allocate(Datum::Word(70000));
    assert_eq!(m.stack_ptr(), 5);
    let c = m.allocate(Datum::Char('q'));
    assert_eq!(m.stack_ptr(), 6);
    let t = m.allocate(Datum::Text("héllo".to_string()));
    assert_eq!(m.stack_ptr(), 11);
    let e = m.allocate(Datum::Empty);
    assert_eq!(m.stack_ptr(), 11);
    assert_eq!((m.size(b), m.size(w), m.size(c), m.size(t), m.size(e)), (1, 4, 1, 5, 0));
    assert_eq!(b, Value { cell: 1, reference: false });
    assert_eq!(e, Value { cell: 5, reference: false });
    assert_eq!(
        m.code(),
        &vec![Op::Alloc(b), Op::Alloc(w), Op::Alloc(c), Op::Alloc(t), Op::Alloc(e)]
    );
}

#[test]
fn copy_allocates_fresh_storage() {
    let mut m = Machine::new();
    let a = m.allocate(Datum::Word(7));
    let b = m.copy(a);
    assert_ne!(a, b);
    assert_eq!(m.read(b), Datum::Word(7));
    assert_eq!(m.stack_ptr(), 8);
    assert_eq!(m.code(), &vec![Op::Alloc(a), Op::Copy(a, b)]);
}

#[test]
fn writing_to_a_copy_leaves_its_source() {
    let mut m = Machine::new();
    let a = m.allocate(Datum::Byte(1));
    let nine = m.allocate(Datum::Byte(9));
    let c = m.copy(a);
    m.assign(c, nine);
    assert_eq!(m.read(c), Datum::Byte(9));
    assert_eq!(m.read(a), Datum::Byte(1));
    m.zero(c);
    assert_eq!(m.read(c), Datum::Empty);
    assert_eq!(m.read(a), Datum::Byte(1));
    m.free(c);
    assert!(!m.is_live(c));
    assert!(m.is_live(a));
}

#[test]
fn copy_of_a_reference_is_the_reference() {
    let mut m = Machine::new();
    let a = m.allocate(Datum::Byte(1));
    let r = a.refer().unwrap();
    let before = m.stack_ptr();
    let c = m.copy(r);
    assert_eq!(c, r);
    assert_eq!(m.stack_ptr(), before);
    assert_eq!(m.code().last(), Some(&Op::Copy(r, r)));
}

#[test]
fn zero_keeps_storage_and_free_releases_it() {
    let mut m = Machine::new();
    let a = m.allocate(Datum::Word(5));
    m.zero(a);
    assert_eq!(m.read(a), Datum::Empty);
    assert_eq!(m.size(a), 4);
    assert!(m.is_live(a));
    m.free(a);
    assert!(!m.is_live(a));
    assert_eq!(m.code(), &vec![Op::Alloc(a), Op::Zero(a), Op::Free(a)]);
}

#[test]
fn zero_and_free_pass_over_what_a_reference_denotes() {
    let mut m = Machine::new();
    let a = m.allocate(Datum::Byte(3));
    let r = a.refer().unwrap();
    m.zero(r);
    m.free(r);
    assert_eq!(m.read(a), Datum::Byte(3));
    assert!(m.is_live(a));
}

#[test]
fn assign_writes_through_a_reference() {
    let mut m = Machine::new();
    let a = m.allocate(Datum::Byte(3));
    let t = m.allocate(Datum::Text("ab".to_string()));
    let r = a.refer().unwrap();
    m.assign(r, t);
    assert_eq!(m.read(a), Datum::Text("ab".to_string()));
    assert_eq!(m.size(a), 2);
    assert_eq!(m.code().last(), Some(&Op::Assign(r, t)));
}

#[test]
fn operations_on_a_value_of_no_cell_change_no_cell() {
    let mut m = Machine::new();
    let a = m.allocate(Datum::Byte(3));
    let stray = Value { cell: 40, reference: false };
    m.zero(stray);
    m.free(stray);
    m.assign(stray, a);
    assert_eq!(m.read(stray), Datum::Empty);
    assert_eq!(m.size(stray), 0);
    assert!(!m.is_live(stray));
    assert_eq!(m.read(a), Datum::Byte(3));
    m.assign(a, stray);
    assert_eq!(m.read(a), Datum::Empty);
    assert_eq!(m.size(a), 0);
}

#[test]
fn set_return_clears_then_copies() {
    let mut m = Machine::new();
    let a = m.allocate(Datum::Word(8));
    m.set_return(a);
    let r = m.return_register();
    assert_eq!(m.read(r), Datum::Word(8));
    assert_eq!(m.size(r), 4);
    assert_eq!(m.code(), &vec![Op::Alloc(a), Op::Zero(r), Op::Assign(r, a)]);
}

#[test]
fn set_return_of_the_register_itself_leaves_it_empty() {
    let mut m = Machine::new();
    let a = m.allocate(Datum::Word(8));
    m.set_return(a);
    let r = m.return_register();
    m.set_return(r);
    assert_eq!(m.read(r), Datum::Empty);
}

#[test]
fn control_brackets_are_emitted_in_order() {
    let mut m = Machine::new();
    let c = m.allocate(Datum::Byte(1));
    m.if_begin(c);
    m.if_end();
    m.while_begin(c);
    m.while_end();
    assert_eq!(
        m.code(),
        &vec![Op::Alloc(c), Op::IfBegin(c), Op::IfEnd, Op::WhileBegin(c), Op::WhileEnd]
    );
}

#[test]
fn refer_and_deref_of_handles() {
    let v = Value { cell: 3, reference: false };
    assert!(!v.is_ref());
    let r = v.refer().unwrap();
    assert_eq!(r, Value { cell: 3, reference: true });
    assert!(r.is_ref());
    assert!(matches!(r.refer(), Err(Error::CannotReferenceAReference)));
    assert_eq!(r.deref(), v);
    assert_eq!(v.deref(), v);
}

#[test]
fn datum_size_and_duplicate() {
    let t = Datum::Text("abc".to_string());
    assert_eq!(t.size(), 3);
    assert_eq!(t.duplicate(), t);
    assert_eq!(Datum::Empty.size(), 0);
    assert_eq!(Datum::Byte(0).size(), 1);
    assert_eq!(Datum::Word(0).size(), 4);
    assert_eq!(Datum::Char('x').size(), 1);
}

#[test]
fn temporary_names_hold_the_depth_in_decimal() {
    assert_eq!(temporary_name("%TEMP_RETURN", 0), "%TEMP_RETURN0%");
    assert_eq!(temporary_name("%TEMP_RETURN", 7), "%TEMP_RETURN7%");
    assert_eq!(temporary_name("%TEMP_BYTE_LITERAL", 10), "%TEMP_BYTE_LITERAL10%");
    assert_eq!(temporary_name("%TEMP_STR_LITERAL", 1234567890), "%TEMP_STR_LITERAL1234567890%");
    assert_eq!(
        temporary_name("x", u128::MAX),
        "x340282366920938463463374607431768211455%"
    );
}

#[test]
fn env_define_binds_a_copy() {
    let mut m = Machine::new();
    let mut env = Env::new();
    let a = m.allocate(Datum::Byte(4));
    env.define(&mut m, "x", a);
    let x = env.get("x").unwrap();
    assert_ne!(x, a);
    assert_eq!(m.read(x), Datum::Byte(4));
    assert_eq!(env.len(), 1);
    assert_eq!(m.code(), &vec![Op::Alloc(a), Op::Copy(a, x)]);
}

#[test]
fn env_define_two_names_gives_each_its_own_storage() {
    let mut m = Machine::new();
    let mut env = Env::new();
    let a = m.allocate(Datum::Byte(4));
    let b = m.allocate(Datum::Byte(6));
    env.define(&mut m, "n1", a);
    env.define(&mut m, "n2", b);
    let x = env.get("n1").unwrap();
    let y = env.get("n2").unwrap();
    assert_ne!(x.cell, y.cell);
    assert_eq!(m.read(x), Datum::Byte(4));
    assert_eq!(m.read(y), Datum::Byte(6));
    m.assign(x, b);
    assert_eq!(m.read(x), Datum::Byte(6));
    assert_eq!(m.read(y), Datum::Byte(6));
    m.zero(y);
    assert_eq!(m.read(x), Datum::Byte(6));
}

#[test]
fn env_redefine_clears_the_previous_value_exactly_once() {
    let mut m = Machine::new();
    let mut env = Env::new();
    let a = m.allocate(Datum::Byte(4));
    let b = m.allocate(Datum::Byte(6));
    env.define(&mut m, "n1", a);
    let first = env.get("n1").unwrap();
    let emitted = m.code().len();
    env.define(&mut m, "n1", b);
    let second = env.get("n1").unwrap();
    assert_eq!(&m.code()[emitted..], &[Op::Zero(first), Op::Copy(b, second)]);
    assert_eq!(m.read(first), Datum::Empty);
    assert!(m.is_live(first));
    assert_eq!(m.read(second), Datum::Byte(6));
    assert_eq!(env.len(), 1);
    let zeros = m.code().iter().filter(|op| **op == Op::Zero(first)).count();
    let frees = m.code().iter().filter(|op| matches!(op, Op::Free(_))).count();
    assert_eq!((zeros, frees), (1, 0));
}

#[test]
fn env_define_no_cp_binds_the_value_itself() {
    let mut m = Machine::new();
    let mut env = Env::new();
    let a = m.allocate(Datum::Byte(4));
    let b = m.allocate(Datum::Byte(5));
    env.define_no_cp(&mut m, "x", a);
    assert_eq!(env.get("x").unwrap(), a);
    assert_eq!(m.code(), &vec![Op::Alloc(a), Op::Alloc(b)]);
    env.define_no_cp(&mut m, "x", b);
    assert_eq!(env.get("x").unwrap(), b);
    assert_eq!(m.read(a), Datum::Empty);
    assert_eq!(m.code().last(), Some(&Op::Zero(a)));
    assert_eq!(env.len(), 1);
}

#[test]
fn env_get_of_an_unbound_name_carries_name_and_snapshot() {
    let mut m = Machine::new();
    let mut env = Env::new();
    let a = m.allocate(Datum::Byte(4));
    env.define_no_cp(&mut m, "x", a);
    match env.get("missing") {
        Err(Error::VariableNotDefined(name, snapshot)) => {
            assert_eq!(name, "missing");
            assert_eq!(snapshot.len(), 1);
            assert_eq!(snapshot.get("x").unwrap(), a);
        }
        other => panic!("unexpected {:?}", other),
    }
}

#[test]
fn env_free_frees_plain_values_once_and_passes_over_references() {
    let mut m = Machine::new();
    let mut env = Env::new();
    let a = m.allocate(Datum::Byte(4));
    let b = m.allocate(Datum::Byte(5));
    let r = a.refer().unwrap();
    env.define_no_cp(&mut m, "a", a);
    env.define_no_cp(&mut m, "r", r);
    env.define_no_cp(&mut m, "b", b);
    let emitted = m.code().len();
    env.free(&mut m);
    assert_eq!(&m.code()[emitted..], &[Op::Free(a), Op::Free(b)]);
    assert!(!m.is_live(a));
    assert!(!m.is_live(b));
    assert_eq!(env.len(), 3);
}

#[test]
fn env_snapshot_is_a_copy() {
    let mut m = Machine::new();
    let mut env = Env::new();
    let a = m.allocate(Datum::Byte(4));
    env.define_no_cp(&mut m, "a", a);
    let copy = env.snapshot();
    env.define_no_cp(&mut m, "b", a);
    assert_eq!(copy.len(), 1);
    assert_eq!(env.len(), 2);
    assert_eq!(copy.get("a").unwrap(), a);
    assert!(copy.get("b").is_err());
}
