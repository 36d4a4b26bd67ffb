use vstd::prelude::*;
use vstd::string::*;

verus! {

/// The character of a digit.
pub open spec fn digit(d: nat) -> char {
    if d == 0 {
        '0'
    } else if d == 1 {
        '1'
    } else if d == 2 {
        '2'
    } else if d == 3 {
        '3'
    } else if d == 4 {
        '4'
    } else if d == 5 {
        '5'
    } else if d == 6 {
        '6'
    } else if d == 7 {
        '7'
    } else if d == 8 {
        '8'
    } else {
        '9'
    }
}

/// The digits of `n` in base ten, without leading zeros.
pub open spec fn decimal(n: nat) -> Seq<char>
    decreases n,
{
    if n < 10 {
        seq![digit(n)]
    } else {
        decimal(n / 10).push(digit(n % 10))
    }
}

/// The name of a temporary: a stem, the stack pointer at which it was made,
/// and a closing `%`.
pub open spec fn temporary(stem: Seq<char>, depth: nat) -> Seq<char> {
    stem + decimal(depth) + seq!['%']
}

/// The name under which a call's result is bound in the caller's scope.
pub open spec fn return_name(depth: nat) -> Seq<char> {
    temporary("%TEMP_RETURN"@, depth)
}

/// The name through which a definition passes on its way to its own name.
pub open spec fn define_name() -> Seq<char> {
    "%TEMP_DEFINE%"@
}

/// No call's result is bound under the passing name.
pub proof fn lemma_return_name_differs(depth: nat)
    ensures
        return_name(depth) != define_name(),
{
    reveal_strlit("%TEMP_RETURN");
    reveal_strlit("%TEMP_DEFINE%");
    assert(return_name(depth)[6] == 'R');
    assert(define_name()[6] == 'D');
}

fn push_digit(s: &mut String, d: u8)
    requires
        d < 10,
    ensures
        final(s)@ == old(s)@.push(digit(d as nat)),
{
    proof {
        reveal_strlit("0");
        reveal_strlit("1");
        reveal_strlit("2");
        reveal_strlit("3");
        reveal_strlit("4");
        reveal_strlit("5");
        reveal_strlit("6");
        reveal_strlit("7");
        reveal_strlit("8");
        reveal_strlit("9");
    }
    let text = if d == 0 {
        "0"
    } else if d == 1 {
        "1"
    } else if d == 2 {
        "2"
    } else if d == 3 {
        "3"
    } else if d == 4 {
        "4"
    } else if d == 5 {
        "5"
    } else if d == 6 {
        "6"
    } else if d == 7 {
        "7"
    } else if d == 8 {
        "8"
    } else {
        "9"
    };
    assert(text@ =~= seq![digit(d as nat)]);
    s.append(text);
    assert(s@ =~= old(s)@.push(digit(d as nat)));
}

fn push_decimal(s: &mut String, n: u128)
    ensures
        final(s)@ == old(s)@ + decimal(n as nat),
    decreases n,
{
    if n >= 10 {
        push_decimal(s, n / 10);
    }
    let d: u8 = (n % 10) as u8;
    push_digit(s, d);
    assert(s@ =~= old(s)@ + decimal(n as nat));
}

/// Builds the name of a temporary made at stack pointer `depth`.
pub fn temporary_name(stem: &str, depth: u128) -> (name: String)
    ensures
        name@ == temporary(stem@, depth as nat),
{
    let mut name = String::from_str(stem);
    push_decimal(&mut name, depth);
    proof {
        reveal_strlit("%");
    }
    assert("%"@ =~= seq!['%']);
    name.append("%");
    name
}

} // verus!
