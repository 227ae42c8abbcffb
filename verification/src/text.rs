//! Text of numbers in messages.
use vstd::prelude::*;
use vstd::string::StringExecFns;

verus! {

/// Decimal digit `d`.
pub open spec fn digit_char(d: nat) -> char {
    if d == 0 {
        '0'
    } else if d == 1 {
        '1'
    } else if d == 2 {
        '2'
    } else if d == 3 {
        '3'
    } else if d == 4 {
        '4'
    } else if d == 5 {
        '5'
    } else if d == 6 {
        '6'
    } else if d == 7 {
        '7'
    } else if d == 8 {
        '8'
    } else {
        '9'
    }
}

/// `n` in decimal, without leading zeros.
pub open spec fn decimal_text(n: nat) -> Seq<char>
    decreases n,
{
    if n < 10 {
        seq![digit_char(n)]
    } else {
        decimal_text(n / 10) + seq![digit_char(n % 10)]
    }
}

/// Three numbers in brackets, separated by a comma and a space.
pub open spec fn triple_text(v: Seq<u32>) -> Seq<char> {
    "["@ + decimal_text(v[0] as nat) + ", "@ + decimal_text(v[1] as nat) + ", "@ + decimal_text(
        v[2] as nat,
    ) + "]"@
}

fn digit(d: u64) -> (s: &'static str)
    requires
        d < 10,
    ensures
        s@ == seq![digit_char(d as nat)],
{
    proof {
        reveal_strlit("0");
        reveal_strlit("1");
        reveal_strlit("2");
        reveal_strlit("3");
        reveal_strlit("4");
        reveal_strlit("5");
        reveal_strlit("6");
        reveal_strlit("7");
        reveal_strlit("8");
        reveal_strlit("9");
    }
    let s = if d == 0 {
        "0"
    } else if d == 1 {
        "1"
    } else if d == 2 {
        "2"
    } else if d == 3 {
        "3"
    } else if d == 4 {
        "4"
    } else if d == 5 {
        "5"
    } else if d == 6 {
        "6"
    } else if d == 7 {
        "7"
    } else if d == 8 {
        "8"
    } else {
        "9"
    };
    assert(s@ =~= seq![digit_char(d as nat)]);
    s
}

/// `n` in decimal.
pub fn decimal(n: u64) -> (s: String)
    ensures
        s@ == decimal_text(n as nat),
    decreases n,
{
    if n < 10 {
        digit(n).to_owned()
    } else {
        let mut s = decimal(n / 10);
        s.append(digit(n % 10));
        s
    }
}

/// Three numbers in brackets.
pub fn triple(v: &[u32; 3]) -> (s: String)
    ensures
        s@ == triple_text(v@),
{
    let mut s = "[".to_owned();
    s.append(decimal(v[0] as u64).as_str());
    s.append(", ");
    s.append(decimal(v[1] as u64).as_str());
    s.append(", ");
    s.append(decimal(v[2] as u64).as_str());
    s.append("]");
    s
}

// ── Laws ───────────────────────────────────────────────────────────────────────

/// Number that a sequence of decimal digits stands for.
pub open spec fn text_value(s: Seq<char>) -> int
    decreases s.len(),
{
    if s.len() == 0 {
        0
    } else {
        10 * text_value(s.drop_last()) + (s.last() as int - '0' as int)
    }
}

/// The text of a number is made of digits that stand for it, and has no leading zero.
pub proof fn decimal_is_read_back(n: nat)
    ensures
        text_value(decimal_text(n)) == n,
        forall|i: int|
            0 <= i < decimal_text(n).len() ==> '0' as int <= (#[trigger] decimal_text(n)[i]) as int
                <= '9' as int,
        decimal_text(n).len() >= 1,
        n > 0 ==> decimal_text(n)[0] != '0',
    decreases n,
{
    let s = decimal_text(n);
    if n < 10 {
        assert(s.drop_last() =~= Seq::<char>::empty());
        reveal_with_fuel(text_value, 2);
    } else {
        decimal_is_read_back(n / 10);
        assert(s.drop_last() =~= decimal_text(n / 10));
        assert(s.last() == digit_char(n % 10));
        assert forall|i: int| 0 <= i < s.len() implies '0' as int <= (#[trigger] s[i]) as int
            <= '9' as int by {
            if i < s.len() - 1 {
                assert(s[i] == decimal_text(n / 10)[i]);
            }
        }
        assert(s[0] == decimal_text(n / 10)[0]);
    }
}

/// Three numbers stand in their order, in brackets.
pub proof fn triple_holds_its_numbers(v: Seq<u32>)
    requires
        v.len() == 3,
    ensures
        ({
            let (a, b, c) = (
                decimal_text(v[0] as nat),
                decimal_text(v[1] as nat),
                decimal_text(v[2] as nat),
            );
            let s = triple_text(v);
            let x = 1 + a.len() as int;
            let y = x + 2 + b.len();
            let z = y + 2 + c.len();
            &&& s.len() == a.len() + b.len() + c.len() + 6
            &&& s[0] == '['
            &&& s.subrange(1, x) == a
            &&& s.subrange(x + 2, y) == b
            &&& s.subrange(y + 2, z) == c
            &&& s.last() == ']'
        }),
{
    reveal_strlit("[");
    reveal_strlit(", ");
    reveal_strlit("]");
    let (a, b, c) = (
        decimal_text(v[0] as nat),
        decimal_text(v[1] as nat),
        decimal_text(v[2] as nat),
    );
    let s = triple_text(v);
    let x = 1 + a.len() as int;
    let y = x + 2 + b.len();
    let z = y + 2 + c.len();
    assert(s.subrange(1, x) =~= a);
    assert(s.subrange(x + 2, y) =~= b);
    assert(s.subrange(y + 2, z) =~= c);
}

} // verus!
