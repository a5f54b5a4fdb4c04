use vstd::prelude::*;

verus! {

/// The character of a decimal digit `d < 10`.
pub open spec fn digit_char(d: nat) -> char {
    seq!['0', '1', '2', '3', '4', '5', '6', '7', '8', '9'][d as int]
}

/// The decimal digits of `n`, most significant first, without leading zeros.
pub open spec fn digits(n: nat) -> Seq<char>
    decreases n,
{
    if n < 10 {
        seq![digit_char(n)]
    } else {
        digits(n / 10) + seq![digit_char(n % 10)]
    }
}

/// The decimal text of an integer, with a leading `-` when it is negative.
pub open spec fn decimal(i: int) -> Seq<char> {
    if i < 0 {
        seq!['-'] + digits((-i) as nat)
    } else {
        digits(i as nat)
    }
}

pub open spec fn bool_text(b: bool) -> Seq<char> {
    if b {
        seq!['t', 'r', 'u', 'e']
    } else {
        seq!['f', 'a', 'l', 's', 'e']
    }
}

/// The bytes as a bracketed list of decimals, separated by `, `.
pub open spec fn byte_list(b: Seq<u8>) -> Seq<char>
    decreases b.len(),
{
    if b.len() == 0 {
        seq![]
    } else if b.len() == 1 {
        digits(b[0] as nat)
    } else {
        byte_list(b.drop_last()) + seq![',', ' '] + digits(b.last() as nat)
    }
}

pub open spec fn bytes_text(b: Seq<u8>) -> Seq<char> {
    seq!['['] + byte_list(b) + seq![']']
}

/// Relies on the `Display` of `u64` (through `ToString`): plain decimal digits.
#[verifier::external_body]
fn u64_text(n: u64) -> (r: String)
    ensures
        r@ == digits(n as nat),
{
    n.to_string()
}

pub fn int_text(i: i64) -> (r: String)
    ensures
        r@ == decimal(i as int),
{
    if i < 0 {
        let m: u64 = (0i128 - i as i128) as u64;
        let d = u64_text(m);
        let minus = String::from_str("-");
        proof {
            reveal_strlit("-");
        }
        minus.concat(d.as_str())
    } else {
        u64_text(i as u64)
    }
}

pub fn count_text(n: usize) -> (r: String)
    ensures
        r@ == digits(n as nat),
{
    u64_text(n as u64)
}

pub fn bool_string(b: bool) -> (r: String)
    ensures
        r@ == bool_text(b),
{
    proof {
        reveal_strlit("true");
        reveal_strlit("false");
    }
    if b {
        let s = String::from_str("true");
        assert(s@ =~= bool_text(b));
        s
    } else {
        let s = String::from_str("false");
        assert(s@ =~= bool_text(b));
        s
    }
}

pub fn bytes_string(b: &Vec<u8>) -> (r: String)
    ensures
        r@ == bytes_text(b@),
{
    proof {
        reveal_strlit("[");
    }
    assert("["@ =~= seq!['[']) by {
        assert("["@.len() == 1);
        assert("["@[0] == '[');
    }
    let mut res = String::from_str("[");
    let mut i: usize = 0;
    while i < b.len()
        invariant
            i <= b@.len(),
            res@ == seq!['['] + byte_list(b@.subrange(0, i as int)),
        decreases b@.len() - i,
    {
        let ghost prev = b@.subrange(0, i as int);
        let ghost next = b@.subrange(0, i + 1);
        assert(next.drop_last() =~= prev);
        assert(next.last() == b@[i as int]);
        assert(next[0] == b@[0]);
        let ghost r0 = res@;
        if i > 0 {
            proof {
                reveal_strlit(", ");
            }
            res.append(", ");
            assert(", "@ =~= seq![',', ' ']) by {
                assert(", "@.len() == 2);
                assert(", "@[0] == ',');
                assert(", "@[1] == ' ');
            }
        }
        let d = u64_text(b[i] as u64);
        res.append(d.as_str());
        if i > 0 {
            assert(res@ =~= r0 + seq![',', ' '] + digits(b@[i as int] as nat));
        } else {
            assert(res@ =~= r0 + digits(b@[i as int] as nat));
        }
        assert(res@ =~= seq!['['] + byte_list(next));
        i = i + 1;
    }
    assert(b@.subrange(0, b@.len() as int) =~= b@);
    proof {
        reveal_strlit("]");
    }
    assert("]"@ =~= seq![']']) by {
        assert("]"@.len() == 1);
        assert("]"@[0] == ']');
    }
    res.append("]");
    res
}

} // verus!
