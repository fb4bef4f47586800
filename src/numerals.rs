use vstd::prelude::*;

verus! {

/// Decimal digits of `n`, most significant first.
pub open spec fn digits(n: nat) -> Seq<nat>
    decreases n,
{
    if n < 10 {
        seq![n]
    } else {
        digits(n / 10).push(n % 10)
    }
}

/// The ASCII character of a decimal digit.
pub open spec fn ascii_digit(d: nat) -> char {
    if d == 0 { '0' }
    else if d == 1 { '1' }
    else if d == 2 { '2' }
    else if d == 3 { '3' }
    else if d == 4 { '4' }
    else if d == 5 { '5' }
    else if d == 6 { '6' }
    else if d == 7 { '7' }
    else if d == 8 { '8' }
    else { '9' }
}

/// The fullwidth character of a decimal digit.
pub open spec fn fullwidth_digit(d: nat) -> char {
    if d == 0 { '０' }
    else if d == 1 { '１' }
    else if d == 2 { '２' }
    else if d == 3 { '３' }
    else if d == 4 { '４' }
    else if d == 5 { '５' }
    else if d == 6 { '６' }
    else if d == 7 { '７' }
    else if d == 8 { '８' }
    else { '９' }
}

/// The decimal representation of `n` in ASCII digits.
pub open spec fn decimal(n: nat) -> Seq<char> {
    digits(n).map_values(|d: nat| ascii_digit(d))
}

/// The decimal representation of `n` in fullwidth digits.
pub open spec fn fullwidth(n: nat) -> Seq<char> {
    digits(n).map_values(|d: nat| fullwidth_digit(d))
}

/// The distance between an ASCII digit and its fullwidth form in Unicode.
pub const FULLWIDTH_OFFSET: u32 = 65248;

proof fn lemma_digits_in_range(n: nat)
    ensures
        digits(n).len() > 0,
        forall|i: int| 0 <= i < digits(n).len() ==> #[trigger] digits(n)[i] < 10,
    decreases n,
{
    if n >= 10 {
        lemma_digits_in_range(n / 10);
    }
}

proof fn lemma_digit_shift(d: nat)
    requires
        d < 10,
    ensures
        fullwidth_digit(d) as u32 == ascii_digit(d) as u32 + FULLWIDTH_OFFSET,
{
}

/// Each fullwidth digit of `n` is the ASCII digit at the same place of its
/// decimal form, moved by the fixed offset; the two forms have the same length.
pub proof fn lemma_fullwidth_shifts_decimal(n: nat)
    ensures
        fullwidth(n).len() == decimal(n).len(),
        forall|i: int|
            0 <= i < fullwidth(n).len() ==> #[trigger] fullwidth(n)[i] as u32 == decimal(n)[i] as u32
                + FULLWIDTH_OFFSET,
{
    lemma_digits_in_range(n);
    assert forall|i: int| 0 <= i < fullwidth(n).len() implies #[trigger] fullwidth(n)[i] as u32
        == decimal(n)[i] as u32 + FULLWIDTH_OFFSET by {
        lemma_digit_shift(digits(n)[i]);
    }
}

fn fullwidth_digit_str(d: u64) -> (r: &'static str)
    requires
        d < 10,
    ensures
        r@ == seq![fullwidth_digit(d as nat)],
{
    if d == 0 {
        proof { reveal_strlit("０"); }
        "０"
    } else if d == 1 {
        proof { reveal_strlit("１"); }
        "１"
    } else if d == 2 {
        proof { reveal_strlit("２"); }
        "２"
    } else if d == 3 {
        proof { reveal_strlit("３"); }
        "３"
    } else if d == 4 {
        proof { reveal_strlit("４"); }
        "４"
    } else if d == 5 {
        proof { reveal_strlit("５"); }
        "５"
    } else if d == 6 {
        proof { reveal_strlit("６"); }
        "６"
    } else if d == 7 {
        proof { reveal_strlit("７"); }
        "７"
    } else if d == 8 {
        proof { reveal_strlit("８"); }
        "８"
    } else {
        proof { reveal_strlit("９"); }
        "９"
    }
}

/// Writes `num` in decimal with the fullwidth digits ０ to ９.
pub fn to_jp_intstring(num: u64) -> (r: String)
    ensures
        r@ == fullwidth(num as nat),
{
    let mut m: u64 = num;
    let mut acc = String::new();
    loop
        invariant
            fullwidth(num as nat) == fullwidth(m as nat) + acc@,
        decreases m,
    {
        let d: u64 = m % 10;
        let s = fullwidth_digit_str(d);
        let mut next = String::from_str(s);
        next.append(acc.as_str());
        if m < 10 {
            assert(fullwidth(m as nat) =~= seq![fullwidth_digit(m as nat)]);
            assert(next@ =~= fullwidth(num as nat));
            return next;
        }
        assert(fullwidth(m as nat) =~= fullwidth((m / 10) as nat).push(fullwidth_digit(d as nat)));
        assert(fullwidth(num as nat) =~= fullwidth((m / 10) as nat) + next@);
        m = m / 10;
        acc = next;
    }
}

} // verus!
