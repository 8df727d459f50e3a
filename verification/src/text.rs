//! Text building blocks: decimal rendering of handles and counts.

use vstd::prelude::*;

verus! {

/// The character that stands for the decimal digit `d`.
pub open spec fn digit_char(d: nat) -> char {
    if d == 0 {
        '0'
    } else if d == 1 {
        '1'
    } else if d == 2 {
        '2'
    } else if d == 3 {
        '3'
    } else if d == 4 {
        '4'
    } else if d == 5 {
        '5'
    } else if d == 6 {
        '6'
    } else if d == 7 {
        '7'
    } else if d == 8 {
        '8'
    } else {
        '9'
    }
}

/// The decimal numeral of `n`: most significant digit first, no leading
/// zero, and the single digit `0` for zero.
pub open spec fn decimal(n: nat) -> Seq<char>
    decreases n,
{
    if n < 10 {
        seq![digit_char(n)]
    } else {
        decimal(n / 10).push(digit_char(n % 10))
    }
}

/// The one-character text of a decimal digit.
fn digit_str(d: u64) -> (r: &'static str)
    requires
        d < 10,
    ensures
        r@ == seq![digit_char(d as nat)],
{
    proof {
        reveal_strlit("0");
        reveal_strlit("1");
        reveal_strlit("2");
        reveal_strlit("3");
        reveal_strlit("4");
        reveal_strlit("5");
        reveal_strlit("6");
        reveal_strlit("7");
        reveal_strlit("8");
        reveal_strlit("9");
    }
    let r = if d == 0 {
        "0"
    } else if d == 1 {
        "1"
    } else if d == 2 {
        "2"
    } else if d == 3 {
        "3"
    } else if d == 4 {
        "4"
    } else if d == 5 {
        "5"
    } else if d == 6 {
        "6"
    } else if d == 7 {
        "7"
    } else if d == 8 {
        "8"
    } else {
        "9"
    };
    assert(r@ =~= seq![digit_char(d as nat)]);
    r
}

/// Renders `n` as its decimal numeral.
pub fn decimal_string(n: u64) -> (r: String)
    ensures
        r@ == decimal(n as nat),
    decreases n,
{
    if n < 10 {
        String::from_str(digit_str(n))
    } else {
        let mut s = decimal_string(n / 10);
        s.append(digit_str(n % 10));
        assert(s@ =~= decimal(n as nat));
        s
    }
}

/// A copy of a list of key and value pairs.
pub fn clone_pairs(pairs: &Vec<(String, String)>) -> (r: Vec<(String, String)>)
    ensures
        r.deep_view() == pairs.deep_view(),
{
    let mut copy: Vec<(String, String)> = Vec::new();
    let mut i: usize = 0;
    while i < pairs.len()
        invariant
            i <= pairs.len(),
            copy.deep_view() == pairs.deep_view().take(i as int),
        decreases pairs.len() - i,
    {
        let ghost before = copy.deep_view();
        let pair = (pairs[i].0.clone(), pairs[i].1.clone());
        copy.push(pair);
        assert(copy.deep_view() =~= before.push(pair.deep_view()));
        assert(copy.deep_view() =~= pairs.deep_view().take(i + 1));
        i += 1;
    }
    assert(pairs.deep_view().take(i as int) =~= pairs.deep_view());
    copy
}

/// Whether `needle` is one of `items`.
pub fn contains_string(items: &Vec<String>, needle: &String) -> (r: bool)
    ensures
        r == items.deep_view().contains(needle@),
{
    let mut i: usize = 0;
    while i < items.len()
        invariant
            i <= items.len(),
            forall|j: int| 0 <= j < i ==> items.deep_view()[j] != needle@,
        decreases items.len() - i,
    {
        if items[i] == *needle {
            assert(items.deep_view()[i as int] == needle@);
            return true;
        }
        i += 1;
    }
    false
}

/// The items of `items` in order, with `separator` between neighbours.
pub open spec fn join(items: Seq<Seq<char>>, separator: Seq<char>) -> Seq<char>
    decreases items.len(),
{
    if items.len() == 0 {
        Seq::empty()
    } else if items.len() == 1 {
        items[0]
    } else {
        join(items.drop_last(), separator) + separator + items.last()
    }
}

/// Joins the items with `separator` between neighbours.
pub fn join_strings(items: &Vec<String>, separator: &str) -> (r: String)
    ensures
        r@ == join(items.deep_view(), separator@),
{
    let mut joined = String::new();
    let mut i: usize = 0;
    while i < items.len()
        invariant
            i <= items.len(),
            joined@ == join(items.deep_view().take(i as int), separator@),
        decreases items.len() - i,
    {
        let ghost before = items.deep_view().take(i as int);
        let ghost after = items.deep_view().take(i + 1);
        assert(after.drop_last() =~= before);
        assert(after.last() == items[i as int]@);
        if i > 0 {
            joined.append(separator);
        }
        joined.append(items[i].as_str());
        assert(joined@ =~= join(after, separator@));
        i += 1;
    }
    assert(items.deep_view().take(i as int) =~= items.deep_view());
    joined
}

} // verus!
