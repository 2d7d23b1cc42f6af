//! The texts that servers put into their reports: decimal numbers and listings
//! of node sets.

use std::collections::HashSet;
use vstd::prelude::*;
use vstd::std_specs::iter::IteratorSpec;
use vstd::string::StringExecFns;

verus! {

broadcast use vstd::std_specs::hash::group_hash_axioms;

/// The character of one decimal digit.
pub open spec fn digit(d: nat) -> char {
    (48 + d) as char
}

/// The decimal representation of a number, without leading zeros.
pub open spec fn decimal(n: nat) -> Seq<char>
    decreases n,
{
    if n < 10 {
        seq![digit(n)]
    } else {
        decimal(n / 10).push(digit(n % 10))
    }
}

fn digit_text(d: u64) -> (res: &'static str)
    requires
        d < 10,
    ensures
        res@ == seq![digit(d as nat)],
{
    proof {
        reveal_strlit("0");
        reveal_strlit("1");
        reveal_strlit("2");
        reveal_strlit("3");
        reveal_strlit("4");
        reveal_strlit("5");
        reveal_strlit("6");
        reveal_strlit("7");
        reveal_strlit("8");
        reveal_strlit("9");
    }
    match d {
        0 => "0",
        1 => "1",
        2 => "2",
        3 => "3",
        4 => "4",
        5 => "5",
        6 => "6",
        7 => "7",
        8 => "8",
        _ => "9",
    }
}

/// Writes a number in decimal.
pub fn decimal_text(n: u64) -> (res: String)
    ensures
        res@ == decimal(n as nat),
    decreases n,
{
    if n < 10 {
        String::from_str(digit_text(n))
    } else {
        let mut res = decimal_text(n / 10);
        res.append(digit_text(n % 10));
        res
    }
}

/// Writes a number between two texts.
pub fn numbered(before: &str, n: u64, after: &str) -> (res: String)
    ensures
        res@ == before@ + decimal(n as nat) + after@,
{
    let mut res = String::from_str(before);
    let number = decimal_text(n);
    res.append(number.as_str());
    res.append(after);
    res
}

/// `order` lists every member of `set`, each once.
pub open spec fn enumerates<A>(order: Seq<A>, set: Set<A>) -> bool {
    &&& order.no_duplicates()
    &&& forall|a: A| #[trigger] order.contains(a) <==> set.contains(a)
}

/// Lists the members of a set, in the order in which the set is walked.
pub fn members(set: &HashSet<u8>) -> (order: Vec<u8>)
    ensures
        enumerates(order@, set@),
{
    let mut order: Vec<u8> = Vec::new();
    let ghost walk = vstd::std_specs::hash::spec_hash_keys_iter(set).remaining();
    for node in iter: set.iter()
        invariant
            iter.seq() == walk,
            order@.len() == iter.index(),
            forall|i: int| 0 <= i < order@.len() ==> order@[i] == *walk[i],
    {
        order.push(*node);
    }
    proof {
        assert(order@ =~= walk.unref());
        assert forall|a: u8| #[trigger] order@.contains(a) <==> set@.contains(a) by {
            assert(walk.unref().to_set().contains(a) <==> walk.unref().contains(a));
        }
        assert forall|i: int, j: int| 0 <= i < order@.len() && 0 <= j < order@.len() && i != j implies order@[i] != order@[j] by {
            assert(walk[i] != walk[j]);
        }
    }
    order
}

/// The decimal representations of some numbers, separated by commas.
pub open spec fn comma_list(order: Seq<u8>) -> Seq<char>
    decreases order.len(),
{
    if order.len() == 0 {
        seq![]
    } else if order.len() == 1 {
        decimal(order[0] as nat)
    } else {
        comma_list(order.drop_last()) + ", "@ + decimal(order.last() as nat)
    }
}

/// A set written out in braces, its members in the given order.
pub open spec fn braced(order: Seq<u8>) -> Seq<char> {
    "{"@ + comma_list(order) + "}"@
}

/// Writes a set out in braces, in the order in which the set is walked.
pub fn set_text(set: &HashSet<u8>) -> (res: String)
    ensures
        exists|order: Seq<u8>| enumerates(order, set@) && res@ == #[trigger] braced(order),
{
    let order = members(set);
    let mut res = String::from_str("{");
    let mut i: usize = 0;
    while i < order.len()
        invariant
            i <= order@.len(),
            res@ == "{"@ + comma_list(order@.take(i as int)),
        decreases order.len() - i,
    {
        if i > 0 {
            res.append(", ");
        }
        let part = decimal_text(order[i] as u64);
        res.append(part.as_str());
        assert(order@.take(i + 1).drop_last() =~= order@.take(i as int));
        i = i + 1;
    }
    res.append("}");
    assert(order@.take(order@.len() as int) =~= order@);
    assert(res@ == braced(order@));
    res
}

} // verus!
