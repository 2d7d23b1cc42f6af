//! What reports say.

use crate::node::{exclusion_words, loss_words, received_words};
use crate::packet::NodeId;
use crate::reassembly::ReconstructError;
use crate::text::{braced, comma_list, decimal, decimal_text, enumerates, set_text};
use std::collections::HashSet;
use vstd::prelude::*;

verus! {

/// The number that a row of decimal digits stands for.
pub open spec fn value_of(digits: Seq<char>) -> int
    decreases digits.len(),
{
    if digits.len() == 0 {
        0
    } else {
        10 * value_of(digits.drop_last()) + (digits.last() as int - '0' as int)
    }
}

/// A number is written in decimal digits that stand for it, without a leading zero unless it is
/// zero itself.
pub proof fn law_decimal_stands_for_the_number(n: nat)
    ensures
        value_of(decimal(n)) == n,
        decimal(n).len() > 0,
        forall|i: int| 0 <= i < decimal(n).len() ==> '0' <= #[trigger] decimal(n)[i] <= '9',
        n > 0 ==> decimal(n)[0] != '0',
    decreases n,
{
    if n < 10 {
        assert(decimal(n) =~= seq![decimal(n)[0]]);
        assert(decimal(n).drop_last() =~= seq![]);
        assert(decimal(n).last() as int == 48 + n);
        assert(value_of(seq![]) == 0);
    } else {
        law_decimal_stands_for_the_number(n / 10);
        assert(decimal(n).drop_last() =~= decimal(n / 10));
        assert(decimal(n)[0] == decimal(n / 10)[0]);
    }
}

/// `decimal_text` writes a number in decimal.
pub proof fn law_decimal_text(n: u64, res: String)
    requires
        call_ensures(decimal_text, (n,), res),
    ensures
        value_of(res@) == n,
        n > 0 ==> res@[0] != '0',
{
    law_decimal_stands_for_the_number(n as nat);
}

/// A list in braces holds the numbers in their order, with a comma and a space between them.
pub proof fn law_braces_hold_the_numbers(order: Seq<u8>, next: u8)
    ensures
        braced(order) == "{"@ + comma_list(order) + "}"@,
        comma_list(seq![]) == Seq::<char>::empty(),
        comma_list(order.push(next)) == (if order.len() == 0 {
            decimal(next as nat)
        } else {
            comma_list(order) + ", "@ + decimal(next as nat)
        }),
{
    assert(order.push(next).drop_last() =~= order);
    assert(order.push(next).last() == next);
}

/// `set_text` lists every member of a set once.
pub proof fn law_set_text(set: &HashSet<u8>, res: String)
    requires
        call_ensures(set_text, (set,), res),
    ensures
        exists|order: Seq<u8>|
            order.no_duplicates() && (forall|a: u8| #[trigger]
                order.contains(a) <==> set@.contains(a)) && res@ == #[trigger] braced(order),
{
    let order = choose|order: Seq<u8>| enumerates(order, set@) && res@ == #[trigger] braced(order);
    assert(order.no_duplicates() && (forall|a: u8| #[trigger]
        order.contains(a) <==> set@.contains(a)) && res@ == braced(order));
}

/// The reports name the server, and what they report by its numbers.
pub proof fn law_report_words(
    role: Seq<char>,
    id: NodeId,
    node: NodeId,
    count: nat,
    fragment: u64,
    order: Seq<NodeId>,
)
    ensures
        received_words(role, id, node) == role + decimal(id as nat) + ": received from "@
            + decimal(node as nat),
        loss_words(id, count, node, fragment) == "Server "@ + decimal(id as nat) + ": nack drop "@
            + decimal(count) + " from "@ + decimal(node as nat) + " / "@ + decimal(
            fragment as nat,
        ),
        exclusion_words(id, order) == "Server "@ + decimal(id as nat) + ": new route exclude "@
            + braced(order),
{
}

/// Either server names in its own words what is wrong with the fragments, with every number that
/// belongs to it.
pub proof fn law_error_words(error: &ReconstructError, content: String, communication: String)
    requires
        call_ensures(ReconstructError::content_text, (error,), content),
        call_ensures(ReconstructError::communication_text, (error,), communication),
    ensures
        match *error {
            ReconstructError::UnknownKey(key) => {
                &&& content@ == "No fragment found using key: "@ + decimal(key as nat)
                &&& communication@ == "No fragments found for the key: "@ + decimal(key as nat)
            },
            ReconstructError::NoFragments => {
                &&& content@ == "No fragment found"@
                &&& communication@ == "No fragments found in the list"@
            },
            ReconstructError::CountMismatch { total, held } => {
                &&& content@ == "Total number of fragments ("@ + decimal(total as nat)
                    + ") does not correspond with the Vec length ("@ + decimal(held as nat) + ")"@
                &&& communication@ == "Total number of fragments ("@ + decimal(total as nat)
                    + ") does not match the vector length ("@ + decimal(held as nat) + ")"@
            },
            ReconstructError::MissingFragment(index) => {
                &&& content@ == "Missing fragment of index: "@ + decimal(index as nat)
                &&& communication@ == "Missing fragment with index: "@ + decimal(index as nat)
            },
        },
{
}

} // verus!
