//! Numbering the pins of a part.

use vstd::prelude::*;
use std::collections::BTreeMap;
use crate::pcb::epin::{EPin, PinModel};

verus! {

/// The pins numbered from one in the order given.
pub open spec fn numbered<T>(pins: Seq<T>) -> Map<u64, T> {
    Map::new(|k: u64| 1 <= k <= pins.len(), |k: u64| pins[k - 1])
}

/// The pins of a part as values, by their numbers.
pub open spec fn pin_table(pins: Map<u64, EPin>) -> Map<u64, PinModel> {
    Map::new(|k: u64| pins.dom().contains(k), |k: u64| pins[k]@)
}

/// Whether numbers as keys are kept in their usual order.
pub open spec fn numbers_ordered() -> bool {
    vstd::laws_cmp::obeys_cmp::<u64>()
}

/// Numbers as keys are kept in their usual order.
pub proof fn lemma_numbers_ordered()
    ensures
        numbers_ordered(),
{
    broadcast use vstd::laws_cmp::group_laws_cmp;
}

/// Numbers the pins from one in the order given.
pub fn pin_list(pins: Vec<EPin>) -> (map: BTreeMap<u64, EPin>)
    requires
        pins.len() <= u64::MAX,
    ensures
        map@ == numbered(pins@),
{
    let ghost all = pins@;
    let mut rest = pins;
    let mut map: BTreeMap<u64, EPin> = BTreeMap::new();
    proof {
        lemma_numbers_ordered();
    }
    while rest.len() > 0
        invariant
            numbers_ordered(),
            all.len() <= u64::MAX,
            rest.len() <= all.len(),
            rest@ == all.take(rest.len() as int),
            map@.dom() =~= Set::new(|k: u64| rest.len() < k <= all.len()),
            forall|k: u64| rest.len() < k <= all.len() ==> map@[k] == all[k - 1],
        decreases rest.len(),
    {
        let n = rest.len();
        let number: u64 = n as u64;
        match rest.pop() {
            Some(pin) => {
                assert(pin == all[n - 1]);
                map.insert(number, pin);
                assert(rest@ =~= all.take(rest.len() as int));
            },
            None => {},
        }
    }
    assert(map@ =~= numbered(all));
    map
}

} // verus!
