use vstd::prelude::*;

verus! {

/// The balance that a ledger records for `address`; an address it does not know holds
/// nothing.
pub open spec fn balance_of(ledger: Map<Seq<char>, u64>, address: Seq<char>) -> nat {
    if ledger.contains_key(address) {
        ledger[address] as nat
    } else {
        0
    }
}

/// The sum of all balances of a finite ledger.
pub open spec fn supply(ledger: Map<Seq<char>, u64>) -> nat
    decreases ledger.dom().len(),
    when ledger.dom().finite()
{
    if ledger.dom().len() == 0 {
        0
    } else {
        let address = ledger.dom().choose();
        ledger[address] as nat + supply(ledger.remove(address))
    }
}

/// An empty ledger holds nothing.
pub proof fn lemma_supply_empty()
    ensures
        supply(Map::<Seq<char>, u64>::empty()) == 0,
{
    assert(Map::<Seq<char>, u64>::empty().dom() =~= Set::empty());
}

/// The supply is the balance of any one address plus the supply of the rest.
pub proof fn lemma_supply_remove(ledger: Map<Seq<char>, u64>, address: Seq<char>)
    requires
        ledger.dom().finite(),
        ledger.contains_key(address),
    ensures
        supply(ledger) == ledger[address] as nat + supply(ledger.remove(address)),
    decreases ledger.dom().len(),
{
    let chosen = ledger.dom().choose();
    if chosen != address {
        lemma_supply_remove(ledger.remove(chosen), address);
        lemma_supply_remove(ledger.remove(address), chosen);
        assert(ledger.remove(chosen).remove(address) =~= ledger.remove(address).remove(chosen));
    }
}

/// Writing a balance changes the supply by the difference to the balance it replaces.
pub proof fn lemma_supply_insert(ledger: Map<Seq<char>, u64>, address: Seq<char>, balance: u64)
    requires
        ledger.dom().finite(),
    ensures
        supply(ledger.insert(address, balance)) == supply(ledger) - balance_of(ledger, address)
            + balance,
{
    let written = ledger.insert(address, balance);
    lemma_supply_remove(written, address);
    assert(written.remove(address) =~= ledger.remove(address));
    if ledger.contains_key(address) {
        lemma_supply_remove(ledger, address);
    } else {
        assert(ledger.remove(address) =~= ledger);
    }
}

/// Forgetting an address takes its balance out of the supply.
pub proof fn lemma_supply_forget(ledger: Map<Seq<char>, u64>, address: Seq<char>)
    requires
        ledger.dom().finite(),
    ensures
        supply(ledger.remove(address)) == supply(ledger) - balance_of(ledger, address),
{
    if ledger.contains_key(address) {
        lemma_supply_remove(ledger, address);
    } else {
        assert(ledger.remove(address) =~= ledger);
    }
}

/// No single balance exceeds the supply.
pub proof fn lemma_balance_within_supply(ledger: Map<Seq<char>, u64>, address: Seq<char>)
    requires
        ledger.dom().finite(),
    ensures
        balance_of(ledger, address) <= supply(ledger),
{
    if ledger.contains_key(address) {
        lemma_supply_remove(ledger, address);
    }
}

} // verus!
