//! Contract records and the address-keyed registry they live in.

use vstd::prelude::*;
use crate::storage::Storage;

verus! {

/// The mathematical shape of a contract record.
#[verifier::ext_equal]
pub ghost struct ContractView {
    pub address: Seq<char>,
    pub code: Seq<u8>,
    pub storage: Map<Seq<char>, Seq<char>>,
    pub balance: u64,
}

/// An address-keyed record of executable code, persistent key-value storage,
/// and balance. Created on deploy, mutated by calls, never deleted.
pub struct WasmContract {
    pub address: String,
    pub code: Vec<u8>,
    pub storage: Storage,
    pub balance: u64,
}

impl View for WasmContract {
    type V = ContractView;

    open spec fn view(&self) -> ContractView {
        ContractView {
            address: self.address@,
            code: self.code@,
            storage: self.storage@,
            balance: self.balance,
        }
    }
}

/// The registry denoted by a sequence of contract records, keyed by address.
pub open spec fn registry_map(s: Seq<WasmContract>) -> Map<Seq<char>, ContractView>
    decreases s.len(),
{
    if s.len() == 0 {
        Map::empty()
    } else {
        registry_map(s.drop_last()).insert(s.last().address@, s.last()@)
    }
}

/// No two records share an address.
pub open spec fn unique_addresses(s: Seq<WasmContract>) -> bool {
    forall|i: int, j: int|
        0 <= i < j < s.len() ==> (#[trigger] s[i]).address@ != (#[trigger] s[j]).address@
}

/// An address matching no record is not in the registry.
pub proof fn lemma_registry_absent(s: Seq<WasmContract>, k: Seq<char>)
    requires
        forall|i: int| 0 <= i < s.len() ==> (#[trigger] s[i]).address@ != k,
    ensures
        !registry_map(s).contains_key(k),
    decreases s.len(),
{
    if s.len() > 0 {
        lemma_registry_absent(s.drop_last(), k);
    }
}

/// With unique addresses, the record at `i` gives the registry's value at its
/// address.
pub proof fn lemma_registry_at(s: Seq<WasmContract>, i: int)
    requires
        unique_addresses(s),
        0 <= i < s.len(),
    ensures
        registry_map(s).contains_key(s[i].address@),
        registry_map(s)[s[i].address@] == s[i]@,
    decreases s.len(),
{
    if i < s.len() - 1 {
        assert(unique_addresses(s.drop_last()));
        lemma_registry_at(s.drop_last(), i);
        assert(s[i].address@ != s.last().address@);
    }
}

/// With unique addresses, removing the record at `i` removes exactly its
/// address.
pub proof fn lemma_registry_remove(s: Seq<WasmContract>, i: int)
    requires
        unique_addresses(s),
        0 <= i < s.len(),
    ensures
        registry_map(s.remove(i)) == registry_map(s).remove(s[i].address@),
    decreases s.len(),
{
    let k = s[i].address@;
    if i == s.len() - 1 {
        assert(s.remove(i) =~= s.drop_last());
        lemma_registry_absent(s.drop_last(), k);
        assert(s.last() == s[i]);
        assert(registry_map(s).remove(k) =~= registry_map(s.drop_last()));
    } else {
        assert(unique_addresses(s.drop_last()));
        lemma_registry_remove(s.drop_last(), i);
        assert(s.remove(i).drop_last() =~= s.drop_last().remove(i));
        assert(s.remove(i).last() == s.last());
        assert(k != s.last().address@);
        assert(registry_map(s.drop_last()).remove(k).insert(s.last().address@, s.last()@)
            =~= registry_map(s.drop_last()).insert(s.last().address@, s.last()@).remove(k));
    }
}

/// Putting back a record with an address that matches no remaining record
/// extends the registry at exactly that address.
pub proof fn lemma_registry_push(s: Seq<WasmContract>, c: WasmContract)
    requires
        forall|i: int| 0 <= i < s.len() ==> (#[trigger] s[i]).address@ != c.address@,
        unique_addresses(s),
    ensures
        unique_addresses(s.push(c)),
        registry_map(s.push(c)) == registry_map(s).insert(c.address@, c@),
{
    assert(s.push(c).drop_last() =~= s);
    assert forall|a: int, b: int|
        0 <= a < b < s.push(c).len() implies (#[trigger] s.push(c)[a]).address@ != (
    #[trigger] s.push(c)[b]).address@ by {
        if b == s.len() {
            assert(s.push(c)[a] == s[a]);
        }
    }
}

} // verus!
