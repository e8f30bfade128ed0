use vstd::prelude::*;
use crate::types::Address;

verus! {

/// A known token or contract.
#[derive(Clone, Debug)]
pub struct AddressBookEntry {
    pub address: Address,
    pub symbol: String,
    pub decimals: u8,
}

/// Registry of known tokens and contracts, at most one entry per address.
#[derive(Debug)]
pub struct AddressBook {
    entries: Vec<AddressBookEntry>,
}

impl AddressBook {
    /// The entries, by address.
    pub closed spec fn view_map(self) -> Map<Address, (Seq<char>, u8)> {
        Map::new(
            |a: Address| exists|i: int| 0 <= i < self.entries@.len() && self.entries@[i].address == a,
            |a: Address|
                {
                    let i = choose|i: int|
                        0 <= i < self.entries@.len() && self.entries@[i].address == a;
                    (self.entries@[i].symbol@, self.entries@[i].decimals)
                },
        )
    }

    pub closed spec fn wf(self) -> bool {
        forall|i: int, j: int|
            0 <= i < j < self.entries@.len() ==> (#[trigger] self.entries@[i]).address
                != (#[trigger] self.entries@[j]).address
    }

    pub fn new() -> (r: AddressBook)
        ensures
            r.wf(),
            r.view_map() == Map::<Address, (Seq<char>, u8)>::empty(),
    {
        let r = AddressBook { entries: Vec::new() };
        assert(r.view_map() =~= Map::<Address, (Seq<char>, u8)>::empty());
        r
    }

    fn position(&self, a: Address) -> (r: Option<usize>)
        ensures
            r matches Some(i) ==> i < self.entries@.len() && self.entries@[i as int].address == a,
            r is None ==> forall|i: int|
                0 <= i < self.entries@.len() ==> (#[trigger] self.entries@[i]).address != a,
    {
        let mut i: usize = 0;
        while i < self.entries.len()
            invariant
                i <= self.entries@.len(),
                forall|j: int| 0 <= j < i ==> (#[trigger] self.entries@[j]).address != a,
            decreases self.entries@.len() - i,
        {
            if self.entries[i].address == a {
                return Some(i);
            }
            i = i + 1;
        }
        None
    }

    /// The symbol and decimals recorded for `a`.
    pub fn lookup(&self, a: Address) -> (r: Option<&AddressBookEntry>)
        requires
            self.wf(),
        ensures
            r is None <==> !self.view_map().contains_key(a),
            r matches Some(e) ==> e.address == a && self.view_map()[a] == (e.symbol@, e.decimals),
    {
        match self.position(a) {
            Some(i) => {
                proof {
                    let k = choose|k: int| 0 <= k < self.entries@.len() && self.entries@[k].address == a;
                    if k < i {
                        assert(self.entries@[k].address != self.entries@[i as int].address);
                    } else if k > i {
                        assert(self.entries@[i as int].address != self.entries@[k].address);
                    }
                }
                Some(&self.entries[i])
            },
            None => None,
        }
    }

    /// Adds an entry for an address not yet known; an address already known
    /// keeps its entry and `false` is returned.
    pub fn insert(&mut self, e: AddressBookEntry) -> (r: bool)
        requires
            old(self).wf(),
        ensures
            final(self).wf(),
            r == !old(self).view_map().contains_key(e.address),
            r ==> final(self).view_map() == old(self).view_map().insert(
                e.address,
                (e.symbol@, e.decimals),
            ),
            !r ==> final(self).view_map() == old(self).view_map(),
    {
        if self.position(e.address).is_some() {
            return false;
        }
        let ghost a = e.address;
        let ghost v = (e.symbol@, e.decimals);
        let ghost before = self.entries@;
        self.entries.push(e);
        proof {
            let after = self.entries@;
            let n = before.len() as int;
            assert(after[n].address == a);
            assert forall|x: Address|
                #[trigger] self.view_map().contains_key(x) == old(self).view_map().insert(
                    a,
                    v,
                ).contains_key(x) by {
                if x != a && self.view_map().contains_key(x) {
                    let i = choose|i: int| 0 <= i < after.len() && after[i].address == x;
                    assert(before[i] == after[i]);
                }
                if x != a && old(self).view_map().contains_key(x) {
                    let i = choose|i: int| 0 <= i < before.len() && before[i].address == x;
                    assert(before[i] == after[i]);
                }
            }
            assert forall|x: Address| #[trigger]
                self.view_map().contains_key(x) implies self.view_map()[x] == old(
                self,
            ).view_map().insert(a, v)[x] by {
                let i = choose|i: int| 0 <= i < after.len() && after[i].address == x;
                if x == a {
                    assert(i == n);
                } else {
                    let j = choose|j: int| 0 <= j < before.len() && before[j].address == x;
                    assert(after[j] == before[j]);
                    if i < j {
                        assert(after[i].address != after[j].address);
                    } else if j < i {
                        assert(after[j].address != after[i].address);
                    }
                }
            }
            assert(self.view_map() =~= old(self).view_map().insert(a, v));
        }
        true
    }
}

} // verus!
