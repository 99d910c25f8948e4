//! The items the user excluded from valuation.

use vstd::prelude::*;
use std::collections::BTreeSet;
use crate::log_lines::CRYSTAL_BASE_ID;

verus! {

broadcast use vstd::std_specs::btree::group_btree_axioms, vstd::laws_cmp::group_laws_cmp;

/// A set of item ids.
pub struct IgnoredItems {
    ids: BTreeSet<i64>,
}

impl View for IgnoredItems {
    type V = Set<i64>;

    closed spec fn view(&self) -> Set<i64> {
        self.ids@
    }
}

impl IgnoredItems {
    /// No item is ignored.
    pub fn new() -> (r: IgnoredItems)
        ensures
            r@ == Set::<i64>::empty(),
    {
        IgnoredItems { ids: BTreeSet::new() }
    }

    /// The items of `ids`, as stored by the application.
    pub fn from_ids(ids: &Vec<i64>) -> (r: IgnoredItems)
        ensures
            r@ == ids@.to_set(),
    {
        let mut set: BTreeSet<i64> = BTreeSet::new();
        let mut i: usize = 0;
        while i < ids.len()
            invariant
                i <= ids@.len(),
                set@ == ids@.take(i as int).to_set(),
            decreases ids@.len() - i,
        {
            let id = ids[i];
            assert(ids@.take(i + 1) =~= ids@.take(i as int).push(id));
            proof {
                ids@.take(i as int).lemma_push_to_set_commute(id);
            }
            set.insert(id);
            i += 1;
        }
        assert(ids@.take(ids@.len() as int) =~= ids@);
        IgnoredItems { ids: set }
    }

    /// A copy of the set.
    pub fn copy(&self) -> (r: IgnoredItems)
        ensures
            r@ == self@,
    {
        IgnoredItems { ids: self.ids.clone() }
    }

    /// Whether the item is ignored.
    pub fn contains(&self, config_base_id: i64) -> (b: bool)
        ensures
            b == self@.contains(config_base_id),
    {
        self.ids.contains(&config_base_id)
    }

    /// The ignored items, each once, in ascending order of id.
    pub fn ids(&self) -> (r: Vec<i64>)
        ensures
            r@.to_set() == self@,
            r@.no_duplicates(),
    {
        let mut out: Vec<i64> = Vec::new();
        let iter = self.ids.iter();
        proof {
            vstd::std_specs::btree::axiom_spec_btree_keys_iter(&self.ids);
        }
        let ghost keys = vstd::std_specs::iter::IteratorSpec::remaining(&iter).map_values(|r: &i64| *r);
        assert(keys =~= vstd::std_specs::iter::IteratorSpec::remaining(&iter).unref());
        for x in it: iter
            invariant
                out@ == it.seq().take(it.index() as int).map_values(|r: &i64| *r),
                it.seq().map_values(|r: &i64| *r) == keys,
        {
            out.push(*x);
        }
        assert(out@ =~= keys);
        out
    }

    /// Marks an item ignored or counted again. Crystal cannot be ignored:
    /// asking for it is an error and changes nothing.
    pub fn set_item_ignored(&mut self, config_base_id: i64, ignored: bool) -> (r: Result<(), String>)
        ensures
            (config_base_id == CRYSTAL_BASE_ID && ignored) ==> {
                &&& r matches Err(e) && e@ == "crystal cannot be ignored"@
                &&& final(self)@ == old(self)@
            },
            !(config_base_id == CRYSTAL_BASE_ID && ignored) ==> {
                &&& r is Ok
                &&& final(self)@ == if ignored {
                    old(self)@.insert(config_base_id)
                } else {
                    old(self)@.remove(config_base_id)
                }
            },
            !old(self)@.contains(CRYSTAL_BASE_ID) ==> !final(self)@.contains(CRYSTAL_BASE_ID),
    {
        if config_base_id == CRYSTAL_BASE_ID && ignored {
            return Err("crystal cannot be ignored".to_owned());
        }
        if ignored {
            self.ids.insert(config_base_id);
        } else {
            self.ids.remove(&config_base_id);
        }
        Ok(())
    }
}

/// Whether a manual price may be set for the item: crystal's price is fixed
/// at one.
pub fn check_manual_price_item(config_base_id: i64) -> (r: Result<(), String>)
    ensures
        config_base_id == CRYSTAL_BASE_ID <==> r is Err,
        r matches Err(e) ==> e@ == "crystal price is fixed"@,
{
    if config_base_id == CRYSTAL_BASE_ID {
        Err("crystal price is fixed".to_owned())
    } else {
        Ok(())
    }
}

} // verus!
