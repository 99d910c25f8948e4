//! Static lookup tables shipped with the overlay: Korean item names keyed by
//! `ConfigBaseId`, and Korean zone names keyed by internal map code or level id.
//!
//! The tables are read from JSON by the application; here they are plain
//! values with exact lookup contracts.

use vstd::prelude::*;
use std::collections::BTreeMap;
use crate::text::{chars_eq, chars_of, opt_str, parse_i64, parse_i64_exec};
use crate::log_lines::{spec_strip_numeric_suffix, strip_numeric_suffix};

verus! {

broadcast use vstd::set::group_set_axioms, vstd::map::group_map_axioms,
    vstd::std_specs::btree::group_btree_axioms, vstd::laws_cmp::group_laws_cmp;

/// The item-name table that `raw` (JSON keys in the order given, with their
/// optional Korean names) describes: keys that are not `i64` numbers are
/// dropped, and a later key with the same number replaces an earlier one.
pub open spec fn raw_items_map(raw: Seq<(String, Option<String>)>) -> Map<i64, Option<Seq<char>>>
    decreases raw.len(),
{
    if raw.len() == 0 {
        Map::empty()
    } else {
        let m = raw_items_map(raw.drop_last());
        match parse_i64(raw.last().0@) {
            Some(id) => m.insert(id, opt_str(raw.last().1)),
            None => m,
        }
    }
}

/// Korean item names by `ConfigBaseId`.
pub struct OfflineItems {
    table: BTreeMap<i64, Option<String>>,
}

impl View for OfflineItems {
    type V = Map<i64, Option<Seq<char>>>;

    closed spec fn view(&self) -> Map<i64, Option<Seq<char>>> {
        self.table@.map_values(|v: Option<String>| opt_str(v))
    }
}

impl OfflineItems {
    /// An empty table.
    pub fn new() -> (r: OfflineItems)
        ensures
            r@ == Map::<i64, Option<Seq<char>>>::empty(),
    {
        let r = OfflineItems { table: BTreeMap::new() };
        assert(r@ =~= Map::<i64, Option<Seq<char>>>::empty());
        r
    }

    /// Builds the table from JSON entries, in the order the JSON object lists
    /// them; keys that do not parse as `i64` are skipped.
    pub fn from_entries(raw: Vec<(String, Option<String>)>) -> (r: OfflineItems)
        ensures
            r@ == raw_items_map(raw@),
    {
        let mut table: BTreeMap<i64, Option<String>> = BTreeMap::new();
        assert(table@.map_values(|v: Option<String>| opt_str(v)) =~= raw_items_map(raw@.take(0)));
        let mut i: usize = 0;
        while i < raw.len()
            invariant
                i <= raw@.len(),
                table@.map_values(|v: Option<String>| opt_str(v)) == raw_items_map(raw@.take(i as int)),
            decreases raw@.len() - i,
        {
            assert(raw@.take(i + 1).drop_last() =~= raw@.take(i as int));
            let key = chars_of(raw[i].0.as_str());
            let name = raw[i].1.clone();
            match parse_i64_exec(key.as_slice()) {
                Some(id) => {
                    let ghost prev = table@;
                    table.insert(id, name);
                    assert(table@.map_values(|v: Option<String>| opt_str(v)) =~= prev.map_values(
                        |v: Option<String>| opt_str(v),
                    ).insert(id, opt_str(name)));
                },
                None => {},
            }
            i += 1;
        }
        assert(raw@.take(raw@.len() as int) =~= raw@);
        OfflineItems { table }
    }

    /// The Korean name of an item, when the table has one.
    pub fn item_name_ko(&self, config_base_id: i64) -> (r: Option<String>)
        ensures
            opt_str(r) == if self@.contains_key(config_base_id) {
                self@[config_base_id]
            } else {
                None
            },
    {
        match self.table.get(&config_base_id) {
            Some(entry) => match entry {
                Some(n) => Some(n.clone()),
                None => None,
            },
            None => None,
        }
    }

    /// How many item ids the table holds.
    pub fn item_count(&self) -> (r: usize)
        ensures
            r == self@.dom().len(),
    {
        assert(self@.dom() =~= self.table@.dom());
        self.table.len()
    }
}

// ---------------------------------------------------------------------------
// Zones
// ---------------------------------------------------------------------------

/// The value of the first entry whose key is `key`.
pub open spec fn first_value<V>(entries: Seq<(Seq<char>, V)>, key: Seq<char>) -> Option<V>
    decreases entries.len(),
{
    if entries.len() == 0 {
        None
    } else if entries[0].0 == key {
        Some(entries[0].1)
    } else {
        first_value(entries.drop_first(), key)
    }
}

/// `a` comes before `b` in the order of `String`'s `Ord`: character by
/// character, a proper prefix first.
pub open spec fn text_before(a: Seq<char>, b: Seq<char>) -> bool
    decreases a.len(),
{
    if b.len() == 0 {
        false
    } else if a.len() == 0 {
        true
    } else if a[0] != b[0] {
        (a[0] as u32) < (b[0] as u32)
    } else {
        text_before(a.drop_first(), b.drop_first())
    }
}

/// Keys strictly ascending, so each key occurs once.
pub open spec fn keys_ascending<V>(s: Seq<(Seq<char>, V)>) -> bool {
    forall|i: int, j: int| 0 <= i < j < s.len() ==> text_before(#[trigger] s[i].0, #[trigger] s[j].0)
}

/// Every table ordered by key, as the JSON objects' maps are.
pub open spec fn tables_ordered(v: OfflineMapsView) -> bool {
    &&& keys_ascending(v.by_internal_code)
    &&& keys_ascending(v.by_level_id)
    &&& keys_ascending(v.ambiguous_by_internal_code)
    &&& forall|i: int|
        0 <= i < v.ambiguous_by_internal_code.len() ==> keys_ascending(
            #[trigger] v.ambiguous_by_internal_code[i].1,
        )
}

pub proof fn lemma_text_before_irreflexive(a: Seq<char>)
    ensures
        !text_before(a, a),
    decreases a.len(),
{
    if a.len() > 0 {
        lemma_text_before_irreflexive(a.drop_first());
    }
}

pub proof fn lemma_text_before_transitive(a: Seq<char>, b: Seq<char>, c: Seq<char>)
    requires
        text_before(a, b),
        text_before(b, c),
    ensures
        text_before(a, c),
    decreases a.len(),
{
    if a.len() > 0 && b.len() > 0 && c.len() > 0 && a[0] == b[0] && b[0] == c[0] {
        lemma_text_before_transitive(a.drop_first(), b.drop_first(), c.drop_first());
    }
}

fn text_before_exec(a: &str, b: &str) -> (r: bool)
    ensures
        r == text_before(a@, b@),
{
    let x = chars_of(a);
    let y = chars_of(b);
    let mut i: usize = 0;
    assert(x@.skip(0) =~= x@);
    assert(y@.skip(0) =~= y@);
    while i < x.len() && i < y.len()
        invariant
            i <= x@.len(),
            i <= y@.len(),
            x@ == a@,
            y@ == b@,
            text_before(x@, y@) == text_before(x@.skip(i as int), y@.skip(i as int)),
        decreases x@.len() - i,
    {
        assert(x@.skip(i as int)[0] == x@[i as int]);
        assert(y@.skip(i as int)[0] == y@[i as int]);
        if x[i] != y[i] {
            assert(x@.skip(i as int).len() > 0 && y@.skip(i as int).len() > 0);
            assert(text_before(x@.skip(i as int), y@.skip(i as int)) == ((x@[i as int] as u32) < (y@[i as int] as u32)));
            return (x[i] as u32) < (y[i] as u32);
        }
        assert(x@.skip(i as int).drop_first() =~= x@.skip(i + 1));
        assert(y@.skip(i as int).drop_first() =~= y@.skip(i + 1));
        i += 1;
    }
    assert(i == x@.len() ==> x@.skip(i as int).len() == 0);
    assert(i == y@.len() ==> y@.skip(i as int).len() == 0);
    i < y.len()
}

/// Whether consecutive keys ascend, and so all of them.
fn pairs_ascending(s: &Vec<(String, String)>) -> (r: bool)
    ensures
        r == keys_ascending(pair_view(s@)),
{
    let ghost v = pair_view(s@);
    let mut i: usize = 1;
    while i < s.len()
        invariant
            v == pair_view(s@),
            1 <= i,
            s@.len() == 0 || i <= s@.len(),
            forall|a: int, b: int| 0 <= a < b < i && b < v.len() ==> text_before(#[trigger] v[a].0, #[trigger] v[b].0),
        decreases s@.len() - i,
    {
        if !text_before_exec(s[i - 1].0.as_str(), s[i].0.as_str()) {
            assert(v[i - 1].0 == s@[i - 1].0@ && v[i as int].0 == s@[i as int].0@);
            return false;
        }
        assert forall|a: int, b: int| 0 <= a < b < i + 1 && b < v.len() implies text_before(
            #[trigger] v[a].0,
            #[trigger] v[b].0,
        ) by {
            if b == i as int && a < i - 1 {
                lemma_text_before_transitive(v[a].0, v[i - 1].0, v[b].0);
            }
        }
        i += 1;
    }
    true
}

/// Whether the group keys, and the keys inside each group, ascend.
fn groups_ascending(s: &Vec<(String, Vec<(String, String)>)>) -> (r: bool)
    ensures
        r == (keys_ascending(group_view(s@)) && forall|i: int|
            0 <= i < group_view(s@).len() ==> keys_ascending(#[trigger] group_view(s@)[i].1)),
{
    let ghost v = group_view(s@);
    let mut i: usize = 0;
    while i < s.len()
        invariant
            v == group_view(s@),
            i <= s@.len(),
            forall|a: int, b: int| 0 <= a < b < i ==> text_before(#[trigger] v[a].0, #[trigger] v[b].0),
            forall|a: int| 0 <= a < i ==> keys_ascending(#[trigger] v[a].1),
        decreases s@.len() - i,
    {
        assert(v[i as int].1 == pair_view(s@[i as int].1@));
        if !pairs_ascending(&s[i].1) {
            return false;
        }
        if i > 0 {
            if !text_before_exec(s[i - 1].0.as_str(), s[i].0.as_str()) {
                assert(v[i - 1].0 == s@[i - 1].0@ && v[i as int].0 == s@[i as int].0@);
                return false;
            }
        }
        assert forall|a: int, b: int| 0 <= a < b < i + 1 implies text_before(
            #[trigger] v[a].0,
            #[trigger] v[b].0,
        ) by {
            if b == i as int && a < i - 1 {
                lemma_text_before_transitive(v[a].0, v[i - 1].0, v[b].0);
            }
        }
        i += 1;
    }
    true
}

/// Korean zone names: by internal map code, by level id, and, for internal
/// codes shared by several zones, every candidate in level-id order.
pub struct OfflineMaps {
    zones_by_internal_code: Vec<(String, String)>,
    zones_by_level_id: Vec<(String, String)>,
    ambiguous_zones_by_internal_code: Vec<(String, Vec<(String, String)>)>,
}

pub open spec fn pair_view(s: Seq<(String, String)>) -> Seq<(Seq<char>, Seq<char>)> {
    s.map_values(|p: (String, String)| (p.0@, p.1@))
}

pub open spec fn group_view(s: Seq<(String, Vec<(String, String)>)>) -> Seq<
    (Seq<char>, Seq<(Seq<char>, Seq<char>)>),
> {
    s.map_values(|p: (String, Vec<(String, String)>)| (p.0@, pair_view(p.1@)))
}

/// The mathematical content of [`OfflineMaps`].
pub struct OfflineMapsView {
    pub by_internal_code: Seq<(Seq<char>, Seq<char>)>,
    pub by_level_id: Seq<(Seq<char>, Seq<char>)>,
    pub ambiguous_by_internal_code: Seq<(Seq<char>, Seq<(Seq<char>, Seq<char>)>)>,
}

impl View for OfflineMaps {
    type V = OfflineMapsView;

    closed spec fn view(&self) -> OfflineMapsView {
        OfflineMapsView {
            by_internal_code: pair_view(self.zones_by_internal_code@),
            by_level_id: pair_view(self.zones_by_level_id@),
            ambiguous_by_internal_code: group_view(self.ambiguous_zones_by_internal_code@),
        }
    }
}

/// `lookup_map_name`: the zone name for a map code, trying the exact code,
/// then the level id, then the first candidate of an ambiguous code.
pub open spec fn spec_lookup_map_name(
    maps: OfflineMapsView,
    map_code: Seq<char>,
    level_id: Option<Seq<char>>,
) -> Option<Seq<char>> {
    if map_code.len() == 0 {
        None
    } else {
        match first_value(maps.by_internal_code, map_code) {
            Some(name) => Some(name),
            None => {
                let by_level = match level_id {
                    Some(l) => first_value(maps.by_level_id, l),
                    None => None,
                };
                match by_level {
                    Some(name) => Some(name),
                    None => match first_value(maps.ambiguous_by_internal_code, map_code) {
                        Some(zones) => if zones.len() > 0 {
                            Some(zones[0].1)
                        } else {
                            None
                        },
                        None => None,
                    },
                }
            },
        }
    }
}

/// `map_name_from_code`: the looked-up name of the code, else of the code
/// without its numeric suffix, else the code itself.
pub open spec fn spec_map_name_from_code(
    maps: OfflineMapsView,
    map_code: Seq<char>,
    level_id: Option<Seq<char>>,
) -> Seq<char> {
    match spec_lookup_map_name(maps, map_code, level_id) {
        Some(name) => name,
        None => match spec_lookup_map_name(maps, spec_strip_numeric_suffix(map_code), level_id) {
            Some(name) => name,
            None => map_code,
        },
    }
}

fn first_pair_value(entries: &Vec<(String, String)>, key: &[char]) -> (r: Option<String>)
    ensures
        opt_str(r) == first_value(pair_view(entries@), key@),
{
    let mut j: usize = 0;
    assert(pair_view(entries@).skip(0) =~= pair_view(entries@));
    while j < entries.len()
        invariant
            j <= entries@.len(),
            first_value(pair_view(entries@), key@) == first_value(
                pair_view(entries@).skip(j as int),
                key@,
            ),
        decreases entries@.len() - j,
    {
        let k = chars_of(entries[j].0.as_str());
        assert(pair_view(entries@).skip(j as int).drop_first() =~= pair_view(entries@).skip(
            j + 1,
        ));
        if chars_eq(k.as_slice(), key) {
            return Some(entries[j].1.clone());
        }
        j += 1;
    }
    None
}

impl OfflineMaps {
    #[verifier::type_invariant]
    closed spec fn well_formed(self) -> bool {
        tables_ordered(self@)
    }

    /// Tables from the three JSON objects, each in key order.
    pub fn new(
        zones_by_internal_code: Vec<(String, String)>,
        zones_by_level_id: Vec<(String, String)>,
        ambiguous_zones_by_internal_code: Vec<(String, Vec<(String, String)>)>,
    ) -> (r: OfflineMaps)
        requires
            tables_ordered(
                OfflineMapsView {
                    by_internal_code: pair_view(zones_by_internal_code@),
                    by_level_id: pair_view(zones_by_level_id@),
                    ambiguous_by_internal_code: group_view(ambiguous_zones_by_internal_code@),
                },
            ),
        ensures
            r@.by_internal_code == pair_view(zones_by_internal_code@),
            r@.by_level_id == pair_view(zones_by_level_id@),
            r@.ambiguous_by_internal_code == group_view(ambiguous_zones_by_internal_code@),
            tables_ordered(r@),
    {
        OfflineMaps { zones_by_internal_code, zones_by_level_id, ambiguous_zones_by_internal_code }
    }

    /// Tables from the three JSON objects, when each is in key order (as a
    /// JSON object read into an ordered map is); otherwise none.
    pub fn from_ordered(
        zones_by_internal_code: Vec<(String, String)>,
        zones_by_level_id: Vec<(String, String)>,
        ambiguous_zones_by_internal_code: Vec<(String, Vec<(String, String)>)>,
    ) -> (r: Option<OfflineMaps>)
        ensures
            r is Some <==> tables_ordered(
                OfflineMapsView {
                    by_internal_code: pair_view(zones_by_internal_code@),
                    by_level_id: pair_view(zones_by_level_id@),
                    ambiguous_by_internal_code: group_view(ambiguous_zones_by_internal_code@),
                },
            ),
            r matches Some(m) ==> {
                &&& m@.by_internal_code == pair_view(zones_by_internal_code@)
                &&& m@.by_level_id == pair_view(zones_by_level_id@)
                &&& m@.ambiguous_by_internal_code == group_view(ambiguous_zones_by_internal_code@)
                &&& tables_ordered(m@)
            },
    {
        if pairs_ascending(&zones_by_internal_code) && pairs_ascending(&zones_by_level_id)
            && groups_ascending(&ambiguous_zones_by_internal_code) {
            Some(OfflineMaps::new(zones_by_internal_code, zones_by_level_id, ambiguous_zones_by_internal_code))
        } else {
            None
        }
    }


    /// Tables with no zones.
    pub fn empty() -> (r: OfflineMaps)
        ensures
            r@.by_internal_code.len() == 0,
            r@.by_level_id.len() == 0,
            r@.ambiguous_by_internal_code.len() == 0,
            tables_ordered(r@),
    {
        OfflineMaps {
            zones_by_internal_code: Vec::new(),
            zones_by_level_id: Vec::new(),
            ambiguous_zones_by_internal_code: Vec::new(),
        }
    }

    fn first_ambiguous(&self, key: &[char]) -> (r: Option<String>)
        ensures
            opt_str(r) == match first_value(self@.ambiguous_by_internal_code, key@) {
                Some(zones) => if zones.len() > 0 {
                    Some(zones[0].1)
                } else {
                    None
                },
                None => None,
            },
    {
        let groups = &self.ambiguous_zones_by_internal_code;
        let mut j: usize = 0;
        assert(group_view(groups@).skip(0) =~= group_view(groups@));
        while j < groups.len()
            invariant
                j <= groups@.len(),
                groups == self.ambiguous_zones_by_internal_code,
                first_value(self@.ambiguous_by_internal_code, key@) == first_value(
                    group_view(groups@).skip(j as int),
                    key@,
                ),
            decreases groups@.len() - j,
        {
            let k = chars_of(groups[j].0.as_str());
            assert(group_view(groups@).skip(j as int).drop_first() =~= group_view(groups@).skip(
                j + 1,
            ));
            if chars_eq(k.as_slice(), key) {
                let zones = &groups[j].1;
                if zones.len() > 0 {
                    return Some(zones[0].1.clone());
                } else {
                    return None;
                }
            }
            j += 1;
        }
        None
    }

    fn lookup_chars(&self, map_code: &[char], level_id: Option<&[char]>) -> (r: Option<String>)
        ensures
            opt_str(r) == spec_lookup_map_name(
                self@,
                map_code@,
                match level_id {
                    Some(l) => Some(l@),
                    None => None,
                },
            ),
    {
        if map_code.len() == 0 {
            return None;
        }
        if let Some(name) = first_pair_value(&self.zones_by_internal_code, map_code) {
            return Some(name);
        }
        if let Some(level_id) = level_id {
            if let Some(name) = first_pair_value(&self.zones_by_level_id, level_id) {
                return Some(name);
            }
        }
        self.first_ambiguous(map_code)
    }

    /// The Korean zone name for a map code (and level id), when the tables
    /// know one.
    pub fn lookup_map_name(&self, map_code: &str, level_id: Option<&str>) -> (r: Option<String>)
        ensures
            tables_ordered(self@),
            opt_str(r) == spec_lookup_map_name(
                self@,
                map_code@,
                match level_id {
                    Some(l) => Some(l@),
                    None => None,
                },
            ),
    {
        proof {
            use_type_invariant(self);
        }
        let code = chars_of(map_code);
        match level_id {
            Some(l) => {
                let lc = chars_of(l);
                self.lookup_chars(code.as_slice(), Some(lc.as_slice()))
            },
            None => self.lookup_chars(code.as_slice(), None),
        }
    }

    /// The display name for a map code: its zone name, the zone name of the
    /// code without trailing digits, or the code itself.
    pub fn map_name_from_code(&self, map_code: &str, level_id: Option<&str>) -> (r: String)
        ensures
            r@ == spec_map_name_from_code(
                self@,
                map_code@,
                match level_id {
                    Some(l) => Some(l@),
                    None => None,
                },
            ),
    {
        if let Some(name) = self.lookup_map_name(map_code, level_id) {
            return name;
        }
        let stripped = strip_numeric_suffix(map_code);
        if let Some(name) = self.lookup_map_name(stripped.as_str(), level_id) {
            return name;
        }
        map_code.to_owned()
    }
}

} // verus!
