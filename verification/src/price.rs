//! Exchange price queries: the request's referenced item and the response's
//! crystal-priced group.

use vstd::prelude::*;
use crate::text::{chars_of, contains, contains_exec, string_from};
use crate::log_lines::{
    CRYSTAL_BASE_ID, bracket_i64_chars, bracket_text, bracket_text_chars, price_group_id_chars,
    spec_bracket_i64, spec_price_group_id,
};

verus! {

/// The character views of a sequence of strings.
pub open spec fn strs(v: Seq<String>) -> Seq<Seq<char>> {
    v.map_values(|s: String| s@)
}

/// What a price-search request asks about.
#[derive(Debug, Clone, Copy, PartialEq, Eq, Structural)]
pub struct PriceRequest {
    pub refer_base_id: Option<i64>,
}

/// The `+refer [N]` item of a request: the value on the last line that
/// carries the marker (which may fail to parse).
pub open spec fn spec_refer_base_id(lines: Seq<Seq<char>>) -> Option<i64>
    decreases lines.len(),
{
    if lines.len() == 0 {
        None
    } else if contains(lines.last(), "+refer ["@) {
        spec_bracket_i64(lines.last())
    } else {
        spec_refer_base_id(lines.drop_last())
    }
}

/// Reads the referenced item id from the lines of a price-search request.
pub fn parse_price_request(lines: &Vec<String>) -> (r: PriceRequest)
    ensures
        r.refer_base_id == spec_refer_base_id(strs(lines@)),
{
    let marker = chars_of("+refer [");
    let mut refer: Option<i64> = None;
    let mut i: usize = 0;
    while i < lines.len()
        invariant
            i <= lines@.len(),
            marker@ == "+refer ["@,
            refer == spec_refer_base_id(strs(lines@).take(i as int)),
        decreases lines@.len() - i,
    {
        let l = chars_of(lines[i].as_str());
        assert(strs(lines@).take(i + 1).drop_last() =~= strs(lines@).take(i as int));
        assert(strs(lines@).take(i + 1).last() == lines@[i as int]@);
        if contains_exec(l.as_slice(), marker.as_slice()) {
            refer = bracket_i64_chars(l.as_slice());
        }
        i += 1;
    }
    assert(strs(lines@).take(lines@.len() as int) =~= strs(lines@));
    PriceRequest { refer_base_id: refer }
}

/// One price group of a response.
pub struct GroupView {
    pub id: i64,
    pub currency: Option<i64>,
    pub prices: Seq<Seq<char>>,
}

/// Position of the group with the given id, searching from `i`.
pub open spec fn group_index_from(gs: Seq<GroupView>, id: i64, i: int) -> Option<int>
    decreases gs.len() - i,
{
    if i < 0 || i >= gs.len() {
        None
    } else if gs[i].id == id {
        Some(i)
    } else {
        group_index_from(gs, id, i + 1)
    }
}

pub open spec fn group_index(gs: Seq<GroupView>, id: i64) -> Option<int> {
    group_index_from(gs, id, 0)
}

/// Sets the currency of group `id`, creating the group if needed.
pub open spec fn with_currency(gs: Seq<GroupView>, id: i64, c: i64) -> Seq<GroupView> {
    match group_index(gs, id) {
        Some(i) => gs.update(i, GroupView { id, currency: Some(c), prices: gs[i].prices }),
        None => gs.push(GroupView { id, currency: Some(c), prices: seq![] }),
    }
}

/// Appends a price text to group `id`, creating the group if needed.
pub open spec fn with_price(gs: Seq<GroupView>, id: i64, t: Seq<char>) -> Seq<GroupView> {
    match group_index(gs, id) {
        Some(i) => gs.update(i, GroupView { id, currency: gs[i].currency, prices: gs[i].prices.push(t) }),
        None => gs.push(GroupView { id, currency: None, prices: seq![t] }),
    }
}

/// The state of a scan over response lines: the item gold id, the current
/// group and the groups seen so far.
pub struct ScanView {
    pub item_gold_id: Option<i64>,
    pub current: Option<i64>,
    pub groups: Seq<GroupView>,
}

/// One response line. `priced` says whether the bracketed text of the line
/// parses as a floating-point number.
pub open spec fn scan_step(st: ScanView, line: Seq<char>, priced: bool) -> ScanView {
    if contains(line, "+itemGoldId ["@) {
        ScanView { item_gold_id: spec_bracket_i64(line), ..st }
    } else {
        let current = match spec_price_group_id(line) {
            Some(g) => Some(g),
            None => st.current,
        };
        let gid: i64 = match current {
            Some(g) => g,
            None => 1,
        };
        if contains(line, "+currency ["@) {
            match spec_bracket_i64(line) {
                Some(c) => ScanView { current, groups: with_currency(st.groups, gid, c), ..st },
                None => ScanView { current, ..st },
            }
        } else if contains(line, seq!['.']) && priced {
            match bracket_text(line) {
                Some(t) => ScanView { current, groups: with_price(st.groups, gid, t), ..st },
                None => ScanView { current, ..st },
            }
        } else {
            ScanView { current, ..st }
        }
    }
}

pub open spec fn scan(lines: Seq<Seq<char>>, priced: Seq<bool>) -> ScanView
    decreases lines.len(),
{
    if lines.len() == 0 {
        ScanView { item_gold_id: None, current: None, groups: seq![] }
    } else {
        scan_step(
            scan(lines.drop_last(), priced),
            lines.last(),
            priced[lines.len() - 1],
        )
    }
}

/// The item gold id of a response: the bracketed number on the last line
/// that carries `+itemGoldId [` (which may fail to parse).
pub open spec fn last_gold_id(lines: Seq<Seq<char>>) -> Option<i64>
    decreases lines.len(),
{
    if lines.len() == 0 {
        None
    } else if contains(lines.last(), "+itemGoldId ["@) {
        spec_bracket_i64(lines.last())
    } else {
        last_gold_id(lines.drop_last())
    }
}

/// The scan's item gold id is that of the last gold-id line.
pub proof fn lemma_scan_gold_id(lines: Seq<Seq<char>>, priced: Seq<bool>)
    ensures
        scan(lines, priced).item_gold_id == last_gold_id(lines),
    decreases lines.len(),
{
    if lines.len() > 0 {
        lemma_scan_gold_id(lines.drop_last(), priced);
    }
}

/// A group priced in crystal with at least one price.
pub open spec fn qualifies(g: GroupView) -> bool {
    g.currency == Some(CRYSTAL_BASE_ID) && g.prices.len() > 0
}

/// The qualifying group with the smallest id.
pub open spec fn is_selected(gs: Seq<GroupView>, j: int) -> bool {
    &&& 0 <= j < gs.len()
    &&& qualifies(gs[j])
    &&& forall|k: int| 0 <= k < gs.len() && qualifies(#[trigger] gs[k]) ==> gs[j].id <= gs[k].id
}

/// The parsed content of a price-search response.
pub struct PriceResponse {
    pub item_gold_id: Option<i64>,
    pub currency_base_id: Option<i64>,
    /// The bracketed texts of the selected group's unit prices.
    pub unit_prices: Vec<String>,
    pub raw_lines: Vec<String>,
}

/// Group ids are distinct.
pub open spec fn distinct_ids(gs: Seq<GroupView>) -> bool {
    forall|a: int, b: int| 0 <= a < b < gs.len() ==> #[trigger] gs[a].id != #[trigger] gs[b].id
}

pub proof fn lemma_group_index(gs: Seq<GroupView>, id: i64, i: int)
    requires
        0 <= i,
    ensures
        group_index_from(gs, id, i) matches Some(k) ==> i <= k < gs.len() && gs[k].id == id,
        group_index_from(gs, id, i) is None ==> forall|k: int| i <= k < gs.len() ==> gs[k].id != id,
    decreases gs.len() - i,
{
    if i < gs.len() && gs[i].id != id {
        lemma_group_index(gs, id, i + 1);
    }
}

pub proof fn lemma_scan_distinct(lines: Seq<Seq<char>>, priced: Seq<bool>)
    requires
        priced.len() >= lines.len(),
    ensures
        distinct_ids(scan(lines, priced).groups),
    decreases lines.len(),
{
    if lines.len() > 0 {
        lemma_scan_distinct(lines.drop_last(), priced);
        let gs = scan(lines.drop_last(), priced).groups;
        let st = scan(lines.drop_last(), priced);
        let line = lines.last();
        let current = match spec_price_group_id(line) {
            Some(g) => Some(g),
            None => st.current,
        };
        let gid: i64 = match current {
            Some(g) => g,
            None => 1,
        };
        lemma_group_index(gs, gid, 0);
        if let Some(c) = spec_bracket_i64(line) {
            let g2 = with_currency(gs, gid, c);
            assert(distinct_ids(g2)) by {
                assert forall|a: int, b: int| 0 <= a < b < g2.len() implies #[trigger] g2[a].id
                    != #[trigger] g2[b].id by {
                    if b == gs.len() {
                        assert(g2[b].id == gid);
                    }
                }
            }
        }
        if let Some(t) = bracket_text(line) {
            let g3 = with_price(gs, gid, t);
            assert(distinct_ids(g3)) by {
                assert forall|a: int, b: int| 0 <= a < b < g3.len() implies #[trigger] g3[a].id
                    != #[trigger] g3[b].id by {
                    if b == gs.len() {
                        assert(g3[b].id == gid);
                    }
                }
            }
        }
    }
}


struct ExecGroup {
    id: i64,
    currency: Option<i64>,
    prices: Vec<String>,
}

spec fn gview(g: ExecGroup) -> GroupView {
    GroupView { id: g.id, currency: g.currency, prices: strs(g.prices@) }
}

spec fn gviews(gs: Seq<ExecGroup>) -> Seq<GroupView> {
    gs.map_values(|g: ExecGroup| gview(g))
}

fn find_group(gs: &Vec<ExecGroup>, id: i64) -> (r: Option<usize>)
    ensures
        r matches Some(i) ==> i < gs@.len(),
        r matches Some(i) ==> group_index(gviews(gs@), id) == Some(i as int),
        r is None ==> group_index(gviews(gs@), id) is None,
{
    let mut i: usize = 0;
    while i < gs.len()
        invariant
            i <= gs@.len(),
            group_index(gviews(gs@), id) == group_index_from(gviews(gs@), id, i as int),
        decreases gs@.len() - i,
    {
        if gs[i].id == id {
            proof {
                lemma_group_index(gviews(gs@), id, 0);
            }
            return Some(i);
        }
        i += 1;
    }
    None
}

fn set_currency(gs: &mut Vec<ExecGroup>, id: i64, c: i64)
    ensures
        gviews(final(gs)@) == with_currency(gviews(old(gs)@), id, c),
{
    match find_group(gs, id) {
        Some(i) => {
            let g = gs.remove(i);
            let ghost before = gviews(old(gs)@);
            gs.insert(i, ExecGroup { id, currency: Some(c), prices: g.prices });
            assert(gviews(gs@) =~= with_currency(before, id, c));
        },
        None => {
            gs.push(ExecGroup { id, currency: Some(c), prices: Vec::new() });
            assert(strs(Seq::<String>::empty()) =~= seq![]);
            assert(gviews(gs@) =~= with_currency(gviews(old(gs)@), id, c));
        },
    }
}

fn add_price(gs: &mut Vec<ExecGroup>, id: i64, t: String)
    ensures
        gviews(final(gs)@) == with_price(gviews(old(gs)@), id, t@),
{
    match find_group(gs, id) {
        Some(i) => {
            let g = gs.remove(i);
            let ghost before = gviews(old(gs)@);
            let mut prices = g.prices;
            let ghost p0 = prices@;
            prices.push(t);
            assert(strs(prices@) =~= strs(p0).push(t@));
            gs.insert(i, ExecGroup { id, currency: g.currency, prices });
            assert(gviews(gs@) =~= with_price(before, id, t@));
        },
        None => {
            let mut prices = Vec::new();
            prices.push(t);
            assert(strs(prices@) =~= seq![t@]);
            gs.push(ExecGroup { id, currency: None, prices });
            assert(gviews(gs@) =~= with_price(gviews(old(gs)@), id, t@));
        },
    }
}

pub fn copy_strings(v: &Vec<String>) -> (r: Vec<String>)
    ensures
        strs(r@) == strs(v@),
{
    let mut r: Vec<String> = Vec::new();
    let mut i: usize = 0;
    while i < v.len()
        invariant
            i <= v@.len(),
            r@.len() == i,
            strs(r@) == strs(v@).take(i as int),
        decreases v@.len() - i,
    {
        let ghost r0 = r@;
        let c = v[i].clone();
        assert(c@ == v@[i as int]@);
        r.push(c);
        assert forall|j: int| 0 <= j < i + 1 implies #[trigger] strs(r@)[j] == strs(v@)[j] by {
            if j < i {
                assert(r@[j] == r0[j]);
                assert(strs(r0)[j] == strs(v@).take(i as int)[j]);
            }
        }
        assert(strs(r@) =~= strs(v@).take(i + 1));
        i += 1;
    }
    assert(strs(v@).take(v@.len() as int) =~= strs(v@));
    r
}

/// Reads a price-search response. `priced[i]` tells whether the bracketed
/// text of `lines[i]` is a floating-point number; the texts of the selected
/// group are returned as written.
pub fn parse_price_response(lines: &Vec<String>, priced: &Vec<bool>) -> (r: PriceResponse)
    requires
        priced@.len() == lines@.len(),
    ensures
        r.item_gold_id == scan(strs(lines@), priced@).item_gold_id,
        r.item_gold_id == last_gold_id(strs(lines@)),
        strs(r.raw_lines@) == strs(lines@),
        (exists|j: int| is_selected(scan(strs(lines@), priced@).groups, j)) ==> (exists|j: int|
            is_selected(scan(strs(lines@), priced@).groups, j) && r.currency_base_id == Some(
                CRYSTAL_BASE_ID,
            ) && strs(r.unit_prices@) == scan(strs(lines@), priced@).groups[j].prices),
        !(exists|j: int| is_selected(scan(strs(lines@), priced@).groups, j)) ==> (
        r.currency_base_id is None && r.unit_prices@.len() == 0),
{
    let gold_marker = chars_of("+itemGoldId [");
    let currency_marker = chars_of("+currency [");
    let dot = vec!['.'];
    assert(dot@ =~= seq!['.']);
    let mut item_gold_id: Option<i64> = None;
    let mut current: Option<i64> = None;
    let mut groups: Vec<ExecGroup> = Vec::new();
    let mut i: usize = 0;
    while i < lines.len()
        invariant
            i <= lines@.len(),
            priced@.len() == lines@.len(),
            gold_marker@ == "+itemGoldId ["@,
            currency_marker@ == "+currency ["@,
            dot@ == seq!['.'],
            ({
                let st = scan(strs(lines@).take(i as int), priced@);
                &&& item_gold_id == st.item_gold_id
                &&& current == st.current
                &&& gviews(groups@) == st.groups
            }),
        decreases lines@.len() - i,
    {
        let l = chars_of(lines[i].as_str());
        assert(strs(lines@).take(i + 1).drop_last() =~= strs(lines@).take(i as int));
        assert(strs(lines@).take(i + 1).last() == l@);
        if contains_exec(l.as_slice(), gold_marker.as_slice()) {
            item_gold_id = bracket_i64_chars(l.as_slice());
        } else {
            if let Some(g) = price_group_id_chars(l.as_slice()) {
                current = Some(g);
            }
            let gid: i64 = match current {
                Some(g) => g,
                None => 1,
            };
            if contains_exec(l.as_slice(), currency_marker.as_slice()) {
                if let Some(c) = bracket_i64_chars(l.as_slice()) {
                    set_currency(&mut groups, gid, c);
                }
            } else if contains_exec(l.as_slice(), dot.as_slice()) && priced[i] {
                if let Some(t) = bracket_text_chars(l.as_slice()) {
                    let ts = string_from(t.as_slice());
                    add_price(&mut groups, gid, ts);
                }
            }
        }
        i += 1;
    }
    assert(strs(lines@).take(lines@.len() as int) =~= strs(lines@));
    let ghost gs = scan(strs(lines@), priced@).groups;
    proof {
        lemma_scan_distinct(strs(lines@), priced@);
        lemma_scan_gold_id(strs(lines@), priced@);
    }
    let mut best: Option<usize> = None;
    let mut k: usize = 0;
    while k < groups.len()
        invariant
            k <= groups@.len(),
            gviews(groups@) == gs,
            distinct_ids(gs),
            best matches Some(b) ==> b < k && qualifies(gs[b as int]) && forall|m: int|
                0 <= m < k && qualifies(#[trigger] gs[m]) ==> gs[b as int].id <= gs[m].id,
            best is None ==> forall|m: int| 0 <= m < k ==> !qualifies(#[trigger] gs[m]),
        decreases groups@.len() - k,
    {
        assert(gs[k as int] == gview(groups@[k as int]));
        let q = match groups[k].currency {
            Some(c) => c == CRYSTAL_BASE_ID,
            None => false,
        } && groups[k].prices.len() > 0;
        if q {
            match best {
                Some(b) => {
                    if groups[k].id < groups[b].id {
                        best = Some(k);
                    }
                },
                None => {
                    best = Some(k);
                },
            }
        }
        k += 1;
    }
    match best {
        Some(b) => {
            assert(is_selected(gs, b as int));
            PriceResponse {
                item_gold_id,
                currency_base_id: Some(CRYSTAL_BASE_ID),
                unit_prices: copy_strings(&groups[b].prices),
                raw_lines: copy_strings(lines),
            }
        },
        None => {
            assert forall|j: int| !is_selected(gs, j) by {}
            PriceResponse {
                item_gold_id,
                currency_base_id: None,
                unit_prices: Vec::new(),
                raw_lines: copy_strings(lines),
            }
        },
    }
}

} // verus!
