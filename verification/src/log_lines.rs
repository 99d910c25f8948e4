//! Recognisers for single lines of the game log: map loads, area levels,
//! inventory changes and the markers that frame exchange price queries.

use vstd::prelude::*;
use crate::text::{
    after, after_exec, after_last, after_last_exec, contains, contains_exec, first_word,
    first_word_exec, map_punct_pred, rfind_char, rfind_char_exec, lemma_rfind_char_before,
    trim, trim_by, trim_exec, trim_map_punct_exec, find, find_exec, lemma_find_from,
    starts_with, starts_with_exec, trim_end_by, trim_end_digits_exec, digit_pred, concat, split_once,
    int_decimal, i64_to_string, all_digits, chars_of, copy_range, digit_prefix, digit_prefix_exec,
    is_ascii_digit, is_ascii_digit_exec, lemma_run_end, non_ws_pred, opt_chars, opt_str, parse_i64,
    parse_i64_exec, run_end, string_from, to_vec, trim_start, trim_start_exec, word_run_end,
    ws_pred,
};

verus! {

/// `ConfigBaseId` of the crystal currency that the tracker counts.
pub const CRYSTAL_BASE_ID: i64 = 100300;

// ---------------------------------------------------------------------------
// Numbers after a marker
// ---------------------------------------------------------------------------

/// The run of ASCII digits that follows `marker` (after optional whitespace).
pub open spec fn spec_number_text_after(line: Seq<char>, marker: Seq<char>) -> Option<Seq<char>> {
    match after(line, marker) {
        Some(rest) => {
            let d = digit_prefix(trim_start(rest));
            if d.len() == 0 {
                None
            } else {
                Some(d)
            }
        },
        None => None,
    }
}

/// The integer written after `marker`, if it fits an `i64`.
pub open spec fn spec_number_after(line: Seq<char>, marker: Seq<char>) -> Option<i64> {
    match spec_number_text_after(line, marker) {
        Some(t) => parse_i64(t),
        None => None,
    }
}

pub fn number_text_after_chars(line: &[char], marker: &[char]) -> (r: Option<Vec<char>>)
    ensures
        opt_chars(r) == spec_number_text_after(line@, marker@),
        r matches Some(t) ==> all_digits(t@) && t@.len() > 0,
{
    match after_exec(line, marker) {
        Some(rest) => {
            let t = trim_start_exec(rest.as_slice());
            let d = digit_prefix_exec(t.as_slice());
            if d.len() == 0 {
                None
            } else {
                Some(d)
            }
        },
        None => None,
    }
}

pub fn number_after_chars(line: &[char], marker: &[char]) -> (r: Option<i64>)
    ensures
        r == spec_number_after(line@, marker@),
{
    match number_text_after_chars(line, marker) {
        Some(t) => parse_i64_exec(t.as_slice()),
        None => None,
    }
}

/// The digits that follow `marker` in `line`, after optional whitespace.
pub fn parse_number_text_after(line: &str, marker: &str) -> (r: Option<String>)
    ensures
        opt_str(r) == spec_number_text_after(line@, marker@),
        r matches Some(t) ==> all_digits(t@) && t@.len() > 0,
{
    let l = chars_of(line);
    let m = chars_of(marker);
    match number_text_after_chars(l.as_slice(), m.as_slice()) {
        Some(t) => Some(string_from(t.as_slice())),
        None => None,
    }
}

/// The integer that follows `marker` in `line`.
pub fn parse_number_after(line: &str, marker: &str) -> (r: Option<i64>)
    ensures
        r == spec_number_after(line@, marker@),
{
    let l = chars_of(line);
    let m = chars_of(marker);
    number_after_chars(l.as_slice(), m.as_slice())
}

// ---------------------------------------------------------------------------
// Area level and level identifiers
// ---------------------------------------------------------------------------

pub open spec fn spec_area_lv(line: Seq<char>) -> Option<i64> {
    match spec_number_after(line, "AreaLv ="@) {
        Some(v) => Some(v),
        None => spec_number_after(line, "AreaLv =="@),
    }
}

pub fn area_lv_chars(line: &[char]) -> (r: Option<i64>)
    ensures
        r == spec_area_lv(line@),
{
    let m1 = chars_of("AreaLv =");
    match number_after_chars(line, m1.as_slice()) {
        Some(v) => Some(v),
        None => {
            let m2 = chars_of("AreaLv ==");
            number_after_chars(line, m2.as_slice())
        },
    }
}

/// The area level announced on a line (`AreaLv = N` or `AreaLv == N`).
pub fn parse_area_lv(line: &str) -> (r: Option<i64>)
    ensures
        r == spec_area_lv(line@),
{
    let l = chars_of(line);
    area_lv_chars(l.as_slice())
}

/// The whitespace-separated words of `s` that consist of ASCII digits only.
pub open spec fn digit_words(s: Seq<char>) -> Seq<Seq<char>>
    decreases s.len(),
{
    let t = trim_start(s);
    if t.len() == 0 {
        seq![]
    } else {
        let e = run_end(t, non_ws_pred(), 0);
        proof {
            lemma_run_end(s, ws_pred(), 0);
            lemma_run_end(t, non_ws_pred(), 0);
            assert(e >= 1);
        }
        let w = t.take(e);
        let rest = digit_words(t.skip(e));
        if all_digits(w) {
            seq![w] + rest
        } else {
            rest
        }
    }
}

/// Level identifiers announced by the level manager.
pub struct LevelInfo {
    pub level_uid: String,
    pub level_id: Option<String>,
}

pub open spec fn spec_level_info(line: Seq<char>) -> Option<(Seq<char>, Option<Seq<char>>)> {
    match after(line, "LevelUid, LevelType, LevelId ="@) {
        Some(rest) => {
            let ds = digit_words(rest);
            if ds.len() == 0 {
                None
            } else {
                Some((ds[0], if ds.len() >= 3 { Some(ds[2]) } else { None }))
            }
        },
        None => match spec_number_text_after(line, "LevelUid ="@) {
            Some(uid) => Some((uid, None)),
            None => None,
        },
    }
}

pub open spec fn level_info_view(r: Option<LevelInfo>) -> Option<(Seq<char>, Option<Seq<char>>)> {
    match r {
        Some(info) => Some((info.level_uid@, opt_str(info.level_id))),
        None => None,
    }
}

/// The first three digit words of `s`, as far as there are any.
fn first_digit_words(s: &[char]) -> (r: (usize, Option<Vec<char>>, Option<Vec<char>>))
    ensures
        r.0 == if digit_words(s@).len() < 3 { digit_words(s@).len() } else { 3 },
        r.0 >= 1 ==> (r.1 matches Some(w) && w@ == digit_words(s@)[0]),
        r.0 >= 3 ==> (r.2 matches Some(w) && w@ == digit_words(s@)[2]),
{
    let mut cur = to_vec(s);
    let mut count: usize = 0;
    let mut first: Option<Vec<char>> = None;
    let mut third: Option<Vec<char>> = None;
    let ghost mut found: Seq<Seq<char>> = seq![];
    while count < 3
        invariant
            count <= 3,
            found.len() == count,
            found + digit_words(cur@) == digit_words(s@),
            count >= 1 ==> (first matches Some(w) && w@ == found[0]),
            count >= 3 ==> (third matches Some(w) && w@ == found[2]),
        decreases cur@.len(),
    {
        let t = trim_start_exec(cur.as_slice());
        if t.len() == 0 {
            assert(digit_words(cur@) =~= seq![]);
            assert(found =~= digit_words(s@));
            return (count, first, third);
        }
        let e = word_run_end(t.as_slice(), 0);
        proof {
            lemma_run_end(cur@, ws_pred(), 0);
            lemma_run_end(t@, non_ws_pred(), 0);
        }
        let w = copy_range(t.as_slice(), 0, e);
        let next = copy_range(t.as_slice(), e, t.len());
        assert(w@ =~= t@.take(e as int));
        assert(next@ =~= t@.skip(e as int));
        let mut all = true;
        let mut k: usize = 0;
        while k < w.len()
            invariant
                k <= w@.len(),
                all == (forall|m: int| 0 <= m < k ==> is_ascii_digit(#[trigger] w@[m])),
            decreases w@.len() - k,
        {
            if !is_ascii_digit_exec(w[k]) {
                all = false;
            }
            k += 1;
        }
        assert(all == all_digits(w@));
        if all {
            proof {
                assert(digit_words(cur@) =~= seq![w@] + digit_words(next@));
                assert(found.push(w@) + digit_words(next@) =~= found + digit_words(cur@));
                found = found.push(w@);
            }
            if count == 0 {
                first = Some(w);
            } else if count == 2 {
                third = Some(w);
            }
            count += 1;
        } else {
            assert(digit_words(cur@) =~= digit_words(next@));
        }
        cur = next;
    }
    (count, first, third)
}

pub fn level_info_chars(line: &[char]) -> (r: Option<LevelInfo>)
    ensures
        level_info_view(r) == spec_level_info(line@),
{
    let m = chars_of("LevelUid, LevelType, LevelId =");
    match after_exec(line, m.as_slice()) {
        Some(rest) => {
            let (count, first, third) = first_digit_words(rest.as_slice());
            if count == 0 {
                return None;
            }
            let uid = match first {
                Some(w) => string_from(w.as_slice()),
                None => String::new(),
            };
            let id = if count >= 3 {
                match third {
                    Some(w) => Some(string_from(w.as_slice())),
                    None => None,
                }
            } else {
                None
            };
            Some(LevelInfo { level_uid: uid, level_id: id })
        },
        None => {
            let m2 = chars_of("LevelUid =");
            match number_text_after_chars(line, m2.as_slice()) {
                Some(t) => Some(LevelInfo { level_uid: string_from(t.as_slice()), level_id: None }),
                None => None,
            }
        },
    }
}

/// The level UID and, when given, the level id that the level manager logs.
pub fn parse_level_info(line: &str) -> (r: Option<LevelInfo>)
    ensures
        level_info_view(r) == spec_level_info(line@),
{
    let l = chars_of(line);
    level_info_chars(l.as_slice())
}


// ---------------------------------------------------------------------------
// Map codes
// ---------------------------------------------------------------------------

/// A map component with quotes, commas, parentheses and any object path
/// (`Package.Object`) removed.
pub open spec fn spec_clean_map_component(value: Seq<char>) -> Seq<char> {
    let trimmed = trim_by(trim(value), map_punct_pred());
    let object = match rfind_char(trimmed, '.') {
        Some(i) => trimmed.skip(i + 1),
        None => trimmed,
    };
    trim_by(object, map_punct_pred())
}

pub fn clean_map_component_chars(value: &[char]) -> (out: Vec<char>)
    ensures
        out@ == spec_clean_map_component(value@),
{
    let t0 = trim_exec(value);
    let trimmed = trim_map_punct_exec(t0.as_slice());
    let n = trimmed.len();
    let object = match rfind_char_exec(trimmed.as_slice(), '.') {
        Some(i) => {
            proof {
                lemma_rfind_char_before(trimmed@, '.', trimmed@.len() as int);
            }
            let o = copy_range(trimmed.as_slice(), i + 1, n);
            assert(o@ =~= trimmed@.skip(i + 1));
            o
        },
        None => trimmed,
    };
    trim_map_punct_exec(object.as_slice())
}

/// Strips whitespace, quotes, commas, parentheses and any object path from a
/// map component.
pub fn clean_map_component(value: &str) -> (out: String)
    ensures
        out@ == spec_clean_map_component(value@),
{
    let v = chars_of(value);
    let c = clean_map_component_chars(v.as_slice());
    string_from(c.as_slice())
}

/// The marker whose path names the map on a map-load line.
pub open spec fn map_marker(line: Seq<char>) -> Seq<char> {
    if contains(line, "LoadMapName ="@) {
        "LoadMapName ="@
    } else if contains(line, "InMainLevelPath ="@) {
        "InMainLevelPath ="@
    } else {
        "MapName ="@
    }
}

pub open spec fn spec_map_code(line: Seq<char>) -> Option<Seq<char>> {
    if !contains(line, "MapName ="@) && !contains(line, "LoadMapName ="@) && !contains(
        line,
        "InMainLevelPath ="@,
    ) {
        None
    } else {
        match after(line, map_marker(line)) {
            None => None,
            Some(r0) => {
                let rest = trim(r0);
                let path = match first_word(rest) {
                    Some(w) => w,
                    None => rest,
                };
                let code = spec_clean_map_component(after_last(path, '/'));
                if code.len() == 0 {
                    None
                } else {
                    Some(code)
                }
            },
        }
    }
}

pub fn map_code_chars(line: &[char]) -> (r: Option<Vec<char>>)
    ensures
        opt_chars(r) == spec_map_code(line@),
{
    let m_map = chars_of("MapName =");
    let m_load = chars_of("LoadMapName =");
    let m_main = chars_of("InMainLevelPath =");
    let has_load = contains_exec(line, m_load.as_slice());
    let has_main = contains_exec(line, m_main.as_slice());
    if !contains_exec(line, m_map.as_slice()) && !has_load && !has_main {
        return None;
    }
    let marker = if has_load {
        m_load
    } else if has_main {
        m_main
    } else {
        m_map
    };
    match after_exec(line, marker.as_slice()) {
        None => None,
        Some(r0) => {
            let rest = trim_exec(r0.as_slice());
            let path = match first_word_exec(rest.as_slice()) {
                Some(w) => w,
                None => rest,
            };
            let last = after_last_exec(path.as_slice(), '/');
            let code = clean_map_component_chars(last.as_slice());
            if code.len() == 0 {
                None
            } else {
                Some(code)
            }
        },
    }
}

/// The map code named by a map-load line.
pub fn parse_map_code(line: &str) -> (r: Option<String>)
    ensures
        opt_str(r) == spec_map_code(line@),
{
    let l = chars_of(line);
    match map_code_chars(l.as_slice()) {
        Some(c) => Some(string_from(c.as_slice())),
        None => None,
    }
}

/// `str::trim_end_matches(|c| c.is_ascii_digit())`.
pub open spec fn spec_strip_numeric_suffix(value: Seq<char>) -> Seq<char> {
    trim_end_by(value, digit_pred())
}

/// A map code without its trailing digits.
pub fn strip_numeric_suffix(value: &str) -> (out: String)
    ensures
        out@ == spec_strip_numeric_suffix(value@),
{
    let v = chars_of(value);
    let t = trim_end_digits_exec(v.as_slice());
    string_from(t.as_slice())
}

// ---------------------------------------------------------------------------
// Town detection
// ---------------------------------------------------------------------------

pub open spec fn spec_is_town_line(line: Seq<char>) -> bool {
    ||| contains(line, "LevelUid=111000"@)
    ||| contains(line, "LevelUid = 111000"@)
    ||| contains(line, "LevelType, LevelId = 0"@)
    ||| contains(line, "+checkType [MainCity]"@)
    ||| contains(line, "XZ_YuJinZhiXiBiNanSuo"@)
}

pub fn is_town_line_chars(line: &[char]) -> (b: bool)
    ensures
        b == spec_is_town_line(line@),
{
    let a = chars_of("LevelUid=111000");
    let b = chars_of("LevelUid = 111000");
    let c = chars_of("LevelType, LevelId = 0");
    let d = chars_of("+checkType [MainCity]");
    let e = chars_of("XZ_YuJinZhiXiBiNanSuo");
    contains_exec(line, a.as_slice()) || contains_exec(line, b.as_slice()) || contains_exec(
        line,
        c.as_slice(),
    ) || contains_exec(line, d.as_slice()) || contains_exec(line, e.as_slice())
}

/// Whether a line shows that the player is in town.
pub fn is_town_line(line: &str) -> (b: bool)
    ensures
        b == spec_is_town_line(line@),
{
    let l = chars_of(line);
    is_town_line_chars(l.as_slice())
}

pub open spec fn spec_is_town_map_code(map_code: Seq<char>) -> bool {
    starts_with(map_code, "XZ_"@)
}

pub fn is_town_map_code_chars(map_code: &[char]) -> (b: bool)
    ensures
        b == spec_is_town_map_code(map_code@),
{
    let p = chars_of("XZ_");
    starts_with_exec(map_code, p.as_slice())
}

/// Whether a map code belongs to a town map.
pub fn is_town_map_code(map_code: &str) -> (b: bool)
    ensures
        b == spec_is_town_map_code(map_code@),
{
    let m = chars_of(map_code);
    is_town_map_code_chars(m.as_slice())
}

// ---------------------------------------------------------------------------
// Difficulty
// ---------------------------------------------------------------------------

/// The difficulty label shown for an area level.
pub open spec fn spec_difficulty(area_lv: Option<i64>) -> Seq<char> {
    match area_lv {
        Some(4) => "5단계"@,
        Some(5) => "6단계"@,
        Some(6) => "7-0"@,
        Some(7) => "7-1"@,
        Some(8) => "7-2"@,
        Some(9) => "8-0"@,
        Some(10) => "8-1"@,
        Some(11) => "8-2"@,
        Some(12) => "아득한 8단계"@,
        Some(13) => "딥 스페이스"@,
        _ => "-"@,
    }
}

/// The difficulty label for an area level, `-` when it is unknown.
pub fn difficulty_from_area_lv(area_lv: Option<i64>) -> (out: String)
    ensures
        out@ == spec_difficulty(area_lv),
{
    let label = match area_lv {
        Some(4) => "5단계",
        Some(5) => "6단계",
        Some(6) => "7-0",
        Some(7) => "7-1",
        Some(8) => "7-2",
        Some(9) => "8-0",
        Some(10) => "8-1",
        Some(11) => "8-2",
        Some(12) => "아득한 8단계",
        Some(13) => "딥 스페이스",
        _ => "-",
    };
    label.to_owned()
}

pub open spec fn is_ascii(c: char) -> bool {
    (c as u32) < 128
}

/// The area level encoded in a level UID of the form `1` + two digits + ...
/// (`level_uid.get(1..3)` read as an integer).
pub open spec fn spec_area_lv_from_level_uid(level_uid: Option<Seq<char>>) -> Option<i64> {
    match level_uid {
        None => None,
        Some(u) => if u.len() >= 3 && u[0] == '1' && is_ascii(u[1]) && is_ascii(u[2]) {
            parse_i64(u.subrange(1, 3))
        } else {
            None
        },
    }
}

/// The area level carried by a level UID, when it has the `1NN...` shape.
pub fn area_lv_from_level_uid(level_uid: Option<&str>) -> (r: Option<i64>)
    ensures
        r == spec_area_lv_from_level_uid(
            match level_uid {
                Some(u) => Some(u@),
                None => None,
            },
        ),
{
    match level_uid {
        None => None,
        Some(u) => {
            let cs = chars_of(u);
            if cs.len() >= 3 && cs[0] == '1' && (cs[1] as u32) < 128 && (cs[2] as u32) < 128 {
                let part = copy_range(cs.as_slice(), 1, 3);
                parse_i64_exec(part.as_slice())
            } else {
                None
            }
        },
    }
}

// ---------------------------------------------------------------------------
// Item-change protocol
// ---------------------------------------------------------------------------

pub open spec fn spec_proto_start(line: Seq<char>) -> Option<Seq<char>> {
    match after(line, "ItemChange@ ProtoName="@) {
        None => None,
        Some(rest) => match first_word(rest) {
            None => None,
            Some(proto) => if contains(rest, " start"@) {
                Some(proto)
            } else {
                None
            },
        },
    }
}

pub fn proto_start_chars(line: &[char]) -> (r: Option<Vec<char>>)
    ensures
        opt_chars(r) == spec_proto_start(line@),
{
    let m = chars_of("ItemChange@ ProtoName=");
    match after_exec(line, m.as_slice()) {
        None => None,
        Some(rest) => match first_word_exec(rest.as_slice()) {
            None => None,
            Some(proto) => {
                let st = chars_of(" start");
                if contains_exec(rest.as_slice(), st.as_slice()) {
                    Some(proto)
                } else {
                    None
                }
            },
        },
    }
}

/// The protocol whose item changes begin on this line.
pub fn parse_proto_start(line: &str) -> (r: Option<String>)
    ensures
        opt_str(r) == spec_proto_start(line@),
{
    let l = chars_of(line);
    match proto_start_chars(l.as_slice()) {
        Some(p) => Some(string_from(p.as_slice())),
        None => None,
    }
}

pub open spec fn spec_is_proto_end(line: Seq<char>) -> bool {
    contains(line, "ItemChange@ ProtoName="@) && contains(line, " end"@)
}

pub fn is_proto_end_chars(line: &[char]) -> (b: bool)
    ensures
        b == spec_is_proto_end(line@),
{
    let a = chars_of("ItemChange@ ProtoName=");
    let e = chars_of(" end");
    contains_exec(line, a.as_slice()) && contains_exec(line, e.as_slice())
}


/// Whether an item change adds a new stack or updates an existing one.
#[derive(Debug, Clone, Copy, PartialEq, Eq, Structural)]
pub enum ItemChangeKind {
    Add,
    Update,
}

/// One `ItemChange@ Add|Update` line.
#[derive(Debug)]
pub struct ItemUpdate {
    pub change_kind: ItemChangeKind,
    pub config_base_id: i64,
    pub item_instance_id: Option<String>,
    pub bag_num: i64,
    pub page_id: Option<i64>,
    pub slot_id: Option<i64>,
}

/// The mathematical content of an [`ItemUpdate`].
pub struct ItemUpdateView {
    pub change_kind: ItemChangeKind,
    pub config_base_id: i64,
    pub item_instance_id: Option<Seq<char>>,
    pub bag_num: i64,
    pub page_id: Option<i64>,
    pub slot_id: Option<i64>,
}

impl View for ItemUpdate {
    type V = ItemUpdateView;

    open spec fn view(&self) -> ItemUpdateView {
        ItemUpdateView {
            change_kind: self.change_kind,
            config_base_id: self.config_base_id,
            item_instance_id: opt_str(self.item_instance_id),
            bag_num: self.bag_num,
            page_id: self.page_id,
            slot_id: self.slot_id,
        }
    }
}

pub open spec fn opt_item_update(r: Option<ItemUpdate>) -> Option<ItemUpdateView> {
    match r {
        Some(u) => Some(u@),
        None => None,
    }
}

/// The change kind and the text after `Id=`.
pub open spec fn item_update_head(line: Seq<char>) -> Option<(ItemChangeKind, Seq<char>)> {
    match after(line, "ItemChange@ Update Id="@) {
        Some(rest) => Some((ItemChangeKind::Update, rest)),
        None => match after(line, "ItemChange@ Add Id="@) {
            Some(rest) => Some((ItemChangeKind::Add, rest)),
            None => None,
        },
    }
}

/// `id.split_once('_')`, or the whole id with no instance part.
pub open spec fn split_item_id(id: Seq<char>) -> (Seq<char>, Option<Seq<char>>) {
    match find(id, seq!['_']) {
        Some(i) => (id.take(i), Some(id.skip(i + 1))),
        None => (id, None),
    }
}

pub open spec fn spec_item_update(line: Seq<char>) -> Option<ItemUpdateView> {
    match item_update_head(line) {
        None => None,
        Some((kind, rest)) => match first_word(rest) {
            None => None,
            Some(id) => match parse_i64(split_item_id(id).0) {
                None => None,
                Some(config_base_id) => match spec_number_after(line, "BagNum="@) {
                    None => None,
                    Some(bag_num) => Some(
                        ItemUpdateView {
                            change_kind: kind,
                            config_base_id,
                            item_instance_id: split_item_id(id).1,
                            bag_num,
                            page_id: spec_number_after(line, "PageId="@),
                            slot_id: spec_number_after(line, "SlotId="@),
                        },
                    ),
                },
            },
        },
    }
}

pub fn item_update_chars(line: &[char]) -> (r: Option<ItemUpdate>)
    ensures
        opt_item_update(r) == spec_item_update(line@),
{
    let m_update = chars_of("ItemChange@ Update Id=");
    let (kind, rest) = match after_exec(line, m_update.as_slice()) {
        Some(rest) => (ItemChangeKind::Update, rest),
        None => {
            let m_add = chars_of("ItemChange@ Add Id=");
            match after_exec(line, m_add.as_slice()) {
                Some(rest) => (ItemChangeKind::Add, rest),
                None => {
                    return None;
                },
            }
        },
    };
    let id = match first_word_exec(rest.as_slice()) {
        Some(id) => id,
        None => {
            return None;
        },
    };
    let underscore = vec!['_'];
    assert(underscore@ =~= seq!['_']);
    let n = id.len();
    let (base, instance) = match find_exec(id.as_slice(), underscore.as_slice()) {
        Some(i) => {
            proof {
                lemma_find_from(id@, seq!['_'], 0);
            }
            let b = copy_range(id.as_slice(), 0, i);
            let inst = copy_range(id.as_slice(), i + 1, n);
            assert(b@ =~= id@.take(i as int));
            assert(inst@ =~= id@.skip(i + 1));
            (b, Some(string_from(inst.as_slice())))
        },
        None => (to_vec(id.as_slice()), None),
    };
    let config_base_id = match parse_i64_exec(base.as_slice()) {
        Some(v) => v,
        None => {
            return None;
        },
    };
    let m_bag = chars_of("BagNum=");
    let bag_num = match number_after_chars(line, m_bag.as_slice()) {
        Some(v) => v,
        None => {
            return None;
        },
    };
    let m_page = chars_of("PageId=");
    let m_slot = chars_of("SlotId=");
    Some(
        ItemUpdate {
            change_kind: kind,
            config_base_id,
            item_instance_id: instance,
            bag_num,
            page_id: number_after_chars(line, m_page.as_slice()),
            slot_id: number_after_chars(line, m_slot.as_slice()),
        },
    )
}

/// The inventory change described by an `ItemChange@ Add` or `Update` line.
pub fn parse_item_update(line: &str) -> (r: Option<ItemUpdate>)
    ensures
        opt_item_update(r) == spec_item_update(line@),
{
    let l = chars_of(line);
    item_update_chars(l.as_slice())
}

/// How many items a change added: the whole stack for `Add`, the growth
/// over the last known stack size for `Update`; `None` when nothing was
/// gained or the previous size is unknown.
pub open spec fn spec_inventory_delta(
    change_kind: ItemChangeKind,
    previous_bag_num: Option<i64>,
    current_bag_num: i64,
) -> Option<int> {
    let delta: Option<int> = match change_kind {
        ItemChangeKind::Add => Some(current_bag_num as int),
        ItemChangeKind::Update => match previous_bag_num {
            Some(p) => Some(current_bag_num - p),
            None => None,
        },
    };
    match delta {
        Some(d) => if d > 0 {
            Some(d)
        } else {
            None
        },
        None => None,
    }
}

/// The quantity gained by an item change, if any.
pub fn inventory_delta(
    change_kind: ItemChangeKind,
    previous_bag_num: Option<i64>,
    current_bag_num: i64,
) -> (r: Option<i64>)
    requires
        change_kind == ItemChangeKind::Update ==> (previous_bag_num matches Some(p) ==> i64::MIN
            <= current_bag_num - p <= i64::MAX),
    ensures
        r matches Some(d) ==> spec_inventory_delta(change_kind, previous_bag_num, current_bag_num)
            == Some(d as int),
        r is None ==> spec_inventory_delta(change_kind, previous_bag_num, current_bag_num) is None,
        r matches Some(d) ==> d > 0,
{
    let delta = match change_kind {
        ItemChangeKind::Add => current_bag_num,
        ItemChangeKind::Update => match previous_bag_num {
            Some(p) => current_bag_num - p,
            None => {
                return None;
            },
        },
    };
    if delta > 0 {
        Some(delta)
    } else {
        None
    }
}

/// The key under which an item's stack size is remembered: the config id and
/// the instance id, or the config id, page and slot.
pub open spec fn spec_inventory_key(u: ItemUpdateView) -> Seq<char> {
    match u.item_instance_id {
        Some(inst) => int_decimal(u.config_base_id as int) + seq![':'] + inst,
        None => int_decimal(u.config_base_id as int) + seq![':'] + int_decimal(
            match u.page_id {
                Some(p) => p as int,
                None => -1,
            },
        ) + seq![':'] + int_decimal(
            match u.slot_id {
                Some(s) => s as int,
                None => -1,
            },
        ),
    }
}

impl ItemUpdate {
    /// The key under which this item's stack size is remembered.
    pub fn inventory_key(&self) -> (out: String)
        ensures
            out@ == spec_inventory_key(self@),
    {
        let id = i64_to_string(self.config_base_id);
        let idc = chars_of(id.as_str());
        let colon = vec![':'];
        let head = concat(idc.as_slice(), colon.as_slice());
        match &self.item_instance_id {
            Some(inst) => {
                let ic = chars_of(inst.as_str());
                let all = concat(head.as_slice(), ic.as_slice());
                assert(all@ =~= spec_inventory_key(self@));
                string_from(all.as_slice())
            },
            None => {
                let page = match self.page_id {
                    Some(p) => p,
                    None => -1,
                };
                let slot = match self.slot_id {
                    Some(s) => s,
                    None => -1,
                };
                let ps = i64_to_string(page);
                let ss = i64_to_string(slot);
                let pc = chars_of(ps.as_str());
                let sc = chars_of(ss.as_str());
                let a = concat(head.as_slice(), pc.as_slice());
                let b = concat(a.as_slice(), colon.as_slice());
                let all = concat(b.as_slice(), sc.as_slice());
                assert(all@ =~= spec_inventory_key(self@));
                string_from(all.as_slice())
            },
        }
    }
}

// ---------------------------------------------------------------------------
// Exchange price messages
// ---------------------------------------------------------------------------

/// The marker that opens a price-search message in the given direction.
pub open spec fn message_start_marker(direction: Seq<char>) -> Seq<char> {
    "----Socket "@ + direction + " STT----XchgSearchPrice----SynId ="@
}

pub open spec fn spec_message_start(line: Seq<char>, direction: Seq<char>) -> Option<Seq<char>> {
    spec_number_text_after(line, message_start_marker(direction))
}

pub fn message_start_chars(line: &[char], direction: &[char]) -> (r: Option<Vec<char>>)
    ensures
        opt_chars(r) == spec_message_start(line@, direction@),
{
    let a = chars_of("----Socket ");
    let b = chars_of(" STT----XchgSearchPrice----SynId =");
    let ad = concat(a.as_slice(), direction);
    let marker = concat(ad.as_slice(), b.as_slice());
    number_text_after_chars(line, marker.as_slice())
}

/// The `SynId` of a price-search message that starts on this line.
pub fn parse_message_start(line: &str, direction: &str) -> (r: Option<String>)
    ensures
        opt_str(r) == spec_message_start(line@, direction@),
{
    let l = chars_of(line);
    let d = chars_of(direction);
    match message_start_chars(l.as_slice(), d.as_slice()) {
        Some(t) => Some(string_from(t.as_slice())),
        None => None,
    }
}

/// The text between the first `[` and the next `]`.
pub open spec fn bracket_text(line: Seq<char>) -> Option<Seq<char>> {
    match split_once(line, seq!['[']) {
        None => None,
        Some((_, rest)) => match split_once(rest, seq![']']) {
            None => None,
            Some((value, _)) => Some(value),
        },
    }
}

pub fn bracket_text_chars(line: &[char]) -> (r: Option<Vec<char>>)
    ensures
        opt_chars(r) == bracket_text(line@),
{
    let open = vec!['['];
    let close = vec![']'];
    assert(open@ =~= seq!['[']);
    assert(close@ =~= seq![']']);
    match after_exec(line, open.as_slice()) {
        None => None,
        Some(rest) => match find_exec(rest.as_slice(), close.as_slice()) {
            None => None,
            Some(i) => {
                proof {
                    lemma_find_from(rest@, seq![']'], 0);
                }
                let v = copy_range(rest.as_slice(), 0, i);
                assert(v@ =~= rest@.take(i as int));
                Some(v)
            },
        },
    }
}

pub open spec fn spec_bracket_i64(line: Seq<char>) -> Option<i64> {
    match bracket_text(line) {
        Some(v) => parse_i64(trim(v)),
        None => None,
    }
}

pub fn bracket_i64_chars(line: &[char]) -> (r: Option<i64>)
    ensures
        r == spec_bracket_i64(line@),
{
    match bracket_text_chars(line) {
        Some(v) => {
            let t = trim_exec(v.as_slice());
            parse_i64_exec(t.as_slice())
        },
        None => None,
    }
}

/// The integer written between the first `[` and the next `]`.
pub fn parse_bracket_i64(line: &str) -> (r: Option<i64>)
    ensures
        r == spec_bracket_i64(line@),
{
    let l = chars_of(line);
    bracket_i64_chars(l.as_slice())
}

/// The price group a response line belongs to: `+prices+N`, or the digits
/// after the first `+` on `+unitPrices` / `+currency` lines.
pub open spec fn spec_price_group_id(line: Seq<char>) -> Option<i64> {
    match spec_number_after(line, "+prices+"@) {
        Some(g) => Some(g),
        None => if !contains(line, "+unitPrices"@) && !contains(line, "+currency"@) {
            None
        } else {
            match after(line, seq!['+']) {
                None => None,
                Some(rest) => {
                    let d = digit_prefix(rest);
                    if d.len() == 0 {
                        None
                    } else {
                        parse_i64(d)
                    }
                },
            }
        },
    }
}

pub fn price_group_id_chars(line: &[char]) -> (r: Option<i64>)
    ensures
        r == spec_price_group_id(line@),
{
    let m = chars_of("+prices+");
    match number_after_chars(line, m.as_slice()) {
        Some(g) => Some(g),
        None => {
            let up = chars_of("+unitPrices");
            let cur = chars_of("+currency");
            if !contains_exec(line, up.as_slice()) && !contains_exec(line, cur.as_slice()) {
                return None;
            }
            let plus = vec!['+'];
            assert(plus@ =~= seq!['+']);
            match after_exec(line, plus.as_slice()) {
                None => None,
                Some(rest) => {
                    let d = digit_prefix_exec(rest.as_slice());
                    if d.len() == 0 {
                        None
                    } else {
                        parse_i64_exec(d.as_slice())
                    }
                },
            }
        },
    }
}

/// The price group that a price-response line opens or belongs to.
pub fn parse_price_group_id(line: &str) -> (r: Option<i64>)
    ensures
        r == spec_price_group_id(line@),
{
    let l = chars_of(line);
    price_group_id_chars(l.as_slice())
}

} // verus!
