//! What the cursor and the mouse point at: the selected agent, the selected
//! group, and the card under a click.
use vstd::prelude::*;
use crate::store::{Model, set_map};
use crate::strmap::StrSet;
use crate::model::{sort_mode_of, now_ms};
use crate::directory::{is_directory_order, filtered, directory_sorted_at, directory_filter_handles_at, keep_seq,
    apply_focus_filter};
use crate::store::config_or;
use crate::text::{views, seq_lt, str_lt};
use crate::view::{EntryView, entries_view, LayoutEntry, LayoutItem};

verus! {

broadcast use vstd::string::group_string_axioms;

/// The handles that the directory lists at time `now`: in directory order,
/// narrowed by the filter query when there is one.
pub open spec fn listed(hs: Seq<Seq<char>>, m: Model, filter: Option<Seq<char>>, now: int) -> bool {
    exists|sorted: Seq<Seq<char>>| #[trigger] is_directory_order(sorted, m.directory,
        sort_mode_of(config_or(m.config.text_map(), "sort"@, "by-worktree"@)), m.pinned.set(), now)
        && hs == (match filter {
            Some(q) => if q.len() == 0 { sorted } else { filtered(sorted, m.directory, q, set_map(m.tags), now) },
            None => sorted,
        })
}

/// The text of an optional borrowed string.
pub open spec fn opt_str_view(o: Option<&str>) -> Option<Seq<char>> {
    match o {
        Some(q) => Some(q@),
        None => None,
    }
}

/// Element `i` of `hs`, if there is one.
pub open spec fn pick(hs: Seq<Seq<char>>, i: int) -> Option<Seq<char>> {
    if 0 <= i < hs.len() { Some(hs[i]) } else { None }
}

/// The handles the directory lists at time `now` (`filter` is the filter
/// query when filtering is on).
pub fn listed_handles_at(model: &Model, filter: Option<&str>, now: i64) -> (r: Vec<String>)
    requires
        model.wf(),
    ensures
        listed(views(r@), *model, opt_str_view(filter), now as int),
{
    let mode = model.sort_mode();
    let sorted = directory_sorted_at(&model.directory, mode, &model.pinned, now);
    match filter {
        Some(q) => {
            directory_filter_handles_at(sorted.as_slice(), &model.directory, q, &model.tags, now)
        },
        None => sorted,
    }
}

/// The agent under the cursor at time `now`.
pub fn selected_agent_handle_at(model: &Model, filter: Option<&str>, cursor: usize, now: i64) -> (r: Option<String>)
    requires
        model.wf(),
    ensures
        exists|hs: Seq<Seq<char>>| #[trigger] listed(hs, *model, opt_str_view(filter), now as int)
            && (match r { Some(h) => pick(hs, cursor as int) == Some(h@), None => pick(hs, cursor as int) is None }),
{
    let hs = listed_handles_at(model, filter, now);
    if cursor < hs.len() {
        Some(hs[cursor].clone())
    } else {
        None
    }
}

/// The agent under the cursor now.
pub fn selected_agent_handle(model: &Model, filter: Option<&str>, cursor: usize) -> (r: Option<String>)
    requires
        model.wf(),
    ensures
        exists|now: int, hs: Seq<Seq<char>>| #[trigger] listed(hs, *model, opt_str_view(filter), now)
            && (match r { Some(h) => pick(hs, cursor as int) == Some(h@), None => pick(hs, cursor as int) is None }),
{
    let now = now_ms();
    selected_agent_handle_at(model, filter, cursor, now)
}

/// The agent under the cursor at time `now`, with focus mode narrowing the
/// list to the selected agents (when any are selected).
pub fn current_directory_handle_at(model: &Model, filter: Option<&str>, focus_mode: bool, selected: &StrSet,
    cursor: usize, now: i64) -> (r: Option<String>)
    requires
        model.wf(),
    ensures
        exists|hs: Seq<Seq<char>>| #[trigger] listed(hs, *model, opt_str_view(filter), now as int)
            && (match r {
                Some(h) => pick(if focus_mode && selected.item_seq().len() > 0 {
                    keep_seq(hs, |x: Seq<char>| selected.set().contains(x)) } else { hs }, cursor as int) == Some(h@),
                None => pick(if focus_mode && selected.item_seq().len() > 0 {
                    keep_seq(hs, |x: Seq<char>| selected.set().contains(x)) } else { hs }, cursor as int) is None,
            }),
{
    let hs = listed_handles_at(model, filter, now);
    let ghost hv = views(hs@);
    let shown = apply_focus_filter(hs, focus_mode, selected);
    if cursor < shown.len() {
        Some(shown[cursor].clone())
    } else {
        None
    }
}

/// How many of `keys` come before `k`.
pub open spec fn rank(keys: Seq<Seq<char>>, k: Seq<char>) -> nat
    decreases keys.len(),
{
    if keys.len() == 0 {
        0
    } else {
        rank(keys.drop_last(), k) + if seq_lt(keys.last(), k) { 1nat } else { 0nat }
    }
}

/// The group under the cursor on the groups tab: the group name with
/// exactly `cursor` names before it (names in sorted order).
pub fn selected_group_name(model: &Model, on_groups_tab: bool, cursor: usize) -> (r: Option<String>)
    requires
        model.wf(),
    ensures
        !on_groups_tab ==> r is None,
        on_groups_tab ==> match r {
            Some(n) => model.groups.key_seq().contains(n@) && rank(model.groups.key_seq(), n@) == cursor,
            None => forall|i: int| 0 <= i < model.groups.key_seq().len()
                ==> rank(model.groups.key_seq(), #[trigger] model.groups.key_seq()[i]) != cursor,
        },
{
    if !on_groups_tab {
        return None;
    }
    let ghost keys = model.groups.key_seq();
    let n = model.groups.entries.len();
    let mut i: usize = 0;
    while i < n
        invariant
            n == model.groups.entries@.len(),
            keys == model.groups.key_seq(),
            on_groups_tab,
            i <= n,
            forall|j: int| 0 <= j < i ==> rank(keys, #[trigger] keys[j]) != cursor,
        decreases n - i,
    {
        let k = &model.groups.entries[i].0;
        let mut c: usize = 0;
        let mut j: usize = 0;
        while j < n
            invariant
                n == model.groups.entries@.len(),
                keys == model.groups.key_seq(),
                i < n,
                k@ == keys[i as int],
                j <= n,
                c as nat == rank(keys.take(j as int), k@),
                c <= j,
            decreases n - j,
        {
            assert(keys.take(j + 1).drop_last() =~= keys.take(j as int));
            if str_lt(model.groups.entries[j].0.as_str(), k.as_str()) {
                c = c + 1;
            }
            j += 1;
        }
        assert(keys.take(n as int) =~= keys);
        if c == cursor {
            assert(keys[i as int] == k@);
            return Some(k.clone());
        }
        i += 1;
    }
    None
}

/// The card under a click: the first card, in layout order, that is not
/// scrolled above the view and whose rectangle on screen (scrolled by
/// `scroll_y`, `inner_y` rows down) holds the point `(x, y)`.
pub open spec fn card_hit(l: Seq<EntryView>, k: int, scroll_y: int, inner_y: int, x: int, y: int) -> bool {
    let e = l[k];
    let adj = (if e.4 > scroll_y { e.4 - scroll_y } else { 0 }) + inner_y;
    &&& !e.0
    &&& e.4 + e.6 > scroll_y
    &&& e.3 <= x < e.3 + e.5
    &&& adj <= y < adj + e.6
}

/// The sums the hit test makes fit in 16 bits.
pub open spec fn hit_fits(l: Seq<EntryView>, scroll_y: int, inner_y: int) -> bool {
    forall|k: int| 0 <= k < l.len() ==> {
        let e = #[trigger] l[k];
        &&& e.4 + e.6 <= u16::MAX
        &&& e.3 + e.5 <= u16::MAX
        &&& (if e.4 > scroll_y { e.4 - scroll_y } else { 0 }) + inner_y + e.6 <= u16::MAX
    }
}

/// The sorted index of the card under the click `(x, y)`, if any.
pub fn card_at(layout: &Vec<LayoutEntry>, scroll_y: u16, inner_y: u16, x: u16, y: u16) -> (r: Option<usize>)
    requires
        hit_fits(entries_view(layout@), scroll_y as int, inner_y as int),
    ensures
        match r {
            Some(idx) => exists|k: int| 0 <= k < layout@.len()
                && #[trigger] card_hit(entries_view(layout@), k, scroll_y as int, inner_y as int, x as int, y as int)
                && entries_view(layout@)[k].2 == idx
                && forall|j: int| 0 <= j < k ==> !card_hit(entries_view(layout@), j, scroll_y as int, inner_y as int, x as int, y as int),
            None => forall|k: int| 0 <= k < layout@.len()
                ==> !#[trigger] card_hit(entries_view(layout@), k, scroll_y as int, inner_y as int, x as int, y as int),
        },
{
    let ghost lv = entries_view(layout@);
    let mut i: usize = 0;
    while i < layout.len()
        invariant
            lv == entries_view(layout@),
            hit_fits(lv, scroll_y as int, inner_y as int),
            i <= layout@.len(),
            forall|j: int| 0 <= j < i ==> !#[trigger] card_hit(lv, j, scroll_y as int, inner_y as int, x as int, y as int),
        decreases layout.len() - i,
    {
        let e = &layout[i];
        assert(lv[i as int] == crate::view::entry_view(*e));
        match &e.item {
            LayoutItem::Card { sorted_idx } => {
                if e.y + e.h > scroll_y {
                    let adj_y = e.y.saturating_sub(scroll_y) + inner_y;
                    if x >= e.x && x < e.x + e.w && y >= adj_y && y < adj_y + e.h {
                        assert(card_hit(lv, i as int, scroll_y as int, inner_y as int, x as int, y as int));
                        return Some(*sorted_idx);
                    }
                }
            },
            LayoutItem::SectionHeader { .. } => {},
        }
        i += 1;
    }
    None
}

} // verus!
