//! Display helpers of the dashboard: spinner frames, handle tags, times,
//! status icons, preview lines, and the card layout of the directory.
use vstd::prelude::*;
use crate::text::{starts_with, has_sub, lower_seq, zero_padded, decimal, trim_seq, chars_of, string_of,
    skip_chars, starts_with_vec, lower_chars, lower_contains, push_zero_padded, push_decimal, trim_vec};
use crate::model::{now_ms, Agent};
use crate::store::Model;
use crate::strmap::StrMap;

verus! {

broadcast use vstd::string::group_string_axioms;

/// The spinner frames, in order.
pub open spec fn spinner_frames() -> Seq<char> {
    seq!['⠋', '⠙', '⠹', '⠸', '⠼', '⠴', '⠦', '⠧', '⠇', '⠏']
}

/// The spinner character of animation frame `frame`.
pub fn spinner_char(frame: usize) -> (c: char)
    ensures
        c == spinner_frames()[(frame % 10) as int],
{
    let frames = vec!['⠋', '⠙', '⠹', '⠸', '⠼', '⠴', '⠦', '⠧', '⠇', '⠏'];
    assert(frames@ =~= spinner_frames());
    frames[frame % 10]
}

/// The short tag of a handle: up to eight characters after a leading "term_".
pub open spec fn handle_tag_spec(h: Seq<char>) -> Seq<char> {
    let rest = if starts_with(h, "term_"@) { h.skip("term_"@.len() as int) } else { h };
    if rest.len() <= 8 { rest } else { rest.take(8) }
}

/// `term_fca57171-…` → `fca57171`.
pub fn handle_tag(handle: &str) -> (r: String)
    ensures
        r@ == handle_tag_spec(handle@),
{
    let h = chars_of(handle);
    let p = chars_of("term_");
    let rest = if starts_with_vec(&h, &p) { skip_chars(&h, p.len()) } else { h };
    let mut out: Vec<char> = Vec::new();
    let mut i: usize = 0;
    while i < rest.len() && i < 8
        invariant
            i <= rest.len(),
            i <= 8,
            out@ == rest@.take(i as int),
        decreases 8 - i,
    {
        out.push(rest[i]);
        assert(rest@.take(i + 1) =~= rest@.take(i as int).push(rest@[i as int]));
        i += 1;
    }
    assert(rest@.len() <= 8 ==> rest@.take(rest@.len() as int) =~= rest@);
    string_of(&out)
}

/// Whole seconds since the epoch of a millisecond time (0 before the epoch).
pub open spec fn secs_of(ts_ms: int) -> nat {
    if ts_ms < 0 { 0 } else { (ts_ms / 1000) as nat }
}

/// `HH:MM:SS` (UTC) of an epoch time in milliseconds.
pub open spec fn hms_spec(ts_ms: int) -> Seq<char> {
    let s = secs_of(ts_ms);
    zero_padded(((s / 3600) % 24) as nat, 2) + seq![':'] + zero_padded(((s / 60) % 60) as nat, 2)
        + seq![':'] + zero_padded((s % 60) as nat, 2)
}

/// Epoch milliseconds → `HH:MM:SS` (UTC).
pub fn format_hms(ts_ms: i64) -> (r: String)
    ensures
        r@ == hms_spec(ts_ms as int),
{
    let secs: u64 = if ts_ms < 0 { 0 } else { (ts_ms / 1000) as u64 };
    let mut out: Vec<char> = Vec::new();
    push_zero_padded(&mut out, (secs / 3600) % 24, 2);
    out.push(':');
    push_zero_padded(&mut out, (secs / 60) % 60, 2);
    out.push(':');
    push_zero_padded(&mut out, secs % 60, 2);
    string_of(&out)
}

/// Icon of a task status, by keywords of its lowercase form.
pub open spec fn status_icon_spec(status: Seq<char>) -> Seq<char> {
    let s = lower_seq(status);
    if has_sub(s, "run"@) || has_sub(s, "work"@) || has_sub(s, "busy"@) {
        "\u{23f3}"@
    } else if has_sub(s, "done"@) || has_sub(s, "ok"@) || has_sub(s, "complete"@) {
        "\u{2713}"@
    } else if has_sub(s, "block"@) || has_sub(s, "wait"@) || has_sub(s, "pending"@) {
        "\u{23f4}"@
    } else if has_sub(s, "fail"@) || has_sub(s, "error"@) {
        "\u{2717}"@
    } else {
        "\u{00b7}"@
    }
}

/// Status → icon: ⏳ running, ✓ done, ⏴ blocked or waiting, ✗ failed, · else.
pub fn status_icon(status: &str) -> (r: &'static str)
    ensures
        r@ == status_icon_spec(status@),
{
    let s = lower_chars(status);
    if lower_contains(&s, "run") || lower_contains(&s, "work") || lower_contains(&s, "busy") {
        "\u{23f3}"
    } else if lower_contains(&s, "done") || lower_contains(&s, "ok") || lower_contains(&s, "complete") {
        "\u{2713}"
    } else if lower_contains(&s, "block") || lower_contains(&s, "wait") || lower_contains(&s, "pending") {
        "\u{23f4}"
    } else if lower_contains(&s, "fail") || lower_contains(&s, "error") {
        "\u{2717}"
    } else {
        "\u{00b7}"
    }
}

/// Time since the last output, at time `now` (ms): "Ns", "Nm", "Nh" or
/// "Nd"; empty when there is no positive output time.
pub open spec fn elapsed_spec(last_output_at: Option<i64>, now: int) -> Seq<char> {
    match last_output_at {
        Some(ms) if ms > 0 => {
            let d = now - ms;
            let secs: nat = if d < 0 { 0 } else { (d / 1000) as nat };
            if secs < 60 {
                decimal(secs) + seq!['s']
            } else if secs < 3600 {
                decimal(secs / 60) + seq!['m']
            } else if secs < 86400 {
                decimal(secs / 3600) + seq!['h']
            } else {
                decimal(secs / 86400) + seq!['d']
            }
        },
        _ => Seq::empty(),
    }
}

/// Elapsed time since the last output at time `now` (epoch ms).
pub fn format_elapsed_at(last_output_at: Option<i64>, now: i64) -> (r: String)
    ensures
        r@ == elapsed_spec(last_output_at, now as int),
{
    let ms = match last_output_at {
        Some(v) if v > 0 => v,
        _ => return String::new(),
    };
    let d: i128 = now as i128 - ms as i128;
    let secs: u64 = if d < 0 { 0 } else { (d / 1000) as u64 };
    let mut out: Vec<char> = Vec::new();
    if secs < 60 {
        push_decimal(&mut out, secs);
        out.push('s');
    } else if secs < 3600 {
        push_decimal(&mut out, secs / 60);
        out.push('m');
    } else if secs < 86400 {
        push_decimal(&mut out, secs / 3600);
        out.push('h');
    } else {
        push_decimal(&mut out, secs / 86400);
        out.push('d');
    }
    string_of(&out)
}

/// Elapsed time since the last output, now.
pub fn format_elapsed(last_output_at: Option<i64>) -> (r: String)
    ensures
        exists|now: i64| r@ == #[trigger] elapsed_spec(last_output_at, now as int),
{
    let now = now_ms();
    format_elapsed_at(last_output_at, now)
}

/// The lines of `s`, split at line feeds (the last may be empty).
pub open spec fn split_lines(s: Seq<char>) -> Seq<Seq<char>>
    decreases s.len(),
{
    if s.len() == 0 {
        seq![Seq::empty()]
    } else {
        let prev = split_lines(s.drop_last());
        if s.last() == '\n' {
            prev.push(Seq::empty())
        } else {
            prev.update(prev.len() - 1, prev.last().push(s.last()))
        }
    }
}

pub proof fn lemma_split_lines_len(s: Seq<char>)
    ensures
        split_lines(s).len() >= 1,
    decreases s.len(),
{
    if s.len() > 0 {
        lemma_split_lines_len(s.drop_last());
    }
}

/// A box-drawing character that starts a decoration line.
pub open spec fn is_rule_char(c: char) -> bool {
    c == '\u{2500}' || c == '\u{2550}' || c == '\u{2551}' || c == '\u{256d}' || c == '\u{2570}' || c == '\u{2502}'
}

/// A line that is worth showing: not blank, not decoration.
pub open spec fn shows(l: Seq<char>) -> bool {
    let t = trim_seq(l);
    t.len() > 0 && !is_rule_char(t[0])
}

/// The last line worth showing, trimmed (empty if none).
pub open spec fn last_shown(lines: Seq<Seq<char>>) -> Seq<char>
    decreases lines.len(),
{
    if lines.len() == 0 {
        Seq::empty()
    } else if shows(lines.last()) {
        trim_seq(lines.last())
    } else {
        last_shown(lines.drop_last())
    }
}

fn is_rule(c: char) -> (r: bool)
    ensures
        r == is_rule_char(c),
{
    c == '\u{2500}' || c == '\u{2550}' || c == '\u{2551}' || c == '\u{256d}' || c == '\u{2570}' || c == '\u{2502}'
}

/// The lines of `v`.
pub(crate) fn lines_of(v: &Vec<char>) -> (r: Vec<Vec<char>>)
    ensures
        r@.len() == split_lines(v@).len(),
        forall|k: int| 0 <= k < r@.len() ==> #[trigger] r@[k]@ == split_lines(v@)[k],
{
    let mut lines: Vec<Vec<char>> = Vec::new();
    let mut cur: Vec<char> = Vec::new();
    let mut i: usize = 0;
    while i < v.len()
        invariant
            i <= v.len(),
            lines@.len() + 1 == split_lines(v@.take(i as int)).len(),
            forall|k: int| 0 <= k < lines@.len() ==> #[trigger] lines@[k]@ == split_lines(v@.take(i as int))[k],
            cur@ == split_lines(v@.take(i as int)).last(),
        decreases v.len() - i,
    {
        proof { lemma_split_lines_len(v@.take(i as int)); }
        assert(v@.take(i + 1).drop_last() =~= v@.take(i as int));
        let c = v[i];
        if c == '\n' {
            let done = cur;
            lines.push(done);
            cur = Vec::new();
            assert(cur@ =~= Seq::<char>::empty());
        } else {
            cur.push(c);
        }
        i += 1;
    }
    assert(v@.take(v.len() as int) =~= v@);
    proof { lemma_split_lines_len(v@); }
    lines.push(cur);
    lines
}

/// The last line of the preview that is neither blank nor decoration, trimmed.
pub open spec fn preview_tail_spec(preview: Option<Seq<char>>) -> Seq<char> {
    last_shown(split_lines(match preview { Some(p) => p, None => Seq::empty() }))
}

/// The last meaningful line of a terminal preview (empty if none).
pub fn preview_tail(preview: Option<&str>) -> (r: String)
    ensures
        r@ == preview_tail_spec(match preview { Some(p) => Some(p@), None => None }),
{
    let raw = match preview { Some(p) => chars_of(p), None => Vec::new() };
    let lines = lines_of(&raw);
    let ghost ls = split_lines(raw@);
    let mut k: usize = lines.len();
    assert(ls.take(k as int) =~= ls);
    while k > 0
        invariant
            ls == split_lines(raw@),
            raw@ == (match preview { Some(p) => p@, None => Seq::<char>::empty() }),
            k <= lines@.len(),
            lines@.len() == ls.len(),
            forall|j: int| 0 <= j < lines@.len() ==> #[trigger] lines@[j]@ == ls[j],
            last_shown(ls) == last_shown(ls.take(k as int)),
        decreases k,
    {
        let t = trim_vec(&lines[k - 1]);
        assert(ls.take(k as int).drop_last() =~= ls.take(k - 1));
        assert(ls.take(k as int).last() == lines@[k - 1]@);
        if t.len() > 0 && !is_rule(t[0]) {
            assert(shows(ls.take(k as int).last()));
            return string_of(&t);
        }
        k -= 1;
    }
    assert(ls.take(0) =~= Seq::<Seq<char>>::empty());
    String::new()
}

/// Card width (columns).
pub const CARD_W: u16 = 36;
/// Card height (rows).
pub const CARD_H: u16 = 9;
/// Gap between cards.
pub const CARD_GAP: u16 = 1;
/// Height of a section heading.
pub const SECTION_HEADER_H: u16 = 1;
/// Gap after a section.
pub const SECTION_GAP: u16 = 1;

/// An item of the directory layout: a section heading or a card.
#[derive(Debug)]
pub enum LayoutItem {
    SectionHeader { group: String, count: usize },
    Card { sorted_idx: usize },
}

/// A layout item and its place (y counted from the top of the content).
#[derive(Debug)]
pub struct LayoutEntry {
    pub item: LayoutItem,
    pub x: u16,
    pub y: u16,
    pub w: u16,
    pub h: u16,
}

/// An entry as plain values: (is heading, group, count or card index, x, y, w, h).
pub type EntryView = (bool, Seq<char>, int, int, int, int, int);

pub open spec fn entry_view(e: LayoutEntry) -> EntryView {
    match e.item {
        LayoutItem::SectionHeader { group, count } => (true, group@, count as int, e.x as int, e.y as int, e.w as int, e.h as int),
        LayoutItem::Card { sorted_idx } => (false, Seq::empty(), sorted_idx as int, e.x as int, e.y as int, e.w as int, e.h as int),
    }
}

pub open spec fn entries_view(v: Seq<LayoutEntry>) -> Seq<EntryView> {
    Seq::new(v.len(), |i: int| entry_view(v[i]))
}

/// Cards per row in an area `inner_w` wide (at least one).
pub open spec fn layout_cols(inner_w: int) -> int {
    let c = (inner_w + 1) / 37;
    if c < 1 { 1 } else { c }
}

/// Rows that `count` cards take, `cols` to a row (at least one).
pub open spec fn rows_needed(count: int, cols: int) -> int {
    let r = (count + cols - 1) / cols;
    if r < 1 { 1 } else { r }
}

/// First index from `i` on whose value differs from `g` (or the length).
pub open spec fn group_end(cwds: Seq<Seq<char>>, g: Seq<char>, i: int) -> int
    decreases cwds.len() - i,
{
    if i < 0 || i >= cwds.len() || cwds[i] != g { if i < 0 { 0 } else { i } } else { group_end(cwds, g, i + 1) }
}

pub proof fn lemma_group_end(cwds: Seq<Seq<char>>, g: Seq<char>, i: int)
    requires
        0 <= i <= cwds.len(),
    ensures
        i <= group_end(cwds, g, i) <= cwds.len(),
        i < cwds.len() && cwds[i] == g ==> group_end(cwds, g, i) > i,
    decreases cwds.len() - i,
{
    if i < cwds.len() && cwds[i] == g {
        lemma_group_end(cwds, g, i + 1);
    }
}

/// The layout of the sections from `start` on, the first heading at `y`:
/// for each run of equal working directories, a heading, then its cards in
/// a grid of `cols` columns.
pub open spec fn layout_from(cwds: Seq<Seq<char>>, start: int, y: int, x0: int, w0: int, cols: int) -> Seq<EntryView>
    decreases cwds.len() - start,
{
    if start < 0 || start >= cwds.len() {
        Seq::empty()
    } else {
        proof { lemma_group_end(cwds, cwds[start], start); }
        let end = group_end(cwds, cwds[start], start);
        let count = end - start;
        let header: EntryView = (true, cwds[start], count, x0, y, w0, 1);
        let cards = Seq::new(count as nat, |c: int| card_entry(start, c, y, x0, cols));
        seq![header] + cards + layout_from(cwds, end, y + 1 + rows_needed(count, cols) * 10 + 1, x0, w0, cols)
    }
}

/// The `c`-th card of a section that starts at sorted index `start`, heading at `y`.
pub open spec fn card_entry(start: int, c: int, y: int, x0: int, cols: int) -> EntryView {
    (false, Seq::empty(), start + c, x0 + (c % cols) * 37, y + 1 + (c / cols) * 10, 36, 9)
}

/// Where the layout from `start` ends (heading of the first section at `y`).
pub open spec fn layout_end(cwds: Seq<Seq<char>>, start: int, y: int, cols: int) -> int
    decreases cwds.len() - start,
{
    if start < 0 || start >= cwds.len() {
        y
    } else {
        proof { lemma_group_end(cwds, cwds[start], start); }
        let end = group_end(cwds, cwds[start], start);
        layout_end(cwds, end, y + 1 + rows_needed(end - start, cols) * 10 + 1, cols)
    }
}

pub proof fn lemma_layout_end_grows(cwds: Seq<Seq<char>>, start: int, y: int, cols: int)
    requires
        cols >= 1,
    ensures
        y <= layout_end(cwds, start, y, cols),
    decreases cwds.len() - start,
{
    if 0 <= start < cwds.len() {
        lemma_group_end(cwds, cwds[start], start);
        let end = group_end(cwds, cwds[start], start);
        lemma_layout_end_grows(cwds, end, y + 1 + rows_needed(end - start, cols) * 10 + 1, cols);
    }
}

/// The working directory of each sorted handle.
pub open spec fn cwds_of(sorted: Seq<String>, dir: StrMap<Agent>) -> Seq<Seq<char>> {
    Seq::new(sorted.len(), |i: int| dir.map()[sorted[i]@].cwd@)
}

/// The layout fits in 16-bit coordinates.
pub open spec fn layout_fits(cwds: Seq<Seq<char>>, inner_x: int, inner_w: int) -> bool {
    let cols = layout_cols(inner_w);
    let l = layout_from(cwds, 0, 0, inner_x, inner_w, cols);
    &&& inner_w < u16::MAX
    &&& layout_end(cwds, 0, 0, cols) <= u16::MAX
    &&& forall|k: int| 0 <= k < l.len() ==> (#[trigger] l[k]).3 <= u16::MAX && l[k].4 <= u16::MAX
}

/// The directory layout: one section per run of agents (in `sorted` order)
/// that share a working directory, each a heading and a grid of cards.
pub fn directory_layout(sorted: &Vec<String>, model: &Model, inner_x: u16, inner_w: u16) -> (r: Vec<LayoutEntry>)
    requires
        model.directory.wf(),
        forall|i: int| 0 <= i < sorted@.len() ==> model.directory.map().dom().contains(#[trigger] sorted@[i]@),
        layout_fits(cwds_of(sorted@, model.directory), inner_x as int, inner_w as int),
    ensures
        entries_view(r@) == layout_from(cwds_of(sorted@, model.directory), 0, 0, inner_x as int, inner_w as int,
            layout_cols(inner_w as int)),
{
    let ghost cwds = cwds_of(sorted@, model.directory);
    let ghost colsg = layout_cols(inner_w as int);
    let ghost full = layout_from(cwds, 0, 0, inner_x as int, inner_w as int, colsg);
    let c0: usize = ((inner_w + CARD_GAP) / (CARD_W + CARD_GAP)) as usize;
    let cols: usize = if c0 < 1 { 1 } else { c0 };
    let mut entries: Vec<LayoutEntry> = Vec::new();
    let mut y: u16 = 0;
    let mut i: usize = 0;
    proof { lemma_layout_end_grows(cwds, 0, 0, colsg); }
    while i < sorted.len()
        invariant
            cwds == cwds_of(sorted@, model.directory),
            model.directory.wf(),
            forall|j: int| 0 <= j < sorted@.len() ==> model.directory.map().dom().contains(#[trigger] sorted@[j]@),
            layout_fits(cwds, inner_x as int, inner_w as int),
            colsg == layout_cols(inner_w as int),
            cols as int == colsg,
            full == layout_from(cwds, 0, 0, inner_x as int, inner_w as int, colsg),
            i <= sorted.len(),
            entries_view(entries@) + layout_from(cwds, i as int, y as int, inner_x as int, inner_w as int, colsg) == full,
            layout_end(cwds, i as int, y as int, colsg) == layout_end(cwds, 0, 0, colsg),
        decreases sorted.len() - i,
    {
        let agent = model.directory.get(sorted[i].as_str()).unwrap();
        let group = agent.cwd.clone();
        let group_start = i;
        proof { lemma_group_end(cwds, cwds[i as int], i as int); }
        let ghost end = group_end(cwds, cwds[i as int], i as int);
        while i < sorted.len() && crate::text::str_eq(model.directory.get(sorted[i].as_str()).unwrap().cwd.as_str(), group.as_str())
            invariant
                cwds == cwds_of(sorted@, model.directory),
                model.directory.wf(),
                forall|j: int| 0 <= j < sorted@.len() ==> model.directory.map().dom().contains(#[trigger] sorted@[j]@),
                group_start < sorted.len(),
                group@ == cwds[group_start as int],
                group_start <= i <= sorted.len(),
                group_end(cwds, group@, i as int) == end,
            decreases sorted.len() - i,
        {
            i += 1;
        }
        assert(i as int == end);
        let count = i - group_start;
        let ghost rest = layout_from(cwds, group_start as int, y as int, inner_x as int, inner_w as int, colsg);
        let ghost tail = layout_from(cwds, end, y + 1 + rows_needed(count as int, colsg) * 10 + 1, inner_x as int, inner_w as int, colsg);
        let ghost cards = Seq::new(count as nat, |c: int| card_entry(group_start as int, c, y as int, inner_x as int, colsg));
        assert(rest == seq![(true, group@, count as int, inner_x as int, y as int, inner_w as int, 1int)] + cards + tail);
        let ghost before = entries_view(entries@);
        assert(before.len() < full.len());
        assert(full[before.len() as int] == rest[0]);
        entries.push(LayoutEntry {
            item: LayoutItem::SectionHeader { group, count },
            x: inner_x,
            y,
            w: inner_w,
            h: SECTION_HEADER_H,
        });
        assert(entries_view(entries@) =~= before.push(rest[0]));
        let ghost y0 = y as int;
        proof { lemma_layout_end_grows(cwds, end, y + 1 + rows_needed(count as int, colsg) * 10 + 1, colsg); }
        assert(y0 + 1 + rows_needed(count as int, colsg) * 10 + 1 <= u16::MAX);
        y += SECTION_HEADER_H;
        let mut card_i: usize = 0;
        while card_i < count
            invariant
                full == layout_from(cwds, 0, 0, inner_x as int, inner_w as int, colsg),
                layout_fits(cwds, inner_x as int, inner_w as int),
                colsg == layout_cols(inner_w as int),
                cols as int == colsg,
                cols >= 1,
                y as int == y0 + 1,
                card_i <= count,
                count == i - group_start,
                cards == Seq::new(count as nat, |c: int| card_entry(group_start as int, c, y0, inner_x as int, colsg)),
                before + seq![rest[0]] + cards + tail == full,
                entries_view(entries@) == before + seq![rest[0]] + cards.take(card_i as int),
            decreases count - card_i,
        {
            let ghost k = before.len() + 1 + card_i;
            assert(full[k] == cards[card_i as int]);
            assert(full[k].3 <= u16::MAX && full[k].4 <= u16::MAX);
            let col = card_i % cols;
            let row = card_i / cols;
            assert(col < cols);
            let sorted_idx = group_start + card_i;
            let ex = inner_x + (col as u16) * (CARD_W + CARD_GAP);
            let ey = y + (row as u16) * (CARD_H + CARD_GAP);
            let ghost prev = entries@;
            entries.push(LayoutEntry {
                item: LayoutItem::Card { sorted_idx },
                x: ex,
                y: ey,
                w: CARD_W,
                h: CARD_H,
            });
            assert(entries_view(entries@) =~= before + seq![rest[0]] + cards.take(card_i + 1)) by {
                assert(cards.take(card_i + 1) =~= cards.take(card_i as int).push(cards[card_i as int]));
                assert(entries_view(entries@) =~= entries_view(prev).push(cards[card_i as int]));
            }
            card_i += 1;
        }
        assert(cards.take(count as int) =~= cards);
        let rn: usize = (((count as u128) + (cols as u128) - 1) / (cols as u128)) as usize;
        let rows: usize = if rn < 1 { 1 } else { rn };
        assert(rows as int == rows_needed(count as int, colsg));
        y += (rows as u16) * (CARD_H + CARD_GAP);
        y += SECTION_GAP;
        assert(entries_view(entries@) + tail =~= full);
    }
    assert(layout_from(cwds, i as int, y as int, inner_x as int, inner_w as int, colsg) =~= Seq::<EntryView>::empty());
    assert(entries_view(entries@) =~= full);
    entries
}

/// Bottom edge of the content: the largest `y + h` (0 when empty).
pub open spec fn content_bottom(l: Seq<EntryView>) -> int
    decreases l.len(),
{
    if l.len() == 0 {
        0
    } else {
        let b = l.last().4 + l.last().6;
        let prev = content_bottom(l.drop_last());
        if b > prev { b } else { prev }
    }
}

pub open spec fn min_int(a: int, b: int) -> int {
    if a <= b { a } else { b }
}

/// Scroll offset for the first card of index `cursor` at or after `k`,
/// `sy` being the top of the section around it: the section's top when the
/// card fits below it in `vh` rows, else just enough to show the card's
/// bottom; never past `max_scroll`. 0 when there is no such card.
pub open spec fn scroll_from(l: Seq<EntryView>, k: int, sy: int, cursor: int, vh: int, max_scroll: int) -> int
    decreases l.len() - k,
{
    if k < 0 || k >= l.len() {
        0
    } else if l[k].0 {
        scroll_from(l, k + 1, l[k].4, cursor, vh, max_scroll)
    } else if l[k].2 == cursor {
        let cb = l[k].4 + l[k].6;
        if cb <= sy + vh { min_int(sy, max_scroll) } else { min_int(if cb - vh > 0 { cb - vh } else { 0 }, max_scroll) }
    } else {
        scroll_from(l, k + 1, sy, cursor, vh, max_scroll)
    }
}

/// The sum that the scroll computation makes for the cursor's card fits in 16 bits.
pub open spec fn scroll_fits(l: Seq<EntryView>, k: int, sy: int, cursor: int, vh: int) -> bool
    decreases l.len() - k,
{
    if k < 0 || k >= l.len() {
        true
    } else if l[k].0 {
        scroll_fits(l, k + 1, l[k].4, cursor, vh)
    } else if l[k].2 == cursor {
        sy + vh <= u16::MAX
    } else {
        scroll_fits(l, k + 1, sy, cursor, vh)
    }
}

/// Every entry ends within 16-bit coordinates.
pub open spec fn ends_fit(l: Seq<EntryView>) -> bool {
    forall|k: int| 0 <= k < l.len() ==> (#[trigger] l[k]).4 + l[k].6 <= u16::MAX
}

pub open spec fn scroll_spec(cursor: int, l: Seq<EntryView>, vh: int) -> int {
    let cb = content_bottom(l);
    scroll_from(l, 0, 0, cursor, vh, if cb - vh > 0 { cb - vh } else { 0 })
}

/// Bottom edge of the layout's content.
fn content_bottom_of(layout: &Vec<LayoutEntry>) -> (r: u16)
    requires
        ends_fit(entries_view(layout@)),
    ensures
        r as int == content_bottom(entries_view(layout@)),
{
    let ghost lv = entries_view(layout@);
    let mut best: u16 = 0;
    let mut i: usize = 0;
    while i < layout.len()
        invariant
            lv == entries_view(layout@),
            ends_fit(lv),
            i <= layout.len(),
            best as int == content_bottom(lv.take(i as int)),
        decreases layout.len() - i,
    {
        assert(lv.take(i + 1).drop_last() =~= lv.take(i as int));
        assert(lv[i as int].4 + lv[i as int].6 <= u16::MAX);
        let b = layout[i].y + layout[i].h;
        if b > best {
            best = b;
        }
        i += 1;
    }
    assert(lv.take(layout.len() as int) =~= lv);
    best
}

/// Scroll offset that keeps the cursor's card in view: its section's
/// heading at the top when the card then fits in `visible_h` rows, else
/// just enough to show the card's bottom; never past the end of the content.
pub fn directory_scroll(cursor: usize, layout: &Vec<LayoutEntry>, visible_h: u16) -> (r: u16)
    requires
        ends_fit(entries_view(layout@)),
        scroll_fits(entries_view(layout@), 0, 0, cursor as int, visible_h as int),
    ensures
        r as int == scroll_spec(cursor as int, entries_view(layout@), visible_h as int),
{
    let ghost lv = entries_view(layout@);
    let content_h = content_bottom_of(layout);
    let max_scroll = content_h.saturating_sub(visible_h);
    let mut section_y: u16 = 0;
    let mut i: usize = 0;
    while i < layout.len()
        invariant
            lv == entries_view(layout@),
            ends_fit(lv),
            i <= layout.len(),
            max_scroll as int == (if content_bottom(lv) - visible_h > 0 { content_bottom(lv) - visible_h } else { 0 }),
            scroll_from(lv, i as int, section_y as int, cursor as int, visible_h as int, max_scroll as int)
                == scroll_spec(cursor as int, lv, visible_h as int),
            scroll_fits(lv, i as int, section_y as int, cursor as int, visible_h as int),
        decreases layout.len() - i,
    {
        let e = &layout[i];
        assert(lv[i as int] == entry_view(*e));
        match &e.item {
            LayoutItem::SectionHeader { .. } => {
                section_y = e.y;
            },
            LayoutItem::Card { sorted_idx } => {
                if *sorted_idx == cursor {
                    assert(lv[i as int].4 + lv[i as int].6 <= u16::MAX);
                    let cursor_bottom = e.y + e.h;
                    if cursor_bottom <= section_y + visible_h {
                        return if section_y <= max_scroll { section_y } else { max_scroll };
                    }
                    let s = cursor_bottom.saturating_sub(visible_h);
                    return if s <= max_scroll { s } else { max_scroll };
                }
            },
        }
        i += 1;
    }
    0
}

/// Scroll offset of the directory: the manual offset, kept within the
/// content, when there is one; else the offset that follows the cursor.
pub fn compute_scroll_y(manual_scroll: Option<u16>, cursor: usize, layout: &Vec<LayoutEntry>, visible_h: u16) -> (r: u16)
    requires
        ends_fit(entries_view(layout@)),
        manual_scroll is None ==> scroll_fits(entries_view(layout@), 0, 0, cursor as int, visible_h as int),
    ensures
        r as int == (match manual_scroll {
            Some(off) => min_int(off as int, content_bottom(entries_view(layout@))),
            None => scroll_spec(cursor as int, entries_view(layout@), visible_h as int),
        }),
{
    match manual_scroll {
        Some(offset) => {
            let b = content_bottom_of(layout);
            if offset <= b { offset } else { b }
        },
        None => directory_scroll(cursor, layout, visible_h),
    }
}

/// The sorted indices of the cards of a layout, in order.
pub open spec fn card_indices(l: Seq<EntryView>) -> Seq<int>
    decreases l.len(),
{
    if l.len() == 0 {
        Seq::empty()
    } else {
        let p = card_indices(l.drop_last());
        if l.last().0 { p } else { p.push(l.last().2) }
    }
}

proof fn lemma_card_indices_concat(a: Seq<EntryView>, b: Seq<EntryView>)
    ensures
        card_indices(a + b) == card_indices(a) + card_indices(b),
    decreases b.len(),
{
    if b.len() == 0 {
        assert(a + b =~= a);
        assert(card_indices(a) + card_indices(b) =~= card_indices(a));
    } else {
        lemma_card_indices_concat(a, b.drop_last());
        assert((a + b).drop_last() =~= a + b.drop_last());
        assert((a + b).last() == b.last());
        if !b.last().0 {
            assert((card_indices(a) + card_indices(b.drop_last())).push(b.last().2) =~= card_indices(a) + card_indices(b.drop_last()).push(b.last().2));
        }
    }
}

proof fn lemma_card_indices_cards(start: int, count: int, y: int, x0: int, cols: int)
    requires
        count >= 0,
    ensures
        card_indices(Seq::new(count as nat, |c: int| card_entry(start, c, y, x0, cols)))
            == Seq::new(count as nat, |i: int| start + i),
    decreases count,
{
    if count > 0 {
        lemma_card_indices_cards(start, count - 1, y, x0, cols);
        assert(Seq::new(count as nat, |c: int| card_entry(start, c, y, x0, cols)).drop_last()
            =~= Seq::new((count - 1) as nat, |c: int| card_entry(start, c, y, x0, cols)));
        assert(Seq::new(count as nat, |i: int| start + i) =~= Seq::new((count - 1) as nat, |i: int| start + i).push(start + count - 1));
    } else {
        assert(Seq::new(0nat, |c: int| card_entry(start, c, y, x0, cols)) =~= Seq::<EntryView>::empty());
        assert(Seq::new(0nat, |i: int| start + i) =~= Seq::<int>::empty());
    }
}

/// Every agent of the sorted list gets exactly one card, and the cards come
/// in the list's order, whatever the sections and the width.
pub proof fn law_layout_cards(cwds: Seq<Seq<char>>, start: int, y: int, x0: int, w0: int, cols: int)
    requires
        0 <= start <= cwds.len(),
    ensures
        card_indices(layout_from(cwds, start, y, x0, w0, cols)) == Seq::new((cwds.len() - start) as nat, |i: int| start + i),
    decreases cwds.len() - start,
{
    if start < cwds.len() {
        lemma_group_end(cwds, cwds[start], start);
        let end = group_end(cwds, cwds[start], start);
        let count = end - start;
        let header: EntryView = (true, cwds[start], count, x0, y, w0, 1);
        let cards = Seq::new(count as nat, |c: int| card_entry(start, c, y, x0, cols));
        let ny = y + 1 + rows_needed(count, cols) * 10 + 1;
        let rest = layout_from(cwds, end, ny, x0, w0, cols);
        law_layout_cards(cwds, end, ny, x0, w0, cols);
        lemma_card_indices_cards(start, count, y, x0, cols);
        lemma_card_indices_concat(seq![header] + cards, rest);
        lemma_card_indices_concat(seq![header], cards);
        assert(card_indices(seq![header]) =~= Seq::<int>::empty()) by {
            assert(seq![header].drop_last() =~= Seq::<EntryView>::empty());
            assert(seq![header].last() == header);
            assert(card_indices(Seq::<EntryView>::empty()) == Seq::<int>::empty());
            assert(header.0);
        }
        assert(layout_from(cwds, start, y, x0, w0, cols) == seq![header] + cards + rest);
        assert(Seq::new(count as nat, |i: int| start + i) + Seq::new((cwds.len() - end) as nat, |i: int| end + i)
            =~= Seq::new((cwds.len() - start) as nat, |i: int| start + i));
        assert(Seq::<int>::empty() + Seq::new(count as nat, |i: int| start + i) =~= Seq::new(count as nat, |i: int| start + i));
    } else {
        assert(Seq::new(0nat, |i: int| start + i) =~= Seq::<int>::empty());
    }
}

} // verus!
