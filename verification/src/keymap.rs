//! What a key press does in the main view: the global bindings, the
//! normal-mode bindings of each tab, the input line and the directory
//! filter.
use vstd::prelude::*;
use crate::keys::{KeyPress, KeyCode, KeyModifiers};
use crate::store::{Model, toggled, set_map};
use crate::shell::{Shell, ShellText, Tab, FocusTarget, Overlays, Flags, Cursors, next_tab, focus_of_tab};
use crate::select::{listed, pick, listed_handles_at, rank, selected_group_name};
use crate::update::Cmd;
use crate::line::{toasted, toasts_added, raise, focus_of, line_effect, dispatch_line, CHAIN_DEPTH};
use crate::text::{trim_seq, trim_vec, push_char};
use crate::model::HISTORY_CAP;
use crate::text::{concat, decimal, u64_to_string, views, chars_of, string_of, starts_with_vec, skip_chars};
use crate::update::{utf8_len, utf8_len_of};
use crate::model::{Agent, opt_view};
use crate::strmap::{StrMap, StrSet};

verus! {

broadcast use vstd::string::group_string_axioms;

// ──── keys ────

pub open spec fn no_mods(m: KeyModifiers) -> bool {
    !m.shift && !m.control && !m.alt
}

/// `k` is `c` pressed alone.
pub open spec fn plain(k: KeyPress, c: KeyCode) -> bool {
    k.code == c && no_mods(k.modifiers)
}

/// `k` is `c` pressed with Shift only.
pub open spec fn shifted(k: KeyPress, c: KeyCode) -> bool {
    k.code == c && k.modifiers.shift && !k.modifiers.control && !k.modifiers.alt
}

/// `k` is the letter `ch` pressed with Control only.
pub open spec fn ctrl(k: KeyPress, ch: char) -> bool {
    k.code == KeyCode::Char(ch) && !k.modifiers.shift && k.modifiers.control && !k.modifiers.alt
}

pub(crate) fn is_plain(k: KeyPress, c: KeyCode) -> (r: bool)
    ensures
        r == plain(k, c),
{
    k.code == c && !k.modifiers.shift && !k.modifiers.control && !k.modifiers.alt
}

pub(crate) fn is_shifted(k: KeyPress, c: KeyCode) -> (r: bool)
    ensures
        r == shifted(k, c),
{
    k.code == c && k.modifiers.shift && !k.modifiers.control && !k.modifiers.alt
}

pub(crate) fn is_ctrl(k: KeyPress, ch: char) -> (r: bool)
    ensures
        r == ctrl(k, ch),
{
    k.code == KeyCode::Char(ch) && !k.modifiers.shift && k.modifiers.control && !k.modifiers.alt
}

// ──── what the cursor is on ────

/// `h` is the agent under the cursor (the directory listed unfiltered).
pub open spec fn selected_is(m: Model, s: Shell, now: i64, h: Option<Seq<char>>) -> bool {
    exists|hs: Seq<Seq<char>>| #[trigger] listed(hs, m, None, now as int) && pick(hs, s.cursor as int) == h
}

pub(crate) fn selected_handle(model: &Model, shell: &Shell, now: i64) -> (r: Option<String>)
    requires
        model.wf(),
    ensures
        selected_is(*model, *shell, now, match r { Some(h) => Some(h@), None => None }),
{
    let hs = listed_handles_at(model, None, now);
    assert(listed(views(hs@), *model, None, now as int));
    if shell.cursor < hs.len() {
        let h = hs[shell.cursor].clone();
        assert(pick(views(hs@), shell.cursor as int) == Some(h@));
        Some(h)
    } else {
        None
    }
}

/// The rows of the list on the current tab (the directory listed unfiltered,
/// the groups, or no messages).
pub open spec fn rows_are(m: Model, s: Shell, now: i64, n: int) -> bool {
    match s.tab {
        Tab::Directory => exists|hs: Seq<Seq<char>>| #[trigger] listed(hs, m, None, now as int) && n == hs.len(),
        Tab::Groups => n == m.groups.key_seq().len(),
        Tab::Messages => n == 0,
    }
}

pub(crate) fn row_count(model: &Model, shell: &Shell, now: i64) -> (n: usize)
    requires
        model.wf(),
    ensures
        rows_are(*model, *shell, now, n as int),
{
    match shell.tab {
        Tab::Directory => {
            let hs = listed_handles_at(model, None, now);
            assert(listed(views(hs@), *model, None, now as int));
            hs.len()
        },
        Tab::Groups => model.groups.len(),
        Tab::Messages => 0,
    }
}

// ──── overlay switches ────

/// Which overlay a key opens or closes.
#[derive(Debug, Clone, Copy, PartialEq, Eq, Structural)]
pub enum OverlayKind {
    Activity,
    History,
    Dashboard,
    Snippets,
    Rules,
    Macros,
    Views,
    Metrics,
    Aliases,
    Hotkeys,
    Theme,
}

pub open spec fn overlay_on(o: Overlays, k: OverlayKind) -> bool {
    match k {
        OverlayKind::Activity => o.activity_active,
        OverlayKind::History => o.history_overlay_active,
        OverlayKind::Dashboard => o.dashboard_active,
        OverlayKind::Snippets => o.snippet_overlay_active,
        OverlayKind::Rules => o.rule_overlay_active,
        OverlayKind::Macros => o.macro_overlay_active,
        OverlayKind::Views => o.views_overlay_active,
        OverlayKind::Metrics => o.metrics_overlay_active,
        OverlayKind::Aliases => o.alias_overlay_active,
        OverlayKind::Hotkeys => o.hotkeys_overlay_active,
        OverlayKind::Theme => o.theme_overlay_active,
    }
}

pub open spec fn overlay_set(o: Overlays, k: OverlayKind, v: bool) -> Overlays {
    match k {
        OverlayKind::Activity => Overlays { activity_active: v, ..o },
        OverlayKind::History => Overlays { history_overlay_active: v, ..o },
        OverlayKind::Dashboard => Overlays { dashboard_active: v, ..o },
        OverlayKind::Snippets => Overlays { snippet_overlay_active: v, ..o },
        OverlayKind::Rules => Overlays { rule_overlay_active: v, ..o },
        OverlayKind::Macros => Overlays { macro_overlay_active: v, ..o },
        OverlayKind::Views => Overlays { views_overlay_active: v, ..o },
        OverlayKind::Metrics => Overlays { metrics_overlay_active: v, ..o },
        OverlayKind::Aliases => Overlays { alias_overlay_active: v, ..o },
        OverlayKind::Hotkeys => Overlays { hotkeys_overlay_active: v, ..o },
        OverlayKind::Theme => Overlays { theme_overlay_active: v, ..o },
    }
}

/// The overlay is opened (at the top) or closed.
pub open spec fn toggled_overlay(s: Shell, k: OverlayKind, s2: Shell) -> bool {
    &&& s2 == (Shell { overlays: s2.overlays, overlay_scroll: s2.overlay_scroll, ..s })
    &&& s2.overlays == overlay_set(s.overlays, k, !overlay_on(s.overlays, k))
    &&& s2.overlay_scroll == (if !overlay_on(s.overlays, k) { 0 } else { s.overlay_scroll })
}

pub(crate) fn toggle_overlay(shell: &mut Shell, k: OverlayKind)
    ensures
        toggled_overlay(*old(shell), k, *final(shell)),
{
    let o = shell.overlays;
    let on = match k {
        OverlayKind::Activity => o.activity_active,
        OverlayKind::History => o.history_overlay_active,
        OverlayKind::Dashboard => o.dashboard_active,
        OverlayKind::Snippets => o.snippet_overlay_active,
        OverlayKind::Rules => o.rule_overlay_active,
        OverlayKind::Macros => o.macro_overlay_active,
        OverlayKind::Views => o.views_overlay_active,
        OverlayKind::Metrics => o.metrics_overlay_active,
        OverlayKind::Aliases => o.alias_overlay_active,
        OverlayKind::Hotkeys => o.hotkeys_overlay_active,
        OverlayKind::Theme => o.theme_overlay_active,
    };
    let v = !on;
    let o2 = match k {
        OverlayKind::Activity => Overlays { activity_active: v, ..o },
        OverlayKind::History => Overlays { history_overlay_active: v, ..o },
        OverlayKind::Dashboard => Overlays { dashboard_active: v, ..o },
        OverlayKind::Snippets => Overlays { snippet_overlay_active: v, ..o },
        OverlayKind::Rules => Overlays { rule_overlay_active: v, ..o },
        OverlayKind::Macros => Overlays { macro_overlay_active: v, ..o },
        OverlayKind::Views => Overlays { views_overlay_active: v, ..o },
        OverlayKind::Metrics => Overlays { metrics_overlay_active: v, ..o },
        OverlayKind::Aliases => Overlays { alias_overlay_active: v, ..o },
        OverlayKind::Hotkeys => Overlays { hotkeys_overlay_active: v, ..o },
        OverlayKind::Theme => Overlays { theme_overlay_active: v, ..o },
    };
    let scroll = if v { 0 } else { shell.overlay_scroll };
    shell.overlays = o2;
    shell.overlay_scroll = scroll;
}

/// The overlay a plain or shifted letter toggles in the main view.
pub open spec fn overlay_key(k: KeyPress, tab: Tab) -> Option<OverlayKind> {
    if plain(k, KeyCode::Char('a')) { Some(OverlayKind::Activity) }
    else if shifted(k, KeyCode::Char('H')) { Some(OverlayKind::History) }
    else if shifted(k, KeyCode::Char('D')) && tab != Tab::Messages { Some(OverlayKind::Dashboard) }
    else if shifted(k, KeyCode::Char('S')) { Some(OverlayKind::Snippets) }
    else if shifted(k, KeyCode::Char('N')) { Some(OverlayKind::Rules) }
    else if plain(k, KeyCode::Char('e')) { Some(OverlayKind::Macros) }
    else if shifted(k, KeyCode::Char('V')) { Some(OverlayKind::Views) }
    else if plain(k, KeyCode::Char('x')) { Some(OverlayKind::Metrics) }
    else if plain(k, KeyCode::Char('l')) { Some(OverlayKind::Aliases) }
    else if plain(k, KeyCode::Char('r')) { Some(OverlayKind::Hotkeys) }
    else if plain(k, KeyCode::Char('z')) { Some(OverlayKind::Theme) }
    else { None }
}

pub(crate) fn overlay_of_key(k: KeyPress, tab: Tab) -> (r: Option<OverlayKind>)
    ensures
        r == overlay_key(k, tab),
{
    if is_plain(k, KeyCode::Char('a')) { Some(OverlayKind::Activity) }
    else if is_shifted(k, KeyCode::Char('H')) { Some(OverlayKind::History) }
    else if is_shifted(k, KeyCode::Char('D')) && tab != Tab::Messages { Some(OverlayKind::Dashboard) }
    else if is_shifted(k, KeyCode::Char('S')) { Some(OverlayKind::Snippets) }
    else if is_shifted(k, KeyCode::Char('N')) { Some(OverlayKind::Rules) }
    else if is_plain(k, KeyCode::Char('e')) { Some(OverlayKind::Macros) }
    else if is_shifted(k, KeyCode::Char('V')) { Some(OverlayKind::Views) }
    else if is_plain(k, KeyCode::Char('x')) { Some(OverlayKind::Metrics) }
    else if is_plain(k, KeyCode::Char('l')) { Some(OverlayKind::Aliases) }
    else if is_plain(k, KeyCode::Char('r')) { Some(OverlayKind::Hotkeys) }
    else if is_plain(k, KeyCode::Char('z')) { Some(OverlayKind::Theme) }
    else { None }
}

// ──── normal mode ────

/// The longest run of whole characters at the start of `h` that takes at
/// most `k` bytes.
pub open spec fn prefix_bytes(h: Seq<char>, k: int) -> Seq<char>
    decreases h.len(),
{
    if h.len() == 0 || utf8_len(h[0]) > k {
        Seq::empty()
    } else {
        seq![h[0]] + prefix_bytes(h.drop_first(), k - utf8_len(h[0]))
    }
}

pub(crate) fn prefix_of_bytes(h: &str, k: usize) -> (r: String)
    ensures
        r@ == prefix_bytes(h@, k as int),
{
    let v = chars_of(h);
    let mut out: Vec<char> = Vec::new();
    let mut i: usize = 0;
    let mut left: usize = k;
    assert(v@.skip(0) =~= v@);
    while i < v.len() && (utf8_len_of(v[i]) as usize) <= left
        invariant
            i <= v.len(),
            left <= k,
            out@ + prefix_bytes(v@.skip(i as int), left as int) == prefix_bytes(v@, k as int),
        decreases v.len() - i,
    {
        assert(v@.skip(i as int).drop_first() =~= v@.skip(i as int + 1));
        assert(v@.skip(i as int)[0] == v@[i as int]);
        let ghost prev = out@;
        out.push(v[i]);
        assert(out@ =~= prev + seq![v@[i as int]]);
        assert(prev + prefix_bytes(v@.skip(i as int), left as int)
            == out@ + prefix_bytes(v@.skip(i as int + 1), left - utf8_len(v@[i as int]))) by {
            assert(prev + (seq![v@[i as int]] + prefix_bytes(v@.skip(i as int + 1), left - utf8_len(v@[i as int])))
                =~= out@ + prefix_bytes(v@.skip(i as int + 1), left - utf8_len(v@[i as int])));
        }
        left = left - utf8_len_of(v[i]) as usize;
        i += 1;
    }
    assert(prefix_bytes(v@.skip(i as int), left as int) =~= Seq::<char>::empty());
    assert(out@ =~= prefix_bytes(v@, k as int));
    string_of(&out)
}

/// The working directory of handle `h` in the directory ("" if absent).
pub open spec fn cwd_of(dir: StrMap<Agent>, h: Seq<char>) -> Seq<char> {
    if dir.map().dom().contains(h) { dir.map()[h].cwd@ } else { Seq::empty() }
}

/// Where each run of equal working directories starts in `cwds`.
pub open spec fn group_starts(cwds: Seq<Seq<char>>) -> Seq<int>
    decreases cwds.len(),
{
    if cwds.len() == 0 {
        Seq::empty()
    } else {
        let prev = group_starts(cwds.drop_last());
        let i = cwds.len() - 1;
        if i == 0 || cwds[i] != cwds[i - 1] { prev.push(i) } else { prev }
    }
}

pub open spec fn cwds_in(dir: StrMap<Agent>, hs: Seq<Seq<char>>) -> Seq<Seq<char>> {
    Seq::new(hs.len(), |i: int| cwd_of(dir, hs[i]))
}

/// A path shown with `~/` in place of a leading `/home/`.
pub open spec fn tilde_display(p: Seq<char>) -> Seq<char> {
    if p.len() >= 6 && p.take(6) == "/home/"@ { "~/"@ + p.skip(6) } else { p }
}

/// Digit `n` (1 to 9) on the directory: the cursor goes to the first agent
/// of the `n`-th working directory, if there is one.
pub open spec fn jump_effect(m: Model, s: Shell, n: int, now: i64, s2: Shell) -> bool {
    exists|hs: Seq<Seq<char>>| #[trigger] listed(hs, m, None, now as int) && {
        let starts = group_starts(cwds_in(m.directory, hs));
        if n <= starts.len() {
            let at = starts[n - 1];
            &&& s2 == (Shell { cursor: s2.cursor, text: ShellText { toasts: s2.text.toasts, ..s.text }, ..s })
            &&& s2.cursor == at
            &&& toasts_added(s.text.toasts@, seq!["Jumped to group "@ + decimal(n as nat) + ": "@
                + tilde_display(cwd_of(m.directory, hs[at]))], now, s2.text.toasts@)
        } else {
            s2 == s
        }
    }
}

fn cwd_text(model: &Model, h: &String) -> (r: String)
    requires
        model.wf(),
    ensures
        r@ == cwd_of(model.directory, h@),
{
    match model.directory.get(h.as_str()) {
        Some(a) => a.cwd.clone(),
        None => String::new(),
    }
}

fn tilde_of(p: &String) -> (r: String)
    ensures
        r@ == tilde_display(p@),
{
    let v = chars_of(p.as_str());
    let pre = chars_of("/home/");
    proof { reveal_strlit("/home/"); }
    assert(pre@.len() == 6);
    if starts_with_vec(&v, &pre) {
        assert(v@.take(6) =~= "/home/"@);
        let rest = skip_chars(&v, 6);
        concat("~/", string_of(&rest).as_str())
    } else {
        assert(!(v@.len() >= 6 && v@.take(6) == "/home/"@));
        p.clone()
    }
}

fn jump_to_group(model: &Model, shell: &mut Shell, n: u32, now: i64)
    requires
        model.wf(),
        1 <= n <= 9,
    ensures
        jump_effect(*model, *old(shell), n as int, now, *final(shell)),
{
    let hs = listed_handles_at(model, None, now);
    let ghost hv = views(hs@);
    let ghost cw = cwds_in(model.directory, hv);
    assert(listed(hv, *model, None, now as int));
    let mut starts: Vec<usize> = Vec::new();
    let mut i: usize = 0;
    let mut prev: String = String::new();
    assert(cw.take(0) =~= Seq::<Seq<char>>::empty());
    while i < hs.len()
        invariant
            i <= hs.len(),
            hv == views(hs@),
            cw == cwds_in(model.directory, hv),
            model.wf(),
            i > 0 ==> prev@ == cw[i - 1],
            Seq::new(starts@.len(), |j: int| starts@[j] as int) == group_starts(cw.take(i as int)),
            forall|j: int| 0 <= j < starts@.len() ==> #[trigger] starts@[j] < i,
        decreases hs.len() - i,
    {
        let c = cwd_text(model, &hs[i]);
        assert(c@ == cw[i as int]);
        assert(cw.take(i as int + 1).drop_last() =~= cw.take(i as int));
        let ghost before = starts@;
        if i == 0 || !crate::text::str_eq(c.as_str(), prev.as_str()) {
            starts.push(i);
            assert(Seq::new(starts@.len(), |j: int| starts@[j] as int)
                =~= Seq::new(before.len(), |j: int| before[j] as int).push(i as int));
        } else {
            assert(Seq::new(starts@.len(), |j: int| starts@[j] as int) =~= Seq::new(before.len(), |j: int| before[j] as int));
        }
        prev = c;
        i += 1;
    }
    assert(cw.take(hs.len() as int) =~= cw);
    let k = n as usize;
    if k <= starts.len() {
        let at = starts[k - 1];
        let c = cwd_text(model, &hs[at]);
        let shown = tilde_of(&c);
        let num = u64_to_string(n as u64);
        let a = concat("Jumped to group ", num.as_str());
        let b = concat(a.as_str(), ": ");
        let t = concat(b.as_str(), shown.as_str());
        shell.cursor = at;
        let v = vec![t];
        assert(views(v@) =~= seq!["Jumped to group "@ + decimal(n as nat) + ": "@ + tilde_display(cwd_of(model.directory, hv[at as int]))]);
        raise(shell, v, now);
    }
}

/// Position of `h` in `hs` (the first one), if it occurs.
pub open spec fn index_in(hs: Seq<Seq<char>>, h: Seq<char>) -> Option<int>
    decreases hs.len(),
{
    if hs.len() == 0 {
        None
    } else {
        match index_in(hs.drop_last(), h) {
            Some(i) => Some(i),
            None => if hs.last() == h { Some(hs.len() - 1) } else { None },
        }
    }
}

proof fn lemma_index_stable(s: Seq<Seq<char>>, h: Seq<char>, i: int, j: int)
    requires
        0 <= i < j <= s.len(),
        index_in(s.take(i + 1), h) == Some(i),
    ensures
        index_in(s.take(j), h) == Some(i),
    decreases j - i,
{
    if j > i + 1 {
        lemma_index_stable(s, h, i, j - 1);
        assert(s.take(j).drop_last() =~= s.take(j - 1));
    }
}

pub(crate) fn position_of(hs: &Vec<String>, h: &String) -> (r: Option<usize>)
    ensures
        match r { Some(i) => index_in(views(hs@), h@) == Some(i as int), None => index_in(views(hs@), h@) is None },
{
    let ghost hv = views(hs@);
    let mut i: usize = 0;
    assert(hv.take(0) =~= Seq::<Seq<char>>::empty());
    while i < hs.len()
        invariant
            i <= hs.len(),
            hv == views(hs@),
            index_in(hv.take(i as int), h@) is None,
        decreases hs.len() - i,
    {
        assert(hv.take(i as int + 1).drop_last() =~= hv.take(i as int));
        if crate::text::str_eq(hs[i].as_str(), h.as_str()) {
            proof {
                assert(hv.take(i as int + 1).last() == h@);
                lemma_index_stable(hv, h@, i as int, hv.len() as int);
                assert(hv.take(hv.len() as int) =~= hv);
            }
            return Some(i);
        }
        i += 1;
    }
    assert(hv.take(hs.len() as int) =~= hv);
    None
}

/// There is a group under the cursor on the groups tab.
pub open spec fn group_at(m: Model, cursor: int) -> bool {
    exists|i: int| 0 <= i < m.groups.key_seq().len() && rank(m.groups.key_seq(), #[trigger] m.groups.key_seq()[i]) == cursor
}

/// The shell with the input line holding `text`, in input mode.
pub open spec fn prefilled(s: Shell, text: Seq<char>, s2: Shell) -> bool {
    &&& s2 == (Shell { insert_mode: true, focus: FocusTarget::Input, text: ShellText { input_buf: s2.text.input_buf, ..s.text }, ..s })
    &&& s2.text.input_buf@ == text
}

/// Enter in normal mode.
pub open spec fn enter_effect(m: Model, s: Shell, now: i64, s2: Shell, cs: Seq<Cmd>) -> bool {
    cs.len() == 0 && match s.tab {
        Tab::Directory => exists|h: Option<Seq<char>>| #[trigger] selected_is(m, s, now, h) && match h {
            Some(h) => prefilled(s, "to:"@ + h + " "@, s2),
            None => s2 == s,
        },
        Tab::Groups => if group_at(m, s.cursor as int) {
            &&& s2 == (Shell { overlays: s2.overlays, overlay_scroll: s2.overlay_scroll, ..s })
            &&& s2.overlays == (Overlays { group_detail_active: !s.overlays.group_detail_active, ..s.overlays })
            &&& s2.overlay_scroll == (if !s.overlays.group_detail_active { 0 } else { s.overlay_scroll })
        } else {
            s2 == s
        },
        Tab::Messages => s2 == s,
    }
}

/// `@` on the directory: the agent under the cursor is pinned or unpinned,
/// and the cursor follows it to its new place.
pub open spec fn pin_effect(m: Model, s: Shell, now: i64, m2: Model, s2: Shell, cs: Seq<Cmd>) -> bool {
    exists|h: Option<Seq<char>>| #[trigger] selected_is(m, s, now, h) && match h {
        Some(h) => {
            &&& m2.pinned.set() == toggled(m.pinned.set(), h)
            &&& m2 == (Model { pinned: m2.pinned, ..m })
            &&& s2 == (Shell { cursor: s2.cursor, text: ShellText { toasts: s2.text.toasts, ..s.text }, ..s })
            &&& exists|hs: Seq<Seq<char>>| #[trigger] listed(hs, m2, None, now as int)
                && s2.cursor == (match index_in(hs, h) { Some(i) => i, None => s.cursor as int })
            &&& if m2.pinned.set().contains(h) {
                toasts_added(s.text.toasts@, seq!["pinned: "@ + h], now, s2.text.toasts@)
                    && cs.len() == 1 && (cs[0] matches Cmd::PersistPinAdd { handle } && handle@ == h)
            } else {
                toasts_added(s.text.toasts@, seq!["unpinned: "@ + h], now, s2.text.toasts@)
                    && cs.len() == 1 && (cs[0] matches Cmd::PersistPinRemove { handle } && handle@ == h)
            }
        },
        None => m2 == m && s2 == s && cs.len() == 0,
    }
}

/// The digit of a plain key '1' to '9'.
pub open spec fn digit_key(k: KeyPress) -> Option<int> {
    match k.code {
        KeyCode::Char(c) => if no_mods(k.modifiers) && '1' <= c && c <= '9' { Some(c as int - '0' as int) } else { None },
        _ => None,
    }
}

pub open spec fn down_effect(m: Model, s: Shell, now: i64, s2: Shell) -> bool {
    &&& s2 == (Shell { cursor: s2.cursor, ..s })
    &&& exists|n: int| #[trigger] rows_are(m, s, now, n) && s2.cursor == (if n > 0 && s.cursor < n - 1 { s.cursor + 1 } else { s.cursor as int })
}

pub open spec fn switch_effect(m: Model, s: Shell, now: i64, s2: Shell, cs: Seq<Cmd>) -> bool {
    exists|h: Option<Seq<char>>| #[trigger] selected_is(m, s, now, h) && match h {
        Some(h) => toasted(s, seq!["switching to "@ + prefix_bytes(h, 20)], now, s2)
            && cs.len() == 1 && (cs[0] matches Cmd::SwitchTerminal { handle } && handle@ == h),
        None => s2 == s && cs.len() == 0,
    }
}

pub open spec fn pick_effect(m: Model, s: Shell, now: i64, s2: Shell) -> bool {
    exists|h: Option<Seq<char>>| #[trigger] selected_is(m, s, now, h) && match h {
        Some(h) => s2 == (Shell { text: ShellText { selected_set: s2.text.selected_set, ..s.text }, ..s })
            && s2.text.selected_set.wf() && s2.text.selected_set.set() == toggled(s.text.selected_set.set(), h),
        None => s2 == s,
    }
}

pub open spec fn pty_effect(m: Model, s: Shell, now: i64, s2: Shell) -> bool {
    exists|h: Option<Seq<char>>| #[trigger] selected_is(m, s, now, h) && match h {
        Some(h) => prefilled(s, "pty:"@ + h + " "@, s2),
        None => s2 == s,
    }
}

pub open spec fn yank_effect(m: Model, s: Shell, now: i64, s2: Shell, cs: Seq<Cmd>) -> bool {
    exists|h: Option<Seq<char>>| #[trigger] selected_is(m, s, now, h) && match h {
        Some(h) => toasted(s, seq!["Yanked: "@ + h], now, s2) && cs.len() == 1 && (cs[0] matches Cmd::Yank { text } && text@ == h),
        None => s2 == s && cs.len() == 0,
    }
}

pub open spec fn cleared_effect(s: Shell, now: i64, s2: Shell) -> bool {
    &&& s2 == (Shell { cursor: 0, text: ShellText { toasts: s2.text.toasts, ..s.text }, ..s })
    &&& toasts_added(s.text.toasts@, seq!["cleared 0 messages"@], now, s2.text.toasts@)
}

/// What a key does in normal mode (not typing, nothing open).
pub open spec fn normal_effect(m: Model, s: Shell, k: KeyPress, now: i64, m2: Model, s2: Shell, cs: Seq<Cmd>) -> bool {
    if plain(k, KeyCode::Char('i')) {
        m2 == m && cs.len() == 0 && s2 == (Shell { insert_mode: true, focus: FocusTarget::Input, ..s })
    } else if plain(k, KeyCode::Char('g')) {
        m2 == m && cs.len() == 0 && s2 == (Shell { tab: next_tab(s.tab), cursor: 0, focus: focus_of(next_tab(s.tab)), ..s })
    } else if plain(k, KeyCode::Char('j')) || plain(k, KeyCode::Down) {
        m2 == m && cs.len() == 0 && down_effect(m, s, now, s2)
    } else if plain(k, KeyCode::Char('k')) || plain(k, KeyCode::Up) {
        m2 == m && cs.len() == 0 && s2 == (Shell { cursor: s2.cursor, ..s })
            && s2.cursor == (if s.cursor > 0 { s.cursor - 1 } else { 0 })
    } else if plain(k, KeyCode::Enter) {
        m2 == m && enter_effect(m, s, now, s2, cs)
    } else if shifted(k, KeyCode::Char('D')) && s.tab == Tab::Messages {
        m2 == m && cs.len() == 0 && cleared_effect(s, now, s2)
    } else if plain(k, KeyCode::Char('s')) {
        m2 == m && switch_effect(m, s, now, s2, cs)
    } else if plain(k, KeyCode::Char(' ')) && s.tab == Tab::Directory {
        m2 == m && cs.len() == 0 && pick_effect(m, s, now, s2)
    } else if plain(k, KeyCode::Char('p')) {
        m2 == m && cs.len() == 0 && pty_effect(m, s, now, s2)
    } else if plain(k, KeyCode::Char('y')) && s.tab == Tab::Directory {
        m2 == m && yank_effect(m, s, now, s2, cs)
    } else if plain(k, KeyCode::Char('@')) && s.tab == Tab::Directory {
        pin_effect(m, s, now, m2, s2, cs)
    } else if digit_key(k) is Some && s.tab == Tab::Directory {
        m2 == m && cs.len() == 0 && jump_effect(m, s, digit_key(k)->0, now, s2)
    } else {
        m2 == m && s2 == s && cs.len() == 0
    }
}

pub(crate) fn prefill(shell: &mut Shell, a: &str, h: &str, b: &str)
    ensures
        prefilled(*old(shell), a@ + h@ + b@, *final(shell)),
{
    let t = concat(a, h);
    shell.insert_mode = true;
    shell.focus = FocusTarget::Input;
    shell.text.input_buf = concat(t.as_str(), b);
}

pub(crate) fn raise_text(shell: &mut Shell, t: String, now: i64)
    ensures
        toasted(*old(shell), seq![t@], now, *final(shell)),
{
    let v = vec![t];
    assert(views(v@) =~= seq![t@]);
    raise(shell, v, now);
}

fn enter_key(model: &Model, shell: &mut Shell, now: i64) -> (cs: Vec<Cmd>)
    requires
        model.wf(),
    ensures
        enter_effect(*model, *old(shell), now, *final(shell), cs@),
{
    match shell.tab {
        Tab::Directory => {
            let h = selected_handle(model, shell, now);
            match h {
                Some(h) => prefill(shell, "to:", h.as_str(), " "),
                None => {},
            }
        },
        Tab::Groups => {
            let g = selected_group_name(model, true, shell.cursor);
            match g {
                Some(n) => {
                    let on = !shell.overlays.group_detail_active;
                    let scroll = if on { 0 } else { shell.overlay_scroll };
                    shell.overlays = Overlays { group_detail_active: on, ..shell.overlays };
                    shell.overlay_scroll = scroll;
                },
                None => {
                    assert(!group_at(*model, old(shell).cursor as int));
                },
            }
        },
        Tab::Messages => {},
    }
    Vec::new()
}

fn pin_key(model: &mut Model, shell: &mut Shell, now: i64) -> (cs: Vec<Cmd>)
    requires
        old(model).wf(),
    ensures
        final(model).wf(),
        pin_effect(*old(model), *old(shell), now, *final(model), *final(shell), cs@),
{
    let h = selected_handle(model, shell, now);
    match h {
        Some(h) => {
            model.toggle_pin(h.as_str());
            let hs = listed_handles_at(model, None, now);
            assert(listed(views(hs@), *model, None, now as int));
            match position_of(&hs, &h) {
                Some(i) => shell.cursor = i,
                None => {},
            }
            if model.is_pinned(h.as_str()) {
                raise_text(shell, concat("pinned: ", h.as_str()), now);
                vec![Cmd::PersistPinAdd { handle: h }]
            } else {
                raise_text(shell, concat("unpinned: ", h.as_str()), now);
                vec![Cmd::PersistPinRemove { handle: h }]
            }
        },
        None => Vec::new(),
    }
}

fn down_key(model: &Model, shell: &mut Shell, now: i64)
    requires
        model.wf(),
    ensures
        down_effect(*model, *old(shell), now, *final(shell)),
{
    let n = row_count(model, shell, now);
    if n > 0 && shell.cursor < n - 1 {
        shell.cursor = shell.cursor + 1;
    }
}

fn switch_key(model: &Model, shell: &mut Shell, now: i64) -> (cs: Vec<Cmd>)
    requires
        model.wf(),
    ensures
        switch_effect(*model, *old(shell), now, *final(shell), cs@),
{
    match selected_handle(model, shell, now) {
        Some(h) => {
            let p = prefix_of_bytes(h.as_str(), 20);
            raise_text(shell, concat("switching to ", p.as_str()), now);
            vec![Cmd::SwitchTerminal { handle: h }]
        },
        None => Vec::new(),
    }
}

fn pick_key(model: &Model, shell: &mut Shell, now: i64)
    requires
        model.wf(),
        old(shell).text.selected_set.wf(),
    ensures
        pick_effect(*model, *old(shell), now, *final(shell)),
{
    match selected_handle(model, shell, now) {
        Some(h) => {
            if !shell.text.selected_set.remove(h.as_str()) {
                shell.text.selected_set.insert(h);
            }
        },
        None => {},
    }
}

fn pty_key(model: &Model, shell: &mut Shell, now: i64)
    requires
        model.wf(),
    ensures
        pty_effect(*model, *old(shell), now, *final(shell)),
{
    match selected_handle(model, shell, now) {
        Some(h) => prefill(shell, "pty:", h.as_str(), " "),
        None => {},
    }
}

fn yank_key(model: &Model, shell: &mut Shell, now: i64) -> (cs: Vec<Cmd>)
    requires
        model.wf(),
    ensures
        yank_effect(*model, *old(shell), now, *final(shell), cs@),
{
    match selected_handle(model, shell, now) {
        Some(h) => {
            raise_text(shell, concat("Yanked: ", h.as_str()), now);
            vec![Cmd::Yank { text: h }]
        },
        None => Vec::new(),
    }
}

fn clear_key(shell: &mut Shell, now: i64)
    ensures
        cleared_effect(*old(shell), now, *final(shell)),
{
    shell.cursor = 0;
    raise_text(shell, "cleared 0 messages".to_owned(), now);
}

fn digit_of(k: KeyPress) -> (r: Option<u32>)
    ensures
        match r { Some(d) => digit_key(k) == Some(d as int) && 1 <= d <= 9, None => digit_key(k) is None },
{
    match k.code {
        KeyCode::Char(c) => if !k.modifiers.shift && !k.modifiers.control && !k.modifiers.alt && '1' <= c && c <= '9' {
            Some((c as u32) - ('0' as u32))
        } else {
            None
        },
        _ => None,
    }
}

/// What a key does in normal mode (see `normal_effect`).
#[verifier::spinoff_prover]
pub(crate) fn normal_key(model: &mut Model, shell: &mut Shell, k: KeyPress, now: i64) -> (cs: Vec<Cmd>)
    requires
        old(model).wf(),
        old(shell).text.selected_set.wf(),
    ensures
        final(model).wf(),
        final(shell).text.selected_set.wf(),
        normal_effect(*old(model), *old(shell), k, now, *final(model), *final(shell), cs@),
{
    if is_plain(k, KeyCode::Char('i')) {
        shell.insert_mode = true;
        shell.focus = FocusTarget::Input;
        Vec::new()
    } else if is_plain(k, KeyCode::Char('g')) {
        let t = shell.tab.next();
        shell.tab = t;
        shell.cursor = 0;
        shell.focus = focus_of_tab(t);
        Vec::new()
    } else if is_plain(k, KeyCode::Char('j')) || is_plain(k, KeyCode::Down) {
        down_key(model, shell, now);
        Vec::new()
    } else if is_plain(k, KeyCode::Char('k')) || is_plain(k, KeyCode::Up) {
        let c = if shell.cursor > 0 { shell.cursor - 1 } else { 0 };
        shell.cursor = c;
        Vec::new()
    } else if is_plain(k, KeyCode::Enter) {
        enter_key(model, shell, now)
    } else if is_shifted(k, KeyCode::Char('D')) && shell.tab == Tab::Messages {
        clear_key(shell, now);
        Vec::new()
    } else if is_plain(k, KeyCode::Char('s')) {
        switch_key(model, shell, now)
    } else if is_plain(k, KeyCode::Char(' ')) && shell.tab == Tab::Directory {
        pick_key(model, shell, now);
        Vec::new()
    } else if is_plain(k, KeyCode::Char('p')) {
        pty_key(model, shell, now);
        Vec::new()
    } else if is_plain(k, KeyCode::Char('y')) && shell.tab == Tab::Directory {
        yank_key(model, shell, now)
    } else if is_plain(k, KeyCode::Char('@')) && shell.tab == Tab::Directory {
        pin_key(model, shell, now)
    } else {
        match digit_of(k) {
            Some(d) => if shell.tab == Tab::Directory {
                jump_to_group(model, shell, d, now);
            },
            None => {},
        }
        Vec::new()
    }
}

// ──── input mode ────

/// The line `text` was added to the history at `now`.
pub open spec fn history_pushed(m: Model, text: Seq<char>, now: i64, m2: Model) -> bool {
    &&& m2.history@.len() == (if m.history@.len() >= HISTORY_CAP { m.history@.len() } else { m.history@.len() + 1 })
    &&& m2.history@.drop_last() == (if m.history@.len() >= HISTORY_CAP { m.history@.drop_first() } else { m.history@ })
    &&& m2.history@.last().id == 0
    &&& m2.history@.last().timestamp_ms == now
    &&& m2.history@.last().text@ == text
    &&& m2.history@.last().prefix@ == crate::text::colon_prefix(text)
    &&& m2 == (Model { history: m2.history, generation: (m.generation + 1) as u64, ..m })
}

/// Enter in input mode: the line leaves the input box and is carried out;
/// a line that did something and is not blank goes into the history.
pub open spec fn submit_effect(m: Model, s: Shell, me: Seq<char>, now: i64, m2: Model, s2: Shell, cs: Seq<Cmd>) -> bool {
    let buf = s.text.input_buf@;
    exists|s1: Shell, m1: Model, c1: Seq<Cmd>| #![trigger line_effect(m, s1, buf, CHAIN_DEPTH as nat, me, now, m1, s2, c1)] {
        &&& s1 == (Shell { insert_mode: false, focus: focus_of(s.tab), history_cursor: None,
            text: ShellText { input_buf: s1.text.input_buf, ..s.text }, ..s })
        &&& s1.text.input_buf@.len() == 0
        &&& line_effect(m, s1, buf, CHAIN_DEPTH as nat, me, now, m1, s2, c1)
        &&& if c1.len() > 0 && trim_seq(buf).len() > 0 {
            &&& history_pushed(m1, buf, now, m2)
            &&& cs.len() == c1.len() + 1 && cs.take(c1.len() as int) == c1
            &&& (cs.last() matches Cmd::PersistHistoryEntry(t) && t@ == buf)
        } else {
            m2 == m1 && cs == c1
        }
    }
}

/// Up in input mode: recall the previous history line.
pub open spec fn recall_up(m: Model, s: Shell, s2: Shell) -> bool {
    let n = m.history@.len();
    match s.history_cursor {
        None => if n > 0 {
            &&& s2 == (Shell { history_cursor: Some((n - 1) as usize),
                text: ShellText { input_buf: s2.text.input_buf, saved_input: s2.text.saved_input, ..s.text }, ..s })
            &&& s2.text.saved_input@ == s.text.input_buf@
            &&& s2.text.input_buf@ == m.history@[n - 1].text@
        } else {
            s2 == s
        },
        Some(i) => if i > 0 {
            &&& s2 == (Shell { history_cursor: Some((i - 1) as usize), text: ShellText { input_buf: s2.text.input_buf, ..s.text }, ..s })
            &&& i - 1 < n ==> s2.text.input_buf@ == m.history@[i - 1].text@
        } else {
            s2 == s
        },
    }
}

pub open spec fn recall_next(m: Model, s: Shell, i: int, s2: Shell) -> bool {
    &&& s2 == (Shell { history_cursor: Some((i + 1) as usize), text: ShellText { input_buf: s2.text.input_buf, ..s.text }, ..s })
    &&& s2.text.input_buf@ == m.history@[i + 1].text@
}

pub open spec fn restore_draft(s: Shell, s2: Shell) -> bool {
    &&& s2 == (Shell { history_cursor: None,
        text: ShellText { input_buf: s2.text.input_buf, saved_input: s2.text.saved_input, ..s.text }, ..s })
    &&& s2.text.input_buf@ == s.text.saved_input@
    &&& s2.text.saved_input@.len() == 0
}

/// Down in input mode: recall the next history line, or the draft after the newest.
pub open spec fn recall_down(m: Model, s: Shell, s2: Shell) -> bool {
    match s.history_cursor {
        Some(i) => if i + 1 < m.history@.len() { recall_next(m, s, i as int, s2) } else { restore_draft(s, s2) },
        None => s2 == s,
    }
}

/// A character typed with no modifier or with Shift.
pub open spec fn typed(k: KeyPress) -> Option<char> {
    match k.code {
        KeyCode::Char(c) => if !k.modifiers.control && !k.modifiers.alt { Some(c) } else { None },
        _ => None,
    }
}

pub open spec fn drop_last_char(t: Seq<char>) -> Seq<char> {
    if t.len() > 0 { t.drop_last() } else { t }
}

pub open spec fn erased(s: Shell, s2: Shell) -> bool {
    &&& s2 == (Shell { text: ShellText { input_buf: s2.text.input_buf, ..s.text }, ..s })
    &&& s2.text.input_buf@ == drop_last_char(s.text.input_buf@)
}

pub open spec fn appended(s: Shell, c: char, s2: Shell) -> bool {
    &&& s2 == (Shell { history_cursor: None, text: ShellText { input_buf: s2.text.input_buf, ..s.text }, ..s })
    &&& s2.text.input_buf@ == s.text.input_buf@.push(c)
}

/// What a key does while typing into the input line.
pub open spec fn typing_effect(m: Model, s: Shell, k: KeyPress, me: Seq<char>, now: i64, m2: Model, s2: Shell, cs: Seq<Cmd>) -> bool {
    if plain(k, KeyCode::Enter) {
        submit_effect(m, s, me, now, m2, s2, cs)
    } else if plain(k, KeyCode::Up) {
        m2 == m && cs.len() == 0 && recall_up(m, s, s2)
    } else if plain(k, KeyCode::Down) {
        m2 == m && cs.len() == 0 && recall_down(m, s, s2)
    } else if plain(k, KeyCode::Backspace) {
        m2 == m && cs.len() == 0 && erased(s, s2)
    } else if typed(k) is Some {
        m2 == m && cs.len() == 0 && appended(s, typed(k)->0, s2)
    } else {
        m2 == m && s2 == s && cs.len() == 0
    }
}

pub(crate) fn pop_text(t: &String) -> (r: String)
    ensures
        r@ == drop_last_char(t@),
{
    let v = chars_of(t.as_str());
    if v.len() > 0 {
        let mut w = v;
        w.pop();
        string_of(&w)
    } else {
        t.clone()
    }
}

fn submit(model: &mut Model, shell: &mut Shell, me: &str, now: i64) -> (cs: Vec<Cmd>)
    requires
        old(model).wf(),
        old(shell).text.selected_set.wf(),
        old(model).generation + 3 <= u64::MAX,
    ensures
        final(model).wf(),
        final(shell).text.selected_set.wf(),
        old(model).generation <= final(model).generation,
        submit_effect(*old(model), *old(shell), me@, now, *final(model), *final(shell), cs@),
{
    let mut buf = String::new();
    std::mem::swap(&mut buf, &mut shell.text.input_buf);
    let ghost b = buf@;
    shell.insert_mode = false;
    shell.focus = focus_of_tab(shell.tab);
    shell.history_cursor = None;
    let ghost s1 = *shell;
    let keep = buf.clone();
    let mut cs = dispatch_line(model, shell, buf, CHAIN_DEPTH, me, now);
    let ghost m1 = *model;
    let ghost c1 = cs@;
    assert(line_effect(*old(model), s1, b, CHAIN_DEPTH as nat, me@, now, m1, *shell, c1));
    let t = trim_vec(&chars_of(keep.as_str()));
    if cs.len() > 0 && t.len() > 0 {
        let entry = keep.clone();
        model.push_history_at(keep, now);
        cs.push(Cmd::PersistHistoryEntry(entry));
        assert(cs@.take(c1.len() as int) =~= c1);
    }
    cs
}

fn recall_up_key(model: &Model, shell: &mut Shell)
    ensures
        recall_up(*model, *old(shell), *final(shell)),
{
    let n = model.history.len();
    match shell.history_cursor {
        None => if n > 0 {
            let mut draft = String::new();
            std::mem::swap(&mut draft, &mut shell.text.input_buf);
            shell.text.saved_input = draft;
            shell.history_cursor = Some(n - 1);
            shell.text.input_buf = model.history[n - 1].text.clone();
        },
        Some(i) => if i > 0 {
            shell.history_cursor = Some(i - 1);
            if i - 1 < n {
                shell.text.input_buf = model.history[i - 1].text.clone();
            } else {
                shell.text.input_buf = String::new();
            }
        },
    }
}

fn next_line(model: &Model, shell: &mut Shell, i: usize)
    requires
        i + 1 < model.history.len(),
    ensures
        recall_next(*model, *old(shell), i as int, *final(shell)),
{
    shell.history_cursor = Some(i + 1);
    shell.text.input_buf = model.history[i + 1].text.clone();
}

fn draft_back(shell: &mut Shell)
    ensures
        restore_draft(*old(shell), *final(shell)),
{
    let mut draft = String::new();
    std::mem::swap(&mut draft, &mut shell.text.saved_input);
    shell.history_cursor = None;
    shell.text.input_buf = draft;
}

fn recall_down_key(model: &Model, shell: &mut Shell)
    ensures
        recall_down(*model, *old(shell), *final(shell)),
{
    let n = model.history.len();
    match shell.history_cursor {
        Some(i) => if i < n && i + 1 < n {
            next_line(model, shell, i);
        } else {
            draft_back(shell);
        },
        None => {},
    }
}

pub(crate) fn typing_key(model: &mut Model, shell: &mut Shell, k: KeyPress, me: &str, now: i64) -> (cs: Vec<Cmd>)
    requires
        old(model).wf(),
        old(shell).text.selected_set.wf(),
        old(model).generation + 3 <= u64::MAX,
    ensures
        final(model).wf(),
        final(shell).text.selected_set.wf(),
        old(model).generation <= final(model).generation,
        typing_effect(*old(model), *old(shell), k, me@, now, *final(model), *final(shell), cs@),
{
    if is_plain(k, KeyCode::Enter) {
        submit(model, shell, me, now)
    } else if is_plain(k, KeyCode::Up) {
        recall_up_key(model, shell);
        Vec::new()
    } else if is_plain(k, KeyCode::Down) {
        recall_down_key(model, shell);
        Vec::new()
    } else if is_plain(k, KeyCode::Backspace) {
        erase(shell);
        Vec::new()
    } else {
        match typed_of(k) {
            Some(c) => append(shell, c),
            None => {},
        }
        Vec::new()
    }
}

pub(crate) fn typed_of(k: KeyPress) -> (r: Option<char>)
    ensures
        r == typed(k),
{
    match k.code {
        KeyCode::Char(c) => if !k.modifiers.control && !k.modifiers.alt { Some(c) } else { None },
        _ => None,
    }
}

fn erase(shell: &mut Shell)
    ensures
        erased(*old(shell), *final(shell)),
{
    let t = pop_text(&shell.text.input_buf);
    shell.text.input_buf = t;
}

fn append(shell: &mut Shell, c: char)
    ensures
        appended(*old(shell), c, *final(shell)),
{
    shell.history_cursor = None;
    push_char(&mut shell.text.input_buf, c);
}

// ──── the directory filter ────

pub open spec fn filter_edited(s: Shell, q2: Option<Seq<char>>, s2: Shell) -> bool {
    &&& s2 == (Shell { cursor: 0, text: ShellText { filter_query: s2.text.filter_query, ..s.text }, ..s })
    &&& opt_view(s2.text.filter_query) == q2
}

/// What a key does while the filter query is being typed.
pub open spec fn filter_effect(s: Shell, k: KeyPress, s2: Shell) -> bool {
    if plain(k, KeyCode::Esc) {
        s2 == (Shell { cursor: 0, flags: Flags { filter_active: false, ..s.flags },
            text: ShellText { filter_query: None, ..s.text }, ..s })
    } else if plain(k, KeyCode::Enter) {
        s2 == (Shell { flags: Flags { filter_active: false, ..s.flags }, ..s })
    } else if plain(k, KeyCode::Backspace) {
        filter_edited(s, match s.text.filter_query { Some(q) => Some(drop_last_char(q@)), None => None }, s2)
    } else if typed(k) is Some && typed(k)->0 != 'j' && typed(k)->0 != 'k' {
        filter_edited(s, match s.text.filter_query { Some(q) => Some(q@.push(typed(k)->0)), None => None }, s2)
    } else if plain(k, KeyCode::Char('j')) || plain(k, KeyCode::Down) {
        s2 == (Shell { cursor: (s.cursor + 1) as usize, ..s })
    } else if plain(k, KeyCode::Char('k')) || plain(k, KeyCode::Up) {
        s2 == (Shell { cursor: s2.cursor, ..s }) && s2.cursor == (if s.cursor > 0 { s.cursor - 1 } else { 0 })
    } else {
        s2 == s
    }
}

fn filter_off(shell: &mut Shell, clear: bool)
    ensures
        clear ==> *final(shell) == (Shell { cursor: 0, flags: Flags { filter_active: false, ..old(shell).flags },
            text: ShellText { filter_query: None, ..old(shell).text }, ..*old(shell) }),
        !clear ==> *final(shell) == (Shell { flags: Flags { filter_active: false, ..old(shell).flags }, ..*old(shell) }),
{
    shell.flags = Flags { filter_active: false, ..shell.flags };
    if clear {
        shell.text.filter_query = None;
        shell.cursor = 0;
    }
}

fn filter_backspace(shell: &mut Shell)
    ensures
        filter_edited(*old(shell), match old(shell).text.filter_query { Some(q) => Some(drop_last_char(q@)), None => None }, *final(shell)),
{
    let q = match &shell.text.filter_query {
        Some(q) => Some(pop_text(q)),
        None => None,
    };
    shell.text.filter_query = q;
    shell.cursor = 0;
}

fn filter_type(shell: &mut Shell, c: char)
    ensures
        filter_edited(*old(shell), match old(shell).text.filter_query { Some(q) => Some(q@.push(c)), None => None }, *final(shell)),
{
    let mut q = None;
    std::mem::swap(&mut q, &mut shell.text.filter_query);
    let q2 = match q {
        Some(mut t) => {
            push_char(&mut t, c);
            Some(t)
        },
        None => None,
    };
    shell.text.filter_query = q2;
    shell.cursor = 0;
}

pub(crate) fn cursor_down(shell: &mut Shell)
    requires
        old(shell).cursor < usize::MAX,
    ensures
        *final(shell) == (Shell { cursor: (old(shell).cursor + 1) as usize, ..*old(shell) }),
{
    shell.cursor = shell.cursor + 1;
}

pub(crate) fn cursor_up(shell: &mut Shell)
    ensures
        *final(shell) == (Shell { cursor: final(shell).cursor, ..*old(shell) }),
        final(shell).cursor == (if old(shell).cursor > 0 { old(shell).cursor - 1 } else { 0 }),
{
    let c = if shell.cursor > 0 { shell.cursor - 1 } else { 0 };
    shell.cursor = c;
}

pub(crate) fn filter_key(shell: &mut Shell, k: KeyPress)
    requires
        (plain(k, KeyCode::Char('j')) || plain(k, KeyCode::Down)) ==> old(shell).cursor < usize::MAX,
    ensures
        filter_effect(*old(shell), k, *final(shell)),
{
    if is_plain(k, KeyCode::Esc) {
        filter_off(shell, true);
    } else if is_plain(k, KeyCode::Enter) {
        filter_off(shell, false);
    } else if is_plain(k, KeyCode::Backspace) {
        filter_backspace(shell);
    } else {
        match typed_of(k) {
            Some(c) => if c != 'j' && c != 'k' {
                filter_type(shell, c);
            } else if is_plain(k, KeyCode::Char('j')) {
                cursor_down(shell);
            } else if is_plain(k, KeyCode::Char('k')) {
                cursor_up(shell);
            },
            None => if is_plain(k, KeyCode::Down) {
                cursor_down(shell);
            } else if is_plain(k, KeyCode::Up) {
                cursor_up(shell);
            },
        }
    }
}

} // verus!
