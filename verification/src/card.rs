//! The text of an agent card: the recap word-wrapped to the card's width,
//! the tool row and the status row.
use vstd::prelude::*;
use crate::text::{views, is_ws, is_whitespace, chars_of, string_of, skip_chars, join_chars, trim_seq, trim_vec};
use crate::render::{str_width, display_width, truncate_spec, truncate_width, cwd_tail_spec, cwd_tail};
use crate::cwd::{text_lines, text_lines_of, real_cwd_spec, extract_real_cwd};
use crate::model::{Agent, StatusCategory, category_of, category_state_at, category_icon, category_label, opt_view};
use crate::view::{handle_tag_spec, handle_tag, preview_tail_spec, preview_tail, spinner_frames, spinner_char,
    elapsed_spec, format_elapsed_at};

verus! {

broadcast use vstd::string::group_string_axioms;

/// Columns of one character as the `unicode-width` crate gives them; None
/// for a control character.
pub uninterp spec fn char_width_of(c: char) -> Option<nat>;

/// `UnicodeWidthChar::width` of the `unicode-width` crate: the columns of a
/// single character, None for a control character. It depends on the
/// character alone; the contract names the result `char_width_of`.
#[verifier::external_body]
fn char_width(c: char) -> (r: Option<usize>)
    ensures
        match r {
            Some(w) => char_width_of(c) == Some(w as nat),
            None => char_width_of(c) == None::<nat>,
        },
{
    unicode_width::UnicodeWidthChar::width(c)
}

/// The texts of a sequence of character vectors.
pub open spec fn rows_of(v: Seq<Vec<char>>) -> Seq<Seq<char>> {
    Seq::new(v.len(), |i: int| v[i]@)
}

/// Columns a character counts for when a long word is broken: its width,
/// 0 for a control character.
pub open spec fn break_cols(c: char) -> nat {
    match char_width_of(c) {
        Some(w) => w,
        None => 0,
    }
}

/// How many leading characters of `s` fit in `budget` columns, taken one
/// by one up to the first that does not fit.
pub open spec fn fit_count(s: Seq<char>, budget: nat) -> nat
    decreases s.len(),
{
    if s.len() == 0 || break_cols(s[0]) > budget {
        0
    } else {
        1 + fit_count(s.drop_first(), (budget - break_cols(s[0])) as nat)
    }
}

pub proof fn lemma_fit_count_le(s: Seq<char>, budget: nat)
    ensures
        fit_count(s, budget) <= s.len(),
    decreases s.len(),
{
    if s.len() > 0 && break_cols(s[0]) <= budget {
        lemma_fit_count_le(s.drop_first(), (budget - break_cols(s[0])) as nat);
    }
}

/// A word too wide for `max` columns broken into pieces: each piece that
/// fits is added to `done`, and what is left once it fits (or once not even
/// one character fits) is the rest.
pub open spec fn hard_break(done: Seq<Seq<char>>, rem: Seq<char>, max: nat) -> (Seq<Seq<char>>, Seq<char>)
    decreases rem.len(),
{
    if str_width(rem) <= max {
        (done, rem)
    } else {
        let k = fit_count(rem, max);
        if k == 0 {
            (done, rem)
        } else {
            proof { lemma_fit_count_le(rem, max); }
            hard_break(done.push(rem.take(k as int)), rem.skip(k as int), max)
        }
    }
}

/// A word placed after the current line `cur`: joined to it by a space when
/// that fits `max` columns; otherwise `cur` is finished and the word starts
/// the next line, broken first when it is too wide by itself.
pub open spec fn place_word(done: Seq<Seq<char>>, cur: Seq<char>, word: Seq<char>, max: nat) -> (Seq<Seq<char>>, Seq<char>) {
    let cand = if cur.len() == 0 { word } else { cur + seq![' '] + word };
    if str_width(cand) <= max {
        (done, cand)
    } else {
        hard_break(if cur.len() > 0 { done.push(cur) } else { done }, word, max)
    }
}

/// The finished lines and the open line after placing `ws` in turn.
pub open spec fn place_words(ws: Seq<Seq<char>>, max: nat) -> (Seq<Seq<char>>, Seq<char>)
    decreases ws.len(),
{
    if ws.len() == 0 {
        (Seq::empty(), Seq::empty())
    } else {
        let p = place_words(ws.drop_last(), max);
        place_word(p.0, p.1, ws.last(), max)
    }
}

/// The words read from `s` so far, and the word being read.
pub open spec fn word_scan(s: Seq<char>) -> (Seq<Seq<char>>, Seq<char>)
    decreases s.len(),
{
    if s.len() == 0 {
        (Seq::empty(), Seq::empty())
    } else {
        let p = word_scan(s.drop_last());
        if is_ws(s.last()) {
            if p.1.len() > 0 { (p.0.push(p.1), Seq::empty()) } else { p }
        } else {
            (p.0, p.1.push(s.last()))
        }
    }
}

/// The whitespace-separated words of `s`, as `str::split_whitespace`
/// gives them.
pub open spec fn words_of(s: Seq<char>) -> Seq<Seq<char>> {
    let p = word_scan(s);
    if p.1.len() > 0 { p.0.push(p.1) } else { p.0 }
}

/// One line of text wrapped: its words placed in turn, the open line closed.
pub open spec fn wrap_line(line: Seq<char>, max: nat) -> Seq<Seq<char>> {
    let p = place_words(words_of(line), max);
    p.0.push(p.1)
}

/// The wrapped lines of `ls`, one line after another.
pub open spec fn wrap_lines(ls: Seq<Seq<char>>, max: nat) -> Seq<Seq<char>>
    decreases ls.len(),
{
    if ls.len() == 0 {
        Seq::empty()
    } else {
        wrap_lines(ls.drop_last(), max) + wrap_line(ls.last(), max)
    }
}

/// `text` word-wrapped to `max` display columns: each of its lines wrapped
/// on its own (a blank line gives an empty line); at least one line; the
/// text as it is when `max` is 0.
pub open spec fn wrap_spec(text: Seq<char>, max: nat) -> Seq<Seq<char>> {
    if max == 0 {
        seq![text]
    } else {
        let out = wrap_lines(text_lines(text), max);
        if out.len() == 0 { seq![Seq::empty()] } else { out }
    }
}

fn vec_width(v: &Vec<char>) -> (r: usize)
    ensures
        r as nat == str_width(v@),
{
    let s = string_of(v);
    display_width(s.as_str())
}

fn take_chars(v: &Vec<char>, n: usize) -> (r: Vec<char>)
    requires
        n <= v.len(),
    ensures
        r@ == v@.take(n as int),
{
    let mut r: Vec<char> = Vec::new();
    let mut i: usize = 0;
    while i < n
        invariant
            i <= n <= v.len(),
            r@ == v@.take(i as int),
        decreases n - i,
    {
        r.push(v[i]);
        assert(v@.take(i + 1) =~= v@.take(i as int).push(v@[i as int]));
        i += 1;
    }
    r
}

fn fit_count_of(s: &Vec<char>, max: usize) -> (k: usize)
    ensures
        k as nat == fit_count(s@, max as nat),
{
    let mut i: usize = 0;
    let mut used: usize = 0;
    let mut done = false;
    assert(s@.skip(0) =~= s@);
    while i < s.len() && !done
        invariant
            i <= s.len(),
            used <= max,
            fit_count(s@, max as nat) == i + (if done { 0 } else { fit_count(s@.skip(i as int), (max - used) as nat) }),
        decreases s.len() - i + (if done { 0int } else { 1int }),
    {
        let cw = match char_width(s[i]) {
            Some(w) => w,
            None => 0,
        };
        assert(s@.skip(i as int)[0] == s@[i as int]);
        assert(s@.skip(i as int).drop_first() =~= s@.skip(i + 1));
        if cw > max - used {
            done = true;
        } else {
            used = used + cw;
            i += 1;
        }
    }
    proof {
        if !done {
            assert(s@.skip(i as int).len() == 0);
        }
    }
    i
}

fn break_word(done: &mut Vec<Vec<char>>, word: Vec<char>, max: usize) -> (rest: Vec<char>)
    ensures
        (rows_of(final(done)@), rest@) == hard_break(rows_of(old(done)@), word@, max as nat),
{
    let mut rem = word;
    let mut go = true;
    while go
        invariant
            hard_break(rows_of(old(done)@), word@, max as nat) == (if go { hard_break(rows_of(done@), rem@, max as nat) } else { (rows_of(done@), rem@) }),
        decreases 2 * rem@.len() + (if go { 1int } else { 0int }),
    {
        if vec_width(&rem) <= max {
            go = false;
        } else {
            let k = fit_count_of(&rem, max);
            if k == 0 {
                go = false;
            } else {
                proof { lemma_fit_count_le(rem@, max as nat); }
                let piece = take_chars(&rem, k);
                let ghost before = rows_of(done@);
                done.push(piece);
                assert(rows_of(done@) =~= before.push(rem@.take(k as int)));
                rem = skip_chars(&rem, k);
            }
        }
    }
    rem
}

fn place_one(done: &mut Vec<Vec<char>>, cur: Vec<char>, word: Vec<char>, max: usize) -> (next: Vec<char>)
    ensures
        (rows_of(final(done)@), next@) == place_word(rows_of(old(done)@), cur@, word@, max as nat),
{
    let cand = if cur.len() == 0 {
        word.clone()
    } else {
        let mut c = cur.clone();
        c.push(' ');
        let j = crate::text::join_chars(&c, &word);
        assert(j@ =~= cur@ + seq![' '] + word@);
        j
    };
    if vec_width(&cand) <= max {
        cand
    } else {
        if cur.len() > 0 {
            let ghost before = rows_of(done@);
            let ghost cv = cur@;
            done.push(cur);
            assert(rows_of(done@) =~= before.push(cv));
        }
        break_word(done, word, max)
    }
}

fn split_words(v: &Vec<char>) -> (r: Vec<Vec<char>>)
    ensures
        rows_of(r@) == words_of(v@),
{
    let mut ws: Vec<Vec<char>> = Vec::new();
    let mut cur: Vec<char> = Vec::new();
    let mut i: usize = 0;
    assert(v@.take(0) =~= Seq::<char>::empty());
    assert(rows_of(ws@) =~= Seq::<Seq<char>>::empty());
    while i < v.len()
        invariant
            i <= v.len(),
            rows_of(ws@) == word_scan(v@.take(i as int)).0,
            cur@ == word_scan(v@.take(i as int)).1,
        decreases v.len() - i,
    {
        assert(v@.take(i + 1).drop_last() =~= v@.take(i as int));
        assert(v@.take(i + 1).last() == v@[i as int]);
        let c = v[i];
        if is_whitespace(c) {
            if cur.len() > 0 {
                let ghost before = rows_of(ws@);
                let ghost cv = cur@;
                ws.push(cur);
                assert(rows_of(ws@) =~= before.push(cv));
                cur = Vec::new();
                assert(cur@ =~= Seq::<char>::empty());
            }
        } else {
            cur.push(c);
        }
        i += 1;
    }
    assert(v@.take(v.len() as int) =~= v@);
    if cur.len() > 0 {
        let ghost before = rows_of(ws@);
        let ghost cv = cur@;
        ws.push(cur);
        assert(rows_of(ws@) =~= before.push(cv));
    }
    ws
}

fn wrap_one_line(line: &Vec<char>, max: usize) -> (r: Vec<Vec<char>>)
    ensures
        rows_of(r@) == wrap_line(line@, max as nat),
{
    let words = split_words(line);
    let mut done: Vec<Vec<char>> = Vec::new();
    let mut cur: Vec<char> = Vec::new();
    let mut j: usize = 0;
    let ghost ws = rows_of(words@);
    assert(ws.take(0) =~= Seq::<Seq<char>>::empty());
    assert(rows_of(done@) =~= Seq::<Seq<char>>::empty());
    while j < words.len()
        invariant
            j <= words@.len(),
            ws == rows_of(words@),
            (rows_of(done@), cur@) == place_words(ws.take(j as int), max as nat),
        decreases words.len() - j,
    {
        assert(ws.take(j + 1).drop_last() =~= ws.take(j as int));
        assert(ws.take(j + 1).last() == words@[j as int]@);
        cur = place_one(&mut done, cur, words[j].clone(), max);
        j += 1;
    }
    assert(ws.take(words@.len() as int) =~= ws);
    let ghost before = rows_of(done@);
    let ghost cv = cur@;
    done.push(cur);
    assert(rows_of(done@) =~= before.push(cv));
    done
}

/// `text` word-wrapped to `max_w` display columns (see `wrap_spec`).
pub fn word_wrap(text: &str, max_w: usize) -> (r: Vec<String>)
    ensures
        views(r@) == wrap_spec(text@, max_w as nat),
{
    if max_w == 0 {
        let r = vec![text.to_string()];
        assert(views(r@) =~= seq![text@]);
        return r;
    }
    let v = chars_of(text);
    let lines = text_lines_of(&v);
    let ghost ls = text_lines(v@);
    let mut out: Vec<Vec<char>> = Vec::new();
    let mut k: usize = 0;
    assert(ls.take(0) =~= Seq::<Seq<char>>::empty());
    assert(rows_of(out@) =~= Seq::<Seq<char>>::empty());
    while k < lines.len()
        invariant
            ls == text_lines(v@),
            lines@.len() == ls.len(),
            forall|q: int| 0 <= q < lines@.len() ==> #[trigger] lines@[q]@ == ls[q],
            k <= lines@.len(),
            rows_of(out@) == wrap_lines(ls.take(k as int), max_w as nat),
        decreases lines.len() - k,
    {
        assert(ls.take(k + 1).drop_last() =~= ls.take(k as int));
        assert(ls.take(k + 1).last() == lines@[k as int]@);
        let w = wrap_one_line(&lines[k], max_w);
        let ghost before = rows_of(out@);
        let mut q: usize = 0;
        while q < w.len()
            invariant
                q <= w@.len(),
                rows_of(out@) == before + rows_of(w@).take(q as int),
            decreases w.len() - q,
        {
            let piece = take_chars(&w[q], w[q].len());
            assert(piece@ =~= w@[q as int]@);
            let ghost mid = rows_of(out@);
            out.push(piece);
            assert(rows_of(out@) =~= mid.push(w@[q as int]@));
            assert(rows_of(w@).take(q + 1) =~= rows_of(w@).take(q as int).push(w@[q as int]@));
            assert(rows_of(out@) =~= before + rows_of(w@).take(q + 1));
            q += 1;
        }
        assert(rows_of(w@).take(w@.len() as int) =~= rows_of(w@));
        k += 1;
    }
    assert(ls.take(lines@.len() as int) =~= ls);
    let mut r: Vec<String> = Vec::new();
    let mut q: usize = 0;
    while q < out.len()
        invariant
            q <= out@.len(),
            views(r@) == rows_of(out@).take(q as int),
        decreases out.len() - q,
    {
        let s = string_of(&out[q]);
        let ghost mid = views(r@);
        r.push(s);
        assert(views(r@) =~= mid.push(out@[q as int]@));
        assert(rows_of(out@).take(q + 1) =~= rows_of(out@).take(q as int).push(out@[q as int]@));
        q += 1;
    }
    assert(rows_of(out@).take(out@.len() as int) =~= rows_of(out@));
    if r.len() == 0 {
        r.push(String::new());
        assert(views(r@) =~= seq![Seq::<char>::empty()]);
    }
    r
}


/// `a - b` for naturals, 0 when `b` is larger.
pub open spec fn sat(a: int) -> nat {
    if a < 0 { 0 } else { a as nat }
}

/// `n` spaces.
pub open spec fn spaces(n: nat) -> Seq<char> {
    Seq::new(n, |i: int| ' ')
}

/// The text of an optional string, empty when there is none.
pub open spec fn or_empty(o: Option<String>) -> Seq<char> {
    match o {
        Some(s) => s@,
        None => Seq::empty(),
    }
}

/// The tag at the top of a card: the handle's short tag between spaces.
pub open spec fn tag_spec(a: Agent) -> Seq<char> {
    seq![' '] + handle_tag_spec(a.handle@) + seq![' ']
}

/// What a card recaps: the last assistant message, else the prompt (both
/// trimmed), else the last meaningful line of the preview.
pub open spec fn recap_spec(a: Agent) -> Seq<char> {
    let m = trim_seq(or_empty(a.last_assistant_msg));
    let p = trim_seq(or_empty(a.prompt));
    if m.len() > 0 { m } else if p.len() > 0 { p } else { preview_tail_spec(opt_view(a.preview)) }
}

/// The recap wrapped to the card's text width (`width` less the bar and
/// its gap); no lines when there is nothing to recap.
pub open spec fn recap_lines_spec(a: Agent, width: nat) -> Seq<Seq<char>> {
    let r = recap_spec(a);
    if r.len() == 0 { Seq::empty() } else { wrap_spec(r, sat(width - 2)) }
}

/// The tool label: a wrench and the tool's name, empty without a tool.
pub open spec fn tool_label_spec(a: Agent) -> Seq<char> {
    let t = or_empty(a.tool_name);
    if t.len() > 0 { seq!['\u{1f527}'] + t } else { Seq::empty() }
}

/// The tool's input after a space, trimmed, cut to what is left of the row.
pub open spec fn tool_input_spec(a: Agent, width: nat) -> Seq<char> {
    let i = trim_seq(or_empty(a.tool_input));
    let part = if i.len() > 0 { seq![' '] + i } else { Seq::empty() };
    truncate_spec(part, sat(width - (2 + str_width(tool_label_spec(a)))))
}

/// The status icon: the spinner's frame while working, else the
/// category's icon.
pub open spec fn icon_spec(a: Agent, now: int, frame: nat) -> Seq<char> {
    let c = category_of(category_state_at(a, now));
    if c == StatusCategory::Working { seq![spinner_frames()[(frame % 10) as int]] } else { category_icon(c) }
}

/// The status label: the category's label.
pub open spec fn label_spec(a: Agent, now: int) -> Seq<char> {
    category_label(category_of(category_state_at(a, now)))
}

/// "last:" and the time since the last output ("-" when there is none).
pub open spec fn last_spec(a: Agent, now: int) -> Seq<char> {
    let e = elapsed_spec(a.last_output_at, now);
    "last:"@ + (if e.len() == 0 { "-"@ } else { e })
}

/// Columns the status row takes before the working directory.
pub open spec fn status_fixed(a: Agent, now: int, frame: nat) -> int {
    (2 + str_width(icon_spec(a, now, frame)) + 1 + str_width(label_spec(a, now)) + 1
        + str_width(last_spec(a, now)) + str_width(" \u{b7} "@)) as int
}

/// The working directory, anchored at its end in what is left of the row.
pub open spec fn cwd_spec(a: Agent, now: int, width: nat, frame: nat, home: Option<Seq<char>>) -> Seq<char> {
    cwd_tail_spec(real_cwd_spec(a, home), sat(width - status_fixed(a, now, frame)))
}

/// The pieces of an agent card's text.
pub struct CardParts {
    pub tag: String,
    pub recap: Vec<String>,
    pub tool_label: String,
    pub tool_input: String,
    pub icon: String,
    pub label: String,
    pub last: String,
    pub cwd: String,
}

/// The pieces match the card of agent `a` at time `now` in `width` columns.
pub open spec fn parts_match(p: CardParts, a: Agent, now: int, width: nat, frame: nat, home: Option<Seq<char>>) -> bool {
    &&& p.tag@ == tag_spec(a)
    &&& views(p.recap@) == recap_lines_spec(a, width)
    &&& p.tool_label@ == tool_label_spec(a)
    &&& p.tool_input@ == tool_input_spec(a, width)
    &&& p.icon@ == icon_spec(a, now, frame)
    &&& p.label@ == label_spec(a, now)
    &&& p.last@ == last_spec(a, now)
    &&& p.cwd@ == cwd_spec(a, now, width, frame, home)
}

fn opt_trim(o: &Option<String>) -> (r: Vec<char>)
    ensures
        r@ == trim_seq(or_empty(*o)),
{
    match o {
        Some(s) => trim_vec(&chars_of(s.as_str())),
        None => {
            let v: Vec<char> = Vec::new();
            proof { crate::text::lemma_trail_ws_bound(Seq::<char>::empty()); }
            assert(trim_seq(Seq::<char>::empty()) =~= Seq::<char>::empty());
            v
        },
    }
}

fn gap(total: usize, used: u128) -> (r: usize)
    ensures
        r as nat == sat(total - used),
{
    if used >= total as u128 { 0 } else { (total as u128 - used) as usize }
}

fn push_spaces(v: &mut Vec<char>, n: usize)
    ensures
        final(v)@ == old(v)@ + spaces(n as nat),
{
    let ghost base = v@;
    let mut k: usize = 0;
    while k < n
        invariant
            k <= n,
            v@ == base + spaces(k as nat),
        decreases n - k,
    {
        v.push(' ');
        assert(base + spaces((k + 1) as nat) =~= (base + spaces(k as nat)).push(' '));
        k += 1;
    }
}

fn width_of(s: &String) -> (r: usize)
    ensures
        r as nat == str_width(s@),
{
    display_width(s.as_str())
}

/// The pieces of the card of `agent` at time `now` (epoch ms), `width`
/// columns wide, at spinner frame `frame`; `home` is `$HOME`.
pub fn card_parts(agent: &Agent, now: i64, width: usize, frame: usize, home: Option<&str>) -> (r: CardParts)
    ensures
        parts_match(r, *agent, now as int, width as nat, frame as nat, crate::cwd::opt_view(home)),
{
    let mut tag_v: Vec<char> = vec![' '];
    tag_v = join_chars(&tag_v, &chars_of(handle_tag(agent.handle.as_str()).as_str()));
    tag_v.push(' ');
    assert(tag_v@ =~= tag_spec(*agent));
    let tag = string_of(&tag_v);

    let m = opt_trim(&agent.last_assistant_msg);
    let p = opt_trim(&agent.prompt);
    let recap_v = if m.len() > 0 {
        m
    } else if p.len() > 0 {
        p
    } else {
        let pv = preview_tail(match &agent.preview { Some(s) => Some(s.as_str()), None => None });
        proof {
            assert((match agent.preview { Some(s) => Some(s@), None => None::<Seq<char>> }) == opt_view(agent.preview));
        }
        chars_of(pv.as_str())
    };
    assert(recap_v@ == recap_spec(*agent));
    let recap = if recap_v.len() == 0 {
        let e: Vec<String> = Vec::new();
        assert(views(e@) =~= Seq::<Seq<char>>::empty());
        e
    } else {
        let cpl: usize = if width >= 2 { width - 2 } else { 0 };
        word_wrap(string_of(&recap_v).as_str(), cpl)
    };

    let tool_v = match &agent.tool_name { Some(t) => chars_of(t.as_str()), None => Vec::new() };
    let label_v = if tool_v.len() > 0 {
        let w = join_chars(&vec!['\u{1f527}'], &tool_v);
        assert(w@ =~= seq!['\u{1f527}'] + tool_v@);
        w
    } else {
        Vec::new()
    };
    assert(label_v@ =~= tool_label_spec(*agent));
    let tool_label = string_of(&label_v);
    let lw = width_of(&tool_label);
    let ti = opt_trim(&agent.tool_input);
    let part = if ti.len() > 0 {
        let w = join_chars(&vec![' '], &ti);
        assert(w@ =~= seq![' '] + ti@);
        w
    } else {
        Vec::new()
    };
    let input_max = gap(width, 2 + lw as u128);
    let tool_input = truncate_width(string_of(&part).as_str(), input_max);
    assert(tool_input@ == tool_input_spec(*agent, width as nat));

    let cat = StatusCategory::from_agent_at(agent, now);
    let icon = if cat == StatusCategory::Working {
        let c = spinner_char(frame);
        let s = string_of(&vec![c]);
        assert(s@ =~= seq![c]);
        s
    } else {
        cat.icon().to_string()
    };
    assert(icon@ == icon_spec(*agent, now as int, frame as nat));
    let label = cat.label().to_string();
    let elapsed = format_elapsed_at(agent.last_output_at, now);
    let ev = chars_of(elapsed.as_str());
    let shown = if ev.len() == 0 { chars_of("-") } else { ev };
    proof { reveal_strlit("-"); reveal_strlit("last:"); }
    let last_v = join_chars(&chars_of("last:"), &shown);
    let last = string_of(&last_v);
    assert(last@ == last_spec(*agent, now as int));
    let sep = " \u{b7} ";
    let fixed: u128 = 2 + width_of(&icon) as u128 + 1 + width_of(&label) as u128 + 1 + width_of(&last) as u128
        + display_width(sep) as u128;
    assert(fixed == status_fixed(*agent, now as int, frame as nat));
    let real_path = extract_real_cwd(agent, home);
    let cwd = cwd_tail(real_path.as_str(), gap(width, fixed));
    CardParts { tag, recap, tool_label, tool_input, icon, label, last, cwd }
}

/// One of the card's five recap rows: the bar, a gap and the `i`-th
/// wrapped line padded to the text width; the bar alone, padded, past the
/// last line.
pub open spec fn recap_row(ls: Seq<Seq<char>>, i: int, width: nat) -> Seq<char> {
    if i < ls.len() {
        seq!['\u{258c}', ' '] + ls[i] + spaces(sat(sat(width - 2) - str_width(ls[i])))
    } else {
        seq!['\u{258c}'] + spaces(sat(width - 1))
    }
}

/// The rows of the card of agent `a` at time `now`, `width` columns wide:
/// the tag row (tag, padding, a send button), five recap rows, the tool
/// row, the status row (icon, label, time since the last output, working
/// directory) and an empty row, each padded to the width where it fits.
pub open spec fn card_spec(a: Agent, now: int, width: nat, frame: nat, home: Option<Seq<char>>) -> Seq<Seq<char>> {
    let tag = tag_spec(a);
    let btn = " \u{279c}"@;
    let row0 = tag + spaces(sat(width - str_width(tag) - (str_width(btn) + 1))) + btn + seq![' '];
    let ls = recap_lines_spec(a, width);
    let lw = str_width(tool_label_spec(a));
    let iw = str_width(tool_input_spec(a, width));
    let tool = seq!['\u{258c}', ' '] + tool_label_spec(a) + tool_input_spec(a, width) + spaces(sat(width - (2 + lw + iw)));
    let cwd = cwd_spec(a, now, width, frame, home);
    let status = seq!['\u{258c}', ' '] + icon_spec(a, now, frame) + seq![' '] + label_spec(a, now) + seq![' ']
        + last_spec(a, now) + " \u{b7} "@ + cwd + spaces(sat(width - (status_fixed(a, now, frame) + str_width(cwd))));
    seq![row0, recap_row(ls, 0, width), recap_row(ls, 1, width), recap_row(ls, 2, width), recap_row(ls, 3, width),
        recap_row(ls, 4, width), tool, status, spaces(width)]
}

fn recap_row_of(recap: &Vec<String>, i: usize, width: usize) -> (r: String)
    ensures
        r@ == recap_row(views(recap@), i as int, width as nat),
{
    let mut v: Vec<char> = Vec::new();
    if i < recap.len() {
        v.push('\u{258c}');
        v.push(' ');
        v = join_chars(&v, &chars_of(recap[i].as_str()));
        let cpl: usize = if width >= 2 { width - 2 } else { 0 };
        push_spaces(&mut v, gap(cpl, width_of(&recap[i]) as u128));
        assert(v@ =~= recap_row(views(recap@), i as int, width as nat));
    } else {
        v.push('\u{258c}');
        push_spaces(&mut v, gap(width, 1));
        assert(v@ =~= recap_row(views(recap@), i as int, width as nat));
    }
    string_of(&v)
}

/// The rows of the card of `agent` (see `card_spec`).
pub fn card_lines(agent: &Agent, now: i64, width: usize, frame: usize, home: Option<&str>) -> (r: Vec<String>)
    ensures
        views(r@) == card_spec(*agent, now as int, width as nat, frame as nat, crate::cwd::opt_view(home)),
{
    let parts = card_parts(agent, now, width, frame, home);
    let btn = " \u{279c}";
    let mut row0 = chars_of(parts.tag.as_str());
    push_spaces(&mut row0, gap(width, width_of(&parts.tag) as u128 + display_width(btn) as u128 + 1));
    row0 = join_chars(&row0, &chars_of(btn));
    row0.push(' ');
    let mut tool: Vec<char> = vec!['\u{258c}', ' '];
    tool = join_chars(&tool, &chars_of(parts.tool_label.as_str()));
    tool = join_chars(&tool, &chars_of(parts.tool_input.as_str()));
    push_spaces(&mut tool, gap(width, 2 + width_of(&parts.tool_label) as u128 + width_of(&parts.tool_input) as u128));
    let mut status: Vec<char> = vec!['\u{258c}', ' '];
    status = join_chars(&status, &chars_of(parts.icon.as_str()));
    status.push(' ');
    status = join_chars(&status, &chars_of(parts.label.as_str()));
    status.push(' ');
    status = join_chars(&status, &chars_of(parts.last.as_str()));
    status = join_chars(&status, &chars_of(" \u{b7} "));
    status = join_chars(&status, &chars_of(parts.cwd.as_str()));
    let fixed: u128 = 2 + width_of(&parts.icon) as u128 + 1 + width_of(&parts.label) as u128 + 1
        + width_of(&parts.last) as u128 + display_width(" \u{b7} ") as u128;
    push_spaces(&mut status, gap(width, fixed + width_of(&parts.cwd) as u128));
    let mut bottom: Vec<char> = Vec::new();
    push_spaces(&mut bottom, width);
    let mut r: Vec<String> = Vec::new();
    r.push(string_of(&row0));
    r.push(recap_row_of(&parts.recap, 0, width));
    r.push(recap_row_of(&parts.recap, 1, width));
    r.push(recap_row_of(&parts.recap, 2, width));
    r.push(recap_row_of(&parts.recap, 3, width));
    r.push(recap_row_of(&parts.recap, 4, width));
    r.push(string_of(&tool));
    r.push(string_of(&status));
    r.push(string_of(&bottom));
    proof {
        let c = card_spec(*agent, now as int, width as nat, frame as nat, crate::cwd::opt_view(home));
        assert(views(r@)[0] =~= c[0]);
        assert(views(r@)[6] =~= c[6]);
        assert(views(r@)[7] =~= c[7]);
        assert(views(r@)[8] =~= c[8]);
    }
    assert(views(r@) =~= card_spec(*agent, now as int, width as nat, frame as nat, crate::cwd::opt_view(home)));
    r
}

} // verus!
