//! Width-aware text fitting for the terminal: cutting text to a number of
//! display columns and padding it to a width.
use vstd::prelude::*;
use crate::text::{chars_of, string_of, split_sep, split_on, join_chars, has_sub, lower_contains};

verus! {

broadcast use vstd::string::group_string_axioms;

/// Display width in terminal columns of `s`, as the `unicode-width` crate
/// measures it.
pub uninterp spec fn str_width(s: Seq<char>) -> nat;

/// `UnicodeWidthStr::width` of the `unicode-width` crate: the columns that
/// `s` takes on a terminal. It depends on the text alone (per-character
/// widths from the Unicode tables, with rules for some sequences); the
/// contract names the result `str_width` and says nothing more of it.
#[verifier::external_body]
pub(crate) fn display_width(s: &str) -> (r: usize)
    ensures
        r as nat == str_width(s@),
{
    unicode_width::UnicodeWidthStr::width(s)
}

/// Columns given to one character when cutting text: its width, at least 1.
pub open spec fn char_cols(c: char) -> nat {
    let w = str_width(seq![c]);
    if w < 1 { 1 } else { w }
}

/// The longest prefix of `s` whose characters fit in `budget` columns,
/// taken character by character.
pub open spec fn fit_prefix(s: Seq<char>, budget: nat) -> Seq<char>
    decreases s.len(),
{
    if s.len() == 0 || char_cols(s[0]) > budget {
        Seq::empty()
    } else {
        seq![s[0]] + fit_prefix(s.drop_first(), (budget - char_cols(s[0])) as nat)
    }
}

/// `s` cut to `max` columns: unchanged when it fits; else as many leading
/// characters as fit in `max - 1` columns followed by '…' (nothing for 0).
pub open spec fn truncate_spec(s: Seq<char>, max: nat) -> Seq<char> {
    if str_width(s) <= max {
        s
    } else if max == 0 {
        Seq::empty()
    } else {
        fit_prefix(s, (max - 1) as nat).push('…')
    }
}

/// Cuts `s` to `max_width` display columns, marking a cut with '…'.
pub fn truncate_width(s: &str, max_width: usize) -> (r: String)
    ensures
        r@ == truncate_spec(s@, max_width as nat),
{
    let w = display_width(s);
    if w <= max_width {
        return s.to_owned();
    }
    if max_width == 0 {
        return String::new();
    }
    let target = max_width - 1;
    let cs = chars_of(s);
    let mut acc: usize = 0;
    let mut out: Vec<char> = Vec::new();
    let mut i: usize = 0;
    let mut done = false;
    assert(cs@.skip(0) =~= cs@);
    assert(out@ + fit_prefix(cs@.skip(0), (target - acc) as nat) =~= fit_prefix(cs@, target as nat));
    while i < cs.len() && !done
        invariant
            i <= cs@.len(),
            acc <= target,
            fit_prefix(cs@, target as nat) == out@ + (if done { Seq::empty() } else { fit_prefix(cs@.skip(i as int), (target - acc) as nat) }),
        decreases cs.len() - i + (if done { 0int } else { 1int }),
    {
        let one = string_of(&vec![cs[i]]);
        let cw0 = display_width(one.as_str());
        let cw = if cw0 < 1 { 1 } else { cw0 };
        proof {
            assert(one@ =~= seq![cs@[i as int]]);
            assert(cs@.skip(i as int)[0] == cs@[i as int]);
            assert(cs@.skip(i as int).drop_first() =~= cs@.skip(i + 1));
        }
        if cw > target - acc {
            done = true;
        } else {
            acc = acc + cw;
            out.push(cs[i]);
            i += 1;
        }
    }
    proof {
        if !done {
            assert(cs@.skip(i as int).len() == 0);
        }
        assert(out@ + Seq::<char>::empty() =~= out@);
    }
    out.push('…');
    string_of(&out)
}

/// `s` fitted to exactly `target` columns: padded with spaces when
/// narrower, else cut as `truncate_width` does.
pub open spec fn pad_spec(s: Seq<char>, target: nat) -> Seq<char> {
    if str_width(s) >= target {
        truncate_spec(s, target)
    } else {
        s + Seq::new((target - str_width(s)) as nat, |i: int| ' ')
    }
}

/// Left-aligns `s` in `target_width` columns.
pub fn pad_left(s: &str, target_width: usize) -> (r: String)
    ensures
        r@ == pad_spec(s@, target_width as nat),
{
    let w = display_width(s);
    if w >= target_width {
        truncate_width(s, target_width)
    } else {
        let pad = target_width - w;
        let mut out = chars_of(s);
        let ghost base = out@;
        let mut k: usize = 0;
        while k < pad
            invariant
                k <= pad,
                out@ == base + Seq::new(k as nat, |i: int| ' '),
            decreases pad - k,
        {
            out.push(' ');
            assert(base + Seq::new((k + 1) as nat, |i: int| ' ') =~= (base + Seq::new(k as nat, |i: int| ' ')).push(' '));
            k += 1;
        }
        string_of(&out)
    }
}

/// The non-empty pieces of `pieces`, in order.
pub open spec fn nonempty(pieces: Seq<Seq<char>>) -> Seq<Seq<char>>
    decreases pieces.len(),
{
    if pieces.len() == 0 {
        Seq::empty()
    } else {
        let p = nonempty(pieces.drop_last());
        if pieces.last().len() > 0 { p.push(pieces.last()) } else { p }
    }
}

/// Pieces joined with '/'.
pub open spec fn slash_joined(s: Seq<Seq<char>>) -> Seq<char>
    decreases s.len(),
{
    if s.len() == 0 {
        Seq::empty()
    } else if s.len() == 1 {
        s[0]
    } else {
        slash_joined(s.drop_last()) + seq!['/'] + s.last()
    }
}

/// Trying to show the last `keep` segments of a path (then fewer) in `max` columns.
pub open spec fn tail_step(path: Seq<char>, segs: Seq<Seq<char>>, keep: int, max: nat) -> Seq<char>
    decreases keep,
{
    if keep <= 0 {
        truncate_spec(path, max)
    } else if segs.len() <= keep {
        if str_width(slash_joined(segs)) <= max { slash_joined(segs) } else { truncate_spec(path, max) }
    } else {
        let d = seq!['…', '/'] + slash_joined(segs.skip(segs.len() - keep));
        if str_width(d) <= max { d } else { tail_step(path, segs, keep - 1, max) }
    }
}

/// A path anchored at its end in `max` columns: the whole path's segments
/// when at most three and they fit; else "…/" and the last three, two or
/// one segments, the most that fit; else the path cut to `max` columns.
/// Empty when the path has no segments.
pub open spec fn cwd_tail_spec(path: Seq<char>, max: nat) -> Seq<char> {
    let segs = nonempty(split_sep(path, seq!['/']));
    if segs.len() == 0 { Seq::empty() } else { tail_step(path, segs, 3, max) }
}

fn slash_join(segs: &Vec<Vec<char>>, from: usize) -> (r: Vec<char>)
    requires
        from <= segs@.len(),
    ensures
        r@ == slash_joined(Seq::new(segs@.len(), |i: int| segs@[i]@).skip(from as int)),
{
    let ghost sv = Seq::new(segs@.len(), |i: int| segs@[i]@).skip(from as int);
    let mut r: Vec<char> = Vec::new();
    let mut i: usize = from;
    while i < segs.len()
        invariant
            from <= i <= segs@.len(),
            sv == Seq::new(segs@.len(), |k: int| segs@[k]@).skip(from as int),
            r@ == slash_joined(sv.take(i - from)),
        decreases segs.len() - i,
    {
        assert(sv.take(i + 1 - from).drop_last() =~= sv.take(i - from));
        assert(sv.take(i + 1 - from).last() == segs@[i as int]@);
        if i > from {
            r.push('/');
        } else {
            assert(sv.take(1) =~= seq![segs@[i as int]@]);
        }
        r = join_chars(&r, &segs[i]);
        if i == from {
            assert(r@ =~= segs@[i as int]@);
        }
        i += 1;
    }
    assert(sv.take(segs.len() - from) =~= sv);
    r
}

/// A working directory shown in `max_w` columns, anchored at its end.
pub fn cwd_tail(path: &str, max_w: usize) -> (r: String)
    ensures
        r@ == cwd_tail_spec(path@, max_w as nat),
{
    let p = chars_of(path);
    let slash = vec!['/'];
    assert(slash@ =~= seq!['/']);
    let pieces = split_on(&p, &slash);
    let ghost pv = split_sep(p@, seq!['/']);
    let mut segs: Vec<Vec<char>> = Vec::new();
    let mut i: usize = 0;
    while i < pieces.len()
        invariant
            i <= pieces@.len(),
            pieces@.len() == pv.len(),
            forall|k: int| 0 <= k < pieces@.len() ==> #[trigger] pieces@[k]@ == pv[k],
            Seq::new(segs@.len(), |k: int| segs@[k]@) == nonempty(pv.take(i as int)),
        decreases pieces.len() - i,
    {
        assert(pv.take(i + 1).drop_last() =~= pv.take(i as int));
        if pieces[i].len() > 0 {
            let ghost before = Seq::new(segs@.len(), |k: int| segs@[k]@);
            segs.push(pieces[i].clone());
            assert(Seq::new(segs@.len(), |k: int| segs@[k]@) =~= before.push(pv[i as int]));
        }
        i += 1;
    }
    assert(pv.take(pieces.len() as int) =~= pv);
    let ghost sv = Seq::new(segs@.len(), |k: int| segs@[k]@);
    if segs.len() == 0 {
        return String::new();
    }
    let mut keep: usize = 3;
    while keep > 0
        invariant
            keep <= 3,
            sv == Seq::new(segs@.len(), |k: int| segs@[k]@),
            sv.len() > 0,
            cwd_tail_spec(path@, max_w as nat) == tail_step(path@, sv, keep as int, max_w as nat),
        decreases keep,
    {
        if segs.len() <= keep {
            let full = slash_join(&segs, 0);
            assert(sv.skip(0) =~= sv);
            let fs = string_of(&full);
            if display_width(fs.as_str()) <= max_w {
                return fs;
            }
            return truncate_width(path, max_w);
        }
        let tail = slash_join(&segs, segs.len() - keep);
        let ell = vec!['…', '/'];
        assert(ell@ =~= seq!['…', '/']);
        let d = join_chars(&ell, &tail);
        let ds = string_of(&d);
        if display_width(ds.as_str()) <= max_w {
            return ds;
        }
        keep -= 1;
    }
    truncate_width(path, max_w)
}

/// The colour role of an agent's hook state in the theme.
#[derive(Debug, Clone, Copy, PartialEq, Eq, Structural)]
pub enum StateTone {
    Working,
    Error,
    Idle,
    Muted,
}

/// The colour role of a hook state: running, working or busy; error or
/// fail; idle, done or ok; anything else (or no state) muted. The state is
/// matched as written.
pub open spec fn state_tone_spec(state: Option<Seq<char>>) -> StateTone {
    match state {
        Some(s) => if has_sub(s, "run"@) || has_sub(s, "work"@) || has_sub(s, "busy"@) {
            StateTone::Working
        } else if has_sub(s, "error"@) || has_sub(s, "fail"@) {
            StateTone::Error
        } else if has_sub(s, "idle"@) || has_sub(s, "done"@) || has_sub(s, "ok"@) {
            StateTone::Idle
        } else {
            StateTone::Muted
        },
        None => StateTone::Muted,
    }
}

/// The colour role of a hook state (see `state_tone_spec`).
pub fn state_tone(state: Option<&str>) -> (r: StateTone)
    ensures
        r == state_tone_spec(match state { Some(s) => Some(s@), None => None }),
{
    match state {
        Some(s) => {
            let v = chars_of(s);
            if lower_contains(&v, "run") || lower_contains(&v, "work") || lower_contains(&v, "busy") {
                StateTone::Working
            } else if lower_contains(&v, "error") || lower_contains(&v, "fail") {
                StateTone::Error
            } else if lower_contains(&v, "idle") || lower_contains(&v, "done") || lower_contains(&v, "ok") {
                StateTone::Idle
            } else {
                StateTone::Muted
            }
        },
        None => StateTone::Muted,
    }
}

} // verus!
