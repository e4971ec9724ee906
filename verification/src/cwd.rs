//! The working directory shown on an agent's card: read from what the
//! terminal printed, from a shell-prompt title, or the worktree path.
use vstd::prelude::*;
use crate::model::Agent;
use crate::text::{starts_with, trim_seq, trim_start_seq, sub_pos, chars_of, string_of, join_chars, skip_chars,
    trim_vec, trim_start_vec, starts_with_vec, is_whitespace, is_ws};
use crate::view::{split_lines, lines_of, lemma_split_lines_len};
use crate::update::{word_len};

verus! {

broadcast use vstd::string::group_string_axioms;

/// `~` and `~/…` with the home directory put in: `~/x` becomes `$HOME/x`
/// when `$HOME` is set and not empty; `~` becomes `$HOME` when it is set
/// (or stays `~`). Other paths are unchanged. `home` is `$HOME`, None when unset.
pub open spec fn expand_tilde_spec(path: Seq<char>, home: Option<Seq<char>>) -> Seq<char> {
    if starts_with(path, "~/"@) {
        match home {
            Some(h) => if h.len() > 0 { h + path.skip(1) } else { path },
            None => path,
        }
    } else if path == "~"@ {
        match home {
            Some(h) => h,
            None => "~"@,
        }
    } else {
        path
    }
}

pub open spec fn opt_view(o: Option<&str>) -> Option<Seq<char>> {
    match o {
        Some(s) => Some(s@),
        None => None,
    }
}

/// Expands a leading `~` (see `expand_tilde_spec`).
pub fn expand_tilde(path: &str, home: Option<&str>) -> (r: String)
    ensures
        r@ == expand_tilde_spec(path@, opt_view(home)),
{
    let p = chars_of(path);
    proof {
        reveal_strlit("~/");
        reveal_strlit("~");
    }
    if starts_with_vec(&p, &chars_of("~/")) {
        match home {
            Some(h) => if !h.is_empty() {
                let t = join_chars(&chars_of(h), &skip_chars(&p, 1));
                return string_of(&t);
            },
            None => {},
        }
    } else if crate::text::vec_is(&p, "~") {
        return match home {
            Some(h) => h.to_owned(),
            None => "~".to_owned(),
        };
    }
    path.to_owned()
}

/// Whether `c` is alphabetic or numeric (Unicode), as `char::is_alphanumeric` says.
pub uninterp spec fn alnum(c: char) -> bool;

/// `char::is_alphanumeric` of std: whether `c` has the Unicode Alphabetic
/// or Numeric property. It depends on `c` alone; the contract names the
/// answer `alnum` and says nothing more of it.
#[verifier::external_body]
fn is_alnum(c: char) -> (r: bool)
    ensures
        r == alnum(c),
{
    c.is_alphanumeric()
}

/// A character trimmed from around a path: neither alphanumeric nor one of `/ ~ . -`.
pub open spec fn path_junk(c: char) -> bool {
    !alnum(c) && c != '/' && c != '~' && c != '.' && c != '-'
}

pub open spec fn lead_junk(s: Seq<char>) -> int
    decreases s.len(),
{
    if s.len() > 0 && path_junk(s[0]) { 1 + lead_junk(s.drop_first()) } else { 0 }
}

pub open spec fn trail_junk(s: Seq<char>) -> int
    decreases s.len(),
{
    if s.len() > 0 && path_junk(s.last()) { 1 + trail_junk(s.drop_last()) } else { 0 }
}

/// `s` without junk characters at either end.
pub open spec fn trim_junk(s: Seq<char>) -> Seq<char> {
    let t = s.skip(lead_junk(s));
    t.take(t.len() - trail_junk(t))
}

/// The first whitespace-separated word of `s` (empty when there is none).
pub open spec fn first_token(s: Seq<char>) -> Seq<char> {
    let t = trim_start_seq(s);
    t.take(word_len(t))
}

/// The lines of `s` as `str::lines` gives them: split at line feeds, no
/// empty last line after a final line feed, a carriage return before a line
/// feed dropped.
pub open spec fn text_lines(s: Seq<char>) -> Seq<Seq<char>> {
    let ps = split_lines(s);
    let ls = if s.len() == 0 { Seq::empty() } else if s.last() == '\n' { ps.drop_last() } else { ps };
    Seq::new(ls.len(), |i: int| if ls[i].len() > 0 && ls[i].last() == '\r' { ls[i].drop_last() } else { ls[i] })
}

/// A path mentioned as `cwd=PATH` or `cwd: PATH` in a line, if any.
pub open spec fn line_cwd(line: Seq<char>) -> Option<Seq<char>> {
    let i = sub_pos(line, "cwd="@);
    let j = sub_pos(line, "cwd:"@);
    let eq_path = trim_junk(first_token(line.skip(i + 4)));
    let colon_path = first_token(trim_start_seq(line.skip(j + 4)));
    if i + 4 <= line.len() && (starts_with(eq_path, "/"@) || starts_with(eq_path, "~"@)) {
        Some(eq_path)
    } else if j + 4 <= line.len() && (starts_with(colon_path, "/"@) || starts_with(colon_path, "~"@)) {
        Some(colon_path)
    } else {
        None
    }
}

/// The first path found scanning `lines` from its last line back, looking
/// at no more than `n` lines.
pub open spec fn scan_lines(lines: Seq<Seq<char>>, n: int) -> Option<Seq<char>>
    decreases lines.len(),
{
    if lines.len() == 0 || n <= 0 {
        None
    } else {
        match line_cwd(lines.last()) {
            Some(p) => Some(p),
            None => scan_lines(lines.drop_last(), n - 1),
        }
    }
}

/// Position of the last occurrence of `p` in `s` (-1 when there is none).
pub open spec fn last_sub(s: Seq<char>, p: Seq<char>) -> int
    decreases s.len(),
{
    if s.len() < p.len() {
        -1
    } else if s.subrange(s.len() - p.len(), s.len() as int) == p {
        s.len() - p.len()
    } else if s.len() == 0 {
        -1
    } else {
        last_sub(s.drop_last(), p)
    }
}

proof fn lemma_last_sub(s: Seq<char>, p: Seq<char>)
    ensures
        last_sub(s, p) == -1 || (0 <= last_sub(s, p) && last_sub(s, p) + p.len() <= s.len()),
    decreases s.len(),
{
    if s.len() >= p.len() && s.subrange(s.len() - p.len(), s.len() as int) != p && s.len() > 0 {
        lemma_last_sub(s.drop_last(), p);
    }
}

/// A path in a shell-prompt title such as `user@host: ~/path`.
pub open spec fn title_cwd(title: Seq<char>) -> Option<Seq<char>> {
    let i = last_sub(title, ": "@);
    let part = trim_seq(title.skip(i + 2));
    if i >= 0 && part.len() > 0 && (starts_with(part, "~"@) || starts_with(part, "/"@)) { Some(part) } else { None }
}

/// The working directory of an agent: a path printed as `cwd=` or `cwd:`
/// in the last ten lines of its preview, else the path of a shell-prompt
/// title, else its worktree path; a leading `~` is expanded.
pub open spec fn real_cwd_spec(a: Agent, home: Option<Seq<char>>) -> Seq<char> {
    let from_preview = match a.preview { Some(p) => scan_lines(text_lines(p@), 10), None => None };
    let from_title = match a.title { Some(t) => title_cwd(t@), None => None };
    match from_preview {
        Some(p) => expand_tilde_spec(p, home),
        None => match from_title {
            Some(p) => expand_tilde_spec(p, home),
            None => a.cwd@,
        },
    }
}

fn first_token_of(v: &Vec<char>) -> (r: Vec<char>)
    ensures
        r@ == first_token(v@),
{
    let t = trim_start_vec(v);
    let mut w: Vec<char> = Vec::new();
    let mut i: usize = 0;
    proof { lemma_word_len_bound(t@); }
    while i < t.len() && !is_whitespace(t[i])
        invariant
            i <= t.len(),
            i <= word_len(t@),
            word_len(t@) <= t@.len(),
            word_len(t@) == i + word_len(t@.skip(i as int)),
            w@ == t@.take(i as int),
        decreases t.len() - i,
    {
        assert(t@.skip(i as int).drop_first() =~= t@.skip(i + 1));
        assert(t@.skip(i as int)[0] == t@[i as int]);
        proof { lemma_word_len_bound(t@.skip(i + 1)); }
        w.push(t[i]);
        assert(t@.take(i + 1) =~= t@.take(i as int).push(t@[i as int]));
        i += 1;
    }
    proof {
        if i < t.len() {
            assert(is_ws(t@.skip(i as int)[0]));
        } else {
            assert(t@.skip(i as int).len() == 0);
        }
    }
    w
}

proof fn lemma_word_len_bound(t: Seq<char>)
    ensures
        0 <= word_len(t) <= t.len(),
        word_len(t) == 0 + word_len(t.skip(0)),
    decreases t.len(),
{
    assert(t.skip(0) =~= t);
    if t.len() > 0 && !is_ws(t[0]) {
        lemma_word_len_bound(t.drop_first());
    }
}

fn trim_junk_of(v: &Vec<char>) -> (r: Vec<char>)
    ensures
        r@ == trim_junk(v@),
{
    let mut a: usize = 0;
    assert(v@.skip(0) =~= v@);
    while a < v.len() && !is_alnum(v[a]) && v[a] != '/' && v[a] != '~' && v[a] != '.' && v[a] != '-'
        invariant
            a <= v.len(),
            lead_junk(v@) == a + lead_junk(v@.skip(a as int)),
        decreases v.len() - a,
    {
        assert(v@.skip(a as int).drop_first() =~= v@.skip(a + 1));
        a += 1;
    }
    proof {
        if a < v.len() {
            assert(!path_junk(v@.skip(a as int)[0]));
        } else {
            assert(v@.skip(a as int).len() == 0);
        }
    }
    let t = skip_chars(v, a);
    let mut b: usize = t.len();
    assert(t@.take(b as int) =~= t@);
    while b > 0 && !is_alnum(t[b - 1]) && t[b - 1] != '/' && t[b - 1] != '~' && t[b - 1] != '.' && t[b - 1] != '-'
        invariant
            b <= t.len(),
            trail_junk(t@) == (t.len() - b) + trail_junk(t@.take(b as int)),
        decreases b,
    {
        assert(t@.take(b as int).drop_last() =~= t@.take(b - 1));
        b -= 1;
    }
    proof {
        if b > 0 {
            assert(!path_junk(t@.take(b as int).last()));
        }
    }
    let mut r: Vec<char> = Vec::new();
    let mut k: usize = 0;
    while k < b
        invariant
            k <= b <= t.len(),
            r@ == t@.take(k as int),
        decreases b - k,
    {
        r.push(t[k]);
        assert(t@.take(k + 1) =~= t@.take(k as int).push(t@[k as int]));
        k += 1;
    }
    r
}

/// Position of the first `lit` in `v`, when it occurs.
fn find_sub(v: &Vec<char>, lit: &str) -> (r: usize)
    requires
        lit@.len() > 0,
    ensures
        r as int + lit@.len() <= v@.len() ==> r as int == sub_pos(v@, lit@),
        r as int + lit@.len() > v@.len() ==> sub_pos(v@, lit@) + lit@.len() > v@.len(),
{
    let p = chars_of(lit);
    let ghost pv = p@;
    let m = p.len();
    let n = v.len();
    proof { crate::text::lemma_sub_pos(v@, pv); }
    let mut i: usize = 0;
    let mut found = false;
    while !found && i <= n && m <= n - i
        invariant
            pv == lit@,
            p@ == pv,
            m == pv.len(),
            m > 0,
            n == v@.len(),
            i <= n,
            found ==> i + m <= n && v@.subrange(i as int, i + m) == pv,
            forall|j: int| 0 <= j < i && j + m <= n ==> #[trigger] v@.subrange(j, j + m) != pv,
        decreases n - i + (if found { 0int } else { 1int }),
    {
        let t = skip_chars(v, i);
        proof {
            assert(t@.subrange(0, m as int) =~= v@.subrange(i as int, i + m));
        }
        if starts_with_vec(&t, &p) {
            found = true;
        } else {
            i += 1;
        }
    }
    if found {
        proof {
            let q = sub_pos(v@, pv);
            if q < i {
                assert(v@.subrange(q, q + m) == pv);
            }
            if q > i {
                assert(v@.subrange(i as int, i + m) != pv);
            }
        }
        i
    } else {
        proof {
            let q = sub_pos(v@, pv);
            if q + m <= n {
                assert(v@.subrange(q, q + m) == pv);
            }
        }
        n
    }
}

/// The path of `cwd=PATH` or `cwd: PATH` in a line, if any.
fn line_cwd_of(line: &Vec<char>) -> (r: Option<Vec<char>>)
    ensures
        match r {
            Some(p) => line_cwd(line@) == Some(p@),
            None => line_cwd(line@) is None,
        },
{
    proof {
        reveal_strlit("cwd=");
        reveal_strlit("cwd:");
        reveal_strlit("/");
        reveal_strlit("~");
    }
    let i = find_sub(line, "cwd=");
    let j = find_sub(line, "cwd:");
    let slash = chars_of("/");
    let tilde = chars_of("~");
    if i <= line.len() && 4 <= line.len() - i {
        let eq_path = trim_junk_of(&first_token_of(&skip_chars(line, i + 4)));
        if starts_with_vec(&eq_path, &slash) || starts_with_vec(&eq_path, &tilde) {
            return Some(eq_path);
        }
    }
    if j <= line.len() && 4 <= line.len() - j {
        let colon_path = first_token_of(&trim_start_vec(&skip_chars(line, j + 4)));
        if starts_with_vec(&colon_path, &slash) || starts_with_vec(&colon_path, &tilde) {
            return Some(colon_path);
        }
    }
    None
}

/// Position of the last `: ` in `v` (None when there is none).
fn rfind_colon_space(v: &Vec<char>) -> (r: Option<usize>)
    ensures
        match r {
            Some(i) => last_sub(v@, ": "@) == i as int,
            None => last_sub(v@, ": "@) == -1,
        },
{
    proof { reveal_strlit(": "); }
    assert(": "@.len() == 2 && ": "@[0] == ':' && ": "@[1] == ' ');
    let mut n: usize = v.len();
    assert(v@.take(n as int) =~= v@);
    while n >= 2 && !(v[n - 2] == ':' && v[n - 1] == ' ')
        invariant
            n <= v.len(),
            ": "@.len() == 2 && ": "@[0] == ':' && ": "@[1] == ' ',
            last_sub(v@, ": "@) == last_sub(v@.take(n as int), ": "@),
        decreases n,
    {
        let ghost t = v@.take(n as int);
        assert(t.subrange(t.len() - 2, t.len() as int) != ": "@) by {
            let u = t.subrange(t.len() - 2, t.len() as int);
            assert(u[0] == v@[n - 2]);
            assert(u[1] == v@[n - 1]);
            if u == ": "@ {
                assert(u[0] == ':' && u[1] == ' ');
            }
        }
        assert(t.drop_last() =~= v@.take(n - 1));
        n -= 1;
    }
    let ghost t = v@.take(n as int);
    if n >= 2 {
        assert(t.subrange(t.len() - 2, t.len() as int) =~= ": "@);
        Some(n - 2)
    } else {
        assert(last_sub(t, ": "@) == -1) by {
            if n == 1 {
                assert(t.drop_last().len() == 0);
            }
        }
        None
    }
}

/// The lines of `v` as `str::lines` gives them.
pub(crate) fn text_lines_of(v: &Vec<char>) -> (r: Vec<Vec<char>>)
    ensures
        r@.len() == text_lines(v@).len(),
        forall|k: int| 0 <= k < r@.len() ==> #[trigger] r@[k]@ == text_lines(v@)[k],
{
    let pieces = lines_of(v);
    proof { lemma_split_lines_len(v@); }
    let ghost ps = split_lines(v@);
    let count: usize = if v.len() == 0 { 0 } else if v[v.len() - 1] == '\n' { pieces.len() - 1 } else { pieces.len() };
    let ghost ls = if v@.len() == 0 { Seq::<Seq<char>>::empty() } else if v@.last() == '\n' { ps.drop_last() } else { ps };
    let mut out: Vec<Vec<char>> = Vec::new();
    let mut k: usize = 0;
    while k < count
        invariant
            count == ls.len(),
            count <= pieces@.len(),
            pieces@.len() == ps.len(),
            forall|q: int| 0 <= q < pieces@.len() ==> #[trigger] pieces@[q]@ == ps[q],
            forall|q: int| 0 <= q < ls.len() ==> #[trigger] ls[q] == ps[q],
            k <= count,
            out@.len() == k,
            forall|q: int| 0 <= q < k ==> #[trigger] out@[q]@ == (if ls[q].len() > 0 && ls[q].last() == '\r' { ls[q].drop_last() } else { ls[q] }),
        decreases count - k,
    {
        let l = &pieces[k];
        if l.len() > 0 && l[l.len() - 1] == '\r' {
            let mut c = l.clone();
            c.pop();
            out.push(c);
        } else {
            out.push(l.clone());
        }
        k += 1;
    }
    out
}

/// The working directory of an agent (see `real_cwd_spec`); `home` is
/// `$HOME`, None when it is not set.
pub fn extract_real_cwd(agent: &Agent, home: Option<&str>) -> (r: String)
    ensures
        r@ == real_cwd_spec(*agent, opt_view(home)),
{
    if let Some(preview) = &agent.preview {
        let lines = text_lines_of(&chars_of(preview.as_str()));
        let ghost ls = text_lines(preview@);
        let n = lines.len();
        let mut k: usize = 0;
        assert(ls.take(n as int) =~= ls);
        while k < n && k < 10
            invariant
                ls == text_lines(preview@),
                agent.preview == Some(*preview),
                n == lines@.len(),
                n == ls.len(),
                forall|q: int| 0 <= q < n ==> #[trigger] lines@[q]@ == ls[q],
                k <= n,
                k <= 10,
                scan_lines(ls, 10) == scan_lines(ls.take(n - k), 10 - k),
            decreases n - k,
        {
            let ghost t = ls.take(n - k);
            assert(t.last() == ls[n - k - 1]);
            assert(t.drop_last() =~= ls.take(n - k - 1));
            if let Some(p) = line_cwd_of(&lines[n - k - 1]) {
                return expand_tilde(string_of(&p).as_str(), home);
            }
            k += 1;
        }
        proof {
            if k == n {
                assert(ls.take(n - k).len() == 0);
            }
        }
        assert(scan_lines(ls, 10) is None);
    }
    if let Some(title) = &agent.title {
        let t = chars_of(title.as_str());
        if let Some(i) = rfind_colon_space(&t) {
            proof { lemma_last_sub(t@, ": "@); reveal_strlit(": "); }
            assert(": "@.len() == 2);
            assert(last_sub(t@, ": "@) == i as int);
            let tl = t.len();
            assert(i as int + 2 <= tl);
            let part = trim_vec(&skip_chars(&t, i + 2));
            proof {
                reveal_strlit("~");
                reveal_strlit("/");
            }
            if part.len() > 0 && (part[0] == '~' || part[0] == '/') {
                assert(starts_with(part@, "~"@) || starts_with(part@, "/"@)) by {
                    assert("~"@ == seq!['~']);
                    assert("/"@ == seq!['/']);
                    assert(part@.subrange(0, 1) == seq![part@[0]]);
                }
                assert(title_cwd(title@) == Some(part@));
                return expand_tilde(string_of(&part).as_str(), home);
            }
            assert(title_cwd(title@) is None) by {
                assert("~"@ == seq!['~']);
                assert("/"@ == seq!['/']);
                if part@.len() > 0 {
                    if starts_with(part@, "~"@) {
                        assert(part@.subrange(0, 1)[0] == part@[0]);
                        assert(part@[0] == '~');
                    }
                    if starts_with(part@, "/"@) {
                        assert(part@.subrange(0, 1)[0] == part@[0]);
                        assert(part@[0] == '/');
                    }
                }
            }
        }
    }
    agent.cwd.clone()
}

} // verus!
