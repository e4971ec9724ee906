//! Key events and their text form, as stored for recorded macros.
use vstd::prelude::*;
use crate::text::{unsigned_body, decimal, parse_unsigned, push_decimal, chars_of, string_of, vec_is, trim_vec, trim_seq,
    parse_u64, is_digit, digits_value, digit_char, digit_val};

verus! {

broadcast use vstd::string::group_string_axioms;

/// A key.
#[derive(Debug, Clone, Copy, PartialEq, Eq, Structural)]
pub enum KeyCode {
    Char(char),
    Enter,
    Esc,
    Backspace,
    Tab,
    BackTab,
    Up,
    Down,
    Left,
    Right,
    Home,
    End,
    PageUp,
    PageDown,
    Insert,
    Delete,
    F(u8),
    Null,
}

/// Modifier keys held with a key.
#[derive(Debug, Clone, Copy, PartialEq, Eq, Structural)]
pub struct KeyModifiers {
    pub shift: bool,
    pub control: bool,
    pub alt: bool,
}

/// A key press: a key and its modifiers.
#[derive(Debug, Clone, Copy, PartialEq, Eq, Structural)]
pub struct KeyPress {
    pub code: KeyCode,
    pub modifiers: KeyModifiers,
}

/// A key press in text form.
#[derive(Debug, Clone)]
pub struct SerializableKeyEvent {
    /// "a", "Enter", "Esc", "Up", "Tab", "Backspace", "F1", …
    pub code: String,
    /// "NONE", "CONTROL", "SHIFT", "ALT", "SHIFT|CONTROL", …
    pub modifiers: String,
}

/// Text of a key: the character itself, its name, or "F<n>".
pub open spec fn key_code_text(c: KeyCode) -> Seq<char> {
    match c {
        KeyCode::Char(ch) => seq![ch],
        KeyCode::Enter => "Enter"@,
        KeyCode::Esc => "Esc"@,
        KeyCode::Backspace => "Backspace"@,
        KeyCode::Tab => "Tab"@,
        KeyCode::BackTab => "BackTab"@,
        KeyCode::Up => "Up"@,
        KeyCode::Down => "Down"@,
        KeyCode::Left => "Left"@,
        KeyCode::Right => "Right"@,
        KeyCode::Home => "Home"@,
        KeyCode::End => "End"@,
        KeyCode::PageUp => "PageUp"@,
        KeyCode::PageDown => "PageDown"@,
        KeyCode::Insert => "Insert"@,
        KeyCode::Delete => "Delete"@,
        KeyCode::F(n) => "F"@ + decimal(n as nat),
        KeyCode::Null => "Null"@,
    }
}

/// The key named by a text: a key name, "F<n>" for n up to 255 (another
/// "F..." text gives Null), or else the first character ('\0' for "").
pub open spec fn parse_key_code(s: Seq<char>) -> KeyCode {
    if s == "Enter"@ { KeyCode::Enter }
    else if s == "Esc"@ { KeyCode::Esc }
    else if s == "Backspace"@ { KeyCode::Backspace }
    else if s == "Tab"@ { KeyCode::Tab }
    else if s == "BackTab"@ { KeyCode::BackTab }
    else if s == "Up"@ { KeyCode::Up }
    else if s == "Down"@ { KeyCode::Down }
    else if s == "Left"@ { KeyCode::Left }
    else if s == "Right"@ { KeyCode::Right }
    else if s == "Home"@ { KeyCode::Home }
    else if s == "End"@ { KeyCode::End }
    else if s == "PageUp"@ { KeyCode::PageUp }
    else if s == "PageDown"@ { KeyCode::PageDown }
    else if s == "Insert"@ { KeyCode::Insert }
    else if s == "Delete"@ { KeyCode::Delete }
    else if s == "Null"@ { KeyCode::Null }
    else if s.len() > 1 && s[0] == 'F' {
        match parse_unsigned(s.drop_first(), 255) {
            Some(n) => KeyCode::F(n as u8),
            None => KeyCode::Null,
        }
    } else if s.len() > 0 {
        KeyCode::Char(s[0])
    } else {
        KeyCode::Char('\0')
    }
}

/// Text of modifiers: the held ones among SHIFT, CONTROL, ALT joined by '|', or "NONE".
pub open spec fn modifiers_text(m: KeyModifiers) -> Seq<char> {
    if !m.shift && !m.control && !m.alt {
        "NONE"@
    } else {
        let p1: Seq<char> = if m.shift { "SHIFT"@ } else { Seq::empty() };
        let p2: Seq<char> = if m.control { if p1.len() > 0 { p1 + "|"@ + "CONTROL"@ } else { "CONTROL"@ } } else { p1 };
        if m.alt { if p2.len() > 0 { p2 + "|"@ + "ALT"@ } else { "ALT"@ } } else { p2 }
    }
}

/// The parts of `s` between '|' characters.
pub open spec fn split_bar(s: Seq<char>) -> Seq<Seq<char>>
    decreases s.len(),
{
    if s.len() == 0 {
        seq![Seq::empty()]
    } else {
        let p = split_bar(s.drop_last());
        if s.last() == '|' { p.push(Seq::empty()) } else { p.update(p.len() - 1, p.last().push(s.last())) }
    }
}

/// Some part of `s` between '|' characters, trimmed, equals `name`.
pub open spec fn has_part(s: Seq<char>, name: Seq<char>) -> bool {
    exists|i: int| 0 <= i < split_bar(s).len() && trim_seq(#[trigger] split_bar(s)[i]) == name
}

/// Modifiers named by a text: each '|'-separated part, trimmed, may name SHIFT, CONTROL or ALT.
pub open spec fn parse_modifiers(s: Seq<char>) -> KeyModifiers {
    KeyModifiers { shift: has_part(s, "SHIFT"@), control: has_part(s, "CONTROL"@), alt: has_part(s, "ALT"@) }
}

/// Text of a key.
fn key_code_to_str(code: &KeyCode) -> (r: String)
    ensures
        r@ == key_code_text(*code),
{
    match code {
        KeyCode::Char(c) => {
            let v: Vec<char> = vec![*c];
            assert(v@ =~= seq![*c]);
            string_of(&v)
        },
        KeyCode::Enter => "Enter".to_owned(),
        KeyCode::Esc => "Esc".to_owned(),
        KeyCode::Backspace => "Backspace".to_owned(),
        KeyCode::Tab => "Tab".to_owned(),
        KeyCode::BackTab => "BackTab".to_owned(),
        KeyCode::Up => "Up".to_owned(),
        KeyCode::Down => "Down".to_owned(),
        KeyCode::Left => "Left".to_owned(),
        KeyCode::Right => "Right".to_owned(),
        KeyCode::Home => "Home".to_owned(),
        KeyCode::End => "End".to_owned(),
        KeyCode::PageUp => "PageUp".to_owned(),
        KeyCode::PageDown => "PageDown".to_owned(),
        KeyCode::Insert => "Insert".to_owned(),
        KeyCode::Delete => "Delete".to_owned(),
        KeyCode::F(n) => {
            let mut v = chars_of("F");
            push_decimal(&mut v, *n as u64);
            string_of(&v)
        },
        KeyCode::Null => "Null".to_owned(),
    }
}

/// The key named by a text (see `parse_key_code`).
fn str_to_key_code(s: &str) -> (r: KeyCode)
    ensures
        r == parse_key_code(s@),
{
    let v = chars_of(s);
    if vec_is(&v, "Enter") { KeyCode::Enter }
    else if vec_is(&v, "Esc") { KeyCode::Esc }
    else if vec_is(&v, "Backspace") { KeyCode::Backspace }
    else if vec_is(&v, "Tab") { KeyCode::Tab }
    else if vec_is(&v, "BackTab") { KeyCode::BackTab }
    else if vec_is(&v, "Up") { KeyCode::Up }
    else if vec_is(&v, "Down") { KeyCode::Down }
    else if vec_is(&v, "Left") { KeyCode::Left }
    else if vec_is(&v, "Right") { KeyCode::Right }
    else if vec_is(&v, "Home") { KeyCode::Home }
    else if vec_is(&v, "End") { KeyCode::End }
    else if vec_is(&v, "PageUp") { KeyCode::PageUp }
    else if vec_is(&v, "PageDown") { KeyCode::PageDown }
    else if vec_is(&v, "Insert") { KeyCode::Insert }
    else if vec_is(&v, "Delete") { KeyCode::Delete }
    else if vec_is(&v, "Null") { KeyCode::Null }
    else if v.len() > 1 && v[0] == 'F' {
        let mut rest: Vec<char> = Vec::new();
        let mut i: usize = 1;
        while i < v.len()
            invariant
                1 <= i <= v.len(),
                rest@ == v@.subrange(1, i as int),
            decreases v.len() - i,
        {
            rest.push(v[i]);
            assert(v@.subrange(1, i + 1) =~= v@.subrange(1, i as int).push(v@[i as int]));
            i += 1;
        }
        assert(rest@ =~= v@.drop_first());
        let rs = string_of(&rest);
        match parse_u64(rs.as_str()) {
            Some(n) => {
                if n <= 255 {
                    KeyCode::F(n as u8)
                } else {
                    KeyCode::Null
                }
            },
            None => KeyCode::Null,
        }
    } else if v.len() > 0 {
        KeyCode::Char(v[0])
    } else {
        KeyCode::Char('\0')
    }
}

/// Text of modifiers (see `modifiers_text`).
fn key_modifiers_to_str(m: &KeyModifiers) -> (r: String)
    ensures
        r@ == modifiers_text(*m),
{
    if !m.shift && !m.control && !m.alt {
        return "NONE".to_owned();
    }
    let mut s = String::new();
    if m.shift {
        s.append("SHIFT");
    }
    if m.control {
        if m.shift {
            s.append("|");
        }
        s.append("CONTROL");
    }
    if m.alt {
        if m.shift || m.control {
            s.append("|");
        }
        s.append("ALT");
    }
    proof {
        reveal_strlit("SHIFT");
        reveal_strlit("CONTROL");
        reveal_strlit("ALT");
        reveal_strlit("|");
    }
    assert(s@ =~= modifiers_text(*m));
    s
}

/// The '|'-separated parts of `v` (see `split_bar`).
fn split_bars(v: &Vec<char>) -> (r: Vec<Vec<char>>)
    ensures
        r@.len() == split_bar(v@).len(),
        forall|i: int| 0 <= i < r@.len() ==> (#[trigger] r@[i])@ == split_bar(v@)[i],
{
    let mut parts: Vec<Vec<char>> = Vec::new();
    let mut cur: Vec<char> = Vec::new();
    let mut i: usize = 0;
    while i < v.len()
        invariant
            i <= v.len(),
            parts@.len() + 1 == split_bar(v@.take(i as int)).len(),
            forall|k: int| 0 <= k < parts@.len() ==> (#[trigger] parts@[k])@ == split_bar(v@.take(i as int))[k],
            cur@ == split_bar(v@.take(i as int)).last(),
        decreases v.len() - i,
    {
        assert(v@.take(i + 1).drop_last() =~= v@.take(i as int));
        assert(v@.take(i + 1).last() == v@[i as int]);
        if v[i] == '|' {
            parts.push(cur);
            cur = Vec::new();
            assert(cur@ =~= Seq::<char>::empty());
        } else {
            cur.push(v[i]);
        }
        i += 1;
    }
    assert(v@.take(v.len() as int) =~= v@);
    parts.push(cur);
    parts
}

/// Whether some trimmed part equals `name`.
fn parts_have(parts: &Vec<Vec<char>>, name: &str, ghost_s: Ghost<Seq<char>>) -> (r: bool)
    requires
        parts@.len() == split_bar(ghost_s@).len(),
        forall|i: int| 0 <= i < parts@.len() ==> (#[trigger] parts@[i])@ == split_bar(ghost_s@)[i],
    ensures
        r == has_part(ghost_s@, name@),
{
    let mut i: usize = 0;
    while i < parts.len()
        invariant
            i <= parts.len(),
            parts@.len() == split_bar(ghost_s@).len(),
            forall|j: int| 0 <= j < parts@.len() ==> (#[trigger] parts@[j])@ == split_bar(ghost_s@)[j],
            forall|j: int| 0 <= j < i ==> trim_seq(#[trigger] split_bar(ghost_s@)[j]) != name@,
        decreases parts.len() - i,
    {
        let t = trim_vec(&parts[i]);
        if vec_is(&t, name) {
            return true;
        }
        i += 1;
    }
    false
}

/// Modifiers named by a text (see `parse_modifiers`).
fn str_to_key_modifiers(s: &str) -> (r: KeyModifiers)
    ensures
        r == parse_modifiers(s@),
{
    let v = chars_of(s);
    let parts = split_bars(&v);
    KeyModifiers {
        shift: parts_have(&parts, "SHIFT", Ghost(s@)),
        control: parts_have(&parts, "CONTROL", Ghost(s@)),
        alt: parts_have(&parts, "ALT", Ghost(s@)),
    }
}

impl SerializableKeyEvent {
    /// The text form of a key press.
    pub fn from_key_event(k: &KeyPress) -> (r: Self)
        ensures
            r.code@ == key_code_text(k.code),
            r.modifiers@ == modifiers_text(k.modifiers),
    {
        SerializableKeyEvent { code: key_code_to_str(&k.code), modifiers: key_modifiers_to_str(&k.modifiers) }
    }

    /// The key press of a text form.
    pub fn to_key_event(&self) -> (r: KeyPress)
        ensures
            r.code == parse_key_code(self.code@),
            r.modifiers == parse_modifiers(self.modifiers@),
    {
        KeyPress { code: str_to_key_code(self.code.as_str()), modifiers: str_to_key_modifiers(self.modifiers.as_str()) }
    }
}

proof fn lemma_key_names()
    ensures
        "Enter"@.len() == 5, "Enter"@[0] == 'E', "Enter"@[1] == 'n',
        "Esc"@.len() == 3, "Esc"@[0] == 'E', "Esc"@[1] == 's',
        "Backspace"@.len() == 9, "Backspace"@[0] == 'B', "Backspace"@[1] == 'a',
        "Tab"@.len() == 3, "Tab"@[0] == 'T', "Tab"@[1] == 'a',
        "BackTab"@.len() == 7, "BackTab"@[0] == 'B', "BackTab"@[1] == 'a',
        "Up"@.len() == 2, "Up"@[0] == 'U', "Up"@[1] == 'p',
        "Down"@.len() == 4, "Down"@[0] == 'D', "Down"@[1] == 'o',
        "Left"@.len() == 4, "Left"@[0] == 'L', "Left"@[1] == 'e',
        "Right"@.len() == 5, "Right"@[0] == 'R', "Right"@[1] == 'i',
        "Home"@.len() == 4, "Home"@[0] == 'H', "Home"@[1] == 'o',
        "End"@.len() == 3, "End"@[0] == 'E', "End"@[1] == 'n',
        "PageUp"@.len() == 6, "PageUp"@[0] == 'P', "PageUp"@[1] == 'a',
        "PageDown"@.len() == 8, "PageDown"@[0] == 'P', "PageDown"@[1] == 'a',
        "Insert"@.len() == 6, "Insert"@[0] == 'I', "Insert"@[1] == 'n',
        "Delete"@.len() == 6, "Delete"@[0] == 'D', "Delete"@[1] == 'e',
        "Null"@.len() == 4, "Null"@[0] == 'N', "Null"@[1] == 'u',
{
    reveal_strlit("Enter");
    reveal_strlit("Esc");
    reveal_strlit("Backspace");
    reveal_strlit("Tab");
    reveal_strlit("BackTab");
    reveal_strlit("Up");
    reveal_strlit("Down");
    reveal_strlit("Left");
    reveal_strlit("Right");
    reveal_strlit("Home");
    reveal_strlit("End");
    reveal_strlit("PageUp");
    reveal_strlit("PageDown");
    reveal_strlit("Insert");
    reveal_strlit("Delete");
    reveal_strlit("Null");
}

/// Reading back the text of a key gives the key.
pub proof fn law_key_code_roundtrip(c: KeyCode)
    ensures
        parse_key_code(key_code_text(c)) == c,
{
    reveal_strlit("Enter");
    reveal_strlit("Esc");
    reveal_strlit("Backspace");
    reveal_strlit("Tab");
    reveal_strlit("BackTab");
    reveal_strlit("Up");
    reveal_strlit("Down");
    reveal_strlit("Left");
    reveal_strlit("Right");
    reveal_strlit("Home");
    reveal_strlit("End");
    reveal_strlit("PageUp");
    reveal_strlit("PageDown");
    reveal_strlit("Insert");
    reveal_strlit("Delete");
    reveal_strlit("Null");
    reveal_strlit("F");
    match c {
        KeyCode::F(n) => {
            let d = decimal(n as nat);
            crate::text::lemma_decimal(n as nat);
            let s = "F"@ + d;
            assert(s[0] == 'F');
            assert(s.drop_first() =~= d);
            assert(is_digit(d[0]));
            assert(crate::text::unsigned_body(d) == d);
            assert(parse_unsigned(d, 255) == Some(n as int));
            assert(s.drop_first() == d);
            assert(s.len() > 1);
            assert(s == key_code_text(c));
            assert((n as int) as u8 == n);
            assert(parse_key_code(s) == KeyCode::F(n));
            assert(s != "Enter"@ && s != "Esc"@ && s != "Backspace"@ && s != "Tab"@ && s != "BackTab"@
                && s != "Up"@ && s != "Down"@ && s != "Left"@ && s != "Right"@ && s != "Home"@
                && s != "End"@ && s != "PageUp"@ && s != "PageDown"@ && s != "Insert"@ && s != "Delete"@
                && s != "Null"@) by {
                assert(s[0] != "Enter"@[0]);
                assert(s[0] != "Esc"@[0]);
                assert(s[0] != "Backspace"@[0]);
                assert(s[0] != "Tab"@[0]);
                assert(s[0] != "BackTab"@[0]);
                assert(s[0] != "Up"@[0]);
                assert(s[0] != "Down"@[0]);
                assert(s[0] != "Left"@[0]);
                assert(s[0] != "Right"@[0]);
                assert(s[0] != "Home"@[0]);
                assert(s[0] != "End"@[0]);
                assert(s[0] != "PageUp"@[0]);
                assert(s[0] != "PageDown"@[0]);
                assert(s[0] != "Insert"@[0]);
                assert(s[0] != "Delete"@[0]);
                assert(s[0] != "Null"@[0]);
            }
        },
        KeyCode::Char(ch) => {
            let s = seq![ch];
            assert(s.len() == 1);
            assert(s != "Enter"@ && s != "Esc"@ && s != "Backspace"@ && s != "Tab"@ && s != "BackTab"@
                && s != "Up"@ && s != "Down"@ && s != "Left"@ && s != "Right"@ && s != "Home"@
                && s != "End"@ && s != "PageUp"@ && s != "PageDown"@ && s != "Insert"@ && s != "Delete"@
                && s != "Null"@);
            assert(parse_key_code(s) == c);
        },
        _ => {
            lemma_key_names();
        },
    }
}

proof fn lemma_split_bar_single(b: Seq<char>)
    requires
        forall|i: int| 0 <= i < b.len() ==> #[trigger] b[i] != '|',
    ensures
        split_bar(b) == seq![b],
    decreases b.len(),
{
    if b.len() > 0 {
        lemma_split_bar_single(b.drop_last());
        assert(b.drop_last().push(b.last()) =~= b);
        assert(seq![b.drop_last()].update(0, b.drop_last().push(b.last())) =~= seq![b]);
    } else {
        assert(b =~= Seq::<char>::empty());
    }
}

proof fn lemma_split_bar_join(a: Seq<char>, b: Seq<char>)
    requires
        forall|i: int| 0 <= i < b.len() ==> #[trigger] b[i] != '|',
    ensures
        split_bar(a + seq!['|'] + b) == split_bar(a).push(b),
    decreases b.len(),
{
    let s = a + seq!['|'] + b;
    if b.len() == 0 {
        assert(s.drop_last() =~= a);
        assert(s =~= a.push('|'));
        assert(b =~= Seq::<char>::empty());
    } else {
        lemma_split_bar_join(a, b.drop_last());
        assert(s.drop_last() =~= a + seq!['|'] + b.drop_last());
        assert(s.last() == b.last());
        let p = split_bar(s.drop_last());
        assert(p == split_bar(a).push(b.drop_last()));
        assert(p.last().push(s.last()) =~= b);
        assert(p.update(p.len() - 1, p.last().push(s.last())) =~= split_bar(a).push(b));
    }
}

proof fn lemma_has_part(s: Seq<char>, parts: Seq<Seq<char>>, name: Seq<char>)
    requires
        split_bar(s) == parts,
        forall|i: int| 0 <= i < parts.len() ==> trim_seq(#[trigger] parts[i]) == parts[i],
    ensures
        has_part(s, name) == parts.contains(name),
{
    if parts.contains(name) {
        let i = choose|i: int| 0 <= i < parts.len() && parts[i] == name;
        assert(trim_seq(split_bar(s)[i]) == name);
    }
}

proof fn lemma_word(w: Seq<char>)
    requires
        forall|i: int| 0 <= i < w.len() ==> #[trigger] w[i] != '|' && !crate::text::is_ws(w[i]),
    ensures
        split_bar(w) == seq![w],
        trim_seq(w) == w,
{
    lemma_split_bar_single(w);
    crate::text::lemma_trim_word(w);
}

/// Reading back the text of a set of modifiers gives the same modifiers.
pub proof fn law_modifiers_roundtrip(m: KeyModifiers)
    ensures
        parse_modifiers(modifiers_text(m)) == m,
{
    reveal_strlit("NONE");
    reveal_strlit("SHIFT");
    reveal_strlit("CONTROL");
    reveal_strlit("ALT");
    reveal_strlit("|");
    let sh = "SHIFT"@;
    let ct = "CONTROL"@;
    let al = "ALT"@;
    let no = "NONE"@;
    lemma_word(sh);
    lemma_word(ct);
    lemma_word(al);
    lemma_word(no);
    assert("|"@ == seq!['|']);
    assert(sh != ct && sh != al && sh != no && ct != al && ct != no && al != no) by {
        assert(sh.len() != ct.len());
        assert(sh[0] != al[0]);
        assert(sh[0] != no[0]);
        assert(ct.len() != al.len());
        assert(ct.len() != no.len());
        assert(al.len() != no.len());
    }
    let s = modifiers_text(m);
    let parts: Seq<Seq<char>> = if !m.shift && !m.control && !m.alt {
        seq![no]
    } else {
        (if m.shift { seq![sh] } else { Seq::empty() }) + (if m.control { seq![ct] } else { Seq::empty() })
            + (if m.alt { seq![al] } else { Seq::empty() })
    };
    if !m.shift && !m.control && !m.alt {
        assert(s == no);
    } else if m.shift && !m.control && !m.alt {
        assert(s == sh);
        assert(parts =~= seq![sh]);
    } else if !m.shift && m.control && !m.alt {
        assert(s == ct);
        assert(parts =~= seq![ct]);
    } else if !m.shift && !m.control && m.alt {
        assert(s == al);
        assert(parts =~= seq![al]);
    } else if m.shift && m.control && !m.alt {
        assert(s == sh + seq!['|'] + ct);
        lemma_split_bar_join(sh, ct);
        assert(parts =~= seq![sh, ct]);
        assert(seq![sh].push(ct) =~= seq![sh, ct]);
    } else if m.shift && !m.control && m.alt {
        assert(s == sh + seq!['|'] + al);
        lemma_split_bar_join(sh, al);
        assert(parts =~= seq![sh, al]);
        assert(seq![sh].push(al) =~= seq![sh, al]);
    } else if !m.shift && m.control && m.alt {
        assert(s == ct + seq!['|'] + al);
        lemma_split_bar_join(ct, al);
        assert(parts =~= seq![ct, al]);
        assert(seq![ct].push(al) =~= seq![ct, al]);
    } else {
        let sc = sh + seq!['|'] + ct;
        assert(s == sc + seq!['|'] + al);
        lemma_split_bar_join(sh, ct);
        lemma_split_bar_join(sc, al);
        assert(parts =~= seq![sh, ct, al]);
        assert(seq![sh].push(ct).push(al) =~= seq![sh, ct, al]);
    }
    assert(split_bar(s) == parts);
    assert forall|i: int| 0 <= i < parts.len() implies trim_seq(#[trigger] parts[i]) == parts[i] by {
        assert(parts[i] == sh || parts[i] == ct || parts[i] == al || parts[i] == no);
    }
    lemma_has_part(s, parts, sh);
    lemma_has_part(s, parts, ct);
    lemma_has_part(s, parts, al);
    assert(parts.contains(sh) == m.shift && parts.contains(ct) == m.control && parts.contains(al) == m.alt) by {
        if m.shift { assert(parts[0] == sh); }
        if m.control { assert(parts[if m.shift { 1int } else { 0int }] == ct); }
        if m.alt { assert(parts[parts.len() - 1] == al); }
        assert forall|i: int| 0 <= i < parts.len() implies
            (#[trigger] parts[i] == sh ==> m.shift) && (parts[i] == ct ==> m.control) && (parts[i] == al ==> m.alt) by {
        }
    }
}

/// A recorded key press read back from its text form is the same key press
/// (what `from_key_event` writes, `to_key_event` reads back).
pub proof fn law_key_event_roundtrip(k: KeyPress)
    ensures
        parse_key_code(key_code_text(k.code)) == k.code,
        parse_modifiers(modifiers_text(k.modifiers)) == k.modifiers,
{
    law_key_code_roundtrip(k.code);
    law_modifiers_roundtrip(k.modifiers);
}

} // verus!
