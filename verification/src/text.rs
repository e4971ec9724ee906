//! Character-level string helpers with exact specifications: ASCII case
//! folding, substring and prefix tests, subsequence matching, decimal
//! formatting.
use vstd::prelude::*;

verus! {

broadcast use vstd::string::group_string_axioms;

/// The texts of a sequence of strings.
pub open spec fn views(v: Seq<String>) -> Seq<Seq<char>> {
    Seq::new(v.len(), |i: int| v[i]@)
}

/// ASCII lowercase of one character (other characters unchanged).
pub open spec fn lower(c: char) -> char {
    if 'A' <= c && c <= 'Z' { ((c as u32) + 32) as char } else { c }
}

/// ASCII lowercase of a character sequence.
pub open spec fn lower_seq(s: Seq<char>) -> Seq<char> {
    Seq::new(s.len(), |i: int| lower(s[i]))
}

/// `q` occurs in `t` as a (not necessarily contiguous) subsequence,
/// matched greedily from the front.
pub open spec fn is_subseq(q: Seq<char>, t: Seq<char>) -> bool
    decreases t.len(),
{
    if q.len() == 0 {
        true
    } else if t.len() == 0 {
        false
    } else if q[0] == t[0] {
        is_subseq(q.drop_first(), t.drop_first())
    } else {
        is_subseq(q, t.drop_first())
    }
}

/// Case-insensitive (ASCII) subsequence match of `q` in `t`.
pub open spec fn fuzzy(q: Seq<char>, t: Seq<char>) -> bool {
    is_subseq(lower_seq(q), lower_seq(t))
}

/// `idx` picks `q` out of `t`: one position of `t` per character of `q`,
/// strictly increasing, each holding that character.
pub open spec fn embeds(q: Seq<char>, t: Seq<char>, idx: Seq<int>) -> bool {
    &&& idx.len() == q.len()
    &&& forall|k: int| 0 <= k < idx.len() ==> 0 <= #[trigger] idx[k] < t.len() && t[idx[k]] == q[k]
    &&& forall|a: int, b: int| 0 <= a < b < idx.len() ==> #[trigger] idx[a] < #[trigger] idx[b]
}

/// `q` is a subsequence of `t` by positions: some increasing positions of
/// `t` spell `q`.
pub open spec fn subseq_at(q: Seq<char>, t: Seq<char>) -> bool {
    exists|idx: Seq<int>| #[trigger] embeds(q, t, idx)
}

/// The greedy test `is_subseq` agrees with the definition by positions.
pub proof fn lemma_is_subseq_positions(q: Seq<char>, t: Seq<char>)
    ensures
        is_subseq(q, t) == subseq_at(q, t),
    decreases t.len(),
{
    if q.len() == 0 {
        assert(embeds(q, t, Seq::<int>::empty()));
    } else if t.len() == 0 {
        if subseq_at(q, t) {
            let idx = choose|idx: Seq<int>| embeds(q, t, idx);
            assert(0 <= idx[0] < t.len());
        }
    } else {
        let q1 = q.drop_first();
        let t1 = t.drop_first();
        if q[0] == t[0] {
            lemma_is_subseq_positions(q1, t1);
            if is_subseq(q1, t1) {
                let i1 = choose|idx: Seq<int>| embeds(q1, t1, idx);
                let idx = seq![0int] + Seq::new(i1.len(), |k: int| i1[k] + 1);
                assert forall|k: int| 0 <= k < idx.len() implies 0 <= #[trigger] idx[k] < t.len() && t[idx[k]] == q[k] by {
                    if k > 0 {
                        assert(idx[k] == i1[k - 1] + 1);
                        assert(0 <= i1[k - 1] < t1.len());
                    }
                }
                assert forall|a: int, b: int| 0 <= a < b < idx.len() implies #[trigger] idx[a] < #[trigger] idx[b] by {
                    assert(0 <= i1[b - 1]);
                    if a > 0 {
                        assert(i1[a - 1] < i1[b - 1]);
                    }
                }
                assert(embeds(q, t, idx));
            } else if subseq_at(q, t) {
                let idx = choose|idx: Seq<int>| embeds(q, t, idx);
                let i1 = Seq::new((idx.len() - 1) as nat, |k: int| idx[k + 1] - 1);
                assert forall|k: int| 0 <= k < i1.len() implies 0 <= #[trigger] i1[k] < t1.len() && t1[i1[k]] == q1[k] by {
                    assert(idx[0] < idx[k + 1]);
                    assert(0 <= idx[0]);
                }
                assert forall|a: int, b: int| 0 <= a < b < i1.len() implies #[trigger] i1[a] < #[trigger] i1[b] by {
                    assert(idx[a + 1] < idx[b + 1]);
                }
                assert(embeds(q1, t1, i1));
            }
        } else {
            lemma_is_subseq_positions(q, t1);
            if is_subseq(q, t1) {
                let i1 = choose|idx: Seq<int>| embeds(q, t1, idx);
                let idx = Seq::new(i1.len(), |k: int| i1[k] + 1);
                assert forall|k: int| 0 <= k < idx.len() implies 0 <= #[trigger] idx[k] < t.len() && t[idx[k]] == q[k] by {
                    assert(0 <= i1[k] < t1.len());
                }
                assert forall|a: int, b: int| 0 <= a < b < idx.len() implies #[trigger] idx[a] < #[trigger] idx[b] by {
                    assert(i1[a] < i1[b]);
                }
                assert(embeds(q, t, idx));
            } else if subseq_at(q, t) {
                let idx = choose|idx: Seq<int>| embeds(q, t, idx);
                assert(idx[0] != 0) by {
                    assert(t[idx[0]] == q[0]);
                }
                let i1 = Seq::new(idx.len(), |k: int| idx[k] - 1);
                assert forall|k: int| 0 <= k < i1.len() implies 0 <= #[trigger] i1[k] < t1.len() && t1[i1[k]] == q[k] by {
                    assert(0 <= idx[0]);
                    if k > 0 {
                        assert(idx[0] < idx[k]);
                    }
                }
                assert forall|a: int, b: int| 0 <= a < b < i1.len() implies #[trigger] i1[a] < #[trigger] i1[b] by {
                    assert(idx[a] < idx[b]);
                }
                assert(embeds(q, t1, i1));
            }
        }
    }
}

/// `needle` occurs contiguously in `hay`.
pub open spec fn has_sub(hay: Seq<char>, needle: Seq<char>) -> bool {
    exists|i: int| 0 <= i && i + needle.len() <= hay.len() && #[trigger] hay.subrange(i, i + needle.len()) == needle
}

/// `s` begins with `p`.
pub open spec fn starts_with(s: Seq<char>, p: Seq<char>) -> bool {
    p.len() <= s.len() && s.subrange(0, p.len() as int) == p
}

/// ASCII case-insensitive equality.
pub open spec fn eq_ci(a: Seq<char>, b: Seq<char>) -> bool {
    lower_seq(a) == lower_seq(b)
}

/// The characters of `s`, in order.
pub fn chars_of(s: &str) -> (v: Vec<char>)
    ensures
        v@ == s@,
{
    let mut v: Vec<char> = Vec::new();
    for c in it: s.chars()
        invariant
            v@ == it.seq().take(it.index() as int),
            it.seq() == s@,
    {
        v.push(c);
    }
    v
}

/// Appends one character to `s`.
#[verifier::external_body]
pub(crate) fn push_char(s: &mut String, c: char)
    ensures
        final(s)@ == old(s)@.push(c),
{
    s.push(c);
}

/// A string holding the given characters.
pub fn string_of(v: &Vec<char>) -> (s: String)
    ensures
        s@ == v@,
{
    let mut s = String::new();
    let mut i: usize = 0;
    while i < v.len()
        invariant
            i <= v.len(),
            s@ == v@.take(i as int),
        decreases v.len() - i,
    {
        push_char(&mut s, v[i]);
        assert(v@.take(i + 1) == v@.take(i as int).push(v@[i as int]));
        i += 1;
    }
    assert(v@.take(v.len() as int) == v@);
    s
}

/// An owned copy of `s`.
pub fn owned(s: &str) -> (r: String)
    ensures
        r@ == s@,
{
    s.to_owned()
}

/// Concatenation of two strings.
pub fn concat(a: &str, b: &str) -> (r: String)
    ensures
        r@ == a@ + b@,
{
    let mut r = a.to_owned();
    r.append(b);
    r
}

/// Exact string equality.
pub fn str_eq(a: &str, b: &str) -> (r: bool)
    ensures
        r == (a@ == b@),
{
    a.to_owned() == b.to_owned()
}

/// ASCII lowercase of one character.
pub fn lower_char(c: char) -> (r: char)
    ensures
        r == lower(c),
{
    if 'A' <= c && c <= 'Z' { ((c as u8) + 32) as char } else { c }
}

/// ASCII lowercase of a character vector.
pub fn lower_vec(v: &Vec<char>) -> (r: Vec<char>)
    ensures
        r@ == lower_seq(v@),
{
    let mut r: Vec<char> = Vec::new();
    let mut i: usize = 0;
    while i < v.len()
        invariant
            i <= v.len(),
            r@ == lower_seq(v@.take(i as int)),
        decreases v.len() - i,
    {
        r.push(lower_char(v[i]));
        assert(lower_seq(v@.take(i + 1)) =~= lower_seq(v@.take(i as int)).push(lower(v@[i as int])));
        i += 1;
    }
    assert(v@.take(v.len() as int) =~= v@);
    r
}

/// ASCII-lowercased characters of `s`.
pub fn lower_chars(s: &str) -> (r: Vec<char>)
    ensures
        r@ == lower_seq(s@),
{
    lower_vec(&chars_of(s))
}

pub proof fn lemma_subseq_step(q: Seq<char>, t: Seq<char>, qi: int, ti: int)
    requires
        0 <= qi <= q.len(),
        0 <= ti < t.len(),
    ensures
        qi < q.len() && q[qi] == t[ti] ==> is_subseq(q.skip(qi), t.skip(ti)) == is_subseq(q.skip(qi + 1), t.skip(ti + 1)),
        !(qi < q.len() && q[qi] == t[ti]) ==> is_subseq(q.skip(qi), t.skip(ti)) == is_subseq(q.skip(qi), t.skip(ti + 1)),
{
    assert(t.skip(ti).drop_first() =~= t.skip(ti + 1));
    if qi < q.len() {
        assert(q.skip(qi).drop_first() =~= q.skip(qi + 1));
    }
}

/// Whether `q` is a subsequence of `t`.
pub fn subseq_vec(q: &Vec<char>, t: &Vec<char>) -> (r: bool)
    ensures
        r == is_subseq(q@, t@),
{
    let mut qi: usize = 0;
    let mut ti: usize = 0;
    assert(q@.skip(0) =~= q@);
    assert(t@.skip(0) =~= t@);
    while ti < t.len()
        invariant
            qi <= q.len(),
            ti <= t.len(),
            is_subseq(q@, t@) == is_subseq(q@.skip(qi as int), t@.skip(ti as int)),
        decreases t.len() - ti,
    {
        proof { lemma_subseq_step(q@, t@, qi as int, ti as int); }
        if qi < q.len() && q[qi] == t[ti] {
            qi += 1;
        }
        ti += 1;
    }
    assert(t@.skip(ti as int).len() == 0);
    qi == q.len()
}

/// Whether `needle` occurs at position `i` of `hay`.
fn occurs_at(hay: &Vec<char>, needle: &Vec<char>, i: usize) -> (r: bool)
    requires
        i + needle.len() <= hay.len(),
    ensures
        r == (hay@.subrange(i as int, i + needle.len()) == needle@),
{
    let mut j: usize = 0;
    while j < needle.len()
        invariant
            i + needle.len() <= hay.len(),
            j <= needle.len(),
            forall|k: int| 0 <= k < j ==> hay@[i + k] == needle@[k],
        decreases needle.len() - j,
    {
        if hay[i + j] != needle[j] {
            assert(hay@.subrange(i as int, i + needle.len())[j as int] != needle@[j as int]);
            return false;
        }
        j += 1;
    }
    assert(hay@.subrange(i as int, i + needle.len()) =~= needle@);
    true
}

/// Whether `needle` occurs contiguously in `hay`.
pub fn contains_vec(hay: &Vec<char>, needle: &Vec<char>) -> (r: bool)
    ensures
        r == has_sub(hay@, needle@),
{
    if needle.len() > hay.len() {
        return false;
    }
    let last = hay.len() - needle.len();
    let mut i: usize = 0;
    while i <= last
        invariant
            last + needle.len() == hay.len(),
            i <= last + 1,
            forall|k: int| 0 <= k < i ==> #[trigger] hay@.subrange(k, k + needle.len()) != needle@,
        decreases last + 1 - i,
    {
        if occurs_at(hay, needle, i) {
            return true;
        }
        if i == last {
            return false;
        }
        i += 1;
    }
    false
}

/// Whether `s` begins with `p`.
pub fn starts_with_vec(s: &Vec<char>, p: &Vec<char>) -> (r: bool)
    ensures
        r == starts_with(s@, p@),
{
    if p.len() > s.len() {
        return false;
    }
    occurs_at(s, p, 0)
}

/// Whether the characters `s` contain the literal `lit`.
pub fn lower_contains(s: &Vec<char>, lit: &str) -> (r: bool)
    ensures
        r == has_sub(s@, lit@),
{
    contains_vec(s, &chars_of(lit))
}

/// Whether the characters `v` spell exactly `lit`.
pub fn vec_is(v: &Vec<char>, lit: &str) -> (r: bool)
    ensures
        r == (v@ == lit@),
{
    let l = chars_of(lit);
    vec_eq(v, &l)
}

/// Equality of two character vectors.
pub fn vec_eq(a: &Vec<char>, b: &Vec<char>) -> (r: bool)
    ensures
        r == (a@ == b@),
{
    if a.len() != b.len() {
        return false;
    }
    let r = occurs_at(a, b, 0);
    assert(a@.subrange(0, b@.len() as int) =~= a@);
    r
}

/// ASCII case-insensitive equality.
pub fn eq_ignore_ascii_case(a: &str, b: &str) -> (r: bool)
    ensures
        r == eq_ci(a@, b@),
{
    let la = lower_chars(a);
    let lb = lower_chars(b);
    if la.len() != lb.len() {
        return false;
    }
    let r = occurs_at(&la, &lb, 0);
    assert(la@.subrange(0, lb@.len() as int) =~= la@);
    r
}

/// A decimal digit.
pub open spec fn is_digit(c: char) -> bool {
    '0' <= c && c <= '9'
}

/// Value of a decimal digit.
pub open spec fn digit_val(c: char) -> int {
    (c as int) - ('0' as int)
}

/// Value of a string of decimal digits.
pub open spec fn digits_value(s: Seq<char>) -> int
    decreases s.len(),
{
    if s.len() == 0 { 0 } else { digits_value(s.drop_last()) * 10 + digit_val(s.last()) }
}

/// The digits of an unsigned number text: an optional leading '+' is skipped.
pub open spec fn unsigned_body(s: Seq<char>) -> Seq<char> {
    if s.len() > 0 && s[0] == '+' { s.drop_first() } else { s }
}

/// Value of an unsigned decimal text no larger than `max`: one or more
/// digits after an optional '+'. Anything else gives None.
pub open spec fn parse_unsigned(s: Seq<char>, max: int) -> Option<int> {
    let b = unsigned_body(s);
    if b.len() > 0 && (forall|i: int| 0 <= i < b.len() ==> is_digit(#[trigger] b[i])) && digits_value(b) <= max {
        Some(digits_value(b))
    } else {
        None
    }
}

proof fn lemma_digits_value_grows(b: Seq<char>, i: int)
    requires
        0 <= i <= b.len(),
        forall|j: int| 0 <= j < b.len() ==> is_digit(#[trigger] b[j]),
    ensures
        digits_value(b.take(i)) <= digits_value(b),
        digits_value(b) >= 0,
    decreases b.len() - i,
{
    if i < b.len() {
        lemma_digits_value_grows(b, i + 1);
        assert(b.take(i + 1).drop_last() =~= b.take(i));
        lemma_digits_nonneg(b.take(i));
    } else {
        assert(b.take(i) =~= b);
        lemma_digits_nonneg(b);
    }
}

proof fn lemma_digits_nonneg(b: Seq<char>)
    requires
        forall|j: int| 0 <= j < b.len() ==> is_digit(#[trigger] b[j]),
    ensures
        digits_value(b) >= 0,
    decreases b.len(),
{
    if b.len() > 0 {
        lemma_digits_nonneg(b.drop_last());
    }
}

/// Parses an unsigned decimal number that fits in a `u64`.
pub fn parse_u64(s: &str) -> (r: Option<u64>)
    ensures
        match r {
            Some(v) => parse_unsigned(s@, u64::MAX as int) == Some(v as int),
            None => parse_unsigned(s@, u64::MAX as int) is None,
        },
{
    let cs = chars_of(s);
    let start: usize = if cs.len() > 0 && cs[0] == '+' { 1 } else { 0 };
    let ghost b = unsigned_body(s@);
    assert(b =~= cs@.skip(start as int));
    if start >= cs.len() {
        return None;
    }
    let mut acc: u128 = 0;
    let mut i: usize = start;
    while i < cs.len()
        invariant
            start <= i <= cs.len(),
            b == cs@.skip(start as int),
            b == unsigned_body(s@),
            forall|j: int| 0 <= j < i - start ==> is_digit(#[trigger] b[j]),
            acc as int == digits_value(b.take(i - start)),
            acc <= u64::MAX,
        decreases cs.len() - i,
    {
        let c = cs[i];
        if !(c >= '0' && c <= '9') {
            assert(!is_digit(b[i - start]));
            assert(!(forall|j: int| 0 <= j < b.len() ==> is_digit(#[trigger] b[j])));
            assert(parse_unsigned(s@, u64::MAX as int) is None);
            return None;
        }
        let d = (c as u32 - '0' as u32) as u128;
        assert(b.take(i + 1 - start).drop_last() =~= b.take(i - start));
        assert(b.take(i + 1 - start).last() == c);
        acc = acc * 10 + d;
        assert(acc as int == digits_value(b.take(i + 1 - start)));
        if acc > u64::MAX as u128 {
            proof {
                if forall|j: int| 0 <= j < b.len() ==> is_digit(#[trigger] b[j]) {
                    lemma_digits_value_grows(b, i + 1 - start);
                }
            }
            assert(parse_unsigned(s@, u64::MAX as int) is None);
            return None;
        }
        i += 1;
    }
    assert(b.take(i - start) =~= b);
    Some(acc as u64)
}

/// Character of a decimal digit value.
pub open spec fn digit_char(d: int) -> char {
    (('0' as int) + d) as char
}

/// Decimal text of `n`, without leading zeros ("0" for zero).
pub open spec fn decimal(n: nat) -> Seq<char>
    decreases n,
{
    if n < 10 { seq![digit_char(n as int)] } else { decimal(n / 10).push(digit_char((n % 10) as int)) }
}


/// The decimal text of `n` is a non-empty run of digits whose value is `n`.
pub proof fn lemma_decimal(n: nat)
    ensures
        decimal(n).len() > 0,
        forall|i: int| 0 <= i < decimal(n).len() ==> is_digit(#[trigger] decimal(n)[i]),
        digits_value(decimal(n)) == n,
    decreases n,
{
    let k = (n % 10) as int;
    assert(('0' as int) + k < 0xD800);
    assert(digit_char(k) as int == ('0' as int) + k);
    assert(digit_val(digit_char(k)) == k);
    if n >= 10 {
        lemma_decimal(n / 10);
        let d = decimal(n);
        assert(d.drop_last() =~= decimal(n / 10));
        assert(d.last() == digit_char(k));
        assert(digits_value(d) == digits_value(d.drop_last()) * 10 + digit_val(d.last()));
        assert((n / 10) as int * 10 + k == n);
    } else {
        let d = decimal(n);
        assert(d.drop_last() =~= Seq::<char>::empty());
        assert(k == n);
        assert(d.last() == digit_char(k));
        assert(digits_value(d) == digits_value(d.drop_last()) * 10 + digit_val(d.last()));
    }
}

/// Appends the decimal text of `n`.
pub fn push_decimal(out: &mut Vec<char>, n: u64)
    ensures
        final(out)@ == old(out)@ + decimal(n as nat),
    decreases n,
{
    if n >= 10 {
        push_decimal(out, n / 10);
    }
    let d = (n % 10) as u32;
    let c = char_from_digit(d);
    out.push(c);
    proof {
        if n >= 10 {
            assert(old(out)@ + decimal((n / 10) as nat) + seq![c] =~= old(out)@ + decimal(n as nat));
        } else {
            assert(old(out)@ + seq![c] =~= old(out)@ + decimal(n as nat));
        }
    }
}

/// The character of a decimal digit.
pub fn char_from_digit(d: u32) -> (c: char)
    requires
        d < 10,
    ensures
        c == digit_char(d as int),
{
    ((d as u8) + 48) as char
}

/// Decimal text of `n`.
pub fn u64_to_string(n: u64) -> (s: String)
    ensures
        s@ == decimal(n as nat),
{
    let mut v: Vec<char> = Vec::new();
    push_decimal(&mut v, n);
    assert(Seq::<char>::empty() + decimal(n as nat) =~= decimal(n as nat));
    string_of(&v)
}

/// Decimal text of `n` padded on the left with zeros to at least `width` characters.
pub open spec fn zero_padded(n: nat, width: nat) -> Seq<char> {
    let d = decimal(n);
    if d.len() >= width { d } else { Seq::new((width - d.len()) as nat, |i: int| '0') + d }
}

/// Appends the zero-padded decimal text of `n`.
pub fn push_zero_padded(out: &mut Vec<char>, n: u64, width: usize)
    ensures
        final(out)@ == old(out)@ + zero_padded(n as nat, width as nat),
{
    let mut digits: Vec<char> = Vec::new();
    push_decimal(&mut digits, n);
    assert(Seq::<char>::empty() + decimal(n as nat) =~= decimal(n as nat));
    let ghost before = out@;
    if digits.len() < width {
        let pad = width - digits.len();
        let mut k: usize = 0;
        while k < pad
            invariant
                k <= pad,
                out@ == before + Seq::new(k as nat, |i: int| '0'),
            decreases pad - k,
        {
            out.push('0');
            assert(before + Seq::new((k + 1) as nat, |i: int| '0') =~= before + Seq::new(k as nat, |i: int| '0') + seq!['0']);
            k += 1;
        }
    }
    let ghost mid = out@;
    let mut j: usize = 0;
    while j < digits.len()
        invariant
            j <= digits.len(),
            out@ == mid + digits@.take(j as int),
        decreases digits.len() - j,
    {
        out.push(digits[j]);
        assert(digits@.take(j + 1) =~= digits@.take(j as int).push(digits@[j as int]));
        j += 1;
    }
    assert(digits@.take(digits.len() as int) =~= digits@);
    assert(out@ =~= before + zero_padded(n as nat, width as nat));
}

/// Lexicographic order on character sequences (by code point, as Rust orders `str`).
pub open spec fn seq_lt(a: Seq<char>, b: Seq<char>) -> bool
    decreases a.len(),
{
    if a.len() == 0 {
        b.len() > 0
    } else if b.len() == 0 {
        false
    } else if a[0] != b[0] {
        (a[0] as int) < (b[0] as int)
    } else {
        seq_lt(a.drop_first(), b.drop_first())
    }
}

pub proof fn lemma_seq_lt_irrefl(a: Seq<char>)
    ensures
        !seq_lt(a, a),
    decreases a.len(),
{
    if a.len() > 0 {
        lemma_seq_lt_irrefl(a.drop_first());
    }
}

pub proof fn lemma_seq_lt_trans(a: Seq<char>, b: Seq<char>, c: Seq<char>)
    requires
        seq_lt(a, b),
        seq_lt(b, c),
    ensures
        seq_lt(a, c),
    decreases a.len(),
{
    if a.len() > 0 && b.len() > 0 && c.len() > 0 {
        if a[0] == b[0] && b[0] == c[0] {
            lemma_seq_lt_trans(a.drop_first(), b.drop_first(), c.drop_first());
        }
    }
}

pub proof fn lemma_seq_lt_total(a: Seq<char>, b: Seq<char>)
    ensures
        a == b || seq_lt(a, b) || seq_lt(b, a),
    decreases a.len(),
{
    if a.len() > 0 && b.len() > 0 {
        if a[0] == b[0] {
            lemma_seq_lt_total(a.drop_first(), b.drop_first());
            if a.drop_first() == b.drop_first() {
                assert(a.drop_first().len() == b.drop_first().len());
                assert(a.len() == b.len());
                assert(a =~= b) by {
                    assert forall|i: int| 0 <= i < a.len() implies a[i] == b[i] by {
                        if i > 0 { assert(a[i] == a.drop_first()[i - 1]); assert(b[i] == b.drop_first()[i - 1]); }
                    }
                }
            }
        } else {
            assert((a[0] as int) != (b[0] as int));
        }
    } else if a.len() == 0 && b.len() == 0 {
        assert(a =~= b);
    }
}

/// The order facts of `seq_lt` (strict, transitive, total).
pub proof fn lemma_seq_lt_order()
    ensures
        forall|a: Seq<char>| !#[trigger] seq_lt(a, a),
        forall|a: Seq<char>, b: Seq<char>, c: Seq<char>| #[trigger] seq_lt(a, b) && #[trigger] seq_lt(b, c) ==> seq_lt(a, c),
        forall|a: Seq<char>, b: Seq<char>| a == b || #[trigger] seq_lt(a, b) || #[trigger] seq_lt(b, a),
{
    assert forall|a: Seq<char>| !#[trigger] seq_lt(a, a) by { lemma_seq_lt_irrefl(a); }
    assert forall|a: Seq<char>, b: Seq<char>, c: Seq<char>| #[trigger] seq_lt(a, b) && #[trigger] seq_lt(b, c) implies seq_lt(a, c) by {
        lemma_seq_lt_trans(a, b, c);
    }
    assert forall|a: Seq<char>, b: Seq<char>| a == b || #[trigger] seq_lt(a, b) || #[trigger] seq_lt(b, a) by {
        lemma_seq_lt_total(a, b);
    }
}

/// Whether `a` sorts strictly before `b` (see `seq_lt`).
pub fn str_lt(a: &str, b: &str) -> (r: bool)
    ensures
        r == seq_lt(a@, b@),
{
    let x = chars_of(a);
    let y = chars_of(b);
    let mut i: usize = 0;
    assert(x@.skip(0) =~= x@);
    assert(y@.skip(0) =~= y@);
    while i < x.len() && i < y.len() && x[i] == y[i]
        invariant
            i <= x.len(),
            i <= y.len(),
            seq_lt(x@, y@) == seq_lt(x@.skip(i as int), y@.skip(i as int)),
        decreases x.len() - i,
    {
        assert(x@.skip(i as int).drop_first() =~= x@.skip(i + 1));
        assert(y@.skip(i as int).drop_first() =~= y@.skip(i + 1));
        i += 1;
    }
    if i == x.len() {
        i < y.len()
    } else if i == y.len() {
        false
    } else {
        x[i] < y[i]
    }
}

/// Position of the first ':' in `t` (meaningful when there is one).
pub open spec fn first_colon(t: Seq<char>) -> int {
    choose|i: int| 0 <= i < t.len() && t[i] == ':' && forall|j: int| 0 <= j < i ==> t[j] != ':'
}

/// `t` through its first ':', or empty when it holds none.
pub open spec fn colon_prefix(t: Seq<char>) -> Seq<char> {
    if exists|i: int| 0 <= i < t.len() && t[i] == ':' {
        t.take(first_colon(t) + 1)
    } else {
        Seq::empty()
    }
}


/// Position of the first ':' in `t`, if any.
pub fn find_colon(t: &Vec<char>) -> (r: Option<usize>)
    ensures
        match r {
            Some(i) => i < t@.len() && t@[i as int] == ':' && first_colon(t@) == i
                && (exists|k: int| 0 <= k < t@.len() && t@[k] == ':'),
            None => !(exists|k: int| 0 <= k < t@.len() && t@[k] == ':'),
        },
{
    let mut i: usize = 0;
    while i < t.len() && t[i] != ':'
        invariant
            i <= t.len(),
            forall|j: int| 0 <= j < i ==> t@[j] != ':',
        decreases t.len() - i,
    {
        i += 1;
    }
    if i < t.len() {
        proof {
            let f = first_colon(t@);
            assert(0 <= f < t@.len() && t@[f] == ':' && forall|j: int| 0 <= j < f ==> t@[j] != ':');
            assert(f == i) by {
                if f < i { assert(t@[f] != ':'); }
                if f > i { assert(t@[i as int] != ':'); }
            }
        }
        Some(i)
    } else {
        None
    }
}

/// Unicode whitespace (the `White_Space` property, as `char::is_whitespace`).
pub open spec fn is_ws(c: char) -> bool {
    c == '\t' || c == '\n' || c == '\u{0B}' || c == '\u{0C}' || c == '\r' || c == ' '
        || c == '\u{85}' || c == '\u{A0}' || c == '\u{1680}'
        || ('\u{2000}' <= c && c <= '\u{200A}')
        || c == '\u{2028}' || c == '\u{2029}' || c == '\u{202F}' || c == '\u{205F}' || c == '\u{3000}'
}

/// Whether `c` is whitespace.
pub fn is_whitespace(c: char) -> (r: bool)
    ensures
        r == is_ws(c),
{
    c == '\t' || c == '\n' || c == '\u{0B}' || c == '\u{0C}' || c == '\r' || c == ' '
        || c == '\u{85}' || c == '\u{A0}' || c == '\u{1680}'
        || ('\u{2000}' <= c && c <= '\u{200A}')
        || c == '\u{2028}' || c == '\u{2029}' || c == '\u{202F}' || c == '\u{205F}' || c == '\u{3000}'
}

/// Number of leading whitespace characters.
pub open spec fn lead_ws(s: Seq<char>) -> int
    decreases s.len(),
{
    if s.len() > 0 && is_ws(s[0]) { 1 + lead_ws(s.drop_first()) } else { 0 }
}

/// Number of trailing whitespace characters.
pub open spec fn trail_ws(s: Seq<char>) -> int
    decreases s.len(),
{
    if s.len() > 0 && is_ws(s.last()) { 1 + trail_ws(s.drop_last()) } else { 0 }
}

/// `s` without leading whitespace.
pub open spec fn trim_start_seq(s: Seq<char>) -> Seq<char> {
    s.skip(lead_ws(s))
}

/// `s` without leading and trailing whitespace.
pub open spec fn trim_seq(s: Seq<char>) -> Seq<char> {
    let t = trim_start_seq(s);
    t.take(t.len() - trail_ws(t))
}

proof fn lemma_lead_ws_bound(s: Seq<char>)
    ensures
        0 <= lead_ws(s) <= s.len(),
    decreases s.len(),
{
    if s.len() > 0 && is_ws(s[0]) { lemma_lead_ws_bound(s.drop_first()); }
}

pub proof fn lemma_trail_ws_bound(s: Seq<char>)
    ensures
        0 <= trail_ws(s) <= s.len(),
    decreases s.len(),
{
    if s.len() > 0 && is_ws(s.last()) { lemma_trail_ws_bound(s.drop_last()); }
}

/// `v` without leading whitespace.
pub fn trim_start_vec(v: &Vec<char>) -> (r: Vec<char>)
    ensures
        r@ == trim_start_seq(v@),
{
    let mut i: usize = 0;
    proof { lemma_lead_ws_bound(v@); }
    assert(v@.skip(0) =~= v@);
    while i < v.len() && is_whitespace(v[i])
        invariant
            i <= v.len(),
            lead_ws(v@) == i + lead_ws(v@.skip(i as int)),
        decreases v.len() - i,
    {
        assert(v@.skip(i as int).drop_first() =~= v@.skip(i + 1));
        i += 1;
    }
    let mut r: Vec<char> = Vec::new();
    let mut k: usize = i;
    while k < v.len()
        invariant
            i <= k <= v.len(),
            r@ == v@.subrange(i as int, k as int),
        decreases v.len() - k,
    {
        r.push(v[k]);
        assert(v@.subrange(i as int, k + 1) =~= v@.subrange(i as int, k as int).push(v@[k as int]));
        k += 1;
    }
    assert(r@ =~= v@.skip(i as int));
    r
}

/// `v` without leading and trailing whitespace.
pub fn trim_vec(v: &Vec<char>) -> (r: Vec<char>)
    ensures
        r@ == trim_seq(v@),
{
    let t = trim_start_vec(v);
    let mut e: usize = t.len();
    proof { lemma_trail_ws_bound(t@); }
    assert(t@.take(t@.len() as int) =~= t@);
    while e > 0 && is_whitespace(t[e - 1])
        invariant
            e <= t.len(),
            trail_ws(t@) == (t.len() - e) + trail_ws(t@.take(e as int)),
        decreases e,
    {
        assert(t@.take(e as int).drop_last() =~= t@.take(e - 1));
        e -= 1;
    }
    let mut r: Vec<char> = Vec::new();
    let mut k: usize = 0;
    while k < e
        invariant
            k <= e <= t.len(),
            r@ == t@.take(k as int),
        decreases e - k,
    {
        r.push(t[k]);
        assert(t@.take(k + 1) =~= t@.take(k as int).push(t@[k as int]));
        k += 1;
    }
    r
}

/// The characters of `v` from position `n` on.
pub fn skip_chars(v: &Vec<char>, n: usize) -> (r: Vec<char>)
    requires
        n <= v.len(),
    ensures
        r@ == v@.skip(n as int),
{
    let mut r: Vec<char> = Vec::new();
    let mut i: usize = n;
    while i < v.len()
        invariant
            n <= i <= v.len(),
            r@ == v@.subrange(n as int, i as int),
        decreases v.len() - i,
    {
        r.push(v[i]);
        i += 1;
    }
    r
}

/// `a` followed by `b`.
pub fn join_chars(a: &Vec<char>, b: &Vec<char>) -> (r: Vec<char>)
    ensures
        r@ == a@ + b@,
{
    let mut r = a.clone();
    let mut i: usize = 0;
    while i < b.len()
        invariant
            i <= b.len(),
            r@ == a@ + b@.take(i as int),
        decreases b.len() - i,
    {
        r.push(b[i]);
        assert(b@.take(i + 1) =~= b@.take(i as int).push(b@[i as int]));
        i += 1;
    }
    assert(b@.take(b.len() as int) =~= b@);
    r
}

/// Whether `c` occurs in `v`.
pub fn has_char(v: &Vec<char>, c: char) -> (r: bool)
    ensures
        r == v@.contains(c),
{
    let mut i: usize = 0;
    while i < v.len()
        invariant
            i <= v.len(),
            forall|j: int| 0 <= j < i ==> v@[j] != c,
        decreases v.len() - i,
    {
        if v[i] == c {
            assert(v@[i as int] == c);
            return true;
        }
        i += 1;
    }
    false
}

/// `s` without the prefix `p`, if it starts with it.
pub open spec fn strip(s: Seq<char>, p: Seq<char>) -> Option<Seq<char>> {
    if starts_with(s, p) { Some(s.skip(p.len() as int)) } else { None }
}

/// Position of the first `c` in `s` (its length when there is none).
pub open spec fn char_pos(s: Seq<char>, c: char) -> int
    decreases s.len(),
{
    if s.len() == 0 {
        0
    } else if s[0] == c {
        0
    } else {
        1 + char_pos(s.drop_first(), c)
    }
}

pub proof fn lemma_char_pos(s: Seq<char>, c: char)
    ensures
        0 <= char_pos(s, c) <= s.len(),
        forall|j: int| 0 <= j < char_pos(s, c) ==> s[j] != c,
        char_pos(s, c) < s.len() ==> s[char_pos(s, c)] == c,
    decreases s.len(),
{
    if s.len() > 0 && s[0] != c {
        lemma_char_pos(s.drop_first(), c);
        assert forall|j: int| 0 <= j < char_pos(s, c) implies s[j] != c by {
            if j > 0 {
                assert(s[j] == s.drop_first()[j - 1]);
            }
        }
    }
}

/// The parts of `s` before and after its first `c`, if it has one.
pub open spec fn split_once(s: Seq<char>, c: char) -> Option<(Seq<char>, Seq<char>)> {
    let i = char_pos(s, c);
    if i < s.len() { Some((s.take(i), s.skip(i + 1))) } else { None }
}

/// Position of the first `c` in `v` (its length when there is none).
pub fn find_char(v: &Vec<char>, c: char) -> (r: usize)
    ensures
        r as int == char_pos(v@, c),
{
    proof { lemma_char_pos(v@, c); }
    let mut i: usize = 0;
    while i < v.len()
        invariant
            i <= v.len(),
            0 <= char_pos(v@, c) <= v@.len(),
            forall|j: int| 0 <= j < char_pos(v@, c) ==> v@[j] != c,
            char_pos(v@, c) < v@.len() ==> v@[char_pos(v@, c)] == c,
            i <= char_pos(v@, c),
        decreases v.len() - i,
    {
        if v[i] == c {
            return i;
        }
        i += 1;
    }
    i
}

/// The parts of `v` before and after its first `c`, if it has one.
pub fn split_once_vec(v: &Vec<char>, c: char) -> (r: Option<(Vec<char>, Vec<char>)>)
    ensures
        match r {
            Some((a, b)) => split_once(v@, c) == Some((a@, b@)),
            None => split_once(v@, c) is None,
        },
{
    let i = find_char(v, c);
    if i < v.len() {
        let mut a: Vec<char> = Vec::new();
        let mut k: usize = 0;
        while k < i
            invariant
                k <= i < v.len(),
                a@ == v@.take(k as int),
            decreases i - k,
        {
            a.push(v[k]);
            assert(v@.take(k + 1) =~= v@.take(k as int).push(v@[k as int]));
            k += 1;
        }
        let b = skip_chars(v, i + 1);
        Some((a, b))
    } else {
        None
    }
}

/// `v` without the prefix `lit`, if it starts with it.
pub fn strip_vec(v: &Vec<char>, lit: &str) -> (r: Option<Vec<char>>)
    ensures
        match r {
            Some(t) => strip(v@, lit@) == Some(t@),
            None => strip(v@, lit@) is None,
        },
{
    let p = chars_of(lit);
    if starts_with_vec(v, &p) { Some(skip_chars(v, p.len())) } else { None }
}

/// First position from which `p` occurs in `s` (past the end when it does not).
pub open spec fn sub_pos(s: Seq<char>, p: Seq<char>) -> int
    decreases s.len(),
{
    if s.len() < p.len() || s.len() == 0 {
        (s.len() + 1) as int
    } else if s.take(p.len() as int) == p {
        0
    } else {
        1 + sub_pos(s.drop_first(), p)
    }
}

pub proof fn lemma_sub_pos(s: Seq<char>, p: Seq<char>)
    requires
        p.len() > 0,
    ensures
        0 <= sub_pos(s, p),
        sub_pos(s, p) + p.len() <= s.len() ==> s.subrange(sub_pos(s, p), sub_pos(s, p) + p.len()) == p,
        forall|j: int| 0 <= j < sub_pos(s, p) && j + p.len() <= s.len() ==> #[trigger] s.subrange(j, j + p.len()) != p,
    decreases s.len(),
{
    if s.len() >= p.len() && s.len() > 0 && s.take(p.len() as int) != p {
        lemma_sub_pos(s.drop_first(), p);
        let t = s.drop_first();
        assert forall|j: int| 0 <= j < sub_pos(s, p) && j + p.len() <= s.len() implies #[trigger] s.subrange(j, j + p.len()) != p by {
            if j == 0 {
                assert(s.subrange(0, p.len() as int) =~= s.take(p.len() as int));
            } else {
                assert(s.subrange(j, j + p.len()) =~= t.subrange(j - 1, j - 1 + p.len()));
            }
        }
        if sub_pos(s, p) + p.len() <= s.len() {
            assert(s.subrange(sub_pos(s, p), sub_pos(s, p) + p.len())
                =~= t.subrange(sub_pos(t, p), sub_pos(t, p) + p.len()));
        }
    } else if s.len() >= p.len() && s.len() > 0 {
        assert(s.subrange(0, p.len() as int) =~= s.take(p.len() as int));
    }
}

/// The pieces of `s` between occurrences of the separator `p`, left to
/// right and without overlaps; all of `s` when `p` is empty.
pub open spec fn split_sep(s: Seq<char>, p: Seq<char>) -> Seq<Seq<char>>
    decreases s.len(),
{
    if p.len() == 0 {
        seq![s]
    } else {
        let i = sub_pos(s, p);
        if 0 <= i && i + p.len() <= s.len() {
            seq![s.take(i)] + split_sep(s.skip(i + p.len()), p)
        } else {
            seq![s]
        }
    }
}

/// The pieces of `v` between occurrences of `sep` (which is not empty).
pub fn split_on(v: &Vec<char>, sep: &Vec<char>) -> (r: Vec<Vec<char>>)
    requires
        sep@.len() > 0,
    ensures
        r@.len() == split_sep(v@, sep@).len(),
        forall|k: int| 0 <= k < r@.len() ==> #[trigger] r@[k]@ == split_sep(v@, sep@)[k],
{
    let mut out: Vec<Vec<char>> = Vec::new();
    let ghost mut outv: Seq<Seq<char>> = Seq::empty();
    let mut cur: Vec<char> = Vec::new();
    let mut i: usize = 0;
    let n = v.len();
    let m = sep.len();
    assert(v@.skip(0) =~= v@);
    assert(outv + split_sep(v@.skip(0), sep@) =~= split_sep(v@, sep@));
    while i < n
        invariant
            n == v.len(),
            m == sep@.len(),
            m > 0,
            i <= n,
            cur@.len() <= i,
            cur@ == v@.subrange(i - cur@.len(), i as int),
            forall|j: int| i - cur@.len() <= j < i && j + m <= n ==> #[trigger] v@.subrange(j, j + m) != sep@,
            out@.len() == outv.len(),
            forall|k: int| 0 <= k < out@.len() ==> #[trigger] out@[k]@ == outv[k],
            split_sep(v@, sep@) == outv + split_sep(v@.skip(i - cur@.len()), sep@),
        decreases n - i,
    {
        if m <= n - i && occurs_at(v, sep, i) {
            let ghost st = i - cur@.len();
            let ghost rest = v@.skip(st);
            proof {
                lemma_sub_pos(rest, sep@);
                assert(rest.subrange(cur@.len() as int, cur@.len() + m) =~= v@.subrange(i as int, i + m));
                assert forall|j: int| 0 <= j < cur@.len() && j + m <= rest.len() implies #[trigger] rest.subrange(j, j + m) != sep@ by {
                    assert(rest.subrange(j, j + m) =~= v@.subrange(st + j, st + j + m));
                }
                if sub_pos(rest, sep@) < cur@.len() {
                    let q = sub_pos(rest, sep@);
                    assert(rest.subrange(q, q + m) == sep@);
                }
                assert(sub_pos(rest, sep@) == cur@.len());
                assert(rest.take(cur@.len() as int) =~= cur@);
                assert(rest.skip(cur@.len() + m) =~= v@.skip(i + m));
                assert(split_sep(rest, sep@) == seq![cur@] + split_sep(v@.skip(i + m), sep@));
            }
            let ghost pv = cur@;
            let piece = cur;
            out.push(piece);
            proof {
                assert(outv + (seq![pv] + split_sep(v@.skip(i + m), sep@)) =~= outv.push(pv) + split_sep(v@.skip(i + m), sep@));
                outv = outv.push(pv);
            }
            cur = Vec::new();
            i = i + m;
            assert(cur@ =~= v@.subrange(i - cur@.len(), i as int));
        } else {
            proof {
                if i + m <= n {
                    assert(v@.subrange(i as int, i + m) != sep@);
                }
            }
            cur.push(v[i]);
            i += 1;
            assert(cur@ =~= v@.subrange(i - cur@.len(), i as int));
        }
    }
    let ghost st = n - cur@.len();
    let ghost rest = v@.skip(st);
    proof {
        lemma_sub_pos(rest, sep@);
        assert(rest =~= cur@);
        if sub_pos(rest, sep@) + m <= rest.len() {
            let q = sub_pos(rest, sep@);
            assert(rest.subrange(q, q + m) =~= v@.subrange(st + q, st + q + m));
        }
        assert(split_sep(rest, sep@) == seq![cur@]);
    }
    let ghost cv = cur@;
    out.push(cur);
    proof {
        assert(outv + seq![cv] =~= outv.push(cv));
        outv = outv.push(cv);
    }
    out
}

/// Value of a signed decimal text that fits in an `i64`: an optional '-'
/// or '+', then one or more digits. Anything else gives None.
pub open spec fn parse_signed(s: Seq<char>) -> Option<int> {
    if s.len() > 0 && s[0] == '-' {
        let b = s.drop_first();
        if b.len() > 0 && (forall|i: int| 0 <= i < b.len() ==> is_digit(#[trigger] b[i])) && digits_value(b) <= 9223372036854775808 {
            Some(-digits_value(b))
        } else {
            None
        }
    } else {
        parse_unsigned(s, i64::MAX as int)
    }
}

/// Parses a signed decimal number that fits in an `i64`.
pub fn parse_i64(v: &Vec<char>) -> (r: Option<i64>)
    ensures
        match r {
            Some(x) => parse_signed(v@) == Some(x as int),
            None => parse_signed(v@) is None,
        },
{
    if v.len() > 0 && v[0] == '-' {
        let b = skip_chars(v, 1);
        assert(b@ =~= v@.drop_first());
        if b.len() == 0 {
            return None;
        }
        if !(b[0] >= '0' && b[0] <= '9') {
            assert(!is_digit(b@[0]));
            return None;
        }
        assert(unsigned_body(b@) == b@);
        match parse_u64(string_of(&b).as_str()) {
            Some(x) => {
                if x <= 9223372036854775808 {
                    let r: i64 = if x == 9223372036854775808 { i64::MIN } else { -(x as i64) };
                    Some(r)
                } else {
                    None
                }
            },
            None => {
                proof {
                    if (forall|i: int| 0 <= i < b@.len() ==> is_digit(#[trigger] b@[i])) && digits_value(b@) <= 9223372036854775808 {
                        assert(parse_unsigned(b@, u64::MAX as int) is Some);
                    }
                }
                None
            },
        }
    } else {
        match parse_u64(string_of(v).as_str()) {
            Some(x) => {
                if x <= i64::MAX as u64 {
                    Some(x as i64)
                } else {
                    proof {
                        let bb = unsigned_body(v@);
                        assert(digits_value(bb) == x);
                    }
                    None
                }
            },
            None => {
                proof {
                    let bb = unsigned_body(v@);
                    if bb.len() > 0 && (forall|i: int| 0 <= i < bb.len() ==> is_digit(#[trigger] bb[i])) && digits_value(bb) <= i64::MAX {
                        assert(parse_unsigned(v@, u64::MAX as int) is Some);
                    }
                }
                None
            },
        }
    }
}

/// A text without whitespace is its own trim.
pub proof fn lemma_trim_word(s: Seq<char>)
    requires
        forall|i: int| 0 <= i < s.len() ==> !is_ws(#[trigger] s[i]),
    ensures
        trim_seq(s) == s,
{
    assert(lead_ws(s) == 0);
    assert(s.skip(0) =~= s);
    assert(trail_ws(s) == 0);
    assert(s.take(s.len() as int) =~= s);
}

} // verus!
