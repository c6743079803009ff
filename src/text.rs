//! Character-level text helpers shared by the chat parsers.
use vstd::prelude::*;
use vstd::string::*;

verus! {

/// Index of the first occurrence of `c` in `s`.
pub open spec fn find_char(s: Seq<char>, c: char) -> Option<nat>
    decreases s.len(),
{
    if s.len() == 0 {
        None
    } else if s[0] == c {
        Some(0)
    } else {
        match find_char(s.drop_first(), c) {
            Some(i) => Some(i + 1),
            None => None,
        }
    }
}

/// The pieces of `s` between occurrences of `sep`; an empty text is one empty piece.
pub open spec fn split_on(s: Seq<char>, sep: char) -> Seq<Seq<char>>
    decreases s.len(),
{
    match find_char(s, sep) {
        None => seq![s],
        Some(i) => if i < s.len() {
            seq![s.take(i as int)] + split_on(s.skip(i as int + 1), sep)
        } else {
            seq![s]
        },
    }
}

/// `s` cut at its first `sep`: what stands before it and what follows it
/// (the whole text and an empty text when `sep` does not occur).
pub open spec fn split_first(s: Seq<char>, sep: char) -> (Seq<char>, Seq<char>) {
    match find_char(s, sep) {
        None => (s, Seq::empty()),
        Some(i) => (s.take(i as int), s.skip(i as int + 1)),
    }
}

/// The first occurrence found by a left-to-right scan is the one `find_char` names.
pub proof fn lemma_find_char_at(s: Seq<char>, c: char, i: int)
    requires
        0 <= i <= s.len(),
        forall|j: int| 0 <= j < i ==> s[j] != c,
        i < s.len() ==> s[i] == c,
    ensures
        i < s.len() ==> find_char(s, c) == Some(i as nat),
        i == s.len() ==> find_char(s, c) is None,
    decreases i,
{
    if i > 0 {
        assert forall|j: int| 0 <= j < i - 1 implies s.drop_first()[j] != c by {
            assert(s.drop_first()[j] == s[j + 1]);
        }
        lemma_find_char_at(s.drop_first(), c, i - 1);
    } else if s.len() == 0 {
    }
}

/// Characters of a string, copied into a vector.
pub fn chars_of(s: &str) -> (r: Vec<char>)
    ensures
        r@ == s@,
{
    let n = s.unicode_len();
    let mut v: Vec<char> = Vec::new();
    let mut i: usize = 0;
    while i < n
        invariant
            n == s@.len(),
            i <= n,
            v@ == s@.take(i as int),
        decreases n - i,
    {
        let c = s.get_char(i);
        v.push(c);
        i = i + 1;
        assert(v@ =~= s@.take(i as int));
    }
    assert(v@ =~= s@);
    v
}

/// Position of the first `c` in `v` at or after `from`, or `v.len()` when there is none.
pub fn scan_for(v: &Vec<char>, c: char, from: usize) -> (r: usize)
    requires
        from <= v@.len(),
    ensures
        from <= r <= v@.len(),
        forall|j: int| from <= j < r ==> v@[j] != c,
        r < v@.len() ==> v@[r as int] == c,
{
    let mut i = from;
    while i < v.len()
        invariant
            from <= i <= v@.len(),
            forall|j: int| from <= j < i ==> v@[j] != c,
        decreases v@.len() - i,
    {
        if v[i] == c {
            return i;
        }
        i = i + 1;
    }
    i
}

pub proof fn lemma_scan_is_find(s: Seq<char>, c: char, from: int, r: int)
    requires
        0 <= from <= r <= s.len(),
        forall|j: int| from <= j < r ==> s[j] != c,
        r < s.len() ==> s[r] == c,
    ensures
        r < s.len() ==> find_char(s.skip(from), c) == Some((r - from) as nat),
        r == s.len() ==> find_char(s.skip(from), c) is None,
{
    let t = s.skip(from);
    assert forall|j: int| 0 <= j < r - from implies t[j] != c by {
        assert(t[j] == s[j + from]);
    }
    if r < s.len() {
        assert(t[r - from] == s[r]);
    }
    lemma_find_char_at(t, c, r - from);
}

/// Whether `c` occurs in `s`.
pub fn has_char(s: &str, c: char) -> (r: bool)
    ensures
        r == find_char(s@, c) is Some,
{
    let v = chars_of(s);
    let i = scan_for(&v, c, 0);
    proof {
        lemma_scan_is_find(s@, c, 0, i as int);
        assert(s@.skip(0) =~= s@);
    }
    i < v.len()
}

/// `text` split at every `sep`, as `str::split` does.
pub fn split_text(text: &str, sep: char) -> (r: Vec<String>)
    ensures
        r@.map_values(|p: String| p@) == split_on(text@, sep),
{
    let v = chars_of(text);
    let ghost s = text@;
    let mut out: Vec<String> = Vec::new();
    let mut start: usize = 0;
    assert(s.skip(0) =~= s);
    loop
        invariant
            v@ == s,
            s == text@,
            start <= s.len(),
            out@.map_values(|p: String| p@) + split_on(s.skip(start as int), sep) == split_on(s, sep),
        decreases s.len() - start,
    {
        let i = scan_for(&v, sep, start);
        proof {
            lemma_scan_is_find(s, sep, start as int, i as int);
        }
        let piece = text.substring_char(start, i);
        let ghost before = out@.map_values(|p: String| p@);
        out.push(piece.to_string());
        assert(out@.map_values(|p: String| p@) =~= before.push(s.subrange(start as int, i as int)));
        if i == v.len() {
            assert(s.skip(start as int) =~= s.subrange(start as int, i as int));
            assert(out@.map_values(|p: String| p@) =~= split_on(s, sep));
            return out;
        }
        let ghost rest = s.skip(start as int);
        let ghost k: int = i - start;
        assert(rest.take(k) =~= s.subrange(start as int, i as int));
        assert(rest.skip(k + 1) =~= s.skip(i + 1));
        assert(split_on(rest, sep) == seq![rest.take(k)] + split_on(rest.skip(k + 1), sep));
        start = i + 1;
        assert(before + split_on(rest, sep) =~= out@.map_values(|p: String| p@) + split_on(s.skip(start as int), sep));
    }
}

/// `text` cut at its first `sep`.
pub fn split_text_first(text: &str, sep: char) -> (r: (String, String))
    ensures
        (r.0@, r.1@) == split_first(text@, sep),
{
    let v = chars_of(text);
    let i = scan_for(&v, sep, 0);
    proof {
        lemma_scan_is_find(text@, sep, 0, i as int);
        assert(text@.skip(0) =~= text@);
    }
    if i == v.len() {
        (text.to_string(), String::new())
    } else {
        let a = text.substring_char(0, i);
        let b = text.substring_char(i + 1, v.len());
        assert(a@ =~= text@.take(i as int));
        assert(b@ =~= text@.skip(i + 1));
        (a.to_string(), b.to_string())
    }
}

pub open spec fn is_digit(c: char) -> bool {
    '0' <= c <= '9'
}

pub open spec fn all_digits(s: Seq<char>) -> bool {
    forall|i: int| 0 <= i < s.len() ==> is_digit(s[i])
}

/// The number that a run of decimal digits denotes.
pub open spec fn decimal_value(s: Seq<char>) -> nat
    decreases s.len(),
{
    if s.len() == 0 {
        0
    } else {
        decimal_value(s.drop_last()) * 10 + ((s.last() as u32) - 48) as nat
    }
}

/// The value of `s` when it is a non-empty run of decimal digits that fits in a `u64`.
pub open spec fn decimal_of(s: Seq<char>) -> Option<nat> {
    if s.len() > 0 && all_digits(s) && decimal_value(s) <= u64::MAX {
        Some(decimal_value(s))
    } else {
        None
    }
}

proof fn lemma_decimal_prefix(s: Seq<char>, i: int)
    requires
        0 <= i <= s.len(),
        all_digits(s),
    ensures
        decimal_value(s.take(i)) <= decimal_value(s),
    decreases s.len(),
{
    if i < s.len() {
        let t = s.drop_last();
        assert(t.take(i) =~= s.take(i));
        lemma_decimal_prefix(t, i);
    } else {
        assert(s.take(i) =~= s);
    }
}

/// Reads a decimal number, refusing anything but digits and values past `u64::MAX`.
pub fn parse_decimal(s: &str) -> (r: Option<u64>)
    ensures
        r matches Some(v) ==> decimal_of(s@) == Some(v as nat),
        r is None ==> decimal_of(s@) is None,
{
    let v = chars_of(s);
    if v.len() == 0 {
        return None;
    }
    let mut i: usize = 0;
    while i < v.len()
        invariant
            v@ == s@,
            i <= v@.len(),
            forall|j: int| 0 <= j < i ==> is_digit(v@[j]),
        decreases v@.len() - i,
    {
        if !('0' <= v[i] && v[i] <= '9') {
            return None;
        }
        i = i + 1;
    }
    let mut acc: u64 = 0;
    let mut k: usize = 0;
    assert(s@.take(0) =~= Seq::<char>::empty());
    while k < v.len()
        invariant
            v@ == s@,
            all_digits(s@),
            k <= v@.len(),
            acc as nat == decimal_value(s@.take(k as int)),
        decreases v@.len() - k,
    {
        let d = (v[k] as u32 - 48) as u64;
        assert(s@.take(k + 1).drop_last() =~= s@.take(k as int));
        if acc > (u64::MAX - d) / 10 {
            proof {
                lemma_decimal_prefix(s@, k + 1);
            }
            return None;
        }
        acc = acc * 10 + d;
        k = k + 1;
    }
    assert(s@.take(k as int) =~= s@);
    Some(acc)
}

/// Number of UTF-16 code units that encode `c`.
pub open spec fn utf16_width(c: char) -> nat {
    if (c as u32) >= 0x10000 {
        2
    } else {
        1
    }
}

/// Index of the character that starts at UTF-16 code unit `u` of `s`
/// (`s.len()` for the end), if `u` falls on a character boundary.
pub open spec fn char_at_unit(s: Seq<char>, u: nat) -> Option<nat>
    decreases s.len(),
{
    if u == 0 {
        Some(0)
    } else if s.len() == 0 {
        None
    } else if u < utf16_width(s[0]) {
        None
    } else {
        match char_at_unit(s.drop_first(), (u - utf16_width(s[0])) as nat) {
            Some(k) => Some(k + 1),
            None => None,
        }
    }
}

/// Character index of UTF-16 offset `u` in `v`.
pub fn char_index_of_unit(v: &Vec<char>, u: u64) -> (r: Option<usize>)
    ensures
        r matches Some(k) ==> char_at_unit(v@, u as nat) == Some(k as nat),
        r is None ==> char_at_unit(v@, u as nat) is None,
{
    let ghost s = v@;
    let mut i: usize = 0;
    let mut rem: u64 = u;
    assert(s.skip(0) =~= s);
    loop
        invariant
            s == v@,
            i <= s.len(),
            match char_at_unit(s.skip(i as int), rem as nat) {
                Some(k) => char_at_unit(s, u as nat) == Some((k + i) as nat),
                None => char_at_unit(s, u as nat) is None,
            },
        decreases s.len() - i,
    {
        if rem == 0 {
            return Some(i);
        }
        if i == v.len() {
            return None;
        }
        let w: u64 = if v[i] as u32 >= 0x10000 { 2 } else { 1 };
        assert(s.skip(i as int)[0] == s[i as int]);
        if rem < w {
            return None;
        }
        assert(s.skip(i as int).drop_first() =~= s.skip(i + 1));
        rem = rem - w;
        i = i + 1;
    }
}

/// `s` with every non-overlapping occurrence of `pat` replaced by `rep`, scanning
/// from the left, as `str::replace` does.
pub open spec fn replace_all(s: Seq<char>, pat: Seq<char>, rep: Seq<char>) -> Seq<char>
    decreases s.len(),
{
    if pat.len() == 0 || s.len() < pat.len() {
        s
    } else if s.take(pat.len() as int) == pat {
        rep + replace_all(s.skip(pat.len() as int), pat, rep)
    } else {
        seq![s[0]] + replace_all(s.drop_first(), pat, rep)
    }
}

pub fn matches_at(v: &Vec<char>, p: &Vec<char>, i: usize) -> (r: bool)
    requires
        i + p@.len() <= v@.len(),
    ensures
        r == (v@.subrange(i as int, i + p@.len()) == p@),
{
    let n = v.len();
    let mut j: usize = 0;
    while j < p.len()
        invariant
            n == v@.len(),
            i + p@.len() <= v@.len(),
            j <= p@.len(),
            forall|k: int| 0 <= k < j ==> v@[i + k] == p@[k],
        decreases p@.len() - j,
    {
        if v[i + j] != p[j] {
            assert(v@.subrange(i as int, i + p@.len())[j as int] != p@[j as int]);
            return false;
        }
        j = j + 1;
    }
    assert(v@.subrange(i as int, i + p@.len()) =~= p@);
    true
}

/// Replaces every occurrence of `pat` in `s` by `rep`.
pub fn replace_text(s: &str, pat: &str, rep: &str) -> (r: String)
    requires
        pat@.len() > 0,
    ensures
        r@ == replace_all(s@, pat@, rep@),
{
    let v = chars_of(s);
    let p = chars_of(pat);
    let n = v.len();
    let m = p.len();
    let mut out = String::new();
    let mut last: usize = 0;
    let mut i: usize = 0;
    assert(s@.skip(0) =~= s@);
    while m <= n - i
        invariant
            v@ == s@,
            p@ == pat@,
            n == s@.len(),
            m == pat@.len(),
            m > 0,
            last <= i <= n,
            out@ + s@.subrange(last as int, i as int) + replace_all(s@.skip(i as int), pat@, rep@)
                == replace_all(s@, pat@, rep@),
        decreases n - i,
    {
        let ghost t = s@.skip(i as int);
        assert(t.take(m as int) =~= s@.subrange(i as int, i + m));
        if matches_at(&v, &p, i) {
            let ghost before = out@;
            let piece = s.substring_char(last, i);
            out.append(piece);
            out.append(rep);
            assert(t.skip(m as int) =~= s@.skip(i + m));
            assert(out@ + s@.subrange((i + m) as int, (i + m) as int) =~= before + s@.subrange(last as int, i as int) + rep@);
            i = i + m;
            last = i;
        } else {
            assert(t.drop_first() =~= s@.skip(i + 1));
            assert(s@.subrange(last as int, i as int) + seq![t[0]] =~= s@.subrange(last as int, i + 1));
            i = i + 1;
        }
    }
    assert(replace_all(s@.skip(i as int), pat@, rep@) == s@.skip(i as int));
    let tail = s.substring_char(last, n);
    out.append(tail);
    assert(s@.subrange(last as int, i as int) + s@.skip(i as int) =~= s@.subrange(last as int, n as int));
    out
}

pub open spec fn starts_with(s: Seq<char>, p: Seq<char>) -> bool {
    p.len() <= s.len() && s.take(p.len() as int) == p
}

pub open spec fn contains_text(s: Seq<char>, p: Seq<char>) -> bool {
    exists|i: int| 0 <= i && i + p.len() <= s.len() && #[trigger] s.subrange(i, i + p.len()) == p
}

/// Whether `s` begins with `p`.
pub fn text_starts_with(s: &str, p: &str) -> (r: bool)
    ensures
        r == starts_with(s@, p@),
{
    let v = chars_of(s);
    let q = chars_of(p);
    if q.len() > v.len() {
        return false;
    }
    let r = matches_at(&v, &q, 0);
    assert(s@.subrange(0, p@.len() as int) =~= s@.take(p@.len() as int));
    r
}

/// Whether `p` occurs in `s`.
pub fn text_contains(s: &str, p: &str) -> (r: bool)
    ensures
        r == contains_text(s@, p@),
{
    let v = chars_of(s);
    let q = chars_of(p);
    let n = v.len();
    let m = q.len();
    if m > n {
        return false;
    }
    let mut i: usize = 0;
    loop
        invariant
            v@ == s@,
            q@ == p@,
            n == s@.len(),
            m == p@.len(),
            m <= n,
            i <= n - m,
            forall|k: int| 0 <= k < i ==> #[trigger] s@.subrange(k, k + m) != p@,
        decreases n - m - i,
    {
        if matches_at(&v, &q, i) {
            return true;
        }
        if i == n - m {
            return false;
        }
        i = i + 1;
    }
}

} // verus!
