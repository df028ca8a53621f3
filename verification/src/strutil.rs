//! Small verified string helpers, and the trusted bridge between `String`
//! and its character sequence.

use vstd::prelude::*;

verus! {

/// Relies on str::chars / Iterator::collect: the characters of a string
/// slice, in order, are exactly its view.
#[verifier::external_body]
pub fn chars_of(s: &str) -> (r: Vec<char>)
    ensures
        r@ == s@,
{
    s.chars().collect()
}

/// Relies on Iterator::collect for String: collecting characters builds the
/// string with exactly those characters.
#[verifier::external_body]
pub fn string_of(v: &Vec<char>) -> (r: String)
    ensures
        r@ == v@,
{
    v.iter().collect()
}

/// Character-wise equality of two string slices.
pub fn str_eq(a: &str, b: &str) -> (r: bool)
    ensures
        r == (a@ == b@),
{
    let x: String = a.to_owned();
    let y: String = b.to_owned();
    x == y
}

/// True iff `prefix` is a prefix of `s`.
pub open spec fn spec_has_prefix(s: Seq<char>, prefix: Seq<char>) -> bool {
    prefix.len() <= s.len() && s.take(prefix.len() as int) == prefix
}

/// True iff `needle` occurs in `s` as a contiguous subsequence.
pub open spec fn spec_contains_sub(s: Seq<char>, needle: Seq<char>) -> bool {
    exists|i: int|
        0 <= i && i + needle.len() <= s.len() && #[trigger] s.subrange(i, i + needle.len() as int)
            == needle
}

/// Whether `s` starts with `prefix`, by characters.
pub fn starts_with(s: &str, prefix: &str) -> (r: bool)
    ensures
        r == spec_has_prefix(s@, prefix@),
{
    let sc = chars_of(s);
    let pc = chars_of(prefix);
    if pc.len() > sc.len() {
        assert(!spec_has_prefix(s@, prefix@));
        return false;
    }
    let mut i: usize = 0;
    while i < pc.len()
        invariant
            i <= pc.len(),
            pc.len() <= sc.len(),
            sc@ == s@,
            pc@ == prefix@,
            forall|j: int| 0 <= j < i ==> sc@[j] == pc@[j],
        decreases pc.len() - i,
    {
        if sc[i] != pc[i] {
            assert(s@.take(prefix@.len() as int)[i as int] != prefix@[i as int]);
            return false;
        }
        i += 1;
    }
    assert(s@.take(prefix@.len() as int) =~= prefix@);
    true
}

/// Whether `needle` matches the characters of `s` starting at `start`.
fn match_at(sc: &Vec<char>, nc: &Vec<char>, start: usize) -> (r: bool)
    requires
        start + nc@.len() <= sc@.len(),
    ensures
        r == (sc@.subrange(start as int, start + nc@.len() as int) == nc@),
{
    let slen: usize = sc.len();
    let mut j: usize = 0;
    while j < nc.len()
        invariant
            j <= nc.len(),
            slen == sc@.len(),
            start + nc@.len() <= sc@.len(),
            forall|t: int| 0 <= t < j ==> sc@[start + t] == nc@[t],
        decreases nc.len() - j,
    {
        if sc[start + j] != nc[j] {
            assert(sc@.subrange(start as int, start + nc@.len() as int)[j as int]
                != nc@[j as int]);
            return false;
        }
        j += 1;
    }
    assert(sc@.subrange(start as int, start + nc@.len() as int) =~= nc@);
    true
}

/// Whether `needle` occurs anywhere in `s`, by characters.
pub fn contains_sub(s: &str, needle: &str) -> (r: bool)
    ensures
        r == spec_contains_sub(s@, needle@),
{
    let sc = chars_of(s);
    let nc = chars_of(needle);
    if nc.len() > sc.len() {
        assert(!spec_contains_sub(s@, needle@));
        return false;
    }
    if nc.len() == 0 {
        assert(s@.subrange(0, 0 + needle@.len() as int) =~= needle@);
        return true;
    }
    let limit: usize = sc.len() - nc.len();
    let mut start: usize = 0;
    while start <= limit
        invariant
            sc@ == s@,
            nc@ == needle@,
            1 <= nc.len() <= sc.len(),
            limit == sc.len() - nc.len(),
            start <= limit + 1,
            forall|i: int|
                0 <= i < start ==> #[trigger] s@.subrange(i, i + needle@.len() as int)
                    != needle@,
        decreases limit + 1 - start,
    {
        if match_at(&sc, &nc, start) {
            return true;
        }
        start += 1;
    }
    assert forall|i: int| 0 <= i && i + needle@.len() <= s@.len() implies #[trigger] s@.subrange(
        i,
        i + needle@.len() as int,
    ) != needle@ by {
        assert(i <= limit as int);
    }
    false
}

/// The first `n` characters of `s`, or all of `s` if it is shorter.
pub fn take_chars(s: &str, n: usize) -> (r: String)
    ensures
        r@ == if s@.len() <= n {
            s@
        } else {
            s@.take(n as int)
        },
{
    let sc = chars_of(s);
    if sc.len() <= n {
        assert(s@.take(s@.len() as int) =~= s@);
        return string_of(&sc);
    }
    let mut out: Vec<char> = Vec::new();
    let mut i: usize = 0;
    while i < n
        invariant
            sc@ == s@,
            n <= sc.len(),
            i <= n,
            out@ == s@.take(i as int),
        decreases n - i,
    {
        out.push(sc[i]);
        assert(out@ =~= s@.take(i + 1));
        i += 1;
    }
    string_of(&out)
}

/// The decimal digit character for `d`.
pub open spec fn spec_digit(d: int) -> char {
    if d == 0 {
        '0'
    } else if d == 1 {
        '1'
    } else if d == 2 {
        '2'
    } else if d == 3 {
        '3'
    } else if d == 4 {
        '4'
    } else if d == 5 {
        '5'
    } else if d == 6 {
        '6'
    } else if d == 7 {
        '7'
    } else if d == 8 {
        '8'
    } else {
        '9'
    }
}

/// The decimal digits of `n`, most significant first.
pub open spec fn spec_dec_digits(n: int) -> Seq<char>
    decreases n,
{
    if n < 10 {
        seq![spec_digit(n)]
    } else {
        spec_dec_digits(n / 10).push(spec_digit(n % 10))
    }
}

fn digit_char(d: u64) -> (r: char)
    requires
        d < 10,
    ensures
        r == spec_digit(d as int),
{
    if d == 0 {
        '0'
    } else if d == 1 {
        '1'
    } else if d == 2 {
        '2'
    } else if d == 3 {
        '3'
    } else if d == 4 {
        '4'
    } else if d == 5 {
        '5'
    } else if d == 6 {
        '6'
    } else if d == 7 {
        '7'
    } else if d == 8 {
        '8'
    } else {
        '9'
    }
}

fn dec_chars(n: u64) -> (r: Vec<char>)
    ensures
        r@ == spec_dec_digits(n as int),
    decreases n,
{
    if n < 10 {
        let mut v: Vec<char> = Vec::new();
        v.push(digit_char(n));
        assert(v@ =~= seq![spec_digit(n as int)]);
        v
    } else {
        let mut v = dec_chars(n / 10);
        let ghost v0 = v@;
        v.push(digit_char(n % 10));
        assert(v@ =~= v0.push(spec_digit((n as int) % 10)));
        v
    }
}

/// The decimal rendering of `n`.
pub fn u64_to_dec(n: u64) -> (r: String)
    ensures
        r@ == spec_dec_digits(n as int),
{
    let v = dec_chars(n);
    string_of(&v)
}

/// Whether a character is Unicode whitespace.
pub uninterp spec fn is_space(c: char) -> bool;

/// Relies on char::is_whitespace: a pure Unicode character property.
#[verifier::external_body]
fn char_is_space(c: char) -> (r: bool)
    ensures
        r == is_space(c),
{
    c.is_whitespace()
}

/// `s` without leading whitespace.
pub open spec fn spec_ltrim(s: Seq<char>) -> Seq<char>
    decreases s.len(),
{
    if s.len() > 0 && is_space(s.first()) {
        spec_ltrim(s.drop_first())
    } else {
        s
    }
}

/// `s` without trailing whitespace.
pub open spec fn spec_rtrim(s: Seq<char>) -> Seq<char>
    decreases s.len(),
{
    if s.len() > 0 && is_space(s.last()) {
        spec_rtrim(s.drop_last())
    } else {
        s
    }
}

/// `s` without leading and trailing whitespace.
pub open spec fn spec_trim(s: Seq<char>) -> Seq<char> {
    spec_rtrim(spec_ltrim(s))
}

/// Removes leading and trailing whitespace characters.
pub fn trim_str(s: &str) -> (r: String)
    ensures
        r@ == spec_trim(s@),
{
    let cs = chars_of(s);
    let n = cs.len();
    assert(s@.skip(0) =~= s@);
    let mut lo: usize = 0;
    while lo < n && char_is_space(cs[lo])
        invariant
            lo <= n,
            n == cs@.len(),
            cs@ == s@,
            spec_ltrim(s@) == spec_ltrim(s@.skip(lo as int)),
        decreases n - lo,
    {
        assert(s@.skip(lo as int).drop_first() =~= s@.skip(lo + 1));
        lo += 1;
    }
    assert(s@.skip(lo as int).len() == 0 || !is_space(s@.skip(lo as int).first()));
    assert(spec_ltrim(s@) == s@.skip(lo as int));
    let ghost l = s@.skip(lo as int);
    let mut hi: usize = n;
    while hi > lo && char_is_space(cs[hi - 1])
        invariant
            lo <= hi <= n,
            n == cs@.len(),
            cs@ == s@,
            l == s@.skip(lo as int),
            spec_rtrim(l) == spec_rtrim(s@.subrange(lo as int, hi as int)),
        decreases hi,
    {
        assert(s@.subrange(lo as int, hi as int).drop_last() =~= s@.subrange(
            lo as int,
            hi - 1,
        ));
        assert(s@.subrange(lo as int, hi as int).last() == s@[hi - 1]);
        hi -= 1;
    }
    let ghost m = s@.subrange(lo as int, hi as int);
    assert(m.len() == 0 || !is_space(m.last()));
    assert(spec_rtrim(m) == m);
    let mut out: Vec<char> = Vec::new();
    let mut i: usize = lo;
    while i < hi
        invariant
            lo <= i <= hi <= n,
            n == cs@.len(),
            cs@ == s@,
            out@ == s@.subrange(lo as int, i as int),
        decreases hi - i,
    {
        out.push(cs[i]);
        assert(out@ =~= s@.subrange(lo as int, i + 1));
        i += 1;
    }
    assert(out@ == spec_trim(s@));
    string_of(&out)
}

/// The first position at or after `i` where `n` occurs in `s`.
pub open spec fn spec_find_from(s: Seq<char>, n: Seq<char>, i: int) -> Option<int>
    decreases s.len() - i,
{
    if i < 0 || i + n.len() > s.len() {
        None
    } else if n.len() == 0 {
        Some(i)
    } else if s.subrange(i, i + n.len() as int) == n {
        Some(i)
    } else {
        spec_find_from(s, n, i + 1)
    }
}

/// The first occurrence of `n` in `s`.
pub open spec fn spec_find(s: Seq<char>, n: Seq<char>) -> Option<int> {
    spec_find_from(s, n, 0)
}

/// The position of the first occurrence of `needle`, if it occurs.
pub fn find_sub(s: &str, needle: &str) -> (r: Option<usize>)
    ensures
        (match r {
            Some(i) => spec_find(s@, needle@) == Some(i as int),
            None => spec_find(s@, needle@) is None,
        }),
{
    let sc = chars_of(s);
    let nc = chars_of(needle);
    if nc.len() > sc.len() {
        return None;
    }
    if nc.len() == 0 {
        return Some(0);
    }
    let limit: usize = sc.len() - nc.len();
    let mut start: usize = 0;
    while start <= limit
        invariant
            sc@ == s@,
            nc@ == needle@,
            1 <= nc.len() <= sc.len(),
            limit == sc.len() - nc.len(),
            start <= limit + 1,
            spec_find(s@, needle@) == spec_find_from(s@, needle@, start as int),
        decreases limit + 1 - start,
    {
        if match_at(&sc, &nc, start) {
            return Some(start);
        }
        start += 1;
    }
    None
}

/// A found occurrence lies in range and matches.
pub proof fn lemma_find_some(s: Seq<char>, n: Seq<char>, j: int)
    requires
        spec_find_from(s, n, j) is Some,
    ensures
        ({
            let i = spec_find_from(s, n, j)->0;
            &&& j <= i
            &&& 0 <= i
            &&& i + n.len() <= s.len()
            &&& s.subrange(i, i + n.len() as int) == n
        }),
    decreases s.len() - j,
{
    if j < 0 || j + n.len() > s.len() {
    } else if n.len() == 0 {
        assert(s.subrange(j, j) =~= n);
    } else if s.subrange(j, j + n.len() as int) == n {
    } else {
        lemma_find_some(s, n, j + 1);
    }
}

/// `s` with every occurrence of `from` replaced by `to`, scanning left to
/// right without revisiting replacements.
pub open spec fn spec_replace(s: Seq<char>, from: Seq<char>, to: Seq<char>) -> Seq<char>
    recommends
        from.len() > 0,
    decreases s.len(),
{
    if s.len() == 0 || from.len() == 0 {
        s
    } else if from.len() <= s.len() && s.take(from.len() as int) == from {
        to + spec_replace(s.skip(from.len() as int), from, to)
    } else {
        seq![s[0]] + spec_replace(s.drop_first(), from, to)
    }
}

/// Replaces every occurrence of `from` (never empty) with `to`.
pub fn replace_all(s: &str, from: &str, to: &str) -> (r: String)
    requires
        from@.len() > 0,
    ensures
        r@ == spec_replace(s@, from@, to@),
{
    let sc = chars_of(s);
    let fc = chars_of(from);
    let tc = chars_of(to);
    let mut out: Vec<char> = Vec::new();
    assert(s@.skip(0) =~= s@);
    let mut i: usize = 0;
    while i < sc.len()
        invariant
            sc@ == s@,
            fc@ == from@,
            tc@ == to@,
            from@.len() > 0,
            i <= sc.len(),
            spec_replace(s@, from@, to@) == out@ + spec_replace(
                s@.skip(i as int),
                from@,
                to@,
            ),
        decreases sc.len() - i,
    {
        let ghost rem = s@.skip(i as int);
        if fc.len() <= sc.len() - i && match_at(&sc, &fc, i) {
            proof {
                assert(rem.take(from@.len() as int) =~= s@.subrange(
                    i as int,
                    i + from@.len() as int,
                ));
                assert(rem.skip(from@.len() as int) =~= s@.skip(i + from@.len()));
            }
            let ghost o0 = out@;
            let mut j: usize = 0;
            while j < tc.len()
                invariant
                    j <= tc@.len(),
                    tc@ == to@,
                    out@ == o0 + to@.take(j as int),
                decreases tc@.len() - j,
            {
                out.push(tc[j]);
                assert(out@ =~= o0 + to@.take(j + 1));
                j += 1;
            }
            assert(to@.take(to@.len() as int) =~= to@);
            assert(out@ =~= o0 + to@);
            i += fc.len();
        } else {
            proof {
                if i + from@.len() <= s@.len() {
                    assert(rem.take(from@.len() as int) =~= s@.subrange(
                        i as int,
                        i + from@.len() as int,
                    ));
                }
                assert(rem.drop_first() =~= s@.skip(i + 1));
            }
            let ghost o0 = out@;
            out.push(sc[i]);
            assert(out@ =~= o0 + seq![s@[i as int]]);
            i += 1;
        }
    }
    assert(s@.skip(s@.len() as int) =~= Seq::<char>::empty());
    assert(out@ =~= out@ + spec_replace(s@.skip(sc@.len() as int), from@, to@));
    string_of(&out)
}

/// Lexicographic order on character sequences (shorter prefixes first).
pub open spec fn spec_lex_le(a: Seq<char>, b: Seq<char>) -> bool
    decreases a.len(),
{
    if a.len() == 0 {
        true
    } else if b.len() == 0 {
        false
    } else if a.first() != b.first() {
        (a.first() as u32) < (b.first() as u32)
    } else {
        spec_lex_le(a.drop_first(), b.drop_first())
    }
}

/// Any two sequences are ordered one way or the other.
pub proof fn lemma_lex_le_total(a: Seq<char>, b: Seq<char>)
    ensures
        spec_lex_le(a, b) || spec_lex_le(b, a),
    decreases a.len(),
{
    if a.len() > 0 && b.len() > 0 {
        if a.first() == b.first() {
            lemma_lex_le_total(a.drop_first(), b.drop_first());
        } else {
            vstd::utf8::char_u32_cast(a.first(), a.first() as u32);
            vstd::utf8::char_u32_cast(b.first(), b.first() as u32);
            assert((a.first() as u32) != (b.first() as u32));
        }
    }
}

fn lex_le_from(a: &Vec<char>, b: &Vec<char>, i: usize) -> (r: bool)
    requires
        i <= a@.len(),
        i <= b@.len(),
    ensures
        r == spec_lex_le(a@.skip(i as int), b@.skip(i as int)),
    decreases a@.len() - i,
{
    if i == a.len() {
        return true;
    }
    if i == b.len() {
        return false;
    }
    let ca = a[i];
    let cb = b[i];
    proof {
        assert(a@.skip(i as int).first() == a@[i as int]);
        assert(b@.skip(i as int).first() == b@[i as int]);
        assert(a@.skip(i as int).drop_first() =~= a@.skip(i + 1));
        assert(b@.skip(i as int).drop_first() =~= b@.skip(i + 1));
    }
    if ca != cb {
        (ca as u32) < (cb as u32)
    } else {
        lex_le_from(a, b, i + 1)
    }
}

/// Whether `a` sorts at or before `b`, character-lexicographically.
pub fn lex_le(a: &str, b: &str) -> (r: bool)
    ensures
        r == spec_lex_le(a@, b@),
{
    let av = chars_of(a);
    let bv = chars_of(b);
    assert(a@.skip(0) =~= a@);
    assert(b@.skip(0) =~= b@);
    lex_le_from(&av, &bv, 0)
}

} // verus!
