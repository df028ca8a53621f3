//! Text normalisation for the lexical index: lower-casing, splitting on
//! non-alphanumeric boundaries, and stopword removal.

use vstd::prelude::*;
use crate::strutil::{chars_of, string_of, str_eq};

verus! {

/// Whether a character counts as alphanumeric (Unicode property).
pub uninterp spec fn is_alnum(c: char) -> bool;

/// The Unicode lower-casing of a character sequence.
pub uninterp spec fn lower_of(s: Seq<char>) -> Seq<char>;

/// Relies on char::is_alphanumeric: a pure Unicode character property.
#[verifier::external_body]
fn char_is_alnum(c: char) -> (r: bool)
    ensures
        r == is_alnum(c),
{
    c.is_alphanumeric()
}

/// Relies on str::to_lowercase: the result depends on the characters alone.
#[verifier::external_body]
fn to_lower(s: &str) -> (r: String)
    ensures
        r@ == lower_of(s@),
        s@.len() == 0 ==> r@.len() == 0,
{
    s.to_lowercase()
}

/// The length of a run in UTF-8 bytes, the unit of the token-length
/// filter.
pub open spec fn spec_run_bytes(run: Seq<char>) -> int {
    vstd::utf8::encode_utf8(run).len() as int
}

/// One step of the splitter: extend the current run on an alphanumeric
/// character, otherwise close the run, keeping it only if it is longer than
/// two UTF-8 bytes.
pub open spec fn split_step(acc: (Seq<Seq<char>>, Seq<char>), c: char) -> (Seq<Seq<char>>, Seq<
    char,
>) {
    if is_alnum(c) {
        (acc.0, acc.1.push(c))
    } else {
        (
            if spec_run_bytes(acc.1) > 2 {
                acc.0.push(acc.1)
            } else {
                acc.0
            },
            Seq::empty(),
        )
    }
}

/// Folds the splitter over a character sequence; the second component is the
/// still-open run at the end of the text.
pub open spec fn split_fold(s: Seq<char>) -> (Seq<Seq<char>>, Seq<char>)
    decreases s.len(),
{
    if s.len() == 0 {
        (Seq::empty(), Seq::empty())
    } else {
        split_step(split_fold(s.drop_last()), s.last())
    }
}

/// The maximal alphanumeric runs of `s` that are longer than two UTF-8
/// bytes, in order.
pub open spec fn runs_of(s: Seq<char>) -> Seq<Seq<char>> {
    let (toks, cur) = split_fold(s);
    if spec_run_bytes(cur) > 2 {
        toks.push(cur)
    } else {
        toks
    }
}

/// What `Tokenizer::tokenize` returns: the long alphanumeric runs of the
/// lower-cased text.
pub open spec fn spec_tokenize(s: Seq<char>) -> Seq<Seq<char>> {
    runs_of(lower_of(s))
}

/// The fixed closed set of stopwords.
pub open spec fn spec_is_stopword(w: Seq<char>) -> bool {
    ||| w == "the"@
    ||| w == "a"@
    ||| w == "and"@
    ||| w == "or"@
    ||| w == "is"@
    ||| w == "in"@
    ||| w == "at"@
    ||| w == "to"@
    ||| w == "for"@
    ||| w == "of"@
    ||| w == "on"@
    ||| w == "with"@
    ||| w == "by"@
    ||| w == "from"@
}

/// The subsequence of `toks` whose members are not stopwords.
pub open spec fn spec_remove_stopwords(toks: Seq<Seq<char>>) -> Seq<Seq<char>>
    decreases toks.len(),
{
    if toks.len() == 0 {
        Seq::empty()
    } else {
        let rest = spec_remove_stopwords(toks.drop_last());
        if spec_is_stopword(toks.last()) {
            rest
        } else {
            rest.push(toks.last())
        }
    }
}

/// The full normalisation pipeline applied to a query or document.
pub open spec fn spec_terms(s: Seq<char>) -> Seq<Seq<char>> {
    spec_remove_stopwords(spec_tokenize(s))
}

/// The views of a vector of strings.
pub open spec fn views_of(v: Seq<String>) -> Seq<Seq<char>> {
    v.map_values(|t: String| t@)
}

/// Splits text into lower-cased terms at non-alphanumeric boundaries,
/// discarding terms of at most two UTF-8 bytes.
pub struct Tokenizer;

impl Tokenizer {
    pub fn tokenize(text: &str) -> (r: Vec<String>)
        ensures
            views_of(r@) == spec_tokenize(text@),
    {
        let lowered = to_lower(text);
        let cs = chars_of(lowered.as_str());
        let ghost l = lower_of(text@);
        let mut out: Vec<String> = Vec::new();
        let mut cur: Vec<char> = Vec::new();
        let mut i: usize = 0;
        while i < cs.len()
            invariant
                cs@ == l,
                i <= cs.len(),
                (views_of(out@), cur@) == split_fold(l.take(i as int)),
            decreases cs.len() - i,
        {
            let ghost pre = l.take(i as int);
            assert(l.take(i + 1).drop_last() =~= pre);
            assert(l.take(i + 1).last() == l[i as int]);
            let c = cs[i];
            if char_is_alnum(c) {
                cur.push(c);
            } else {
                let tok = string_of(&cur);
                if tok.as_str().as_bytes().len() > 2 {
                    let ghost out0 = out@;
                    assert(spec_run_bytes(cur@) > 2);
                    out.push(tok);
                    assert(views_of(out@) =~= views_of(out0).push(cur@));
                } else {
                    assert(!(spec_run_bytes(cur@) > 2));
                }
                cur = Vec::new();
            }
            i += 1;
        }
        assert(l.take(l.len() as int) =~= l);
        let tok = string_of(&cur);
        if tok.as_str().as_bytes().len() > 2 {
            let ghost out0 = out@;
            assert(spec_run_bytes(cur@) > 2);
            out.push(tok);
            assert(views_of(out@) =~= views_of(out0).push(cur@));
        } else {
            assert(!(spec_run_bytes(cur@) > 2));
        }
        out
    }

    /// Whether a word is one of the fixed stopwords.
    pub fn is_stopword(word: &str) -> (r: bool)
        ensures
            r == spec_is_stopword(word@),
    {
        str_eq(word, "the") || str_eq(word, "a") || str_eq(word, "and")
            || str_eq(word, "or") || str_eq(word, "is") || str_eq(word, "in") || str_eq(
            word,
            "at",
        ) || str_eq(word, "to") || str_eq(word, "for") || str_eq(word, "of") || str_eq(word, "on")
            || str_eq(word, "with") || str_eq(word, "by") || str_eq(word, "from")
    }

    /// Removes stopwords, keeping the order of the remaining terms.
    pub fn remove_stopwords(tokens: Vec<String>) -> (r: Vec<String>)
        ensures
            views_of(r@) == spec_remove_stopwords(views_of(tokens@)),
    {
        let mut out: Vec<String> = Vec::new();
        let mut i: usize = 0;
        while i < tokens.len()
            invariant
                i <= tokens.len(),
                views_of(out@) == spec_remove_stopwords(views_of(tokens@).take(i as int)),
            decreases tokens.len() - i,
        {
            let ghost vt = views_of(tokens@);
            assert(vt.take(i + 1).drop_last() =~= vt.take(i as int));
            assert(vt.take(i + 1).last() == vt[i as int]);
            let t = &tokens[i];
            if !Tokenizer::is_stopword(t.as_str()) {
                let ghost out0 = out@;
                let tc = t.clone();
                out.push(tc);
                assert(views_of(out@) =~= views_of(out0).push(t@));
            }
            i += 1;
        }
        assert(views_of(tokens@).take(tokens@.len() as int) =~= views_of(tokens@));
        out
    }
}

} // verus!
