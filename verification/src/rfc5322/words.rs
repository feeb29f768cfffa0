//! Atoms, dot-atoms, quoted strings, words, phrases, local parts and domains.

use vstd::prelude::*;
use crate::util::{lift, lift_end, push_range, copy_range};
use crate::rfc5322::chars::{Class, run_end, lemma_run_end, skip_class, spec_qcontent, qcontent, spec_in_class};
use crate::rfc5322::lexical::{opt_fws, opt_fws_into, lemma_fws, opt_cfws, opt_cfws_into, spec_cfws, cfws};
use crate::rfc5322::ascii::lemma_cfws_ascii;

verus! {

// ---------------------------------------------------------------------------
// atom = [CFWS] 1*atext [CFWS]
// ---------------------------------------------------------------------------

/// `atom = [CFWS] 1*atext [CFWS]`; the value keeps the surrounding white
/// space (comments removed).
pub open spec fn spec_atom(s: Seq<u8>, p: int) -> Option<(int, Seq<u8>)> {
    let c1 = opt_cfws(s, p);
    let a = run_end(s, c1.0, Class::Atext);
    if a > c1.0 {
        let c2 = opt_cfws(s, a);
        Some((c2.0, c1.1 + s.subrange(c1.0, a) + c2.1))
    } else {
        None
    }
}

/// `atom = [CFWS] 1*atext [CFWS]`
pub fn atom(s: &[u8], pos: usize) -> (r: Option<(usize, Vec<u8>)>)
    requires
        pos <= s.len(),
    ensures
        lift(r) == spec_atom(s@, pos as int),
        r matches Some((e, _)) ==> pos < e <= s.len(),
{
    let mut v: Vec<u8> = Vec::new();
    let q = opt_cfws_into(s, pos, &mut v);
    let a = skip_class(s, q, Class::Atext);
    if a > q {
        push_range(&mut v, s, q, a);
        let e = opt_cfws_into(s, a, &mut v);
        Some((e, v))
    } else {
        None
    }
}

// ---------------------------------------------------------------------------
// dot-atom-text = 1*atext *("." 1*atext)
// ---------------------------------------------------------------------------

/// The end of the `"." 1*atext` repetitions starting at `q`.
pub open spec fn dot_items(s: Seq<u8>, q: int) -> int
    decreases s.len() - q,
{
    if 0 <= q && q + 1 < s.len() && s[q] == 46 && run_end(s, q + 1, Class::Atext) > q + 1
        && run_end(s, q + 1, Class::Atext) <= s.len() {
        dot_items(s, run_end(s, q + 1, Class::Atext))
    } else {
        q
    }
}

/// `dot-atom-text = 1*atext *("." 1*atext)`; returns the end of the match.
pub open spec fn spec_dot_atom_text(s: Seq<u8>, p: int) -> Option<int> {
    let a = run_end(s, p, Class::Atext);
    if a > p {
        Some(dot_items(s, a))
    } else {
        None
    }
}

proof fn lemma_dot_items(s: Seq<u8>, q: int)
    requires
        0 <= q <= s.len(),
    ensures
        q <= dot_items(s, q) <= s.len(),
    decreases s.len() - q,
{
    if 0 <= q && q + 1 < s.len() && s[q] == 46 && run_end(s, q + 1, Class::Atext) > q + 1
        && run_end(s, q + 1, Class::Atext) <= s.len() {
        lemma_dot_items(s, run_end(s, q + 1, Class::Atext));
    }
}

/// `dot-atom-text`; returns the end of the match.
pub fn dot_atom_text(s: &[u8], pos: usize) -> (r: Option<usize>)
    requires
        pos <= s.len(),
    ensures
        lift_end(r) == spec_dot_atom_text(s@, pos as int),
        r matches Some(e) ==> pos < e <= s.len(),
{
    let a = skip_class(s, pos, Class::Atext);
    if a == pos {
        return None;
    }
    let mut q = a;
    proof {
        lemma_dot_items(s@, a as int);
    }
    loop
        invariant
            a <= q <= s.len(),
            dot_items(s@, a as int) == dot_items(s@, q as int),
        ensures
            a <= q <= s.len(),
            dot_items(s@, a as int) == q,
        decreases s.len() - q,
    {
        if q >= s.len() || s[q] != 46 {
            break;
        }
        if q + 1 >= s.len() {
            break;
        }
        proof {
            lemma_run_end(s@, (q + 1) as int, Class::Atext);
        }
        let w = skip_class(s, q + 1, Class::Atext);
        if w > q + 1 {
            q = w;
        } else {
            break;
        }
    }
    Some(q)
}

/// `dot-atom = [CFWS] dot-atom-text [CFWS]`
pub open spec fn spec_dot_atom(s: Seq<u8>, p: int) -> Option<(int, Seq<u8>)> {
    let c1 = opt_cfws(s, p);
    match spec_dot_atom_text(s, c1.0) {
        Some(t) => {
            let c2 = opt_cfws(s, t);
            Some((c2.0, c1.1 + s.subrange(c1.0, t) + c2.1))
        },
        None => None,
    }
}

/// `dot-atom = [CFWS] dot-atom-text [CFWS]`
pub fn dot_atom(s: &[u8], pos: usize) -> (r: Option<(usize, Vec<u8>)>)
    requires
        pos <= s.len(),
    ensures
        lift(r) == spec_dot_atom(s@, pos as int),
        r matches Some((e, _)) ==> pos < e <= s.len(),
{
    let mut v: Vec<u8> = Vec::new();
    let q = opt_cfws_into(s, pos, &mut v);
    match dot_atom_text(s, q) {
        Some(t) => {
            push_range(&mut v, s, q, t);
            let e = opt_cfws_into(s, t, &mut v);
            Some((e, v))
        },
        None => None,
    }
}

// ---------------------------------------------------------------------------
// quoted-string = [CFWS] DQUOTE *([FWS] qcontent) [FWS] DQUOTE [CFWS]
// ---------------------------------------------------------------------------

/// The end of the longest run of `qcontent` starting at `q`.
pub open spec fn qcontent_run(s: Seq<u8>, q: int) -> int
    decreases s.len() - q,
{
    match spec_qcontent(s, q) {
        Some((e, _)) => if q < e <= s.len() {
            qcontent_run(s, e)
        } else {
            q
        },
        None => q,
    }
}

/// The repetitions of `[FWS] 1*qcontent` inside the quotes; the quoted
/// text is kept as written (quoted pairs keep their backslash).
pub open spec fn quoted_items(s: Seq<u8>, q: int) -> (int, Seq<u8>)
    decreases s.len() - q,
{
    if 0 <= q <= s.len() {
        proof {
            lemma_fws(s, q);
        }
        let f = opt_fws(s, q);
        let r = qcontent_run(s, f.0);
        if f.0 < r <= s.len() {
            let t = quoted_items(s, r);
            (t.0, f.1 + s.subrange(f.0, r) + t.1)
        } else {
            (q, Seq::empty())
        }
    } else {
        (q, Seq::empty())
    }
}

/// `quoted-string`: the value is what stands between the quotes, together
/// with the white space around them (comments removed).
pub open spec fn spec_quoted_string(s: Seq<u8>, p: int) -> Option<(int, Seq<u8>)> {
    let c1 = opt_cfws(s, p);
    if 0 <= c1.0 < s.len() && s[c1.0] == 34 {
        let t = quoted_items(s, c1.0 + 1);
        let f = opt_fws(s, t.0);
        if 0 <= f.0 < s.len() && s[f.0] == 34 {
            let c2 = opt_cfws(s, f.0 + 1);
            Some((c2.0, c1.1 + t.1 + f.1 + c2.1))
        } else {
            None
        }
    } else {
        None
    }
}

proof fn lemma_qcontent_run(s: Seq<u8>, q: int)
    requires
        0 <= q <= s.len(),
    ensures
        q <= qcontent_run(s, q) <= s.len(),
    decreases s.len() - q,
{
    if let Some((e, _)) = spec_qcontent(s, q) {
        if q < e <= s.len() {
            lemma_qcontent_run(s, e);
        }
    }
}

proof fn lemma_quoted_items(s: Seq<u8>, q: int)
    requires
        0 <= q <= s.len(),
    ensures
        q <= quoted_items(s, q).0 <= s.len(),
    decreases s.len() - q,
{
    lemma_fws(s, q);
    let f = opt_fws(s, q);
    lemma_qcontent_run(s, f.0);
    let r = qcontent_run(s, f.0);
    if f.0 < r <= s.len() {
        lemma_quoted_items(s, r);
    }
}

fn skip_qcontent(s: &[u8], pos: usize) -> (e: usize)
    requires
        pos <= s.len(),
    ensures
        e as int == qcontent_run(s@, pos as int),
        pos <= e <= s.len(),
{
    let mut q = pos;
    proof {
        lemma_qcontent_run(s@, pos as int);
    }
    loop
        invariant
            pos <= q <= s.len(),
            qcontent_run(s@, pos as int) == qcontent_run(s@, q as int),
        decreases s.len() - q,
    {
        match qcontent(s, q) {
            Some((e, _)) => {
                q = e;
            },
            None => {
                return q;
            },
        }
    }
}

/// `quoted-string = [CFWS] DQUOTE *([FWS] qcontent) [FWS] DQUOTE [CFWS]`
pub fn quoted_string(s: &[u8], pos: usize) -> (r: Option<(usize, Vec<u8>)>)
    requires
        pos <= s.len(),
    ensures
        lift(r) == spec_quoted_string(s@, pos as int),
        r matches Some((e, _)) ==> pos < e <= s.len(),
{
    let mut v: Vec<u8> = Vec::new();
    let c1 = opt_cfws_into(s, pos, &mut v);
    if !(c1 < s.len() && s[c1] == 34) {
        return None;
    }
    let ghost pre = v@;
    let mut q = c1 + 1;
    proof {
        lemma_quoted_items(s@, q as int);
        assert(pre == v@ + Seq::<u8>::empty());
    }
    loop
        invariant
            c1 < q <= s.len(),
            quoted_items(s@, (c1 + 1) as int).0 == quoted_items(s@, q as int).0,
            pre + quoted_items(s@, (c1 + 1) as int).1 == v@ + quoted_items(s@, q as int).1,
            q <= quoted_items(s@, q as int).0 <= s.len(),
        ensures
            c1 < q <= s.len(),
            quoted_items(s@, (c1 + 1) as int).0 == q,
            pre + quoted_items(s@, (c1 + 1) as int).1 == v@,
        decreases s.len() - q,
    {
        let ghost old_v = v@;
        proof {
            lemma_fws(s@, q as int);
        }
        let mut w: Vec<u8> = Vec::new();
        let f = opt_fws_into(s, q, &mut w);
        let r = skip_qcontent(s, f);
        if r > f {
            v.append(&mut w);
            push_range(&mut v, s, f, r);
            proof {
                lemma_quoted_items(s@, r as int);
                assert(old_v + (opt_fws(s@, q as int).1 + s@.subrange(f as int, r as int)
                    + quoted_items(s@, r as int).1) == v@ + quoted_items(s@, r as int).1);
            }
            q = r;
        } else {
            assert(v@ + Seq::<u8>::empty() == v@);
            break;
        }
    }
    let f2 = opt_fws_into(s, q, &mut v);
    if !(f2 < s.len() && s[f2] == 34) {
        return None;
    }
    let e = opt_cfws_into(s, f2 + 1, &mut v);
    Some((e, v))
}

// ---------------------------------------------------------------------------
// word = atom / quoted-string
// ---------------------------------------------------------------------------

/// `word = atom / quoted-string`
pub open spec fn spec_word(s: Seq<u8>, p: int) -> Option<(int, Seq<u8>)> {
    match spec_atom(s, p) {
        Some(r) => Some(r),
        None => spec_quoted_string(s, p),
    }
}

/// `word = atom / quoted-string`
pub fn word(s: &[u8], pos: usize) -> (r: Option<(usize, Vec<u8>)>)
    requires
        pos <= s.len(),
    ensures
        lift(r) == spec_word(s@, pos as int),
        r matches Some((e, _)) ==> pos < e <= s.len(),
{
    match atom(s, pos) {
        Some(r) => Some(r),
        None => quoted_string(s, pos),
    }
}

// ---------------------------------------------------------------------------
// obs-phrase = word *(word / "." / CFWS)
// phrase = 1*word / obs-phrase
// ---------------------------------------------------------------------------

/// One item after the first word of an `obs-phrase`: a word, a period, or
/// `CFWS` (which contributes nothing to the value).
pub open spec fn spec_obs_phrase_item(s: Seq<u8>, q: int) -> Option<(int, Seq<u8>)> {
    match spec_word(s, q) {
        Some(r) => Some(r),
        None => if 0 <= q < s.len() && s[q] == 46 {
            Some((q + 1, seq![46u8]))
        } else {
            match spec_cfws(s, q) {
                Some((e, _)) => Some((e, Seq::empty())),
                None => None,
            }
        },
    }
}

pub open spec fn obs_phrase_items(s: Seq<u8>, q: int) -> (int, Seq<u8>)
    decreases s.len() - q,
{
    match spec_obs_phrase_item(s, q) {
        Some((e, v)) => if q < e <= s.len() {
            let t = obs_phrase_items(s, e);
            (t.0, v + t.1)
        } else {
            (q, Seq::empty())
        },
        None => (q, Seq::empty()),
    }
}

/// `obs-phrase = word *(word / "." / CFWS)`
pub open spec fn spec_obs_phrase(s: Seq<u8>, p: int) -> Option<(int, Seq<u8>)> {
    match spec_word(s, p) {
        Some((w, v)) => {
            let t = obs_phrase_items(s, w);
            Some((t.0, v + t.1))
        },
        None => None,
    }
}

/// The repetitions of `word` after the first, concatenated.
pub open spec fn word_items(s: Seq<u8>, q: int) -> (int, Seq<u8>)
    decreases s.len() - q,
{
    match spec_word(s, q) {
        Some((e, v)) => if q < e <= s.len() {
            let t = word_items(s, e);
            (t.0, v + t.1)
        } else {
            (q, Seq::empty())
        },
        None => (q, Seq::empty()),
    }
}

/// `1*word`, concatenated.
pub open spec fn spec_words1(s: Seq<u8>, p: int) -> Option<(int, Seq<u8>)> {
    match spec_word(s, p) {
        Some((w, v)) => {
            let t = word_items(s, w);
            Some((t.0, v + t.1))
        },
        None => None,
    }
}

/// `phrase = obs-phrase / 1*word` (the obsolete form is tried first so that a
/// period does not end the phrase early).
pub open spec fn spec_phrase(s: Seq<u8>, p: int) -> Option<(int, Seq<u8>)> {
    match spec_obs_phrase(s, p) {
        Some(r) => Some(r),
        None => spec_words1(s, p),
    }
}

proof fn lemma_word_items(s: Seq<u8>, q: int)
    requires
        0 <= q <= s.len(),
    ensures
        q <= word_items(s, q).0 <= s.len(),
    decreases s.len() - q,
{
    if let Some((e, _)) = spec_word(s, q) {
        if q < e <= s.len() {
            lemma_word_items(s, e);
        }
    }
}

/// A word, and a phrase, that matches ends after its start and within the
/// input.
pub proof fn lemma_phrase_end(s: Seq<u8>, p: int)
    requires
        0 <= p <= s.len(),
    ensures
        spec_word(s, p) matches Some((e, _)) ==> p < e <= s.len(),
        spec_phrase(s, p) matches Some((e, _)) ==> p < e <= s.len(),
{
    lemma_cfws_ascii(s, p);
    let c1 = opt_cfws(s, p).0;
    lemma_run_end(s, c1, Class::Atext);
    let a = run_end(s, c1, Class::Atext);
    lemma_cfws_ascii(s, a);
    if 0 <= c1 < s.len() && s[c1] == 34 {
        lemma_quoted_items(s, c1 + 1);
        let t = quoted_items(s, c1 + 1).0;
        lemma_fws(s, t);
        let f = opt_fws(s, t).0;
        if 0 <= f < s.len() {
            lemma_cfws_ascii(s, f + 1);
        }
    }
    if let Some((w, _)) = spec_word(s, p) {
        lemma_obs_phrase_items(s, w);
        lemma_word_items(s, w);
    }
}

/// No word, and so no phrase, starts where the first byte after the leading
/// `CFWS` is neither `atext` nor a double quote.
pub proof fn lemma_no_phrase(s: Seq<u8>, p: int)
    requires
        0 <= opt_cfws(s, p).0 < s.len(),
        !spec_in_class(s[opt_cfws(s, p).0], Class::Atext),
        s[opt_cfws(s, p).0] != 34,
    ensures
        spec_word(s, p) is None,
        spec_phrase(s, p) is None,
{
    assert(run_end(s, opt_cfws(s, p).0, Class::Atext) == opt_cfws(s, p).0);
}

proof fn lemma_obs_phrase_items(s: Seq<u8>, q: int)
    requires
        0 <= q <= s.len(),
    ensures
        q <= obs_phrase_items(s, q).0 <= s.len(),
    decreases s.len() - q,
{
    if let Some((e, v)) = spec_obs_phrase_item(s, q) {
        if q < e <= s.len() {
            lemma_obs_phrase_items(s, e);
        }
    }
}

fn obs_phrase_item(s: &[u8], pos: usize) -> (r: Option<(usize, Vec<u8>)>)
    requires
        pos <= s.len(),
    ensures
        lift(r) == spec_obs_phrase_item(s@, pos as int),
        r matches Some((e, _)) ==> pos < e <= s.len(),
{
    match word(s, pos) {
        Some(r) => Some(r),
        None => if pos < s.len() && s[pos] == 46 {
            let mut v = Vec::new();
            v.push(46u8);
            assert(v@ == seq![46u8]);
            Some((pos + 1, v))
        } else {
            match cfws(s, pos) {
                Some((e, _)) => Some((e, Vec::new())),
                None => None,
            }
        },
    }
}

/// `obs-phrase = word *(word / "." / CFWS)`
pub fn obs_phrase(s: &[u8], pos: usize) -> (r: Option<(usize, Vec<u8>)>)
    requires
        pos <= s.len(),
    ensures
        lift(r) == spec_obs_phrase(s@, pos as int),
        r matches Some((e, _)) ==> pos < e <= s.len(),
{
    match word(s, pos) {
        Some((w, mut v)) => {
            let ghost first = v@;
            let mut q = w;
            proof {
                lemma_obs_phrase_items(s@, w as int);
            }
            loop
                invariant
                    pos < w <= q <= s.len(),
                    obs_phrase_items(s@, w as int).0 == obs_phrase_items(s@, q as int).0,
                    spec_word(s@, pos as int) == Some((w as int, first)),
                    first + obs_phrase_items(s@, w as int).1 == v@ + obs_phrase_items(s@, q as int).1,
                    q <= obs_phrase_items(s@, q as int).0 <= s.len(),
                decreases s.len() - q,
            {
                match obs_phrase_item(s, q) {
                    Some((e, mut x)) => {
                        let ghost old_v = v@;
                        v.append(&mut x);
                        proof {
                            lemma_obs_phrase_items(s@, e as int);
                            assert(old_v + (spec_obs_phrase_item(s@, q as int).unwrap().1
                                + obs_phrase_items(s@, e as int).1) == v@ + obs_phrase_items(s@, e as int).1);
                        }
                        q = e;
                    },
                    None => {
                        assert(v@ + Seq::<u8>::empty() == v@);
                        return Some((q, v));
                    },
                }
            }
        },
        None => None,
    }
}

/// `phrase = obs-phrase / 1*word`
pub fn phrase(s: &[u8], pos: usize) -> (r: Option<(usize, Vec<u8>)>)
    requires
        pos <= s.len(),
    ensures
        lift(r) == spec_phrase(s@, pos as int),
        r matches Some((e, _)) ==> pos < e <= s.len(),
{
    // `1*word` can only succeed where a first word does, and then the
    // obsolete form has already succeeded.
    obs_phrase(s, pos)
}

// ---------------------------------------------------------------------------
// obs-local-part = word *("." word)
// ---------------------------------------------------------------------------

pub open spec fn local_items(s: Seq<u8>, q: int) -> (int, Seq<u8>)
    decreases s.len() - q,
{
    if 0 <= q < s.len() && s[q] == 46 {
        match spec_word(s, q + 1) {
            Some((e, v)) => if q < e <= s.len() {
                let t = local_items(s, e);
                (t.0, seq![46u8] + v + t.1)
            } else {
                (q, Seq::empty())
            },
            None => (q, Seq::empty()),
        }
    } else {
        (q, Seq::empty())
    }
}

/// `obs-local-part = word *("." word)`
pub open spec fn spec_obs_local_part(s: Seq<u8>, p: int) -> Option<(int, Seq<u8>)> {
    match spec_word(s, p) {
        Some((w, v)) => {
            let t = local_items(s, w);
            Some((t.0, v + t.1))
        },
        None => None,
    }
}

proof fn lemma_local_items(s: Seq<u8>, q: int)
    requires
        0 <= q <= s.len(),
    ensures
        q <= local_items(s, q).0 <= s.len(),
    decreases s.len() - q,
{
    if 0 <= q < s.len() && s[q] == 46 {
        if let Some((e, v)) = spec_word(s, q + 1) {
            if q < e <= s.len() {
                lemma_local_items(s, e);
            }
        }
    }
}

/// `obs-local-part = word *("." word)`
pub fn obs_local_part(s: &[u8], pos: usize) -> (r: Option<(usize, Vec<u8>)>)
    requires
        pos <= s.len(),
    ensures
        lift(r) == spec_obs_local_part(s@, pos as int),
        r matches Some((e, _)) ==> pos < e <= s.len(),
{
    match word(s, pos) {
        Some((w, mut v)) => {
            let ghost first = v@;
            let mut q = w;
            proof {
                lemma_local_items(s@, w as int);
            }
            loop
                invariant
                    pos < w <= q <= s.len(),
                    local_items(s@, w as int).0 == local_items(s@, q as int).0,
                    spec_word(s@, pos as int) == Some((w as int, first)),
                    first + local_items(s@, w as int).1 == v@ + local_items(s@, q as int).1,
                    q <= local_items(s@, q as int).0 <= s.len(),
                decreases s.len() - q,
            {
                if !(q < s.len() && s[q] == 46) {
                    assert(v@ + Seq::<u8>::empty() == v@);
                    return Some((q, v));
                }
                match word(s, q + 1) {
                    Some((e, mut x)) => {
                        let ghost old_v = v@;
                        v.push(46u8);
                        v.append(&mut x);
                        proof {
                            lemma_local_items(s@, e as int);
                            assert(old_v + (seq![46u8] + spec_word(s@, q + 1).unwrap().1
                                + local_items(s@, e as int).1) == v@ + local_items(s@, e as int).1);
                        }
                        q = e;
                    },
                    None => {
                        assert(v@ + Seq::<u8>::empty() == v@);
                        return Some((q, v));
                    },
                }
            }
        },
        None => None,
    }
}

// ---------------------------------------------------------------------------
// obs-domain = atom *("." atom)
// ---------------------------------------------------------------------------

pub open spec fn domain_items(s: Seq<u8>, q: int) -> int
    decreases s.len() - q,
{
    if 0 <= q < s.len() && s[q] == 46 {
        match spec_atom(s, q + 1) {
            Some((e, _)) => if q < e <= s.len() {
                domain_items(s, e)
            } else {
                q
            },
            None => q,
        }
    } else {
        q
    }
}

/// `obs-domain = atom *("." atom)`; returns the end of the match.
pub open spec fn spec_obs_domain(s: Seq<u8>, p: int) -> Option<int> {
    match spec_atom(s, p) {
        Some((a, _)) => Some(domain_items(s, a)),
        None => None,
    }
}

proof fn lemma_domain_items(s: Seq<u8>, q: int)
    requires
        0 <= q <= s.len(),
    ensures
        q <= domain_items(s, q) <= s.len(),
    decreases s.len() - q,
{
    if 0 <= q < s.len() && s[q] == 46 {
        if let Some((e, _)) = spec_atom(s, q + 1) {
            if q < e <= s.len() {
                lemma_domain_items(s, e);
            }
        }
    }
}

/// `obs-domain = atom *("." atom)`; returns the end of the match.
pub fn obs_domain(s: &[u8], pos: usize) -> (r: Option<usize>)
    requires
        pos <= s.len(),
    ensures
        lift_end(r) == spec_obs_domain(s@, pos as int),
        r matches Some(e) ==> pos < e <= s.len(),
{
    match atom(s, pos) {
        Some((a, _)) => {
            let mut q = a;
            proof {
                lemma_domain_items(s@, a as int);
            }
            loop
                invariant
                    pos < a <= q <= s.len(),
                    domain_items(s@, a as int) == domain_items(s@, q as int),
                    spec_obs_domain(s@, pos as int) == Some(domain_items(s@, a as int)),
                decreases s.len() - q,
            {
                if !(q < s.len() && s[q] == 46) {
                    return Some(q);
                }
                match atom(s, q + 1) {
                    Some((e, _)) => {
                        q = e;
                    },
                    None => {
                        return Some(q);
                    },
                }
            }
        },
        None => None,
    }
}

/// `domain`, read as `obs-domain`: the value is the matched text as written,
/// comments and white space included.
pub open spec fn spec_domain(s: Seq<u8>, p: int) -> Option<(int, Seq<u8>)> {
    match spec_obs_domain(s, p) {
        Some(e) => Some((e, s.subrange(p, e))),
        None => None,
    }
}

/// `domain`, read as `obs-domain`.
pub fn domain(s: &[u8], pos: usize) -> (r: Option<(usize, Vec<u8>)>)
    requires
        pos <= s.len(),
    ensures
        lift(r) == spec_domain(s@, pos as int),
        r matches Some((e, _)) ==> pos < e <= s.len(),
{
    match obs_domain(s, pos) {
        Some(e) => Some((e, copy_range(s, pos, e))),
        None => None,
    }
}

/// `local-part = dot-atom / quoted-string / obs-local-part`
pub open spec fn spec_local_part(s: Seq<u8>, p: int) -> Option<(int, Seq<u8>)> {
    match spec_dot_atom(s, p) {
        Some(r) => Some(r),
        None => match spec_quoted_string(s, p) {
            Some(r) => Some(r),
            None => spec_obs_local_part(s, p),
        },
    }
}

/// `local-part = dot-atom / quoted-string / obs-local-part`
pub fn local_part(s: &[u8], pos: usize) -> (r: Option<(usize, Vec<u8>)>)
    requires
        pos <= s.len(),
    ensures
        lift(r) == spec_local_part(s@, pos as int),
        r matches Some((e, _)) ==> pos < e <= s.len(),
{
    match dot_atom(s, pos) {
        Some(r) => Some(r),
        None => match quoted_string(s, pos) {
            Some(r) => Some(r),
            None => obs_local_part(s, pos),
        },
    }
}

} // verus!
