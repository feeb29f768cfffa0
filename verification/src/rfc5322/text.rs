//! Unstructured field bodies and phrase lists.

use vstd::prelude::*;
use crate::util::{lift, copy_range, views, lemma_views_push, lemma_views_add};
use crate::rfc5322::chars::{Class, spec_class_run1, class_run1, spec_crlf, crlf};
use crate::rfc5322::lexical::{spec_fws, fws, spec_cfws, cfws};
use crate::rfc5322::words::{spec_phrase, phrase};

verus! {

/// The end of a run of CRs each of which is not followed by LF.
pub open spec fn cr_not_lf_end(s: Seq<u8>, q: int) -> int
    decreases s.len() - q,
{
    if 0 <= q < s.len() && s[q] == 13 && !(q + 1 < s.len() && s[q + 1] == 10) {
        cr_not_lf_end(s, q + 1)
    } else {
        q
    }
}

/// `1*(CR !LF)`: carriage returns that do not start a line break.
pub open spec fn spec_many1_cr_not_lf(s: Seq<u8>, p: int) -> Option<(int, Seq<u8>)> {
    let e = cr_not_lf_end(s, p);
    if e > p {
        Some((e, s.subrange(p, e)))
    } else {
        None
    }
}

proof fn lemma_cr_not_lf_end(s: Seq<u8>, q: int)
    requires
        0 <= q <= s.len(),
    ensures
        q <= cr_not_lf_end(s, q) <= s.len(),
    decreases s.len() - q,
{
    if 0 <= q < s.len() && s[q] == 13 && !(q + 1 < s.len() && s[q + 1] == 10) {
        lemma_cr_not_lf_end(s, q + 1);
    }
}

/// One or more CRs, each of which is not followed by LF.
pub fn many1_cr_not_lf(s: &[u8], pos: usize) -> (r: Option<(usize, Vec<u8>)>)
    requires
        pos <= s.len(),
    ensures
        lift(r) == spec_many1_cr_not_lf(s@, pos as int),
        r matches Some((e, _)) ==> pos < e <= s.len(),
{
    let mut q = pos;
    proof {
        lemma_cr_not_lf_end(s@, pos as int);
    }
    while q < s.len() && s[q] == 13 && !(q + 1 < s.len() && s[q + 1] == 10)
        invariant
            pos <= q <= s.len(),
            cr_not_lf_end(s@, pos as int) == cr_not_lf_end(s@, q as int),
        decreases s.len() - q,
    {
        q = q + 1;
    }
    if q > pos {
        Some((q, copy_range(s, pos, q)))
    } else {
        None
    }
}

/// One segment of `obs-unstruct`: a run of `LF` / `obs-utext`, folding
/// white space, or carriage returns not starting a line break.
pub open spec fn spec_unstruct_segment(s: Seq<u8>, q: int) -> Option<(int, Seq<u8>)> {
    match spec_class_run1(s, q, Class::LfObsUtext) {
        Some(e) => Some((e, s.subrange(q, e))),
        None => match spec_fws(s, q) {
            Some(r) => Some(r),
            None => spec_many1_cr_not_lf(s, q),
        },
    }
}

pub open spec fn unstruct_segments(s: Seq<u8>, q: int) -> (int, Seq<u8>)
    decreases s.len() - q,
{
    match spec_unstruct_segment(s, q) {
        Some((e, v)) => if q < e <= s.len() {
            let t = unstruct_segments(s, e);
            (t.0, v + t.1)
        } else {
            (q, Seq::empty())
        },
        None => (q, Seq::empty()),
    }
}

/// `obs-unstruct CRLF`, read as `*(1*(LF / obs-utext) / FWS / 1*(CR !LF)) CRLF`;
/// the value is the text with the folding line breaks removed.
pub open spec fn spec_obs_unstruct_crlf(s: Seq<u8>, p: int) -> Option<(int, Seq<u8>)> {
    let t = unstruct_segments(s, p);
    match spec_crlf(s, t.0) {
        Some(e) => Some((e, t.1)),
        None => None,
    }
}

proof fn lemma_unstruct_segments(s: Seq<u8>, q: int)
    requires
        0 <= q <= s.len(),
    ensures
        q <= unstruct_segments(s, q).0 <= s.len(),
    decreases s.len() - q,
{
    if let Some((e, v)) = spec_unstruct_segment(s, q) {
        if q < e <= s.len() {
            lemma_unstruct_segments(s, e);
        }
    }
}

fn unstruct_segment(s: &[u8], pos: usize) -> (r: Option<(usize, Vec<u8>)>)
    requires
        pos <= s.len(),
    ensures
        lift(r) == spec_unstruct_segment(s@, pos as int),
        r matches Some((e, _)) ==> pos < e <= s.len(),
{
    match class_run1(s, pos, Class::LfObsUtext) {
        Some(e) => Some((e, copy_range(s, pos, e))),
        None => match fws(s, pos) {
            Some(r) => Some(r),
            None => many1_cr_not_lf(s, pos),
        },
    }
}

/// `obs-unstruct CRLF`
pub fn obs_unstruct_crlf(s: &[u8], pos: usize) -> (r: Option<(usize, Vec<u8>)>)
    requires
        pos <= s.len(),
    ensures
        lift(r) == spec_obs_unstruct_crlf(s@, pos as int),
        r matches Some((e, _)) ==> pos < e <= s.len(),
{
    let mut v: Vec<u8> = Vec::new();
    let mut q = pos;
    proof {
        lemma_unstruct_segments(s@, pos as int);
        assert(v@ + unstruct_segments(s@, pos as int).1 == unstruct_segments(s@, pos as int).1);
    }
    loop
        invariant
            pos <= q <= s.len(),
            unstruct_segments(s@, pos as int).0 == unstruct_segments(s@, q as int).0,
            unstruct_segments(s@, pos as int).1 == v@ + unstruct_segments(s@, q as int).1,
            q <= unstruct_segments(s@, q as int).0 <= s.len(),
        ensures
            pos <= q <= s.len(),
            unstruct_segments(s@, pos as int).0 == q,
            unstruct_segments(s@, pos as int).1 == v@,
        decreases s.len() - q,
    {
        match unstruct_segment(s, q) {
            Some((e, mut x)) => {
                let ghost old_v = v@;
                v.append(&mut x);
                proof {
                    lemma_unstruct_segments(s@, e as int);
                    assert(old_v + (spec_unstruct_segment(s@, q as int).unwrap().1
                        + unstruct_segments(s@, e as int).1) == v@ + unstruct_segments(s@, e as int).1);
                }
                q = e;
            },
            None => {
                assert(v@ + Seq::<u8>::empty() == v@);
                break;
            },
        }
    }
    match crlf(s, q) {
        Some(e) => Some((e, v)),
        None => None,
    }
}

/// `unstructured CRLF`, read as its obsolete form.
pub fn unstructured_crlf(s: &[u8], pos: usize) -> (r: Option<(usize, Vec<u8>)>)
    requires
        pos <= s.len(),
    ensures
        lift(r) == spec_obs_unstruct_crlf(s@, pos as int),
        r matches Some((e, _)) ==> pos < e <= s.len(),
{
    obs_unstruct_crlf(s, pos)
}

/// `phrase / CFWS` inside a phrase list: a phrase, or `None` for white space
/// and comments.
pub open spec fn spec_phrase_or_cfws(s: Seq<u8>, q: int) -> Option<(int, Option<Seq<u8>>)> {
    match spec_phrase(s, q) {
        Some((e, v)) => Some((e, Some(v))),
        None => match spec_cfws(s, q) {
            Some((e, _)) => Some((e, None)),
            None => None,
        },
    }
}

/// `[phrase / CFWS]`
pub open spec fn opt_phrase_or_cfws(s: Seq<u8>, q: int) -> (int, Option<Seq<u8>>) {
    match spec_phrase_or_cfws(s, q) {
        Some(r) => r,
        None => (q, None),
    }
}

/// Prepends the phrase, if there is one.
pub open spec fn cons_some(x: Option<Seq<u8>>, l: Seq<Seq<u8>>) -> Seq<Seq<u8>> {
    match x {
        Some(v) => seq![v] + l,
        None => l,
    }
}

/// `*("," [phrase / CFWS])`
pub open spec fn phrase_list_items(s: Seq<u8>, q: int) -> (int, Seq<Seq<u8>>)
    decreases s.len() - q,
{
    if 0 <= q < s.len() && s[q] == 44 {
        let o = opt_phrase_or_cfws(s, q + 1);
        if q < o.0 <= s.len() {
            let t = phrase_list_items(s, o.0);
            (t.0, cons_some(o.1, t.1))
        } else {
            (q, Seq::empty())
        }
    } else {
        (q, Seq::empty())
    }
}

/// `obs-phrase-list = [phrase / CFWS] *("," [phrase / CFWS])`; the value is
/// the list of phrases, the empty elements being left out.
pub open spec fn spec_obs_phrase_list(s: Seq<u8>, p: int) -> (int, Seq<Seq<u8>>) {
    let first = opt_phrase_or_cfws(s, p);
    let t = phrase_list_items(s, first.0);
    (t.0, cons_some(first.1, t.1))
}

proof fn lemma_phrase_list_items(s: Seq<u8>, q: int)
    requires
        0 <= q <= s.len(),
    ensures
        q <= phrase_list_items(s, q).0 <= s.len(),
    decreases s.len() - q,
{
    if 0 <= q < s.len() && s[q] == 44 {
        let o = opt_phrase_or_cfws(s, q + 1);
        if q < o.0 <= s.len() {
            lemma_phrase_list_items(s, o.0);
        }
    }
}

fn opt_phrase_or_cfws_exec(s: &[u8], pos: usize) -> (r: (usize, Option<Vec<u8>>))
    requires
        pos <= s.len(),
    ensures
        opt_phrase_or_cfws(s@, pos as int).0 == r.0 as int,
        opt_phrase_or_cfws(s@, pos as int).1 == (match r.1 { Some(v) => Some(v@), None => None }),
        pos <= r.0 <= s.len(),
{
    match phrase(s, pos) {
        Some((e, v)) => (e, Some(v)),
        None => match cfws(s, pos) {
            Some((e, _)) => (e, None),
            None => (pos, None),
        },
    }
}

/// `obs-phrase-list = [phrase / CFWS] *("," [phrase / CFWS])`; it always
/// succeeds, possibly with an empty list.
pub fn obs_phrase_list(s: &[u8], pos: usize) -> (r: (usize, Vec<Vec<u8>>))
    requires
        pos <= s.len(),
    ensures
        spec_obs_phrase_list(s@, pos as int) == (r.0 as int, views(r.1@)),
        pos <= r.0 <= s.len(),
{
    let (q0, first) = opt_phrase_or_cfws_exec(s, pos);
    let mut out: Vec<Vec<u8>> = Vec::new();
    let ghost first_v = opt_phrase_or_cfws(s@, pos as int).1;
    let mut rest: Vec<Vec<u8>> = Vec::new();
    let mut q = q0;
    proof {
        lemma_phrase_list_items(s@, q0 as int);
        assert(views(rest@) + phrase_list_items(s@, q0 as int).1 == phrase_list_items(s@, q0 as int).1);
    }
    loop
        invariant
            pos <= q0 <= q <= s.len(),
            phrase_list_items(s@, q0 as int).0 == phrase_list_items(s@, q as int).0,
            phrase_list_items(s@, q0 as int).1 == views(rest@) + phrase_list_items(s@, q as int).1,
            q <= phrase_list_items(s@, q as int).0 <= s.len(),
        ensures
            pos <= q0 <= q <= s.len(),
            phrase_list_items(s@, q0 as int).0 == q,
            phrase_list_items(s@, q0 as int).1 == views(rest@),
        decreases s.len() - q,
    {
        if !(q < s.len() && s[q] == 44) {
            assert(views(rest@) + Seq::<Seq<u8>>::empty() == views(rest@));
            break;
        }
        let (o, x) = opt_phrase_or_cfws_exec(s, q + 1);
        let ghost old_rest = views(rest@);
        match x {
            Some(v) => {
                proof {
                    lemma_views_push(rest@, v);
                }
                rest.push(v);
            },
            None => {},
        }
        proof {
            lemma_phrase_list_items(s@, o as int);
            assert(old_rest + cons_some(opt_phrase_or_cfws(s@, q + 1).1, phrase_list_items(s@, o as int).1)
                == views(rest@) + phrase_list_items(s@, o as int).1);
        }
        q = o;
    }
    match first {
        Some(v) => {
            proof {
                lemma_views_push(out@, v);
            }
            out.push(v);
        },
        None => {},
    }
    let ghost out0 = out@;
    let ghost rest0 = rest@;
    out.append(&mut rest);
    proof {
        lemma_views_add(out0, rest0);
        assert(views(out@) == cons_some(first_v, phrase_list_items(s@, q0 as int).1));
    }
    (q, out)
}

} // verus!
