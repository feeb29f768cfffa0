//! Folding white space, comments, atoms, quoted strings, words and phrases.

use vstd::prelude::*;
use crate::util::{lift, lift_end, push_range, copy_range};
use crate::rfc5322::chars::{Class, spec_in_class, run_end, lemma_run_end, skip_class, spec_crlf, crlf,
    spec_byte, byte, spec_class_char, class_char, spec_quoted_pair, quoted_pair, spec_qcontent, qcontent};

verus! {

// ---------------------------------------------------------------------------
// FWS = ([*WSP CRLF] 1*WSP) / obs-FWS
// ---------------------------------------------------------------------------

/// `[*WSP CRLF] 1*WSP`; the value is the white space without the line break.
pub open spec fn spec_fws_new(s: Seq<u8>, p: int) -> Option<(int, Seq<u8>)> {
    let w1 = run_end(s, p, Class::Wsp);
    let start2 = match spec_crlf(s, w1) {
        Some(c) => c,
        None => p,
    };
    let pre = match spec_crlf(s, w1) {
        Some(_) => s.subrange(p, w1),
        None => Seq::empty(),
    };
    let w2 = run_end(s, start2, Class::Wsp);
    if w2 > start2 {
        Some((w2, pre + s.subrange(start2, w2)))
    } else {
        None
    }
}

/// `*(CRLF 1*WSP)` after the first white space of `obs-FWS`.
pub open spec fn obs_fws_tail(s: Seq<u8>, q: int) -> (int, Seq<u8>)
    decreases s.len() - q,
{
    match spec_crlf(s, q) {
        Some(c) => {
            let w = run_end(s, c, Class::Wsp);
            if q < c < w <= s.len() {
                let t = obs_fws_tail(s, w);
                (t.0, s.subrange(c, w) + t.1)
            } else {
                (q, Seq::empty())
            }
        },
        None => (q, Seq::empty()),
    }
}

/// `obs-FWS = 1*WSP *(CRLF 1*WSP)`; the value is the white space without
/// the line breaks.
pub open spec fn spec_obs_fws(s: Seq<u8>, p: int) -> Option<(int, Seq<u8>)> {
    let w = run_end(s, p, Class::Wsp);
    if p < w {
        let t = obs_fws_tail(s, w);
        Some((t.0, s.subrange(p, w) + t.1))
    } else {
        None
    }
}

/// `FWS = ([*WSP CRLF] 1*WSP) / obs-FWS`
pub open spec fn spec_fws(s: Seq<u8>, p: int) -> Option<(int, Seq<u8>)> {
    match spec_fws_new(s, p) {
        Some(r) => Some(r),
        None => spec_obs_fws(s, p),
    }
}

/// `[FWS]`: the end and value of the white space, or nothing.
pub open spec fn opt_fws(s: Seq<u8>, p: int) -> (int, Seq<u8>) {
    match spec_fws(s, p) {
        Some(r) => r,
        None => (p, Seq::empty()),
    }
}

proof fn lemma_obs_fws_tail(s: Seq<u8>, q: int)
    requires
        0 <= q <= s.len(),
    ensures
        q <= obs_fws_tail(s, q).0 <= s.len(),
    decreases s.len() - q,
{
    if let Some(c) = spec_crlf(s, q) {
        let w = run_end(s, c, Class::Wsp);
        if q < c < w <= s.len() {
            lemma_obs_fws_tail(s, w);
        }
    }
}

pub proof fn lemma_fws(s: Seq<u8>, p: int)
    requires
        0 <= p <= s.len(),
    ensures
        spec_fws(s, p) matches Some((e, _)) ==> p < e <= s.len(),
        p <= opt_fws(s, p).0 <= s.len(),
{
    lemma_run_end(s, p, Class::Wsp);
    let w1 = run_end(s, p, Class::Wsp);
    if let Some(c) = spec_crlf(s, w1) {
        lemma_run_end(s, c, Class::Wsp);
    }
    lemma_run_end(s, p, Class::Wsp);
    if p < w1 {
        lemma_obs_fws_tail(s, w1);
    }
}

fn obs_fws_from(s: &[u8], pos: usize, w: usize) -> (r: (usize, Vec<u8>))
    requires
        pos < w <= s.len(),
        w as int == run_end(s@, pos as int, Class::Wsp),
    ensures
        spec_obs_fws(s@, pos as int) == Some((r.0 as int, r.1@)),
        w <= r.0 <= s.len(),
{
    let mut v = copy_range(s, pos, w);
    let mut q = w;
    proof {
        lemma_obs_fws_tail(s@, w as int);
    }
    loop
        invariant
            w <= q <= s.len(),
            spec_obs_fws(s@, pos as int) == Some((obs_fws_tail(s@, q as int).0, v@ + obs_fws_tail(s@, q as int).1)),
            q <= obs_fws_tail(s@, q as int).0 <= s.len(),
        decreases s.len() - q,
    {
        match crlf(s, q) {
            Some(c) => {
                let w2 = skip_class(s, c, Class::Wsp);
                if w2 > c {
                    let ghost old_v = v@;
                    push_range(&mut v, s, c, w2);
                    proof {
                        lemma_obs_fws_tail(s@, w2 as int);
                        assert(old_v + (s@.subrange(c as int, w2 as int) + obs_fws_tail(s@, w2 as int).1)
                            == v@ + obs_fws_tail(s@, w2 as int).1);
                    }
                    q = w2;
                } else {
                    proof {
                        assert(v@ + Seq::<u8>::empty() == v@);
                    }
                    return (q, v);
                }
            },
            None => {
                proof {
                    assert(v@ + Seq::<u8>::empty() == v@);
                }
                return (q, v);
            },
        }
    }
}

/// `obs-FWS = 1*WSP *(CRLF 1*WSP)`
pub fn obs_fws(s: &[u8], pos: usize) -> (r: Option<(usize, Vec<u8>)>)
    requires
        pos <= s.len(),
    ensures
        lift(r) == spec_obs_fws(s@, pos as int),
        r matches Some((e, _)) ==> pos < e <= s.len(),
{
    let w = skip_class(s, pos, Class::Wsp);
    if w > pos {
        let (e, v) = obs_fws_from(s, pos, w);
        Some((e, v))
    } else {
        None
    }
}

/// `FWS = ([*WSP CRLF] 1*WSP) / obs-FWS` (folding white space); the value
/// is the white space with the line breaks removed.
pub fn fws(s: &[u8], pos: usize) -> (r: Option<(usize, Vec<u8>)>)
    requires
        pos <= s.len(),
    ensures
        lift(r) == spec_fws(s@, pos as int),
        r matches Some((e, _)) ==> pos < e <= s.len(),
{
    let w1 = skip_class(s, pos, Class::Wsp);
    let (start2, pre_end) = match crlf(s, w1) {
        Some(c) => (c, w1),
        None => (pos, pos),
    };
    let w2 = skip_class(s, start2, Class::Wsp);
    if w2 > start2 {
        let mut v = copy_range(s, pos, pre_end);
        push_range(&mut v, s, start2, w2);
        proof {
            if spec_crlf(s@, w1 as int) is None {
                assert(s@.subrange(pos as int, pos as int) == Seq::<u8>::empty());
            }
        }
        return Some((w2, v));
    }
    obs_fws(s, pos)
}

/// `[FWS]`, appending the white space to `v`; returns the end.
pub fn opt_fws_into(s: &[u8], pos: usize, v: &mut Vec<u8>) -> (e: usize)
    requires
        pos <= s.len(),
    ensures
        e as int == opt_fws(s@, pos as int).0,
        final(v)@ == old(v)@ + opt_fws(s@, pos as int).1,
        pos <= e <= s.len(),
{
    match fws(s, pos) {
        Some((e, mut w)) => {
            v.append(&mut w);
            e
        },
        None => {
            assert(old(v)@ + Seq::<u8>::empty() == old(v)@);
            pos
        },
    }
}

// ---------------------------------------------------------------------------
// comment = "(" *([FWS] ccontent) [FWS] ")"
// ccontent = ctext / quoted-pair / comment
// ---------------------------------------------------------------------------

/// The end of `*([FWS] ccontent)` inside a comment.
pub open spec fn comment_items(s: Seq<u8>, q: int) -> int
    decreases s.len() - q, 2int,
{
    if 0 <= q <= s.len() {
        proof {
            lemma_fws(s, q);
        }
        let q1 = opt_fws(s, q).0;
        match spec_ccontent(s, q1) {
            Some(e) => if q < e <= s.len() {
                comment_items(s, e)
            } else {
                q
            },
            None => q,
        }
    } else {
        q
    }
}

/// `ccontent = ctext / quoted-pair / comment`
pub open spec fn spec_ccontent(s: Seq<u8>, q: int) -> Option<int>
    decreases s.len() - q, 1int,
{
    match spec_class_char(s, q, Class::Ctext) {
        Some((e, _)) => Some(e),
        None => match spec_quoted_pair(s, q) {
            Some((e, _)) => Some(e),
            None => spec_comment(s, q),
        },
    }
}

/// `comment = "(" *([FWS] ccontent) [FWS] ")"`; comments nest.
pub open spec fn spec_comment(s: Seq<u8>, p: int) -> Option<int>
    decreases s.len() - p, 0int,
{
    if 0 <= p < s.len() && s[p] == 40 {
        let q = comment_items(s, p + 1);
        let q2 = opt_fws(s, q).0;
        if 0 <= q2 < s.len() && s[q2] == 41 {
            Some(q2 + 1)
        } else {
            None
        }
    } else {
        None
    }
}

pub proof fn lemma_comment_items(s: Seq<u8>, q: int)
    requires
        0 <= q <= s.len(),
    ensures
        q <= comment_items(s, q) <= s.len(),
    decreases s.len() - q,
{
    lemma_fws(s, q);
    let q1 = opt_fws(s, q).0;
    if let Some(e) = spec_ccontent(s, q1) {
        if q < e <= s.len() {
            lemma_comment_items(s, e);
        }
    }
}

/// `ccontent = ctext / quoted-pair / comment`; returns the end.
pub fn ccontent(s: &[u8], pos: usize) -> (r: Option<usize>)
    requires
        pos <= s.len(),
    ensures
        lift_end(r) == spec_ccontent(s@, pos as int),
        r matches Some(e) ==> pos < e <= s.len(),
    decreases s.len() - pos, 1int,
{
    match class_char(s, pos, Class::Ctext) {
        Some((e, _)) => Some(e),
        None => match quoted_pair(s, pos) {
            Some((e, _)) => Some(e),
            None => comment(s, pos),
        },
    }
}

/// `comment = "(" *([FWS] ccontent) [FWS] ")"`; returns the end.
pub fn comment(s: &[u8], pos: usize) -> (r: Option<usize>)
    requires
        pos <= s.len(),
    ensures
        lift_end(r) == spec_comment(s@, pos as int),
        r matches Some(e) ==> pos < e <= s.len(),
    decreases s.len() - pos, 0int,
{
    if !(pos < s.len() && s[pos] == 40) {
        return None;
    }
    let mut q = pos + 1;
    loop
        invariant
            pos < q <= s.len(),
            s@[pos as int] == 40,
            comment_items(s@, (pos + 1) as int) == comment_items(s@, q as int),
        ensures
            pos < q <= s.len(),
            comment_items(s@, (pos + 1) as int) == q,
        decreases s.len() - q,
    {
        proof {
            lemma_fws(s@, q as int);
        }
        let mut scratch: Vec<u8> = Vec::new();
        let q1 = opt_fws_into(s, q, &mut scratch);
        match ccontent(s, q1) {
            Some(e) => {
                q = e;
            },
            None => {
                assert(comment_items(s@, q as int) == q);
                break;
            },
        }
    }
    let mut scratch: Vec<u8> = Vec::new();
    let q2 = opt_fws_into(s, q, &mut scratch);
    if q2 < s.len() && s[q2] == 41 {
        Some(q2 + 1)
    } else {
        None
    }
}

// ---------------------------------------------------------------------------
// CFWS = (1*([FWS] comment) [FWS]) / FWS
// ---------------------------------------------------------------------------

/// `*(comment [FWS])` after the first comment of a `CFWS`; the value is the
/// white space, the comments being dropped.
pub open spec fn cfws_items(s: Seq<u8>, q: int) -> (int, Seq<u8>)
    decreases s.len() - q,
{
    match spec_comment(s, q) {
        Some(c) => {
            let f = opt_fws(s, c);
            if q < c <= f.0 <= s.len() {
                let t = cfws_items(s, f.0);
                (t.0, f.1 + t.1)
            } else {
                (q, Seq::empty())
            }
        },
        None => (q, Seq::empty()),
    }
}

/// `[FWS] 1*(comment [FWS])`
pub open spec fn spec_cfws_comments(s: Seq<u8>, p: int) -> Option<(int, Seq<u8>)> {
    let f1 = opt_fws(s, p);
    match spec_comment(s, f1.0) {
        Some(c) => {
            let f2 = opt_fws(s, c);
            let t = cfws_items(s, f2.0);
            Some((t.0, f1.1 + f2.1 + t.1))
        },
        None => None,
    }
}

/// `CFWS = ([FWS] 1*(comment [FWS])) / FWS`; the value is the white space
/// with line breaks and comments removed.
pub open spec fn spec_cfws(s: Seq<u8>, p: int) -> Option<(int, Seq<u8>)> {
    match spec_cfws_comments(s, p) {
        Some(r) => Some(r),
        None => spec_fws(s, p),
    }
}

/// `[CFWS]`
pub open spec fn opt_cfws(s: Seq<u8>, p: int) -> (int, Seq<u8>) {
    match spec_cfws(s, p) {
        Some(r) => r,
        None => (p, Seq::empty()),
    }
}

proof fn lemma_cfws_items(s: Seq<u8>, q: int)
    requires
        0 <= q <= s.len(),
    ensures
        q <= cfws_items(s, q).0 <= s.len(),
    decreases s.len() - q,
{
    if let Some(c) = spec_comment(s, q) {
        let f = opt_fws(s, c);
        if q < c <= f.0 <= s.len() {
            lemma_cfws_items(s, f.0);
        }
    }
}

/// `CFWS` (comments and folding white space); the value is the white space
/// with line breaks and comments removed.
pub fn cfws(s: &[u8], pos: usize) -> (r: Option<(usize, Vec<u8>)>)
    requires
        pos <= s.len(),
    ensures
        lift(r) == spec_cfws(s@, pos as int),
        r matches Some((e, _)) ==> pos < e <= s.len(),
{
    let mut v: Vec<u8> = Vec::new();
    let q0 = opt_fws_into(s, pos, &mut v);
    match comment(s, q0) {
        Some(c) => {
            let mut q = opt_fws_into(s, c, &mut v);
            proof {
                lemma_cfws_items(s@, q as int);
                assert(v@ == opt_fws(s@, pos as int).1 + opt_fws(s@, c as int).1);
            }
            loop
                invariant
                    pos < q <= s.len(),
                    spec_cfws_comments(s@, pos as int) == Some((cfws_items(s@, q as int).0, v@ + cfws_items(s@, q as int).1)),
                    q <= cfws_items(s@, q as int).0 <= s.len(),
                decreases s.len() - q,
            {
                match comment(s, q) {
                    Some(c2) => {
                        let ghost old_v = v@;
                        proof {
                            lemma_fws(s@, c2 as int);
                        }
                        let q2 = opt_fws_into(s, c2, &mut v);
                        proof {
                            lemma_cfws_items(s@, q2 as int);
                            assert(old_v + (opt_fws(s@, c2 as int).1 + cfws_items(s@, q2 as int).1)
                                == v@ + cfws_items(s@, q2 as int).1);
                        }
                        q = q2;
                    },
                    None => {
                        assert(v@ + Seq::<u8>::empty() == v@);
                        return Some((q, v));
                    },
                }
            }
        },
        None => fws(s, pos),
    }
}

/// `[CFWS]`, appending the white space to `v`; returns the end.
pub fn opt_cfws_into(s: &[u8], pos: usize, v: &mut Vec<u8>) -> (e: usize)
    requires
        pos <= s.len(),
    ensures
        e as int == opt_cfws(s@, pos as int).0,
        final(v)@ == old(v)@ + opt_cfws(s@, pos as int).1,
        pos <= e <= s.len(),
{
    match cfws(s, pos) {
        Some((e, mut w)) => {
            v.append(&mut w);
            e
        },
        None => {
            assert(old(v)@ + Seq::<u8>::empty() == old(v)@);
            pos
        },
    }
}

/// `CFWS` whose value is not needed; returns the end.
pub fn drop_cfws(s: &[u8], pos: usize) -> (r: Option<usize>)
    requires
        pos <= s.len(),
    ensures
        lift_end(r) == (match spec_cfws(s@, pos as int) { Some((e, _)) => Some(e), None => None }),
        r matches Some(e) ==> pos < e <= s.len(),
{
    match cfws(s, pos) {
        Some((e, _)) => Some(e),
        None => None,
    }
}

/// `[CFWS]` whose value is not needed; returns the end.
pub fn skip_opt_cfws(s: &[u8], pos: usize) -> (e: usize)
    requires
        pos <= s.len(),
    ensures
        e as int == opt_cfws(s@, pos as int).0,
        pos <= e <= s.len(),
{
    let mut scratch: Vec<u8> = Vec::new();
    opt_cfws_into(s, pos, &mut scratch)
}

} // verus!
