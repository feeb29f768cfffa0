//! Message identifiers: `msg-id` and its parts.

use vstd::prelude::*;
use crate::{MessageID, MessageIDModel};
use crate::util::{lift, lift_end, copy_range, ascii_chars, ascii_string};
use crate::rfc5322::ascii::{lemma_id_left_ascii, lemma_id_right_ascii, lemma_cfws_ascii};
use crate::rfc5322::chars::{spec_dtext, dtext};
use crate::rfc5322::lexical::{opt_cfws, skip_opt_cfws};
use crate::rfc5322::words::{
    spec_dot_atom_text, dot_atom_text, spec_local_part, local_part, spec_domain, domain, spec_phrase, phrase,
};

verus! {

/// The end of the longest run of `dtext` starting at `q`.
pub open spec fn dtext_run(s: Seq<u8>, q: int) -> int
    decreases s.len() - q,
{
    match spec_dtext(s, q) {
        Some((e, _)) => if q < e <= s.len() {
            dtext_run(s, e)
        } else {
            q
        },
        None => q,
    }
}

proof fn lemma_dtext_run(s: Seq<u8>, q: int)
    requires
        0 <= q <= s.len(),
    ensures
        q <= dtext_run(s, q) <= s.len(),
    decreases s.len() - q,
{
    match spec_dtext(s, q) {
        Some((e, _)) => if q < e <= s.len() {
            lemma_dtext_run(s, e);
        },
        None => {},
    }
}

/// `no-fold-literal = "[" *dtext "]"`; the value is the text between the
/// brackets, as written.
pub open spec fn spec_no_fold_literal(s: Seq<u8>, p: int) -> Option<(int, Seq<u8>)> {
    if 0 <= p < s.len() && s[p] == 91 {
        let q = dtext_run(s, p + 1);
        if 0 <= q < s.len() && s[q] == 93 {
            Some((q + 1, s.subrange(p + 1, q)))
        } else {
            None
        }
    } else {
        None
    }
}

/// `no-fold-literal = "[" *dtext "]"`
pub fn no_fold_literal(s: &[u8], pos: usize) -> (r: Option<(usize, Vec<u8>)>)
    requires
        pos <= s.len(),
    ensures
        lift(r) == spec_no_fold_literal(s@, pos as int),
        r matches Some((e, _)) ==> pos < e <= s.len(),
{
    if !(pos < s.len() && s[pos] == 91) {
        return None;
    }
    let mut q = pos + 1;
    proof {
        lemma_dtext_run(s@, q as int);
    }
    loop
        invariant
            pos + 1 <= q <= s.len(),
            dtext_run(s@, (pos + 1) as int) == dtext_run(s@, q as int),
        ensures
            pos + 1 <= q <= s.len(),
            dtext_run(s@, (pos + 1) as int) == q,
        decreases s.len() - q,
    {
        match dtext(s, q) {
            Some((e, _)) => {
                q = e;
            },
            None => {
                break;
            },
        }
    }
    if q < s.len() && s[q] == 93 {
        Some((q + 1, copy_range(s, pos + 1, q)))
    } else {
        None
    }
}

/// `id-left = dot-atom-text / obs-id-left`, with `obs-id-left = local-part`.
pub open spec fn spec_id_left(s: Seq<u8>, p: int) -> Option<(int, Seq<u8>)> {
    match spec_dot_atom_text(s, p) {
        Some(e) => Some((e, s.subrange(p, e))),
        None => spec_local_part(s, p),
    }
}

/// `id-left = dot-atom-text / obs-id-left`
pub fn id_left(s: &[u8], pos: usize) -> (r: Option<(usize, Vec<u8>)>)
    requires
        pos <= s.len(),
    ensures
        lift(r) == spec_id_left(s@, pos as int),
        r matches Some((e, _)) ==> pos < e <= s.len(),
{
    match dot_atom_text(s, pos) {
        Some(e) => Some((e, copy_range(s, pos, e))),
        None => local_part(s, pos),
    }
}

/// `obs-id-left = local-part`
pub fn obs_id_left(s: &[u8], pos: usize) -> (r: Option<(usize, Vec<u8>)>)
    requires
        pos <= s.len(),
    ensures
        lift(r) == spec_local_part(s@, pos as int),
        r matches Some((e, _)) ==> pos < e <= s.len(),
{
    local_part(s, pos)
}

/// `id-right = dot-atom-text / no-fold-literal / obs-id-right`, with
/// `obs-id-right = domain`.
pub open spec fn spec_id_right(s: Seq<u8>, p: int) -> Option<(int, Seq<u8>)> {
    match spec_dot_atom_text(s, p) {
        Some(e) => Some((e, s.subrange(p, e))),
        None => match spec_no_fold_literal(s, p) {
            Some(r) => Some(r),
            None => spec_domain(s, p),
        },
    }
}

/// `id-right = dot-atom-text / no-fold-literal / obs-id-right`
pub fn id_right(s: &[u8], pos: usize) -> (r: Option<(usize, Vec<u8>)>)
    requires
        pos <= s.len(),
    ensures
        lift(r) == spec_id_right(s@, pos as int),
        r matches Some((e, _)) ==> pos < e <= s.len(),
{
    match dot_atom_text(s, pos) {
        Some(e) => Some((e, copy_range(s, pos, e))),
        None => match no_fold_literal(s, pos) {
            Some(r) => Some(r),
            None => domain(s, pos),
        },
    }
}

/// `obs-id-right = domain`
pub fn obs_id_right(s: &[u8], pos: usize) -> (r: Option<(usize, Vec<u8>)>)
    requires
        pos <= s.len(),
    ensures
        lift(r) == spec_domain(s@, pos as int),
        r matches Some((e, _)) ==> pos < e <= s.len(),
{
    domain(s, pos)
}

/// The optional `id-left "@"` of a message identifier: its end and the left
/// part, or the start and nothing when there is none.
pub open spec fn opt_id_left_at(s: Seq<u8>, q: int) -> (int, Option<Seq<u8>>) {
    match spec_id_left(s, q) {
        Some((a, l)) => if 0 <= a < s.len() && s[a] == 64 {
            (a + 1, Some(l))
        } else {
            (q, None)
        },
        None => (q, None),
    }
}

/// `msg-id = [CFWS] "<" [id-left "@"] id-right ">" [CFWS]`: the left part
/// may be left out, as in `<comm-tagged-1077147628989448>`.  The parts are
/// ASCII, and are read as text.
pub open spec fn spec_msg_id(s: Seq<u8>, p: int) -> Option<(int, MessageIDModel)> {
    let c = opt_cfws(s, p).0;
    if 0 <= c < s.len() && s[c] == 60 {
        let (q, l) = opt_id_left_at(s, c + 1);
        match spec_id_right(s, q) {
            Some((t, r)) => if 0 <= t < s.len() && s[t] == 62 {
                Some((opt_cfws(s, t + 1).0, MessageIDModel {
                    id_left: match l {
                        Some(x) => Some(ascii_chars(x)),
                        None => None,
                    },
                    id_right: ascii_chars(r),
                }))
            } else {
                None
            },
            None => None,
        }
    } else {
        None
    }
}

/// A `msg-id` that matches ends after its start and within the input.
pub proof fn lemma_msg_id_end(s: Seq<u8>, p: int)
    requires
        0 <= p <= s.len(),
    ensures
        spec_msg_id(s, p) matches Some((e, _)) ==> p < e <= s.len(),
{
    lemma_cfws_ascii(s, p);
    let c = opt_cfws(s, p).0;
    if 0 <= c < s.len() && s[c] == 60 {
        lemma_id_left_ascii(s, c + 1);
        let q = opt_id_left_at(s, c + 1).0;
        lemma_id_right_ascii(s, q);
        if let Some((t, _)) = spec_id_right(s, q) {
            if 0 <= t < s.len() && s[t] == 62 {
                lemma_cfws_ascii(s, t + 1);
            }
        }
    }
}

/// `msg-id = [CFWS] "<" [id-left "@"] id-right ">" [CFWS]`
pub fn msg_id(s: &[u8], pos: usize) -> (r: Option<(usize, MessageID)>)
    requires
        pos <= s.len(),
    ensures
        lift(r) == spec_msg_id(s@, pos as int),
        r matches Some((e, _)) ==> pos < e <= s.len(),
{
    let c = skip_opt_cfws(s, pos);
    if !(c < s.len() && s[c] == 60) {
        return None;
    }
    proof {
        lemma_id_left_ascii(s@, c + 1);
    }
    let (q, l) = match id_left(s, c + 1) {
        Some((a, l)) => if a < s.len() && s[a] == 64 {
            (a + 1, Some(ascii_string(l)))
        } else {
            (c + 1, None)
        },
        None => (c + 1, None),
    };
    assert(q as int == opt_id_left_at(s@, c + 1).0);
    assert(match opt_id_left_at(s@, c + 1).1 {
        Some(x) => l matches Some(t) && t@ == ascii_chars(x),
        None => l is None,
    });
    proof {
        lemma_id_right_ascii(s@, q as int);
    }
    match id_right(s, q) {
        Some((t, r)) => if t < s.len() && s[t] == 62 {
            let e = skip_opt_cfws(s, t + 1);
            Some((e, MessageID { id_left: l, id_right: ascii_string(r) }))
        } else {
            None
        },
        None => None,
    }
}

/// The values of a list of message identifiers.
pub open spec fn msg_id_views(v: Seq<MessageID>) -> Seq<MessageIDModel> {
    v.map_values(|m: MessageID| m@)
}

/// `*(phrase / msg-id)` from `q` on: the identifiers read, the phrases
/// between them being passed over.
pub open spec fn msg_id_list_items(s: Seq<u8>, q: int) -> Seq<MessageIDModel>
    decreases s.len() - q,
{
    match spec_phrase(s, q) {
        Some((e, _)) => if q < e <= s.len() {
            msg_id_list_items(s, e)
        } else {
            Seq::empty()
        },
        None => match spec_msg_id(s, q) {
            Some((e, m)) => if q < e <= s.len() {
                seq![m] + msg_id_list_items(s, e)
            } else {
                Seq::empty()
            },
            None => Seq::empty(),
        },
    }
}

/// `*(phrase / msg-id)`, keeping the identifiers: the phrases in
/// `In-Reply-To:` and `References:` are ignored.  It always succeeds.
#[verifier::rlimit(60)]
pub fn msg_id_list(s: &[u8], pos: usize) -> (r: Vec<MessageID>)
    requires
        pos <= s.len(),
    ensures
        msg_id_views(r@) == msg_id_list_items(s@, pos as int),
{
    let mut out: Vec<MessageID> = Vec::new();
    let mut q = pos;
    loop
        invariant
            pos <= q <= s.len(),
            msg_id_list_items(s@, pos as int) == msg_id_views(out@) + msg_id_list_items(s@, q as int),
        ensures
            msg_id_list_items(s@, pos as int) == msg_id_views(out@),
        decreases s.len() - q,
    {
        match phrase(s, q) {
            Some((e, _)) => {
                q = e;
            },
            None => match msg_id(s, q) {
                Some((e, m)) => {
                    let ghost before = out@;
                    let ghost mv = m@;
                    out.push(m);
                    assert(msg_id_views(out@) =~= msg_id_views(before).push(mv));
                    assert(msg_id_views(before) + (seq![mv] + msg_id_list_items(s@, e as int))
                        =~= msg_id_views(out@) + msg_id_list_items(s@, e as int));
                    q = e;
                },
                None => {
                    assert(msg_id_views(out@) + Seq::<MessageIDModel>::empty() =~= msg_id_views(out@));
                    break;
                },
            },
        }
    }
    out
}

} // verus!
