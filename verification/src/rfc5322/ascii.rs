//! The text that the address rules match, and the values they give, are
//! ASCII: local parts and domains can be held as text.

use vstd::prelude::*;
use crate::util::is_ascii_bytes;
use crate::rfc5322::chars::{
    Class, spec_in_class, run_end, lemma_run_end, spec_crlf, spec_class_char, spec_quoted_pair, spec_qcontent,
    spec_quotable, spec_dtext,
};
use crate::rfc5322::lexical::{
    spec_fws_new, obs_fws_tail, spec_obs_fws, spec_fws, opt_fws, lemma_fws, comment_items, spec_ccontent,
    spec_comment, lemma_comment_items, cfws_items, spec_cfws_comments, spec_cfws, opt_cfws,
};
use crate::rfc5322::words::{
    spec_atom, dot_items, spec_dot_atom_text, spec_dot_atom, qcontent_run, quoted_items, spec_quoted_string,
    spec_word, local_items, spec_obs_local_part, spec_local_part, domain_items, spec_obs_domain, spec_domain,
    spec_phrase,
};
use crate::rfc5322::address::{spec_addr_spec, spec_angle_addr, spec_name_addr};
use crate::rfc5322::ids::{spec_id_left, spec_id_right, dtext_run};

verus! {

/// The bytes `s[p..e]` are all ASCII.
pub open spec fn ascii_range(s: Seq<u8>, p: int, e: int) -> bool {
    forall|i: int| p <= i < e ==> #[trigger] s[i] < 128
}

proof fn lemma_class_ascii(c: u8, k: Class)
    requires
        spec_in_class(c, k),
    ensures
        c < 128,
{
}

proof fn lemma_run_ascii(s: Seq<u8>, p: int, k: Class)
    requires
        0 <= p <= s.len(),
    ensures
        ascii_range(s, p, run_end(s, p, k)),
        p <= run_end(s, p, k) <= s.len(),
{
    lemma_run_end(s, p, k);
    assert forall|i: int| p <= i < run_end(s, p, k) implies #[trigger] s[i] < 128 by {
        lemma_class_ascii(s[i], k);
    }
}

proof fn lemma_sub_ascii(s: Seq<u8>, p: int, e: int)
    requires
        0 <= p <= e <= s.len(),
        ascii_range(s, p, e),
    ensures
        is_ascii_bytes(s.subrange(p, e)),
{
    assert forall|i: int| 0 <= i < s.subrange(p, e).len() implies #[trigger] s.subrange(p, e)[i] < 128 by {
        assert(s.subrange(p, e)[i] == s[p + i]);
    }
}

proof fn lemma_concat_ascii(a: Seq<u8>, b: Seq<u8>)
    requires
        is_ascii_bytes(a),
        is_ascii_bytes(b),
    ensures
        is_ascii_bytes(a + b),
{
    assert forall|i: int| 0 <= i < (a + b).len() implies #[trigger] (a + b)[i] < 128 by {
        if i < a.len() {
            assert((a + b)[i] == a[i]);
        } else {
            assert((a + b)[i] == b[i - a.len()]);
        }
    }
}

// ---------------------------------------------------------------------------
// Folding white space, comments
// ---------------------------------------------------------------------------

proof fn lemma_obs_fws_tail_ascii(s: Seq<u8>, q: int)
    requires
        0 <= q <= s.len(),
    ensures
        q <= obs_fws_tail(s, q).0 <= s.len(),
        ascii_range(s, q, obs_fws_tail(s, q).0),
        is_ascii_bytes(obs_fws_tail(s, q).1),
    decreases s.len() - q,
{
    match spec_crlf(s, q) {
        Some(c) => {
            lemma_run_ascii(s, c, Class::Wsp);
            let w = run_end(s, c, Class::Wsp);
            if q < c < w <= s.len() {
                lemma_obs_fws_tail_ascii(s, w);
                lemma_sub_ascii(s, c, w);
                lemma_concat_ascii(s.subrange(c, w), obs_fws_tail(s, w).1);
            }
        },
        None => {},
    }
}

/// `FWS` matches ASCII text and its value is ASCII.
pub proof fn lemma_fws_ascii(s: Seq<u8>, p: int)
    requires
        0 <= p <= s.len(),
    ensures
        spec_fws(s, p) matches Some((e, v)) ==> ascii_range(s, p, e) && is_ascii_bytes(v),
        ascii_range(s, p, opt_fws(s, p).0) && is_ascii_bytes(opt_fws(s, p).1),
{
    lemma_fws(s, p);
    lemma_run_ascii(s, p, Class::Wsp);
    let w1 = run_end(s, p, Class::Wsp);
    match spec_fws_new(s, p) {
        Some((e, v)) => {
            match spec_crlf(s, w1) {
                Some(c) => {
                    lemma_run_ascii(s, c, Class::Wsp);
                    lemma_sub_ascii(s, p, w1);
                    lemma_sub_ascii(s, c, run_end(s, c, Class::Wsp));
                    lemma_concat_ascii(s.subrange(p, w1), s.subrange(c, run_end(s, c, Class::Wsp)));
                },
                None => {
                    lemma_sub_ascii(s, p, run_end(s, p, Class::Wsp));
                    lemma_concat_ascii(Seq::empty(), s.subrange(p, run_end(s, p, Class::Wsp)));
                },
            }
        },
        None => {
            if p < w1 {
                lemma_obs_fws_tail_ascii(s, w1);
                lemma_sub_ascii(s, p, w1);
                lemma_concat_ascii(s.subrange(p, w1), obs_fws_tail(s, w1).1);
            }
        },
    }
}

proof fn lemma_quoted_pair_ascii(s: Seq<u8>, q: int)
    requires
        spec_quoted_pair(s, q) is Some,
    ensures
        ascii_range(s, q, q + 2),
{
    assert(spec_quotable(s[q + 1]));
    if spec_in_class(s[q + 1], Class::Vchar) {
        lemma_class_ascii(s[q + 1], Class::Vchar);
    } else if spec_in_class(s[q + 1], Class::Wsp) {
        lemma_class_ascii(s[q + 1], Class::Wsp);
    } else if spec_in_class(s[q + 1], Class::ObsNoWsCtl) {
        lemma_class_ascii(s[q + 1], Class::ObsNoWsCtl);
    }
}

proof fn lemma_comment_items_ascii(s: Seq<u8>, q: int)
    requires
        0 <= q <= s.len(),
    ensures
        ascii_range(s, q, comment_items(s, q)),
    decreases s.len() - q, 2int,
{
    lemma_fws(s, q);
    lemma_fws_ascii(s, q);
    let q1 = opt_fws(s, q).0;
    match spec_ccontent(s, q1) {
        Some(e) => if q < e <= s.len() {
            lemma_ccontent_ascii(s, q1);
            lemma_comment_items_ascii(s, e);
        },
        None => {},
    }
}

proof fn lemma_ccontent_ascii(s: Seq<u8>, q: int)
    requires
        0 <= q <= s.len(),
    ensures
        spec_ccontent(s, q) matches Some(e) ==> ascii_range(s, q, e),
    decreases s.len() - q, 1int,
{
    match spec_class_char(s, q, Class::Ctext) {
        Some(_) => {
            lemma_class_ascii(s[q], Class::Ctext);
        },
        None => match spec_quoted_pair(s, q) {
            Some(_) => {
                lemma_quoted_pair_ascii(s, q);
            },
            None => {
                lemma_comment_ascii(s, q);
            },
        },
    }
}

/// A comment is ASCII text.
pub proof fn lemma_comment_ascii(s: Seq<u8>, p: int)
    requires
        0 <= p <= s.len(),
    ensures
        spec_comment(s, p) matches Some(e) ==> ascii_range(s, p, e) && p < e <= s.len(),
    decreases s.len() - p, 0int,
{
    if 0 <= p < s.len() && s[p] == 40 {
        lemma_comment_items(s, p + 1);
        lemma_comment_items_ascii(s, p + 1);
        let q = comment_items(s, p + 1);
        lemma_fws(s, q);
        lemma_fws_ascii(s, q);
    }
}

proof fn lemma_cfws_items_ascii(s: Seq<u8>, q: int)
    requires
        0 <= q <= s.len(),
    ensures
        q <= cfws_items(s, q).0 <= s.len(),
        ascii_range(s, q, cfws_items(s, q).0),
        is_ascii_bytes(cfws_items(s, q).1),
    decreases s.len() - q,
{
    match spec_comment(s, q) {
        Some(c) => {
            lemma_comment_ascii(s, q);
            let f = opt_fws(s, c);
            lemma_fws(s, c);
            lemma_fws_ascii(s, c);
            if q < c <= f.0 <= s.len() {
                lemma_cfws_items_ascii(s, f.0);
                lemma_concat_ascii(f.1, cfws_items(s, f.0).1);
            }
        },
        None => {},
    }
}

/// `CFWS` matches ASCII text and its value is ASCII.
pub proof fn lemma_cfws_ascii(s: Seq<u8>, p: int)
    requires
        0 <= p <= s.len(),
    ensures
        spec_cfws(s, p) matches Some((e, v)) ==> ascii_range(s, p, e) && is_ascii_bytes(v),
        p <= opt_cfws(s, p).0 <= s.len(),
        ascii_range(s, p, opt_cfws(s, p).0) && is_ascii_bytes(opt_cfws(s, p).1),
{
    lemma_fws(s, p);
    lemma_fws_ascii(s, p);
    let f1 = opt_fws(s, p);
    match spec_comment(s, f1.0) {
        Some(c) => {
            lemma_comment_ascii(s, f1.0);
            lemma_fws(s, c);
            lemma_fws_ascii(s, c);
            let f2 = opt_fws(s, c);
            lemma_cfws_items_ascii(s, f2.0);
            lemma_concat_ascii(f1.1, f2.1);
            lemma_concat_ascii(f1.1 + f2.1, cfws_items(s, f2.0).1);
        },
        None => {},
    }
}

// ---------------------------------------------------------------------------
// Atoms, quoted strings, words
// ---------------------------------------------------------------------------

/// An atom is ASCII text and its value is ASCII.
pub proof fn lemma_atom_ascii(s: Seq<u8>, p: int)
    requires
        0 <= p <= s.len(),
    ensures
        spec_atom(s, p) matches Some((e, v)) ==> ascii_range(s, p, e) && is_ascii_bytes(v) && p <= e <= s.len(),
{
    lemma_cfws_ascii(s, p);
    let c1 = opt_cfws(s, p);
    lemma_run_ascii(s, c1.0, Class::Atext);
    let a = run_end(s, c1.0, Class::Atext);
    if a > c1.0 {
        lemma_cfws_ascii(s, a);
        let c2 = opt_cfws(s, a);
        lemma_sub_ascii(s, c1.0, a);
        lemma_concat_ascii(c1.1, s.subrange(c1.0, a));
        lemma_concat_ascii(c1.1 + s.subrange(c1.0, a), c2.1);
    }
}

proof fn lemma_dot_items_ascii(s: Seq<u8>, q: int)
    requires
        0 <= q <= s.len(),
    ensures
        ascii_range(s, q, dot_items(s, q)),
        q <= dot_items(s, q) <= s.len(),
    decreases s.len() - q,
{
    if 0 <= q && q + 1 < s.len() && s[q] == 46 && run_end(s, q + 1, Class::Atext) > q + 1
        && run_end(s, q + 1, Class::Atext) <= s.len() {
        lemma_run_ascii(s, q + 1, Class::Atext);
        lemma_dot_items_ascii(s, run_end(s, q + 1, Class::Atext));
    }
}

/// `dot-atom` is ASCII text and its value is ASCII.
proof fn lemma_dot_atom_ascii(s: Seq<u8>, p: int)
    requires
        0 <= p <= s.len(),
    ensures
        spec_dot_atom(s, p) matches Some((e, v)) ==> is_ascii_bytes(v) && p <= e <= s.len(),
{
    lemma_cfws_ascii(s, p);
    let c1 = opt_cfws(s, p);
    match spec_dot_atom_text(s, c1.0) {
        Some(t) => {
            lemma_run_ascii(s, c1.0, Class::Atext);
            lemma_dot_items_ascii(s, run_end(s, c1.0, Class::Atext));
            lemma_sub_ascii(s, c1.0, t);
            lemma_cfws_ascii(s, t);
            let c2 = opt_cfws(s, t);
            lemma_concat_ascii(c1.1, s.subrange(c1.0, t));
            lemma_concat_ascii(c1.1 + s.subrange(c1.0, t), c2.1);
        },
        None => {},
    }
}

proof fn lemma_qcontent_run_ascii(s: Seq<u8>, q: int)
    requires
        0 <= q <= s.len(),
    ensures
        ascii_range(s, q, qcontent_run(s, q)),
        q <= qcontent_run(s, q) <= s.len(),
    decreases s.len() - q,
{
    match spec_qcontent(s, q) {
        Some((e, _)) => if q < e <= s.len() {
            match spec_class_char(s, q, Class::Qtext) {
                Some(_) => lemma_class_ascii(s[q], Class::Qtext),
                None => lemma_quoted_pair_ascii(s, q),
            }
            lemma_qcontent_run_ascii(s, e);
        },
        None => {},
    }
}

proof fn lemma_quoted_items_ascii(s: Seq<u8>, q: int)
    requires
        0 <= q <= s.len(),
    ensures
        is_ascii_bytes(quoted_items(s, q).1),
        q <= quoted_items(s, q).0 <= s.len(),
    decreases s.len() - q,
{
    lemma_fws(s, q);
    lemma_fws_ascii(s, q);
    let f = opt_fws(s, q);
    lemma_qcontent_run_ascii(s, f.0);
    let r = qcontent_run(s, f.0);
    if f.0 < r <= s.len() {
        lemma_quoted_items_ascii(s, r);
        lemma_sub_ascii(s, f.0, r);
        lemma_concat_ascii(f.1, s.subrange(f.0, r));
        lemma_concat_ascii(f.1 + s.subrange(f.0, r), quoted_items(s, r).1);
    }
}

/// The value of a quoted string is ASCII.
proof fn lemma_quoted_string_ascii(s: Seq<u8>, p: int)
    requires
        0 <= p <= s.len(),
    ensures
        spec_quoted_string(s, p) matches Some((e, v)) ==> is_ascii_bytes(v) && p <= e <= s.len(),
{
    lemma_cfws_ascii(s, p);
    let c1 = opt_cfws(s, p);
    if 0 <= c1.0 < s.len() && s[c1.0] == 34 {
        lemma_quoted_items_ascii(s, c1.0 + 1);
        let t = quoted_items(s, c1.0 + 1);
        lemma_fws(s, t.0);
        lemma_fws_ascii(s, t.0);
        let f = opt_fws(s, t.0);
        if 0 <= f.0 < s.len() && s[f.0] == 34 {
            lemma_fws(s, t.0);
            lemma_cfws_ascii(s, f.0 + 1);
            let c2 = opt_cfws(s, f.0 + 1);
            lemma_concat_ascii(c1.1, t.1);
            lemma_concat_ascii(c1.1 + t.1, f.1);
            lemma_concat_ascii(c1.1 + t.1 + f.1, c2.1);
        }
    }
}

/// The value of a word is ASCII.
pub proof fn lemma_word_ascii(s: Seq<u8>, p: int)
    requires
        0 <= p <= s.len(),
    ensures
        spec_word(s, p) matches Some((e, v)) ==> is_ascii_bytes(v) && p <= e <= s.len(),
{
    lemma_atom_ascii(s, p);
    lemma_quoted_string_ascii(s, p);
}

proof fn lemma_local_items_ascii(s: Seq<u8>, q: int)
    requires
        0 <= q <= s.len(),
    ensures
        is_ascii_bytes(local_items(s, q).1),
        q <= local_items(s, q).0 <= s.len(),
    decreases s.len() - q,
{
    if 0 <= q < s.len() && s[q] == 46 {
        match spec_word(s, q + 1) {
            Some((e, v)) => if q < e <= s.len() {
                lemma_word_ascii(s, q + 1);
                lemma_local_items_ascii(s, e);
                assert(is_ascii_bytes(seq![46u8]));
                lemma_concat_ascii(seq![46u8], v);
                lemma_concat_ascii(seq![46u8] + v, local_items(s, e).1);
            },
            None => {},
        }
    }
}

/// The value of a local part is ASCII.
pub proof fn lemma_local_part_ascii(s: Seq<u8>, p: int)
    requires
        0 <= p <= s.len(),
    ensures
        spec_local_part(s, p) matches Some((e, v)) ==> is_ascii_bytes(v) && p <= e <= s.len(),
{
    lemma_dot_atom_ascii(s, p);
    lemma_quoted_string_ascii(s, p);
    lemma_word_ascii(s, p);
    match spec_word(s, p) {
        Some((w, v)) => {
            lemma_local_items_ascii(s, w);
            lemma_concat_ascii(v, local_items(s, w).1);
        },
        None => {},
    }
}

proof fn lemma_domain_items_ascii(s: Seq<u8>, q: int)
    requires
        0 <= q <= s.len(),
    ensures
        ascii_range(s, q, domain_items(s, q)),
        q <= domain_items(s, q) <= s.len(),
    decreases s.len() - q,
{
    if 0 <= q < s.len() && s[q] == 46 {
        match spec_atom(s, q + 1) {
            Some((e, _)) => if q < e <= s.len() {
                lemma_atom_ascii(s, q + 1);
                lemma_domain_items_ascii(s, e);
            },
            None => {},
        }
    }
}

/// The value of a domain is ASCII.
pub proof fn lemma_domain_ascii(s: Seq<u8>, p: int)
    requires
        0 <= p <= s.len(),
    ensures
        spec_domain(s, p) matches Some((e, v)) ==> is_ascii_bytes(v) && p <= e <= s.len(),
{
    lemma_atom_ascii(s, p);
    match spec_atom(s, p) {
        Some((a, _)) => {
            lemma_domain_items_ascii(s, a);
            lemma_sub_ascii(s, p, domain_items(s, a));
        },
        None => {},
    }
}

// ---------------------------------------------------------------------------
// Addresses
// ---------------------------------------------------------------------------

/// The local part and the domain of an `addr-spec` are ASCII.
pub proof fn lemma_addr_spec_ascii(s: Seq<u8>, p: int)
    requires
        0 <= p <= s.len(),
    ensures
        spec_addr_spec(s, p) matches Some((e, (l, d))) ==> is_ascii_bytes(l) && is_ascii_bytes(d),
{
    lemma_local_part_ascii(s, p);
    match spec_local_part(s, p) {
        Some((q, l)) => if 0 <= q < s.len() && s[q] == 64 {
            lemma_domain_ascii(s, q + 1);
        },
        None => {},
    }
}

/// The local part and the domain of an `angle-addr` are ASCII.
proof fn lemma_angle_addr_ascii(s: Seq<u8>, p: int)
    ensures
        spec_angle_addr(s, p) matches Some((e, (l, d))) ==> is_ascii_bytes(l) && is_ascii_bytes(d),
{
    let c = opt_cfws(s, p).0;
    if 0 <= c < s.len() && s[c] == 60 {
        lemma_addr_spec_ascii(s, c + 1);
    }
}

/// The local part and the domain of a `name-addr` are ASCII.
pub proof fn lemma_name_addr_ascii(s: Seq<u8>, p: int)
    ensures
        spec_name_addr(s, p) matches Some((e, (l, d, n))) ==> is_ascii_bytes(l) && is_ascii_bytes(d),
{
    let n: (int, Option<Seq<u8>>) = match spec_phrase(s, p) {
        Some((e, v)) => (e, Some(v)),
        None => (p, None),
    };
    lemma_angle_addr_ascii(s, n.0);
}

// ---------------------------------------------------------------------------
// Message identifiers
// ---------------------------------------------------------------------------

proof fn lemma_dot_atom_text_ascii(s: Seq<u8>, p: int)
    requires
        0 <= p <= s.len(),
    ensures
        spec_dot_atom_text(s, p) matches Some(e) ==> is_ascii_bytes(s.subrange(p, e)) && p < e <= s.len(),
{
    lemma_run_ascii(s, p, Class::Atext);
    let a = run_end(s, p, Class::Atext);
    lemma_dot_items_ascii(s, a);
    if a > p {
        lemma_sub_ascii(s, p, dot_items(s, a));
    }
}

/// The left part of a message identifier is ASCII.
pub proof fn lemma_id_left_ascii(s: Seq<u8>, p: int)
    requires
        0 <= p <= s.len(),
    ensures
        spec_id_left(s, p) matches Some((e, v)) ==> is_ascii_bytes(v) && p <= e <= s.len(),
{
    lemma_dot_atom_text_ascii(s, p);
    lemma_local_part_ascii(s, p);
}

proof fn lemma_dtext_run_ascii(s: Seq<u8>, q: int)
    requires
        0 <= q <= s.len(),
    ensures
        ascii_range(s, q, dtext_run(s, q)),
        q <= dtext_run(s, q) <= s.len(),
    decreases s.len() - q,
{
    match spec_dtext(s, q) {
        Some((e, _)) => if q < e <= s.len() {
            match spec_class_char(s, q, Class::DtextChar) {
                Some(_) => lemma_class_ascii(s[q], Class::DtextChar),
                None => lemma_quoted_pair_ascii(s, q),
            }
            lemma_dtext_run_ascii(s, e);
        },
        None => {},
    }
}

/// The right part of a message identifier is ASCII.
pub proof fn lemma_id_right_ascii(s: Seq<u8>, p: int)
    requires
        0 <= p <= s.len(),
    ensures
        spec_id_right(s, p) matches Some((e, v)) ==> is_ascii_bytes(v) && p <= e <= s.len(),
{
    lemma_dot_atom_text_ascii(s, p);
    if 0 <= p < s.len() && s[p] == 91 {
        lemma_dtext_run_ascii(s, p + 1);
        let q = dtext_run(s, p + 1);
        if 0 <= q < s.len() && s[q] == 93 {
            lemma_sub_ascii(s, p + 1, q);
        }
    }
    lemma_domain_ascii(s, p);
}

} // verus!
