//! Addresses: mailboxes, groups and address lists.

use vstd::prelude::*;
use crate::{Address, AddressModel, addr_views, member_views, member_view, lemma_addr_views_push, opt_bytes};
use crate::util::{lift, lift_end, views, lemma_views_push, ascii_chars, ascii_string};
use crate::rfc5322::ascii::{lemma_name_addr_ascii, lemma_addr_spec_ascii};
use crate::rfc5322::lexical::{opt_cfws, skip_opt_cfws, spec_cfws, cfws, lemma_fws};
use crate::rfc5322::words::{spec_local_part, local_part, spec_domain, domain, spec_phrase, phrase};

verus! {

/// `addr-spec = local-part "@" domain`
pub open spec fn spec_addr_spec(s: Seq<u8>, p: int) -> Option<(int, (Seq<u8>, Seq<u8>))> {
    match spec_local_part(s, p) {
        Some((q, l)) => if 0 <= q < s.len() && s[q] == 64 {
            match spec_domain(s, q + 1) {
                Some((e, d)) => Some((e, (l, d))),
                None => None,
            }
        } else {
            None
        },
        None => None,
    }
}

/// `addr-spec = local-part "@" domain`; the value is the local part and the
/// domain.
pub fn addr_spec(s: &[u8], pos: usize) -> (r: Option<(usize, (Vec<u8>, Vec<u8>))>)
    requires
        pos <= s.len(),
    ensures
        lift(r) == spec_addr_spec(s@, pos as int),
        r matches Some((e, _)) ==> pos < e <= s.len(),
{
    match local_part(s, pos) {
        Some((q, l)) => if q < s.len() && s[q] == 64 {
            match domain(s, q + 1) {
                Some((e, d)) => Some((e, (l, d))),
                None => None,
            }
        } else {
            None
        },
        None => None,
    }
}

/// `angle-addr = [CFWS] "<" addr-spec ">" [CFWS]` (the obsolete routing form
/// is not accepted).
pub open spec fn spec_angle_addr(s: Seq<u8>, p: int) -> Option<(int, (Seq<u8>, Seq<u8>))> {
    let c = opt_cfws(s, p).0;
    if 0 <= c < s.len() && s[c] == 60 {
        match spec_addr_spec(s, c + 1) {
            Some((q, ld)) => if 0 <= q < s.len() && s[q] == 62 {
                Some((opt_cfws(s, q + 1).0, ld))
            } else {
                None
            },
            None => None,
        }
    } else {
        None
    }
}

/// `angle-addr = [CFWS] "<" addr-spec ">" [CFWS]`
pub fn angle_addr(s: &[u8], pos: usize) -> (r: Option<(usize, (Vec<u8>, Vec<u8>))>)
    requires
        pos <= s.len(),
    ensures
        lift(r) == spec_angle_addr(s@, pos as int),
        r matches Some((e, _)) ==> pos < e <= s.len(),
{
    let c = skip_opt_cfws(s, pos);
    if !(c < s.len() && s[c] == 60) {
        return None;
    }
    match addr_spec(s, c + 1) {
        Some((q, ld)) => if q < s.len() && s[q] == 62 {
            Some((skip_opt_cfws(s, q + 1), ld))
        } else {
            None
        },
        None => None,
    }
}

/// `display-name = phrase`
pub fn display_name(s: &[u8], pos: usize) -> (r: Option<(usize, Vec<u8>)>)
    requires
        pos <= s.len(),
    ensures
        lift(r) == spec_phrase(s@, pos as int),
        r matches Some((e, _)) ==> pos < e <= s.len(),
{
    phrase(s, pos)
}

/// `name-addr = [display-name] angle-addr`; the value is the local part, the
/// domain and the display name if one is given.
pub open spec fn spec_name_addr(s: Seq<u8>, p: int) -> Option<(int, (Seq<u8>, Seq<u8>, Option<Seq<u8>>))> {
    let n: (int, Option<Seq<u8>>) = match spec_phrase(s, p) {
        Some((e, v)) => (e, Some(v)),
        None => (p, None),
    };
    match spec_angle_addr(s, n.0) {
        Some((e, (l, d))) => Some((e, (l, d, n.1))),
        None => None,
    }
}

/// `name-addr = [display-name] angle-addr`
pub fn name_addr(s: &[u8], pos: usize) -> (r: Option<(usize, (Vec<u8>, Vec<u8>, Option<Vec<u8>>))>)
    requires
        pos <= s.len(),
    ensures
        r matches Some((e, (l, d, n))) ==> spec_name_addr(s@, pos as int) == Some((e as int, (l@, d@, match n {
            Some(x) => Some(x@),
            None => None,
        }))),
        r is None ==> spec_name_addr(s@, pos as int) is None,
        r matches Some((e, _)) ==> pos < e <= s.len(),
{
    let (q, n) = match display_name(s, pos) {
        Some((e, v)) => (e, Some(v)),
        None => (pos, None),
    };
    match angle_addr(s, q) {
        Some((e, (l, d))) => Some((e, (l, d, n))),
        None => None,
    }
}

/// `mailbox = name-addr / addr-spec`
#[verifier::opaque]
pub open spec fn spec_mailbox(s: Seq<u8>, p: int) -> Option<(int, AddressModel)> {
    match spec_name_addr(s, p) {
        Some((e, (l, d, n))) => Some((e, AddressModel::Mailbox {
            local_part: ascii_chars(l),
            domain: ascii_chars(d),
            display_name: n,
        })),
        None => match spec_addr_spec(s, p) {
            Some((e, (l, d))) => Some((e, AddressModel::Mailbox {
                local_part: ascii_chars(l),
                domain: ascii_chars(d),
                display_name: None,
            })),
            None => None,
        },
    }
}

/// `mailbox = name-addr / addr-spec`
pub fn mailbox(s: &[u8], pos: usize) -> (r: Option<(usize, Address)>)
    requires
        pos <= s.len(),
    ensures
        lift(r) == spec_mailbox(s@, pos as int),
        r matches Some((e, a)) ==> pos < e <= s.len() && a is Mailbox && member_view(a) == a@,
{
    reveal(spec_mailbox);
    proof {
        lemma_name_addr_ascii(s@, pos as int);
        lemma_addr_spec_ascii(s@, pos as int);
    }
    match name_addr(s, pos) {
        Some((e, (l, d, n))) => Some((e, Address::Mailbox {
            local_part: ascii_string(l),
            domain: ascii_string(d),
            display_name: n,
        })),
        None => match addr_spec(s, pos) {
            Some((e, (l, d))) => Some((e, Address::Mailbox {
                local_part: ascii_string(l),
                domain: ascii_string(d),
                display_name: None,
            })),
            None => None,
        },
    }
}

// ---------------------------------------------------------------------------
// mailbox-list = (mailbox *("," mailbox)) / obs-mbox-list
// ---------------------------------------------------------------------------

/// `*("," mailbox)`
pub open spec fn mailbox_items(s: Seq<u8>, q: int) -> (int, Seq<AddressModel>)
    decreases s.len() - q,
{
    if 0 <= q < s.len() && s[q] == 44 {
        match spec_mailbox(s, q + 1) {
            Some((e, m)) => if q < e <= s.len() {
                let t = mailbox_items(s, e);
                (t.0, seq![m] + t.1)
            } else {
                (q, Seq::empty())
            },
            None => (q, Seq::empty()),
        }
    } else {
        (q, Seq::empty())
    }
}

/// The leading `*([CFWS] ",")` of the obsolete lists.
pub open spec fn lead_commas(s: Seq<u8>, q: int) -> int
    decreases s.len() - q,
{
    if 0 <= q <= s.len() {
        let c = opt_cfws(s, q).0;
        if q <= c < s.len() && s[c] == 44 {
            lead_commas(s, c + 1)
        } else {
            q
        }
    } else {
        q
    }
}

/// `*("," [mailbox / CFWS])` of `obs-mbox-list`; empty elements are left out.
pub open spec fn obs_mailbox_items(s: Seq<u8>, q: int) -> (int, Seq<AddressModel>)
    decreases s.len() - q,
{
    if 0 <= q < s.len() && s[q] == 44 {
        match spec_mailbox(s, q + 1) {
            Some((e, m)) => if q < e <= s.len() {
                let t = obs_mailbox_items(s, e);
                (t.0, seq![m] + t.1)
            } else {
                (q, Seq::empty())
            },
            None => {
                let e = opt_cfws(s, q + 1).0;
                if q < e <= s.len() {
                    obs_mailbox_items(s, e)
                } else {
                    (q, Seq::empty())
                }
            },
        }
    } else {
        (q, Seq::empty())
    }
}

/// `obs-mbox-list = *([CFWS] ",") mailbox *("," [mailbox / CFWS])`
pub open spec fn spec_obs_mbox_list(s: Seq<u8>, p: int) -> Option<(int, Seq<AddressModel>)> {
    match spec_mailbox(s, lead_commas(s, p)) {
        Some((e, m)) => {
            let t = obs_mailbox_items(s, e);
            Some((t.0, seq![m] + t.1))
        },
        None => None,
    }
}

/// `mailbox-list = (mailbox *("," mailbox)) / obs-mbox-list`: both forms
/// are read, and the one that reaches further is kept, the first form when
/// they end at the same place (so an empty element does not cut the list
/// short).
pub open spec fn spec_mailbox_list(s: Seq<u8>, p: int) -> Option<(int, Seq<AddressModel>)> {
    longer_list(spec_mailbox_list_first(s, p), spec_obs_mbox_list(s, p))
}

/// `mailbox *("," mailbox)`, the first form of `mailbox-list`.
pub open spec fn spec_mailbox_list_first(s: Seq<u8>, p: int) -> Option<(int, Seq<AddressModel>)> {
    match spec_mailbox(s, p) {
        Some((e, m)) => {
            let t = mailbox_items(s, e);
            Some((t.0, seq![m] + t.1))
        },
        None => None,
    }
}

/// Of two readings of a list, the one that reaches further; the first when
/// they end at the same place.
pub open spec fn longer_list(a: Option<(int, Seq<AddressModel>)>, b: Option<(int, Seq<AddressModel>)>) -> Option<(
    int,
    Seq<AddressModel>,
)> {
    match a {
        Some(x) => match b {
            Some(y) => if y.0 > x.0 {
                b
            } else {
                a
            },
            None => a,
        },
        None => b,
    }
}

proof fn lemma_mailbox_items(s: Seq<u8>, q: int)
    requires
        0 <= q <= s.len(),
    ensures
        q <= mailbox_items(s, q).0 <= s.len(),
    decreases s.len() - q,
{
    if 0 <= q < s.len() && s[q] == 44 {
        if let Some((e, m)) = spec_mailbox(s, q + 1) {
            if q < e <= s.len() {
                lemma_mailbox_items(s, e);
            }
        }
    }
}

proof fn lemma_obs_mailbox_items(s: Seq<u8>, q: int)
    requires
        0 <= q <= s.len(),
    ensures
        q <= obs_mailbox_items(s, q).0 <= s.len(),
    decreases s.len() - q,
{
    if 0 <= q < s.len() && s[q] == 44 {
        match spec_mailbox(s, q + 1) {
            Some((e, m)) => if q < e <= s.len() {
                lemma_obs_mailbox_items(s, e);
            },
            None => {
                let e = opt_cfws(s, q + 1).0;
                if q < e <= s.len() {
                    lemma_obs_mailbox_items(s, e);
                }
            },
        }
    }
}

proof fn lemma_lead_commas(s: Seq<u8>, q: int)
    requires
        0 <= q <= s.len(),
    ensures
        q <= lead_commas(s, q) <= s.len(),
    decreases s.len() - q,
{
    let c = opt_cfws(s, q).0;
    if q <= c < s.len() && s[c] == 44 {
        lemma_lead_commas(s, c + 1);
    }
}

fn skip_lead_commas(s: &[u8], pos: usize) -> (e: usize)
    requires
        pos <= s.len(),
    ensures
        e as int == lead_commas(s@, pos as int),
        pos <= e <= s.len(),
{
    let mut q = pos;
    proof {
        lemma_lead_commas(s@, pos as int);
    }
    loop
        invariant
            pos <= q <= s.len(),
            lead_commas(s@, pos as int) == lead_commas(s@, q as int),
        decreases s.len() - q,
    {
        let c = skip_opt_cfws(s, q);
        if c < s.len() && s[c] == 44 {
            q = c + 1;
        } else {
            return q;
        }
    }
}

/// `mailbox *("," mailbox)` after the first mailbox, appending to `out`.
#[verifier::rlimit(40)]
fn mailbox_items_into(s: &[u8], pos: usize, out: &mut Vec<Address>) -> (e: usize)
    requires
        pos <= s.len(),
        forall|i: int| 0 <= i < old(out)@.len() ==> member_view(#[trigger] old(out)@[i]) == old(out)@[i]@,
    ensures
        e as int == mailbox_items(s@, pos as int).0,
        addr_views(final(out)@) == addr_views(old(out)@) + mailbox_items(s@, pos as int).1,
        member_views(final(out)@) == member_views(old(out)@) + mailbox_items(s@, pos as int).1,
        forall|i: int| 0 <= i < final(out)@.len() ==> member_view(#[trigger] final(out)@[i]) == final(out)@[i]@,
        pos <= e <= s.len(),
{
    let mut q = pos;
    proof {
        lemma_mailbox_items(s@, pos as int);
    }
    loop
        invariant
            pos <= q <= s.len(),
            mailbox_items(s@, pos as int).0 == mailbox_items(s@, q as int).0,
            addr_views(old(out)@) + mailbox_items(s@, pos as int).1 == addr_views(out@) + mailbox_items(s@, q as int).1,
            member_views(old(out)@) + mailbox_items(s@, pos as int).1 == member_views(out@) + mailbox_items(s@, q as int).1,
            forall|i: int| 0 <= i < out@.len() ==> member_view(#[trigger] out@[i]) == out@[i]@,
            q <= mailbox_items(s@, q as int).0 <= s.len(),
        decreases s.len() - q,
    {
        if !(q < s.len() && s[q] == 44) {
            assert(addr_views(out@) + Seq::<AddressModel>::empty() == addr_views(out@));
            assert(member_views(out@) + Seq::<AddressModel>::empty() == member_views(out@));
            return q;
        }
        match mailbox(s, q + 1) {
            Some((e, m)) => {
                let ghost old_out = out@;
                proof {
                    lemma_addr_views_push(out@, m);
                    lemma_mailbox_items(s@, e as int);
                }
                out.push(m);
                proof {
                    let ghost mm = spec_mailbox(s@, q + 1).unwrap().1;
                    assert(addr_views(old_out) + (seq![mm] + mailbox_items(s@, e as int).1)
                        == addr_views(out@) + mailbox_items(s@, e as int).1);
                    assert(member_views(old_out) + (seq![mm] + mailbox_items(s@, e as int).1)
                        == member_views(out@) + mailbox_items(s@, e as int).1);
                }
                q = e;
            },
            None => {
                assert(addr_views(out@) + Seq::<AddressModel>::empty() == addr_views(out@));
                assert(member_views(out@) + Seq::<AddressModel>::empty() == member_views(out@));
                return q;
            },
        }
    }
}

/// The `*("," [mailbox / CFWS])` of `obs-mbox-list`, appending to `out`.
#[verifier::rlimit(40)]
fn obs_mailbox_items_into(s: &[u8], pos: usize, out: &mut Vec<Address>) -> (e: usize)
    requires
        pos <= s.len(),
        forall|i: int| 0 <= i < old(out)@.len() ==> member_view(#[trigger] old(out)@[i]) == old(out)@[i]@,
    ensures
        e as int == obs_mailbox_items(s@, pos as int).0,
        addr_views(final(out)@) == addr_views(old(out)@) + obs_mailbox_items(s@, pos as int).1,
        member_views(final(out)@) == member_views(old(out)@) + obs_mailbox_items(s@, pos as int).1,
        forall|i: int| 0 <= i < final(out)@.len() ==> member_view(#[trigger] final(out)@[i]) == final(out)@[i]@,
        pos <= e <= s.len(),
{
    let mut q = pos;
    proof {
        lemma_obs_mailbox_items(s@, pos as int);
    }
    loop
        invariant
            pos <= q <= s.len(),
            obs_mailbox_items(s@, pos as int).0 == obs_mailbox_items(s@, q as int).0,
            addr_views(old(out)@) + obs_mailbox_items(s@, pos as int).1 == addr_views(out@) + obs_mailbox_items(s@, q as int).1,
            member_views(old(out)@) + obs_mailbox_items(s@, pos as int).1 == member_views(out@) + obs_mailbox_items(s@, q as int).1,
            forall|i: int| 0 <= i < out@.len() ==> member_view(#[trigger] out@[i]) == out@[i]@,
            q <= obs_mailbox_items(s@, q as int).0 <= s.len(),
        decreases s.len() - q,
    {
        if !(q < s.len() && s[q] == 44) {
            assert(addr_views(out@) + Seq::<AddressModel>::empty() == addr_views(out@));
            assert(member_views(out@) + Seq::<AddressModel>::empty() == member_views(out@));
            return q;
        }
        match mailbox(s, q + 1) {
            Some((e, m)) => {
                let ghost old_out = out@;
                proof {
                    lemma_addr_views_push(out@, m);
                    lemma_obs_mailbox_items(s@, e as int);
                }
                out.push(m);
                proof {
                    let ghost mm = spec_mailbox(s@, q + 1).unwrap().1;
                    assert(addr_views(old_out) + (seq![mm] + obs_mailbox_items(s@, e as int).1)
                        == addr_views(out@) + obs_mailbox_items(s@, e as int).1);
                    assert(member_views(old_out) + (seq![mm] + obs_mailbox_items(s@, e as int).1)
                        == member_views(out@) + obs_mailbox_items(s@, e as int).1);
                }
                q = e;
            },
            None => {
                let e = skip_opt_cfws(s, q + 1);
                proof {
                    lemma_obs_mailbox_items(s@, e as int);
                }
                q = e;
            },
        }
    }
}

/// `obs-mbox-list = *([CFWS] ",") mailbox *("," [mailbox / CFWS])`
pub fn obs_mbox_list(s: &[u8], pos: usize) -> (r: Option<(usize, Vec<Address>)>)
    requires
        pos <= s.len(),
    ensures
        r matches Some((e, v)) ==> spec_obs_mbox_list(s@, pos as int) == Some((e as int, addr_views(v@)))
            && spec_obs_mbox_list(s@, pos as int) == Some((e as int, member_views(v@))) && pos < e <= s.len(),
        r is None ==> spec_obs_mbox_list(s@, pos as int) is None,
{
    let q = skip_lead_commas(s, pos);
    match mailbox(s, q) {
        Some((e, m)) => {
            let mut out: Vec<Address> = Vec::new();
            proof {
                lemma_addr_views_push(out@, m);
                assert(addr_views(out@.push(m)) == seq![m@]);
                assert(member_views(out@.push(m)) == seq![member_view(m)]);
            }
            out.push(m);
            let e2 = obs_mailbox_items_into(s, e, &mut out);
            Some((e2, out))
        },
        None => None,
    }
}

/// `mailbox-list = (mailbox *("," mailbox)) / obs-mbox-list`
fn mailbox_list_first(s: &[u8], pos: usize) -> (r: Option<(usize, Vec<Address>)>)
    requires
        pos <= s.len(),
    ensures
        r matches Some((e, v)) ==> spec_mailbox_list_first(s@, pos as int) == Some((e as int, addr_views(v@)))
            && spec_mailbox_list_first(s@, pos as int) == Some((e as int, member_views(v@))) && pos < e <= s.len(),
        r is None ==> spec_mailbox_list_first(s@, pos as int) is None,
{
    match mailbox(s, pos) {
        Some((e, m)) => {
            let mut out: Vec<Address> = Vec::new();
            proof {
                lemma_addr_views_push(out@, m);
                assert(addr_views(out@.push(m)) == seq![m@]);
                assert(member_views(out@.push(m)) == seq![member_view(m)]);
            }
            out.push(m);
            let e2 = mailbox_items_into(s, e, &mut out);
            Some((e2, out))
        },
        None => None,
    }
}

/// `mailbox-list = (mailbox *("," mailbox)) / obs-mbox-list` (see
/// [`spec_mailbox_list`]).
pub fn mailbox_list(s: &[u8], pos: usize) -> (r: Option<(usize, Vec<Address>)>)
    requires
        pos <= s.len(),
    ensures
        r matches Some((e, v)) ==> spec_mailbox_list(s@, pos as int) == Some((e as int, addr_views(v@)))
            && spec_mailbox_list(s@, pos as int) == Some((e as int, member_views(v@))) && pos < e <= s.len(),
        r is None ==> spec_mailbox_list(s@, pos as int) is None,
{
    let first = mailbox_list_first(s, pos);
    let obs = obs_mbox_list(s, pos);
    match first {
        Some((e1, v1)) => match obs {
            Some((e2, v2)) => if e2 > e1 {
                Some((e2, v2))
            } else {
                Some((e1, v1))
            },
            None => Some((e1, v1)),
        },
        None => obs,
    }
}

// ---------------------------------------------------------------------------
// group = display-name ":" [group-list] ";" [CFWS]
// ---------------------------------------------------------------------------

/// `group-list = mailbox-list / CFWS` (`obs-group-list` is not accepted):
/// the mailboxes, or `None` for white space and comments only.
pub open spec fn spec_group_list(s: Seq<u8>, q: int) -> Option<(int, Option<Seq<AddressModel>>)> {
    match spec_mailbox_list(s, q) {
        Some((e, v)) => Some((e, Some(v))),
        None => match spec_cfws(s, q) {
            Some((e, _)) => Some((e, None)),
            None => None,
        },
    }
}

/// `group-list = mailbox-list / CFWS`
pub fn group_list(s: &[u8], pos: usize) -> (r: Option<(usize, Option<Vec<Address>>)>)
    requires
        pos <= s.len(),
    ensures
        r matches Some((e, Some(v))) ==> spec_group_list(s@, pos as int) == Some((e as int, Some(member_views(v@)))),
        r matches Some((e, None)) ==> spec_group_list(s@, pos as int) == Some((e as int, None::<Seq<AddressModel>>)),
        r is None ==> spec_group_list(s@, pos as int) is None,
        r matches Some((e, _)) ==> pos < e <= s.len(),
{
    match mailbox_list(s, pos) {
        Some((e, v)) => Some((e, Some(v))),
        None => match cfws(s, pos) {
            Some((e, _)) => Some((e, None)),
            None => None,
        },
    }
}

/// `group = display-name ":" [group-list] ";" [CFWS]`
pub open spec fn spec_group(s: Seq<u8>, p: int) -> Option<(int, AddressModel)> {
    match spec_phrase(s, p) {
        Some((q, n)) => if 0 <= q < s.len() && s[q] == 58 {
            let gl: (int, Option<Seq<AddressModel>>) = match spec_group_list(s, q + 1) {
                Some(r) => r,
                None => (q + 1, None),
            };
            if 0 <= gl.0 < s.len() && s[gl.0] == 59 {
                Some((opt_cfws(s, gl.0 + 1).0, AddressModel::Group {
                    display_name: n,
                    mailboxes: match gl.1 {
                        Some(v) => v,
                        None => Seq::empty(),
                    },
                }))
            } else {
                None
            }
        } else {
            None
        },
        None => None,
    }
}

/// `group = display-name ":" [group-list] ";" [CFWS]`
pub fn group(s: &[u8], pos: usize) -> (r: Option<(usize, Address)>)
    requires
        pos <= s.len(),
    ensures
        lift(r) == spec_group(s@, pos as int),
        r matches Some((e, _)) ==> pos < e <= s.len(),
{
    match display_name(s, pos) {
        Some((q, n)) => {
            if !(q < s.len() && s[q] == 58) {
                return None;
            }
            let (g, l) = match group_list(s, q + 1) {
                Some((e, l)) => (e, l),
                None => (q + 1, None),
            };
            if !(g < s.len() && s[g] == 59) {
                return None;
            }
            let e = skip_opt_cfws(s, g + 1);
            let mailboxes = match l {
                Some(v) => v,
                None => Vec::new(),
            };
            let a = Address::Group { display_name: n, mailboxes };
            proof {
                assert(mailboxes@.map_values(|a: Address| member_view(a)) == member_views(mailboxes@));
                assert(member_views(Seq::<Address>::empty()) =~= Seq::<AddressModel>::empty());
            }
            Some((e, a))
        },
        None => None,
    }
}

/// `address = mailbox / group`
#[verifier::opaque]
pub open spec fn spec_address(s: Seq<u8>, p: int) -> Option<(int, AddressModel)> {
    match spec_mailbox(s, p) {
        Some(r) => Some(r),
        None => spec_group(s, p),
    }
}

/// `address = mailbox / group`
pub fn address(s: &[u8], pos: usize) -> (r: Option<(usize, Address)>)
    requires
        pos <= s.len(),
    ensures
        lift(r) == spec_address(s@, pos as int),
        r matches Some((e, _)) ==> pos < e <= s.len(),
{
    reveal(spec_address);
    match mailbox(s, pos) {
        Some(r) => Some(r),
        None => group(s, pos),
    }
}

// ---------------------------------------------------------------------------
// address-list = (address *("," address)) / obs-addr-list
// ---------------------------------------------------------------------------

/// `*("," address)`
pub open spec fn address_items(s: Seq<u8>, q: int) -> (int, Seq<AddressModel>)
    decreases s.len() - q,
{
    if 0 <= q < s.len() && s[q] == 44 {
        match spec_address(s, q + 1) {
            Some((e, m)) => if q < e <= s.len() {
                let t = address_items(s, e);
                (t.0, seq![m] + t.1)
            } else {
                (q, Seq::empty())
            },
            None => (q, Seq::empty()),
        }
    } else {
        (q, Seq::empty())
    }
}

/// `*("," [address / CFWS])` of `obs-addr-list`, where the element after
/// each comma is an address or `CFWS`; empty elements are left out.
pub open spec fn obs_address_items(s: Seq<u8>, q: int) -> (int, Seq<AddressModel>)
    decreases s.len() - q,
{
    if 0 <= q < s.len() && s[q] == 44 {
        match spec_address(s, q + 1) {
            Some((e, m)) => if q < e <= s.len() {
                let t = obs_address_items(s, e);
                (t.0, seq![m] + t.1)
            } else {
                (q, Seq::empty())
            },
            None => match spec_cfws(s, q + 1) {
                Some((e, _)) => if q < e <= s.len() {
                    obs_address_items(s, e)
                } else {
                    (q, Seq::empty())
                },
                None => (q, Seq::empty()),
            },
        }
    } else {
        (q, Seq::empty())
    }
}

/// `obs-addr-list = *([CFWS] ",") address *("," [address / CFWS])`
pub open spec fn spec_obs_addr_list(s: Seq<u8>, p: int) -> Option<(int, Seq<AddressModel>)> {
    match spec_address(s, lead_commas(s, p)) {
        Some((e, m)) => {
            let t = obs_address_items(s, e);
            Some((t.0, seq![m] + t.1))
        },
        None => None,
    }
}

/// `address-list = (address *("," address)) / obs-addr-list`: both forms
/// are read, and the one that reaches further is kept, the first form when
/// they end at the same place (so an empty element does not cut the list
/// short).
pub open spec fn spec_address_list(s: Seq<u8>, p: int) -> Option<(int, Seq<AddressModel>)> {
    longer_list(spec_address_list_first(s, p), spec_obs_addr_list(s, p))
}

/// `address *("," address)`, the first form of `address-list`.
pub open spec fn spec_address_list_first(s: Seq<u8>, p: int) -> Option<(int, Seq<AddressModel>)> {
    match spec_address(s, p) {
        Some((e, m)) => {
            let t = address_items(s, e);
            Some((t.0, seq![m] + t.1))
        },
        None => None,
    }
}

proof fn lemma_address_items(s: Seq<u8>, q: int)
    requires
        0 <= q <= s.len(),
    ensures
        q <= address_items(s, q).0 <= s.len(),
    decreases s.len() - q,
{
    if 0 <= q < s.len() && s[q] == 44 {
        if let Some((e, m)) = spec_address(s, q + 1) {
            if q < e <= s.len() {
                lemma_address_items(s, e);
            }
        }
    }
}

proof fn lemma_obs_address_items(s: Seq<u8>, q: int)
    requires
        0 <= q <= s.len(),
    ensures
        q <= obs_address_items(s, q).0 <= s.len(),
    decreases s.len() - q,
{
    if 0 <= q < s.len() && s[q] == 44 {
        match spec_address(s, q + 1) {
            Some((e, m)) => if q < e <= s.len() {
                lemma_obs_address_items(s, e);
            },
            None => match spec_cfws(s, q + 1) {
                Some((e, _)) => if q < e <= s.len() {
                    lemma_obs_address_items(s, e);
                },
                None => {},
            },
        }
    }
}

/// `*("," address)` after the first address, appending to `out`.
#[verifier::rlimit(40)]
fn address_items_into(s: &[u8], pos: usize, out: &mut Vec<Address>) -> (e: usize)
    requires
        pos <= s.len(),
    ensures
        e as int == address_items(s@, pos as int).0,
        addr_views(final(out)@) == addr_views(old(out)@) + address_items(s@, pos as int).1,
        pos <= e <= s.len(),
{
    let mut q = pos;
    proof {
        lemma_address_items(s@, pos as int);
    }
    loop
        invariant
            pos <= q <= s.len(),
            address_items(s@, pos as int).0 == address_items(s@, q as int).0,
            addr_views(old(out)@) + address_items(s@, pos as int).1 == addr_views(out@) + address_items(s@, q as int).1,
            q <= address_items(s@, q as int).0 <= s.len(),
        decreases s.len() - q,
    {
        if !(q < s.len() && s[q] == 44) {
            assert(addr_views(out@) + Seq::<AddressModel>::empty() == addr_views(out@));
            return q;
        }
        match address(s, q + 1) {
            Some((e, m)) => {
                let ghost old_out = out@;
                proof {
                    lemma_addr_views_push(out@, m);
                    lemma_address_items(s@, e as int);
                }
                out.push(m);
                proof {
                    let ghost mm = spec_address(s@, q + 1).unwrap().1;
                    assert(addr_views(old_out) + (seq![mm] + address_items(s@, e as int).1)
                        == addr_views(out@) + address_items(s@, e as int).1);
                }
                q = e;
            },
            None => {
                assert(addr_views(out@) + Seq::<AddressModel>::empty() == addr_views(out@));
                return q;
            },
        }
    }
}

/// `*("," [address / CFWS])` of `obs-addr-list`, appending to `out`.
#[verifier::rlimit(40)]
fn obs_address_items_into(s: &[u8], pos: usize, out: &mut Vec<Address>) -> (e: usize)
    requires
        pos <= s.len(),
    ensures
        e as int == obs_address_items(s@, pos as int).0,
        addr_views(final(out)@) == addr_views(old(out)@) + obs_address_items(s@, pos as int).1,
        pos <= e <= s.len(),
{
    let mut q = pos;
    proof {
        lemma_obs_address_items(s@, pos as int);
    }
    loop
        invariant
            pos <= q <= s.len(),
            obs_address_items(s@, pos as int).0 == obs_address_items(s@, q as int).0,
            addr_views(old(out)@) + obs_address_items(s@, pos as int).1 == addr_views(out@) + obs_address_items(s@, q as int).1,
            q <= obs_address_items(s@, q as int).0 <= s.len(),
        decreases s.len() - q,
    {
        if !(q < s.len() && s[q] == 44) {
            assert(addr_views(out@) + Seq::<AddressModel>::empty() == addr_views(out@));
            return q;
        }
        match address(s, q + 1) {
            Some((e, m)) => {
                let ghost old_out = out@;
                proof {
                    lemma_addr_views_push(out@, m);
                    lemma_obs_address_items(s@, e as int);
                }
                out.push(m);
                proof {
                    let ghost mm = spec_address(s@, q + 1).unwrap().1;
                    assert(addr_views(old_out) + (seq![mm] + obs_address_items(s@, e as int).1)
                        == addr_views(out@) + obs_address_items(s@, e as int).1);
                }
                q = e;
            },
            None => match cfws(s, q + 1) {
                Some((e, _)) => {
                    proof {
                        lemma_obs_address_items(s@, e as int);
                    }
                    q = e;
                },
                None => {
                    assert(addr_views(out@) + Seq::<AddressModel>::empty() == addr_views(out@));
                    return q;
                },
            },
        }
    }
}

/// `obs-addr-list = *([CFWS] ",") address *("," [address / CFWS])`
pub fn obs_addr_list(s: &[u8], pos: usize) -> (r: Option<(usize, Vec<Address>)>)
    requires
        pos <= s.len(),
    ensures
        r matches Some((e, v)) ==> spec_obs_addr_list(s@, pos as int) == Some((e as int, addr_views(v@)))
            && pos < e <= s.len(),
        r is None ==> spec_obs_addr_list(s@, pos as int) is None,
{
    let q = skip_lead_commas(s, pos);
    match address(s, q) {
        Some((e, m)) => {
            let mut out: Vec<Address> = Vec::new();
            proof {
                lemma_addr_views_push(out@, m);
                assert(addr_views(out@.push(m)) == seq![m@]);
            }
            out.push(m);
            let e2 = obs_address_items_into(s, e, &mut out);
            Some((e2, out))
        },
        None => None,
    }
}

/// `address *("," address)`
fn address_list_first(s: &[u8], pos: usize) -> (r: Option<(usize, Vec<Address>)>)
    requires
        pos <= s.len(),
    ensures
        r matches Some((e, v)) ==> spec_address_list_first(s@, pos as int) == Some((e as int, addr_views(v@)))
            && pos < e <= s.len(),
        r is None ==> spec_address_list_first(s@, pos as int) is None,
{
    match address(s, pos) {
        Some((e, m)) => {
            let mut out: Vec<Address> = Vec::new();
            proof {
                lemma_addr_views_push(out@, m);
                assert(addr_views(out@.push(m)) == seq![m@]);
            }
            out.push(m);
            let e2 = address_items_into(s, e, &mut out);
            Some((e2, out))
        },
        None => None,
    }
}

/// `address-list = (address *("," address)) / obs-addr-list` (see
/// [`spec_address_list`]).
pub fn address_list(s: &[u8], pos: usize) -> (r: Option<(usize, Vec<Address>)>)
    requires
        pos <= s.len(),
    ensures
        r matches Some((e, v)) ==> spec_address_list(s@, pos as int) == Some((e as int, addr_views(v@)))
            && pos < e <= s.len(),
        r is None ==> spec_address_list(s@, pos as int) is None,
{
    let first = address_list_first(s, pos);
    let obs = obs_addr_list(s, pos);
    match first {
        Some((e1, v1)) => match obs {
            Some((e2, v2)) => if e2 > e1 {
                Some((e2, v2))
            } else {
                Some((e1, v1))
            },
            None => Some((e1, v1)),
        },
        None => obs,
    }
}

// ---------------------------------------------------------------------------
// obs-domain-list = *(CFWS / ",") "@" domain *("," [CFWS] ["@" domain])
// ---------------------------------------------------------------------------

/// The leading `*(CFWS / ",")` of `obs-domain-list`.
pub open spec fn domain_list_lead(s: Seq<u8>, q: int) -> int
    decreases s.len() - q,
{
    match spec_cfws(s, q) {
        Some((e, _)) => if q < e <= s.len() {
            domain_list_lead(s, e)
        } else {
            q
        },
        None => if 0 <= q < s.len() && s[q] == 44 {
            domain_list_lead(s, q + 1)
        } else {
            q
        },
    }
}

/// One `"," [CFWS] ["@" domain]` at `q`: its end and the domain, when one is
/// given.
pub open spec fn spec_domain_list_item(s: Seq<u8>, q: int) -> Option<(int, Option<Seq<u8>>)> {
    if 0 <= q < s.len() && s[q] == 44 {
        let c = opt_cfws(s, q + 1).0;
        if 0 <= c < s.len() && s[c] == 64 {
            match spec_domain(s, c + 1) {
                Some((e, d)) => Some((e, Some(d))),
                None => Some((c, None)),
            }
        } else {
            Some((c, None))
        }
    } else {
        None
    }
}

/// `*("," [CFWS] ["@" domain])` from `q` on: the end, and the domains given.
pub open spec fn domain_list_items(s: Seq<u8>, q: int) -> (int, Seq<Seq<u8>>)
    decreases s.len() - q,
{
    match spec_domain_list_item(s, q) {
        Some((e, d)) => if q < e <= s.len() {
            let t = domain_list_items(s, e);
            match d {
                Some(x) => (t.0, seq![x] + t.1),
                None => t,
            }
        } else {
            (q, Seq::empty())
        },
        None => (q, Seq::empty()),
    }
}

/// `obs-domain-list = *(CFWS / ",") "@" domain *("," [CFWS] ["@" domain])`;
/// the value is the domains, in order.
pub open spec fn spec_obs_domain_list(s: Seq<u8>, p: int) -> Option<(int, Seq<Seq<u8>>)> {
    let a = domain_list_lead(s, p);
    if 0 <= a < s.len() && s[a] == 64 {
        match spec_domain(s, a + 1) {
            Some((e, d)) => {
                let t = domain_list_items(s, e);
                Some((t.0, seq![d] + t.1))
            },
            None => None,
        }
    } else {
        None
    }
}

proof fn lemma_domain_list_lead(s: Seq<u8>, q: int)
    requires
        0 <= q <= s.len(),
    ensures
        q <= domain_list_lead(s, q) <= s.len(),
    decreases s.len() - q,
{
    match spec_cfws(s, q) {
        Some((e, _)) => if q < e <= s.len() {
            lemma_domain_list_lead(s, e);
        },
        None => if 0 <= q < s.len() && s[q] == 44 {
            lemma_domain_list_lead(s, q + 1);
        },
    }
}

proof fn lemma_domain_list_items(s: Seq<u8>, q: int)
    requires
        0 <= q <= s.len(),
    ensures
        q <= domain_list_items(s, q).0 <= s.len(),
    decreases s.len() - q,
{
    match spec_domain_list_item(s, q) {
        Some((e, d)) => if q < e <= s.len() {
            lemma_domain_list_items(s, e);
        },
        None => {},
    }
}

fn domain_list_item(s: &[u8], pos: usize) -> (r: Option<(usize, Option<Vec<u8>>)>)
    requires
        pos <= s.len(),
    ensures
        match r {
            Some((e, d)) => spec_domain_list_item(s@, pos as int) == Some((e as int, opt_bytes(d)))
                && pos < e <= s.len(),
            None => spec_domain_list_item(s@, pos as int) is None,
        },
{
    if !(pos < s.len() && s[pos] == 44) {
        return None;
    }
    let c = skip_opt_cfws(s, pos + 1);
    if c < s.len() && s[c] == 64 {
        match domain(s, c + 1) {
            Some((e, d)) => Some((e, Some(d))),
            None => Some((c, None)),
        }
    } else {
        Some((c, None))
    }
}

/// `obs-domain-list = *(CFWS / ",") "@" domain *("," [CFWS] ["@" domain])`
#[verifier::rlimit(40)]
pub fn obs_domain_list(s: &[u8], pos: usize) -> (r: Option<(usize, Vec<Vec<u8>>)>)
    requires
        pos <= s.len(),
    ensures
        match r {
            Some((e, v)) => spec_obs_domain_list(s@, pos as int) == Some((e as int, views(v@)))
                && pos < e <= s.len(),
            None => spec_obs_domain_list(s@, pos as int) is None,
        },
{
    let mut a = pos;
    proof {
        lemma_domain_list_lead(s@, pos as int);
    }
    loop
        invariant
            pos <= a <= s.len(),
            domain_list_lead(s@, pos as int) == domain_list_lead(s@, a as int),
        ensures
            pos <= a <= s.len(),
            domain_list_lead(s@, pos as int) == a,
        decreases s.len() - a,
    {
        match cfws(s, a) {
            Some((e, _)) => {
                a = e;
            },
            None => if a < s.len() && s[a] == 44 {
                a = a + 1;
            } else {
                break;
            },
        }
    }
    if !(a < s.len() && s[a] == 64) {
        return None;
    }
    let (e1, d1) = match domain(s, a + 1) {
        Some(r) => r,
        None => {
            return None;
        },
    };
    let mut out: Vec<Vec<u8>> = Vec::new();
    proof {
        lemma_views_push(out@, d1);
    }
    out.push(d1);
    let mut q = e1;
    proof {
        lemma_domain_list_items(s@, e1 as int);
    }
    loop
        invariant
            pos < e1 <= q <= s.len(),
            views(out@).len() >= 1,
            spec_obs_domain_list(s@, pos as int) == Some(
                (domain_list_items(s@, q as int).0, views(out@) + domain_list_items(s@, q as int).1),
            ),
        ensures
            pos < q <= s.len(),
            spec_obs_domain_list(s@, pos as int) == Some((q as int, views(out@))),
        decreases s.len() - q,
    {
        match domain_list_item(s, q) {
            Some((e, d)) => {
                let ghost before = out@;
                match d {
                    Some(x) => {
                        let ghost xv = x@;
                        out.push(x);
                        proof {
                            lemma_views_push(before, x);
                            assert(views(before) + (seq![xv] + domain_list_items(s@, e as int).1)
                                =~= views(out@) + domain_list_items(s@, e as int).1);
                        }
                    },
                    None => {},
                }
                q = e;
            },
            None => {
                assert(views(out@) + Seq::<Seq<u8>>::empty() =~= views(out@));
                break;
            },
        }
    }
    Some((q, out))
}

} // verus!
