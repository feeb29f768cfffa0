//! Properties of the library as a whole, each stated over the spec
//! functions that the parsers' contracts use, and proved.

use vstd::prelude::*;
use crate::{
    Address, DateTime, MessageID, FieldKind, FieldModel, FieldValue, is_addresses_value, is_address_value,
    is_message_id_value, is_message_ids_value, is_date_time_value, spec_is_malformed, is_date_time_value_at,
    spec_is_malformed_at, first_field,
    first_field_from, Message,
};
use crate::util::{spec_downcase, spec_downcased_string};
use crate::rfc5322::chars::{Class, spec_in_class, run_end};
use crate::rfc5322::fields::{line_break_end, field_body_end, spec_drop_field_name, spec_field_named};
use crate::rfc5322::datetime::{spec_full_year, spec_date_panics, spec_date_at, spec_date};
use crate::rfc2046::{BOUNDARY_SCAN, boundary_scan, spec_boundary};
use crate::mime::{param_find, param_insert, collect_params};
use crate::{AddressModel, spec_month_number, MessageIDModel};
use crate::rfc5322::chars::{spec_lit, lemma_run_end};
use crate::rfc5322::datetime::spec_month;
use crate::rfc5322::fields::{NAMED_FIELDS, spec_field_entry, spec_named_field, spec_raw_field, spec_raw_field_from};
use crate::mime::{EncodingModel, spec_mechanism, spec_x_token};
use crate::util::ascii_chars;
use crate::rfc5322::address::{spec_group, spec_mailbox_list};
use crate::rfc5322::words::{spec_phrase, lemma_no_phrase, lemma_phrase_end};
use crate::rfc5322::lexical::opt_cfws;
use crate::rfc5322::ids::{spec_msg_id, msg_id_list_items, lemma_msg_id_end};

verus! {

// ---------------------------------------------------------------------------
// Field values
// ---------------------------------------------------------------------------

/// A field value is in exactly one of its three states: parsed, raw or
/// missing.
pub proof fn law_field_value_one_state<T>(v: FieldValue<T>)
    ensures
        (v is Parsed) || (v is Raw) || (v is Missing),
        !((v is Parsed) && (v is Raw)),
        !((v is Parsed) && (v is Missing)),
        !((v is Raw) && (v is Missing)),
{
}

/// An address-list field (`From:`, `Reply-To:`, `To:`, `Cc:` and the
/// `Resent-` ones) is malformed exactly when its addresses come out raw.
pub proof fn law_malformed_iff_addresses_raw(f: FieldModel, r: FieldValue<Vec<Address>>, this_year: usize)
    requires
        f.kind == FieldKind::From || f.kind == FieldKind::ReplyTo || f.kind == FieldKind::To || f.kind
            == FieldKind::Cc || f.kind == FieldKind::ResentFrom || f.kind == FieldKind::ResentTo || f.kind
            == FieldKind::ResentCc || f.kind == FieldKind::ResentBcc || f.kind == FieldKind::ResentReplyTo,
        is_addresses_value(r, f.data),
    ensures
        spec_is_malformed(f, this_year) <==> (r is Raw),
{
}

/// A single-mailbox field (`Sender:`, `Resent-Sender:`) is malformed exactly
/// when its mailbox comes out raw.
pub proof fn law_malformed_iff_address_raw(f: FieldModel, r: FieldValue<Address>, this_year: usize)
    requires
        f.kind == FieldKind::Sender || f.kind == FieldKind::ResentSender,
        is_address_value(r, f.data),
    ensures
        spec_is_malformed(f, this_year) <==> (r is Raw),
{
}

/// A message identifier field (`Message-ID:`, `Resent-Message-ID:`) is
/// malformed exactly when its identifier comes out raw.
pub proof fn law_malformed_iff_message_id_raw(f: FieldModel, r: FieldValue<MessageID>, this_year: usize)
    requires
        f.kind == FieldKind::MessageID || f.kind == FieldKind::ResentMessageID,
        is_message_id_value(r, f.data),
    ensures
        spec_is_malformed(f, this_year) <==> (r is Raw),
{
}

/// A date field (`Date:`, `Resent-Date:`) is malformed exactly when its
/// date comes out raw.
pub proof fn law_malformed_iff_date_time_raw(f: FieldModel, r: FieldValue<DateTime>, this_year: usize)
    requires
        f.kind == FieldKind::Date || f.kind == FieldKind::ResentDate,
        is_date_time_value(r, f.data, this_year),
    ensures
        spec_is_malformed(f, this_year) <==> (r is Raw),
{
    reveal(is_date_time_value);
}

/// With the year read from the clock taken into account, a date field is
/// malformed exactly when its date comes out raw, a date that cannot be
/// formed with that year included.
pub proof fn law_malformed_at_iff_date_time_raw(f: FieldModel, r: FieldValue<DateTime>, this_year: usize)
    requires
        f.kind == FieldKind::Date || f.kind == FieldKind::ResentDate,
        is_date_time_value_at(r, f.data, this_year),
    ensures
        spec_is_malformed_at(f, this_year) <==> (r is Raw),
{
    reveal(is_date_time_value);
}

/// Fields other than dates do not depend on the year: with the clock taken
/// into account they are malformed exactly when they are without it.
pub proof fn law_malformed_at_other_fields(f: FieldModel, this_year: usize)
    requires
        f.kind != FieldKind::Date && f.kind != FieldKind::ResentDate,
    ensures
        spec_is_malformed_at(f, this_year) == spec_is_malformed(f, this_year),
        forall|y: usize| spec_is_malformed(f, y) == spec_is_malformed(f, this_year),
{
}

/// `In-Reply-To:` and `References:` are never malformed: their identifiers
/// always read, the phrases between them being ignored.
pub proof fn law_message_ids_never_raw(f: FieldModel, r: FieldValue<Vec<MessageID>>, this_year: usize)
    requires
        f.kind == FieldKind::InReplyTo || f.kind == FieldKind::References,
        is_message_ids_value(r, f.data),
    ensures
        !spec_is_malformed(f, this_year),
        r is Parsed,
{
}

// ---------------------------------------------------------------------------
// Finding a field in a message
// ---------------------------------------------------------------------------

proof fn lemma_first_field_from(fs: Seq<FieldModel>, k: FieldKind, i: int)
    requires
        0 <= i <= fs.len(),
    ensures
        first_field_from(fs, k, i) is None <==> (forall|j: int| i <= j < fs.len() ==> fs[j].kind != k),
        first_field_from(fs, k, i) matches Some(f) ==> exists|j: int|
            i <= j < fs.len() && fs[j] == f && f.kind == k && (forall|l: int| i <= l < j ==> fs[l].kind != k),
    decreases fs.len() - i,
{
    if i < fs.len() {
        lemma_first_field_from(fs, k, i + 1);
        if fs[i].kind != k {
            if let Some(f) = first_field_from(fs, k, i + 1) {
                let j = choose|j: int|
                    i + 1 <= j < fs.len() && fs[j] == f && f.kind == k && (forall|l: int| i + 1 <= l < j ==> fs[l].kind != k);
                assert(i <= j < fs.len() && fs[j] == f && f.kind == k && (forall|l: int| i <= l < j ==> fs[l].kind != k));
            }
        } else {
            assert(forall|l: int| i <= l < i ==> fs[l].kind != k);
        }
    }
}

/// A message has no field of kind `k` exactly when the lookup of `k` finds
/// none, so that its reader answers `Missing`; otherwise the lookup gives
/// the first field of that kind.
pub proof fn law_first_field(fs: Seq<FieldModel>, k: FieldKind)
    ensures
        first_field(fs, k) is None <==> (forall|j: int| 0 <= j < fs.len() ==> fs[j].kind != k),
        first_field(fs, k) matches Some(f) ==> exists|j: int|
            0 <= j < fs.len() && fs[j] == f && f.kind == k && (forall|l: int| 0 <= l < j ==> fs[l].kind != k),
{
    lemma_first_field_from(fs, k, 0);
}

/// The readers of a message (`from`, `sender`, `date`, ...) read the first
/// field of their kind in the message's `fields`, in order, and answer
/// `Missing` exactly when `fields` holds none of that kind: later fields of
/// the kind, and fields of other kinds, play no part.
pub proof fn law_message_reads_first_field(m: &Message, k: FieldKind)
    ensures
        first_field(m@.fields, k) is None <==> (forall|j: int| 0 <= j < m.fields@.len() ==> m.fields@[j]@.kind != k),
        first_field(m@.fields, k) matches Some(f) ==> exists|j: int|
            0 <= j < m.fields@.len() && m.fields@[j]@ == f && f.kind == k
                && (forall|l: int| 0 <= l < j ==> m.fields@[l]@.kind != k),
{
    let v = m.fields@;
    let fs = m@.fields;
    law_first_field(fs, k);
    assert(fs.len() == v.len());
    assert forall|j: int| 0 <= j < v.len() implies fs[j] == #[trigger] v[j]@ by {}
    if first_field(fs, k) is None {
        assert forall|j: int| 0 <= j < v.len() implies #[trigger] v[j]@.kind != k by {
            assert(fs[j] == v[j]@);
        }
    } else {
        let f = first_field(fs, k)->Some_0;
        let j = choose|j: int| 0 <= j < fs.len() && fs[j] == f && f.kind == k && (forall|l: int| 0 <= l < j ==> fs[l].kind != k);
        assert(v[j]@ == f);
        assert forall|l: int| 0 <= l < j implies #[trigger] v[l]@.kind != k by {
            assert(fs[l] == v[l]@);
        }
        assert(!(forall|i: int| 0 <= i < v.len() ==> #[trigger] v[i]@.kind != k));
    }
}

// ---------------------------------------------------------------------------
// Field bodies and names
// ---------------------------------------------------------------------------

proof fn lemma_line_break_end_shape(s: Seq<u8>, q: int)
    requires
        0 <= q <= s.len(),
    ensures
        line_break_end(s, q) == s.len() || (q + 2 <= line_break_end(s, q) <= s.len()
            && s[line_break_end(s, q) - 2] == 13 && s[line_break_end(s, q) - 1] == 10),
    decreases s.len() - q,
{
    if q + 1 < s.len() && !(s[q] == 13 && s[q + 1] == 10) {
        lemma_line_break_end_shape(s, q + 1);
    }
}

/// A field body ends either at the end of the input or just after a CRLF
/// that is not followed by SP or HTAB: a folded line (a CRLF followed by
/// white space) never ends it.
pub proof fn law_field_body_ends_line(s: Seq<u8>, q: int)
    requires
        0 <= q <= s.len(),
    ensures
        q <= field_body_end(s, q) <= s.len(),
        field_body_end(s, q) == s.len() || (q + 2 <= field_body_end(s, q) && s[field_body_end(s, q) - 2]
            == 13 && s[field_body_end(s, q) - 1] == 10 && !(s[field_body_end(s, q)] == 32
            || s[field_body_end(s, q)] == 9)),
    decreases s.len() - q,
{
    lemma_line_break_end_shape(s, q);
    let e = line_break_end(s, q);
    if q < e < s.len() && (s[e] == 32 || s[e] == 9) {
        law_field_body_ends_line(s, e);
    }
}

/// Field names are compared without regard to ASCII case: two names that
/// differ only in the case of their letters match the same fields.
pub proof fn law_field_name_case(s: Seq<u8>, p: int, n1: Seq<u8>, n2: Seq<u8>)
    requires
        n1.len() == n2.len(),
        forall|i: int| 0 <= i < n1.len() ==> spec_downcase(#[trigger] n1[i]) == spec_downcase(n2[i]),
    ensures
        spec_drop_field_name(s, p, n1) == spec_drop_field_name(s, p, n2),
{
    assert(spec_downcased_string(s, p, n1) == spec_downcased_string(s, p, n2)) by {
        if 0 <= p && p + n1.len() <= s.len() {
            if forall|i: int| 0 <= i < n1.len() ==> spec_downcase(#[trigger] s[p + i]) == spec_downcase(n1[i]) {
                assert forall|i: int| 0 <= i < n2.len() implies spec_downcase(#[trigger] s[p + i]) == spec_downcase(n2[i]) by {
                    assert(spec_downcase(n1[i]) == spec_downcase(n2[i]));
                }
            } else {
                let i = choose|i: int| 0 <= i < n1.len() && !(spec_downcase(#[trigger] s[p + i]) == spec_downcase(n1[i]));
                assert(spec_downcase(n1[i]) == spec_downcase(n2[i]));
                assert(!(spec_downcase(s[p + i]) == spec_downcase(n2[i])));
            }
        }
    }
}

proof fn lemma_run_end_agree(s: Seq<u8>, t: Seq<u8>, q: int, k: Class)
    requires
        s.len() == t.len(),
        0 <= q <= s.len(),
        forall|i: int| q <= i < s.len() ==> s[i] == t[i],
    ensures
        run_end(s, q, k) == run_end(t, q, k),
    decreases s.len() - q,
{
    if q < s.len() && spec_in_class(s[q], k) {
        lemma_run_end_agree(s, t, q + 1, k);
    }
}

proof fn lemma_line_break_end_agree(s: Seq<u8>, t: Seq<u8>, q: int)
    requires
        s.len() == t.len(),
        0 <= q <= s.len(),
        forall|i: int| q <= i < s.len() ==> s[i] == t[i],
    ensures
        line_break_end(s, q) == line_break_end(t, q),
    decreases s.len() - q,
{
    if q + 1 < s.len() {
        lemma_line_break_end_agree(s, t, q + 1);
    }
}

proof fn lemma_field_body_end_agree(s: Seq<u8>, t: Seq<u8>, q: int)
    requires
        s.len() == t.len(),
        0 <= q <= s.len(),
        forall|i: int| q <= i < s.len() ==> s[i] == t[i],
    ensures
        field_body_end(s, q) == field_body_end(t, q),
    decreases s.len() - q,
{
    lemma_line_break_end_agree(s, t, q);
    lemma_line_break_end_shape(s, q);
    let e = line_break_end(s, q);
    if q < e < s.len() && (s[e] == 32 || s[e] == 9) {
        lemma_field_body_end_agree(s, t, e);
    }
}

/// A field reads the same whatever the case in which its name is written:
/// two inputs that differ only in the ASCII case of the letters of the name
/// give the same field, with the same body.
pub proof fn law_field_name_case_in_input(s: Seq<u8>, t: Seq<u8>, p: int, name: Seq<u8>, k: FieldKind)
    requires
        s.len() == t.len(),
        0 <= p,
        p + name.len() <= s.len(),
        forall|i: int| p <= i < p + name.len() ==> spec_downcase(#[trigger] s[i]) == spec_downcase(t[i]),
        forall|i: int| 0 <= i < s.len() && !(p <= i < p + name.len()) ==> #[trigger] s[i] == t[i],
    ensures
        spec_field_named(s, p, name, k) == spec_field_named(t, p, name, k),
{
    let a = p + name.len();
    assert forall|i: int| a <= i < s.len() implies s[i] == t[i] by {
        assert(!(p <= i < p + name.len()));
    }
    assert(spec_downcased_string(s, p, name) == spec_downcased_string(t, p, name)) by {
        if forall|i: int| 0 <= i < name.len() ==> spec_downcase(#[trigger] s[p + i]) == spec_downcase(name[i]) {
            assert forall|i: int| 0 <= i < name.len() implies spec_downcase(#[trigger] t[p + i]) == spec_downcase(name[i]) by {
                assert(spec_downcase(s[p + i]) == spec_downcase(t[p + i]));
            }
        } else {
            let i = choose|i: int| 0 <= i < name.len() && !(spec_downcase(#[trigger] s[p + i]) == spec_downcase(name[i]));
            assert(spec_downcase(s[p + i]) == spec_downcase(t[p + i]));
            assert(!(spec_downcase(t[p + i]) == spec_downcase(name[i])));
        }
    }
    lemma_run_end_agree(s, t, a, Class::Wsp);
    let b = run_end(s, a, Class::Wsp);
    crate::rfc5322::chars::lemma_run_end(s, a, Class::Wsp);
    if 0 <= b < s.len() && s[b] == 58 {
        lemma_field_body_end_agree(s, t, b + 1);
        crate::laws::law_field_body_ends_line(s, b + 1);
        let e = field_body_end(s, b + 1);
        assert(s.subrange(b + 1, e) =~= t.subrange(b + 1, e));
    }
}

// ---------------------------------------------------------------------------
// Dates
// ---------------------------------------------------------------------------

/// A two-digit year is put in the century that makes it the latest year
/// not after `this_year`: the full year ends in the two digits read, is at
/// most `this_year`, and is less than a hundred years before it.
pub proof fn law_two_digit_year(y: usize, this_year: usize)
    requires
        y < 100,
        spec_full_year(y, this_year) is Some,
    ensures
        spec_full_year(y, this_year)->0 % 100 == y,
        spec_full_year(y, this_year)->0 <= this_year,
        this_year < spec_full_year(y, this_year)->0 + 100,
{
    let prefix = (this_year / 100) * 100;
    assert(this_year - 100 < prefix <= this_year && prefix % 100 == 0) by (nonlinear_arith)
        requires
            prefix == (this_year / 100) * 100,
    ;
    let fy = spec_full_year(y, this_year)->0;
    if y + prefix <= this_year {
        assert(fy == y + prefix);
        assert(fy % 100 == y) by (nonlinear_arith)
            requires
                fy == y + prefix,
                prefix % 100 == 0,
                y < 100,
                prefix >= 0,
        ;
    } else {
        assert(fy == y + prefix - 100);
        assert(fy % 100 == y) by (nonlinear_arith)
            requires
                fy == y + prefix - 100,
                prefix % 100 == 0,
                y < 100,
                prefix >= 100,
        ;
    }
}

/// The century of a two-digit year can be settled for every clock year from
/// 100 on, so that reading a date with the clock gives just what the grammar
/// gives: only a clock before year 100 leaves a two-digit year unread.
pub proof fn law_two_digit_year_settles(s: Seq<u8>, p: int, this_year: usize)
    requires
        100 <= this_year <= usize::MAX - 100,
    ensures
        !spec_date_panics(s, p, this_year),
        spec_date_at(s, p, this_year) == spec_date(s, p, this_year),
{
    let prefix = (this_year / 100) * 100;
    assert(100 <= prefix <= this_year) by (nonlinear_arith)
        requires
            prefix == (this_year / 100) * 100,
            100 <= this_year,
    ;
}

// ---------------------------------------------------------------------------
// Multipart boundaries
// ---------------------------------------------------------------------------

proof fn lemma_boundary_scan(s: Seq<u8>, p: int, k: int, mark: Option<int>)
    requires
        0 <= p <= s.len(),
        0 <= k <= BOUNDARY_SCAN,
        p + k <= s.len(),
        forall|i: int| p <= i < p + k ==> spec_in_class(#[trigger] s[i], Class::BcharsNoSpace) || s[i] == 32,
        mark matches Some(m) ==> p < m <= p + k && spec_in_class(s[m - 1], Class::BcharsNoSpace),
    ensures
        boundary_scan(s, p, k, mark) matches Some(e) ==> p < e <= p + BOUNDARY_SCAN && e <= s.len()
            && spec_in_class(s[e - 1], Class::BcharsNoSpace) && (forall|i: int|
            p <= i < e ==> spec_in_class(#[trigger] s[i], Class::BcharsNoSpace) || s[i] == 32),
    decreases BOUNDARY_SCAN - k,
{
    if k >= BOUNDARY_SCAN || p + k >= s.len() {
    } else if spec_in_class(s[p + k], Class::BcharsNoSpace) {
        lemma_boundary_scan(s, p, k + 1, Some(p + k + 1));
    } else if s[p + k] == 32 {
        lemma_boundary_scan(s, p, k + 1, mark);
    }
}

/// A boundary is the boundary text given, which is `0*69<bchars>
/// bcharsnospace`: it is made of `bcharsnospace` and spaces, ends with a
/// `bcharsnospace`, and is at most [`BOUNDARY_SCAN`] bytes long.
pub proof fn law_boundary_shape(s: Seq<u8>, p: int, t: Seq<u8>)
    ensures
        spec_boundary(s, p, t) matches Some(e) ==> e == p + t.len() && s.subrange(p, e) == t && 0 < t.len()
            <= BOUNDARY_SCAN && spec_in_class(t[t.len() - 1], Class::BcharsNoSpace) && (forall|i: int|
            0 <= i < t.len() ==> spec_in_class(#[trigger] t[i], Class::BcharsNoSpace) || t[i] == 32),
{
    lemma_boundary_scan(t, 0, 0, None);
}

// ---------------------------------------------------------------------------
// Content-Type parameters
// ---------------------------------------------------------------------------

/// No two parameters have the same name.
pub open spec fn distinct_names(m: Seq<(Seq<char>, Seq<u8>)>) -> bool {
    forall|i: int, j: int| 0 <= i < j < m.len() ==> (#[trigger] m[i]).0 != (#[trigger] m[j]).0
}

/// The value given last to the parameter `k`, if any.
pub open spec fn last_value(ps: Seq<(Seq<char>, Seq<u8>)>, k: Seq<char>) -> Option<Seq<u8>>
    decreases ps.len(),
{
    if ps.len() == 0 {
        None
    } else if ps.last().0 == k {
        Some(ps.last().1)
    } else {
        last_value(ps.drop_last(), k)
    }
}

proof fn lemma_param_find(m: Seq<(Seq<char>, Seq<u8>)>, k: Seq<char>, i: int)
    requires
        0 <= i <= m.len(),
    ensures
        param_find(m, k, i) is None <==> (forall|j: int| i <= j < m.len() ==> (#[trigger] m[j]).0 != k),
        param_find(m, k, i) matches Some(j) ==> i <= j < m.len() && m[j].0 == k,
    decreases m.len() - i,
{
    if i < m.len() {
        lemma_param_find(m, k, i + 1);
    }
}

/// The parameters of a `Content-Type` field, as collected from those read
/// in order (see [`collect_params`]): each name occurs once, with the value
/// given to it last.
pub proof fn law_collect_params(ps: Seq<(Seq<char>, Seq<u8>)>)
    ensures
        distinct_names(collect_params(ps)),
        forall|k: Seq<char>, v: Seq<u8>|
            (exists|i: int| 0 <= i < collect_params(ps).len() && #[trigger] collect_params(ps)[i] == (k, v))
                <==> last_value(ps, k) == Some(v),
    decreases ps.len(),
{
    if ps.len() > 0 {
        let prev = collect_params(ps.drop_last());
        law_collect_params(ps.drop_last());
        let (kl, vl) = ps.last();
        lemma_param_find(prev, kl, 0);
        let m = collect_params(ps);
        assert(m == param_insert(prev, kl, vl));
        match param_find(prev, kl, 0) {
            Some(j) => {
                assert(m == prev.update(j, (kl, vl)));
                assert forall|a: int, b: int| 0 <= a < b < m.len() implies (#[trigger] m[a]).0 != (#[trigger] m[b]).0 by {
                    assert(prev[a].0 != prev[b].0);
                }
                assert forall|k: Seq<char>, v: Seq<u8>|
                    (exists|i: int| 0 <= i < m.len() && #[trigger] m[i] == (k, v)) <==> last_value(ps, k) == Some(v) by {
                    if k == kl {
                        if exists|i: int| 0 <= i < m.len() && #[trigger] m[i] == (k, v) {
                            let i = choose|i: int| 0 <= i < m.len() && #[trigger] m[i] == (k, v);
                            if i != j {
                                assert(prev[i].0 == k && prev[j].0 == k);
                                if i < j {
                                    assert(prev[i].0 != prev[j].0);
                                } else {
                                    assert(prev[j].0 != prev[i].0);
                                }
                            }
                        }
                        if last_value(ps, k) == Some(v) {
                            assert(m[j] == (k, v));
                        }
                    } else {
                        assert(last_value(ps, k) == last_value(ps.drop_last(), k));
                        if exists|i: int| 0 <= i < m.len() && #[trigger] m[i] == (k, v) {
                            let i = choose|i: int| 0 <= i < m.len() && #[trigger] m[i] == (k, v);
                            assert(prev[i] == (k, v));
                        }
                        if exists|i: int| 0 <= i < prev.len() && #[trigger] prev[i] == (k, v) {
                            let i = choose|i: int| 0 <= i < prev.len() && #[trigger] prev[i] == (k, v);
                            assert(i != j);
                            assert(m[i] == (k, v));
                        }
                    }
                }
            },
            None => {
                assert(m == prev.push((kl, vl)));
                assert forall|a: int, b: int| 0 <= a < b < m.len() implies (#[trigger] m[a]).0 != (#[trigger] m[b]).0 by {
                    if b < prev.len() {
                        assert(prev[a].0 != prev[b].0);
                    } else {
                        assert(prev[a].0 != kl);
                    }
                }
                assert forall|k: Seq<char>, v: Seq<u8>|
                    (exists|i: int| 0 <= i < m.len() && #[trigger] m[i] == (k, v)) <==> last_value(ps, k) == Some(v) by {
                    if k == kl {
                        if exists|i: int| 0 <= i < m.len() && #[trigger] m[i] == (k, v) {
                            let i = choose|i: int| 0 <= i < m.len() && #[trigger] m[i] == (k, v);
                            if i < prev.len() {
                                assert(prev[i].0 == kl);
                            }
                        }
                        if last_value(ps, k) == Some(v) {
                            assert(m[prev.len() as int] == (k, v));
                        }
                    } else {
                        assert(last_value(ps, k) == last_value(ps.drop_last(), k));
                        if exists|i: int| 0 <= i < m.len() && #[trigger] m[i] == (k, v) {
                            let i = choose|i: int| 0 <= i < m.len() && #[trigger] m[i] == (k, v);
                            assert(i < prev.len());
                            assert(prev[i] == (k, v));
                        }
                        if exists|i: int| 0 <= i < prev.len() && #[trigger] prev[i] == (k, v) {
                            let i = choose|i: int| 0 <= i < prev.len() && #[trigger] prev[i] == (k, v);
                            assert(m[i] == (k, v));
                        }
                    }
                }
            },
        }
    }
}

// ---------------------------------------------------------------------------
// Groups and message identifier lists
// ---------------------------------------------------------------------------

/// A group holds the members written in it: its display name is the phrase
/// before the colon, and where a mailbox list reads after the colon the
/// group's members are that list, every mailbox in order; only where none
/// reads there (an empty group, or one of white space and comments) has the
/// group no members.
pub proof fn law_group_members(s: Seq<u8>, p: int)
    requires
        spec_group(s, p) is Some,
    ensures
        spec_phrase(s, p) is Some,
        spec_group(s, p)->Some_0.1 == (AddressModel::Group {
            display_name: spec_phrase(s, p)->Some_0.1,
            mailboxes: match spec_mailbox_list(s, spec_phrase(s, p)->Some_0.0 + 1) {
                Some((_, v)) => v,
                None => Seq::empty(),
            },
        }),
{
}

/// The identifiers of `*(phrase / msg-id)` are every `msg-id` of the
/// sequence, in order: where a `msg-id` reads at `q`, the identifiers from
/// `q` on are that one followed by those after it, whatever follows it.
pub proof fn law_msg_id_list_keeps_every_id(s: Seq<u8>, q: int)
    requires
        0 <= q <= s.len(),
        spec_msg_id(s, q) is Some,
    ensures
        msg_id_list_items(s, q) == seq![spec_msg_id(s, q)->Some_0.1]
            + msg_id_list_items(s, spec_msg_id(s, q)->Some_0.0),
{
    lemma_msg_id_end(s, q);
    let c = opt_cfws(s, q).0;
    assert(s[c] == 60);
    assert(!spec_in_class(60u8, Class::Atext));
    lemma_no_phrase(s, q);
}

/// The phrases of `*(phrase / msg-id)` give no identifiers: where a phrase
/// reads at `q`, the identifiers from `q` on are those after it.
pub proof fn law_msg_id_list_skips_phrases(s: Seq<u8>, q: int)
    requires
        0 <= q <= s.len(),
        spec_phrase(s, q) is Some,
    ensures
        msg_id_list_items(s, q) == msg_id_list_items(s, spec_phrase(s, q)->Some_0.0),
{
    lemma_phrase_end(s, q);
}

/// The list of identifiers ends where neither a phrase nor a `msg-id`
/// reads.
pub proof fn law_msg_id_list_ends(s: Seq<u8>, q: int)
    requires
        spec_phrase(s, q) is None,
        spec_msg_id(s, q) is None,
    ensures
        msg_id_list_items(s, q) == Seq::<MessageIDModel>::empty(),
{
}

// ---------------------------------------------------------------------------
// Field kinds, months and transfer encodings are named by what is written
// ---------------------------------------------------------------------------

/// The name of each kind of field that is read by its name (empty for the
/// others).
pub open spec fn field_kind_name(k: FieldKind) -> Seq<u8> {
    match k {
        FieldKind::Received => seq![82u8, 101, 99, 101, 105, 118, 101, 100],  // Received
        FieldKind::Date => seq![68u8, 97, 116, 101],  // Date
        FieldKind::From => seq![70u8, 114, 111, 109],  // From
        FieldKind::Sender => seq![83u8, 101, 110, 100, 101, 114],  // Sender
        FieldKind::ReplyTo => seq![82u8, 101, 112, 108, 121, 45, 84, 111],  // Reply-To
        FieldKind::To => seq![84u8, 111],  // To
        FieldKind::Cc => seq![67u8, 99],  // Cc
        FieldKind::MessageID => seq![77u8, 101, 115, 115, 97, 103, 101, 45, 73, 68],  // Message-ID
        FieldKind::InReplyTo => seq![73u8, 110, 45, 82, 101, 112, 108, 121, 45, 84, 111],  // In-Reply-To
        FieldKind::References => seq![82u8, 101, 102, 101, 114, 101, 110, 99, 101, 115],  // References
        FieldKind::Subject => seq![83u8, 117, 98, 106, 101, 99, 116],  // Subject
        FieldKind::Comments => seq![67u8, 111, 109, 109, 101, 110, 116, 115],  // Comments
        FieldKind::ResentFrom => seq![82u8, 101, 115, 101, 110, 116, 45, 70, 114, 111, 109],  // Resent-From
        FieldKind::ResentSender => seq![82u8, 101, 115, 101, 110, 116, 45, 83, 101, 110, 100, 101, 114],  // Resent-Sender
        FieldKind::ResentDate => seq![82u8, 101, 115, 101, 110, 116, 45, 68, 97, 116, 101],  // Resent-Date
        FieldKind::ResentTo => seq![82u8, 101, 115, 101, 110, 116, 45, 84, 111],  // Resent-To
        FieldKind::ResentCc => seq![82u8, 101, 115, 101, 110, 116, 45, 67, 99],  // Resent-Cc
        FieldKind::ResentMessageID => seq![82u8, 101, 115, 101, 110, 116, 45, 77, 101, 115, 115, 97, 103, 101, 45, 73, 68],  // Resent-Message-ID
        FieldKind::ResentReplyTo => seq![82u8, 101, 115, 101, 110, 116, 45, 82, 101, 112, 108, 121, 45, 84, 111],  // Resent-Reply-To
        _ => Seq::empty(),
    }
}

proof fn lemma_raw_field_from_named(s: Seq<u8>, p: int, i: int)
    requires
        0 <= i <= NAMED_FIELDS,
        spec_raw_field_from(s, p, i) matches Some((_, f)) && f.kind != FieldKind::Optional,
    ensures
        exists|j: int| i <= j < NAMED_FIELDS && spec_raw_field_from(s, p, i) == spec_named_field(s, p, j)
            && field_kind_name(spec_field_entry(j).1) == spec_field_entry(j).0,
    decreases NAMED_FIELDS - i,
{
    if i < NAMED_FIELDS {
        if spec_named_field(s, p, i) is Some {
            assert(field_kind_name(spec_field_entry(i).1) == spec_field_entry(i).0);
        } else {
            lemma_raw_field_from_named(s, p, i + 1);
        }
    }
}

/// A field's kind is the one that its name names: a header field read as
/// any kind but an optional field starts with the name of that kind (ASCII
/// case aside), then white space and a colon, and its body is what follows
/// the colon, to the end of the field.  So fields of different names are
/// of different kinds (`Resent-From:` is never read as `From:`).
pub proof fn law_field_kind_by_name(s: Seq<u8>, p: int)
    requires
        spec_raw_field(s, p) matches Some((_, f)) && f.kind != FieldKind::Optional,
    ensures
        spec_drop_field_name(s, p, field_kind_name(spec_raw_field(s, p)->Some_0.1.kind)) matches Some(c)
            && spec_raw_field(s, p)->Some_0 == (field_body_end(s, c), FieldModel {
                kind: spec_raw_field(s, p)->Some_0.1.kind,
                name: Seq::empty(),
                data: s.subrange(c, field_body_end(s, c)),
            }),
{
    lemma_raw_field_from_named(s, p, 0);
}

/// The three-letter English name of month `n` (1 for January).
pub open spec fn month_name(n: u32) -> Seq<u8> {
    if n == 1 {
        seq![74u8, 97, 110]  // Jan
    } else if n == 2 {
        seq![70u8, 101, 98]  // Feb
    } else if n == 3 {
        seq![77u8, 97, 114]  // Mar
    } else if n == 4 {
        seq![65u8, 112, 114]  // Apr
    } else if n == 5 {
        seq![77u8, 97, 121]  // May
    } else if n == 6 {
        seq![74u8, 117, 110]  // Jun
    } else if n == 7 {
        seq![74u8, 117, 108]  // Jul
    } else if n == 8 {
        seq![65u8, 117, 103]  // Aug
    } else if n == 9 {
        seq![83u8, 101, 112]  // Sep
    } else if n == 10 {
        seq![79u8, 99, 116]  // Oct
    } else if n == 11 {
        seq![78u8, 111, 118]  // Nov
    } else if n == 12 {
        seq![68u8, 101, 99]  // Dec
    } else {
        Seq::empty()
    }
}

proof fn lemma_lit3(s: Seq<u8>, p: int, a: u8, b: u8, c: u8)
    ensures
        spec_lit(s, p, seq![a, b, c]) is Some <==> (0 <= p && p + 3 <= s.len() && s[p] == a && s[p + 1] == b
            && s[p + 2] == c),
        spec_lit(s, p, seq![a, b, c]) matches Some(e) ==> e == p + 3,
{
    if 0 <= p && p + 3 <= s.len() {
        if s.subrange(p, p + 3) == seq![a, b, c] {
            assert(s.subrange(p, p + 3)[0] == s[p]);
            assert(s.subrange(p, p + 3)[1] == s[p + 1]);
            assert(s.subrange(p, p + 3)[2] == s[p + 2]);
        }
        if s[p] == a && s[p + 1] == b && s[p + 2] == c {
            assert(s.subrange(p, p + 3) =~= seq![a, b, c]);
        }
    }
}

proof fn lemma_lit4(s: Seq<u8>, p: int, a: u8, b: u8, c: u8, d: u8)
    ensures
        spec_lit(s, p, seq![a, b, c, d]) is Some <==> (0 <= p && p + 4 <= s.len() && s[p] == a && s[p + 1] == b
            && s[p + 2] == c && s[p + 3] == d),
        spec_lit(s, p, seq![a, b, c, d]) matches Some(e) ==> e == p + 4,
{
    if 0 <= p && p + 4 <= s.len() {
        if s.subrange(p, p + 4) == seq![a, b, c, d] {
            assert(s.subrange(p, p + 4)[0] == s[p]);
            assert(s.subrange(p, p + 4)[1] == s[p + 1]);
            assert(s.subrange(p, p + 4)[2] == s[p + 2]);
            assert(s.subrange(p, p + 4)[3] == s[p + 3]);
        }
        if s[p] == a && s[p + 1] == b && s[p + 2] == c && s[p + 3] == d {
            assert(s.subrange(p, p + 4) =~= seq![a, b, c, d]);
        }
    }
}

proof fn lemma_month_lits(s: Seq<u8>, p: int)
    ensures
        spec_lit(s, p, seq![74u8, 97, 110]) is Some <==> (0 <= p && p + 3 <= s.len() && s[p] == 74 && s[p + 1] == 97 && s[p + 2] == 110),
        spec_lit(s, p, seq![70u8, 101, 98]) is Some <==> (0 <= p && p + 3 <= s.len() && s[p] == 70 && s[p + 1] == 101 && s[p + 2] == 98),
        spec_lit(s, p, seq![77u8, 97, 114]) is Some <==> (0 <= p && p + 3 <= s.len() && s[p] == 77 && s[p + 1] == 97 && s[p + 2] == 114),
        spec_lit(s, p, seq![65u8, 112, 114]) is Some <==> (0 <= p && p + 3 <= s.len() && s[p] == 65 && s[p + 1] == 112 && s[p + 2] == 114),
        spec_lit(s, p, seq![77u8, 97, 121]) is Some <==> (0 <= p && p + 3 <= s.len() && s[p] == 77 && s[p + 1] == 97 && s[p + 2] == 121),
        spec_lit(s, p, seq![74u8, 117, 110]) is Some <==> (0 <= p && p + 3 <= s.len() && s[p] == 74 && s[p + 1] == 117 && s[p + 2] == 110),
        spec_lit(s, p, seq![74u8, 117, 108]) is Some <==> (0 <= p && p + 3 <= s.len() && s[p] == 74 && s[p + 1] == 117 && s[p + 2] == 108),
        spec_lit(s, p, seq![65u8, 117, 103]) is Some <==> (0 <= p && p + 3 <= s.len() && s[p] == 65 && s[p + 1] == 117 && s[p + 2] == 103),
        spec_lit(s, p, seq![83u8, 101, 112, 116]) is Some <==> (0 <= p && p + 4 <= s.len() && s[p] == 83 && s[p + 1] == 101 && s[p + 2] == 112 && s[p + 3] == 116),
        spec_lit(s, p, seq![83u8, 101, 112]) is Some <==> (0 <= p && p + 3 <= s.len() && s[p] == 83 && s[p + 1] == 101 && s[p + 2] == 112),
        spec_lit(s, p, seq![79u8, 99, 116]) is Some <==> (0 <= p && p + 3 <= s.len() && s[p] == 79 && s[p + 1] == 99 && s[p + 2] == 116),
        spec_lit(s, p, seq![78u8, 111, 118]) is Some <==> (0 <= p && p + 3 <= s.len() && s[p] == 78 && s[p + 1] == 111 && s[p + 2] == 118),
        spec_lit(s, p, seq![68u8, 101, 99]) is Some <==> (0 <= p && p + 3 <= s.len() && s[p] == 68 && s[p + 1] == 101 && s[p + 2] == 99),
        spec_lit(s, p, seq![83u8, 101, 112, 116]) matches Some(e) ==> e == p + 4,
{
    lemma_lit3(s, p, 74, 97, 110);
    lemma_lit3(s, p, 70, 101, 98);
    lemma_lit3(s, p, 77, 97, 114);
    lemma_lit3(s, p, 65, 112, 114);
    lemma_lit3(s, p, 77, 97, 121);
    lemma_lit3(s, p, 74, 117, 110);
    lemma_lit3(s, p, 74, 117, 108);
    lemma_lit3(s, p, 65, 117, 103);
    lemma_lit4(s, p, 83, 101, 112, 116);
    lemma_lit3(s, p, 83, 101, 112);
    lemma_lit3(s, p, 79, 99, 116);
    lemma_lit3(s, p, 78, 111, 118);
    lemma_lit3(s, p, 68, 101, 99);
}

/// The month read is the one named: the three letters where it starts are
/// the name of the month read, and only September takes a fourth letter,
/// the `t` of `Sept`.
pub proof fn law_month_named(s: Seq<u8>, p: int)
    requires
        spec_month(s, p) is Some,
    ensures
        0 <= p && p + 3 <= s.len(),
        s.subrange(p, p + 3) == month_name(spec_month_number(spec_month(s, p)->Some_0.1)),
        spec_month(s, p)->Some_0.0 == p + 3 || (spec_month_number(spec_month(s, p)->Some_0.1) == 9
            && spec_month(s, p)->Some_0.0 == p + 4 && s[p + 3] == 116),
{
    lemma_month_lits(s, p);
    let n = spec_month_number(spec_month(s, p)->Some_0.1);
    assert(s.subrange(p, p + 3) =~= month_name(n));
}

/// Every month name is read as that month: where the three letters at `p`
/// are the name of month `n`, the month read there is `n`, and it ends
/// after the name (after `Sept` where September is written so).
pub proof fn law_month_read(s: Seq<u8>, p: int, n: u32)
    requires
        1 <= n <= 12,
        0 <= p,
        p + 3 <= s.len(),
        s.subrange(p, p + 3) == month_name(n),
    ensures
        spec_month(s, p) matches Some((e, m)) && spec_month_number(m) == n
            && e == (if n == 9 && p + 3 < s.len() && s[p + 3] == 116 { p + 4 } else { p + 3 }),
{
    lemma_month_lits(s, p);
    assert(s[p] == s.subrange(p, p + 3)[0]);
    assert(s[p + 1] == s.subrange(p, p + 3)[1]);
    assert(s[p + 2] == s.subrange(p, p + 3)[2]);
}

proof fn lemma_name_bytes(s: Seq<u8>, p: int, a: Seq<u8>)
    requires
        spec_downcased_string(s, p, a) is Some,
    ensures
        0 < a.len() ==> spec_downcase(s[p + 0]) == spec_downcase(a[0]),
        1 < a.len() ==> spec_downcase(s[p + 1]) == spec_downcase(a[1]),
        2 < a.len() ==> spec_downcase(s[p + 2]) == spec_downcase(a[2]),
        7 < a.len() ==> spec_downcase(s[p + 7]) == spec_downcase(a[7]),
{
}

/// Every field name is read as its own kind: where the name of a kind
/// stands at `p` (ASCII case aside), followed by white space and a colon,
/// the header field read there is of that kind.
#[verifier::rlimit(100)]
pub proof fn law_field_read_by_name(s: Seq<u8>, p: int, k: FieldKind)
    requires
        field_kind_name(k).len() > 0,
        spec_drop_field_name(s, p, field_kind_name(k)) is Some,
    ensures
        spec_raw_field(s, p) matches Some((_, f)) && f.kind == k,
{
    lemma_name_bytes(s, p, field_kind_name(k));
    reveal_with_fuel(spec_raw_field_from, 20);
}

/// The name of each transfer encoding that the grammar names (empty for an
/// extension token).
pub open spec fn encoding_model_name(m: EncodingModel) -> Seq<u8> {
    match m {
        EncodingModel::SevenBit => seq![55u8, 98, 105, 116],  // 7bit
        EncodingModel::EightBit => seq![56u8, 98, 105, 116],  // 8bit
        EncodingModel::Binary => seq![98u8, 105, 110, 97, 114, 121],  // binary
        EncodingModel::QuotedPrintable => seq![113u8, 117, 111, 116, 101, 100, 45, 112, 114, 105, 110, 116, 97, 98, 108, 101],  // quoted-printable
        EncodingModel::Base64 => seq![98u8, 97, 115, 101, 54, 52],  // base64
        EncodingModel::Ext(_) => Seq::empty(),
    }
}

/// `t` with its ASCII capitals made small.
pub open spec fn downcased_text(t: Seq<u8>) -> Seq<u8> {
    t.map_values(|c: u8| spec_downcase(c))
}

proof fn lemma_downcased_match(s: Seq<u8>, p: int, name: Seq<u8>)
    requires
        spec_downcased_string(s, p, name) is Some,
    ensures
        spec_downcased_string(s, p, name) == Some(p + name.len()),
        0 <= p && p + name.len() <= s.len(),
        downcased_text(s.subrange(p, p + name.len())) == downcased_text(name),
{
    assert forall|i: int| 0 <= i < name.len() implies #[trigger] downcased_text(s.subrange(p, p + name.len()))[i]
        == downcased_text(name)[i] by {
        assert(spec_downcase(s[p + i]) == spec_downcase(name[i]));
    }
    assert(downcased_text(s.subrange(p, p + name.len())) =~= downcased_text(name));
}

/// The transfer encoding read names what was written: the text matched is
/// the name of the encoding read, ASCII case aside; an extension token
/// (`x-` and a token) is kept as written.
pub proof fn law_mechanism_named(s: Seq<u8>, p: int)
    requires
        spec_mechanism(s, p) is Some,
    ensures
        0 <= p <= spec_mechanism(s, p)->Some_0.0 <= s.len(),
        match spec_mechanism(s, p)->Some_0 {
            (e, EncodingModel::Ext(n)) => spec_x_token(s, p) == Some((e, n)) && n == ascii_chars(s.subrange(p, e)),
            (e, m) => downcased_text(s.subrange(p, e)) == downcased_text(encoding_model_name(m)),
        },
{
    let n7: Seq<u8> = seq![55u8, 98, 105, 116];
    let n8: Seq<u8> = seq![56u8, 98, 105, 116];
    let nb: Seq<u8> = seq![98u8, 105, 110, 97, 114, 121];
    let nq: Seq<u8> = seq![113u8, 117, 111, 116, 101, 100, 45, 112, 114, 105, 110, 116, 97, 98, 108, 101];
    let n64: Seq<u8> = seq![98u8, 97, 115, 101, 54, 52];
    if spec_downcased_string(s, p, n7) is Some {
        lemma_downcased_match(s, p, n7);
    } else if spec_downcased_string(s, p, n8) is Some {
        lemma_downcased_match(s, p, n8);
    } else if spec_downcased_string(s, p, nb) is Some {
        lemma_downcased_match(s, p, nb);
    } else if spec_downcased_string(s, p, nq) is Some {
        lemma_downcased_match(s, p, nq);
    } else if spec_downcased_string(s, p, n64) is Some {
        lemma_downcased_match(s, p, n64);
    } else {
        let x: Seq<u8> = seq![88u8, 45];
        lemma_downcased_match(s, p, x);
        lemma_run_end(s, p + 2, Class::MimeToken);
    }
}

/// Every transfer encoding that the grammar names is read as itself: where
/// its name stands at `p` (ASCII case aside), the mechanism read there is
/// that encoding, and it ends after the name.
pub proof fn law_mechanism_read(s: Seq<u8>, p: int, m: EncodingModel)
    requires
        !(m is Ext),
        spec_downcased_string(s, p, encoding_model_name(m)) is Some,
    ensures
        spec_mechanism(s, p) == Some((p + encoding_model_name(m).len(), m)),
{
    lemma_name_bytes(s, p, encoding_model_name(m));
}

} // verus!
