//! Byte helpers shared by the grammar modules: digits, case-insensitive
//! literals, byte concatenation and text conversion.

use vstd::prelude::*;
use vstd::utf8::{valid_utf8, decode_utf8};

verus! {

/// The outcome of an executable parser, read in terms of positions as
/// integers and the value by its view.
pub open spec fn lift<T: View>(r: Option<(usize, T)>) -> Option<(int, T::V)> {
    match r {
        Some((e, v)) => Some((e as int, v@)),
        None => None,
    }
}

/// The outcome of a parser that yields only the position after its match.
pub open spec fn lift_end(r: Option<usize>) -> Option<int> {
    match r {
        Some(e) => Some(e as int),
        None => None,
    }
}

/// The byte strings held by a vector of byte vectors.
pub open spec fn views(v: Seq<Vec<u8>>) -> Seq<Seq<u8>> {
    v.map_values(|x: Vec<u8>| x@)
}

pub proof fn lemma_views_push(v: Seq<Vec<u8>>, x: Vec<u8>)
    ensures
        views(v.push(x)) == views(v).push(x@),
{
    assert(views(v.push(x)) =~= views(v).push(x@));
}

pub proof fn lemma_views_add(a: Seq<Vec<u8>>, b: Seq<Vec<u8>>)
    ensures
        views(a + b) == views(a) + views(b),
{
    assert(views(a + b) =~= views(a) + views(b));
}

/// An ASCII decimal digit.
pub open spec fn spec_is_digit(c: u8) -> bool {
    48 <= c <= 57
}

pub fn is_digit(c: u8) -> (r: bool)
    ensures
        r == spec_is_digit(c),
{
    48 <= c && c <= 57
}

/// Number of consecutive digits of `s` starting at `p`.
pub open spec fn digit_run(s: Seq<u8>, p: int) -> nat
    decreases s.len() - p,
{
    if 0 <= p < s.len() && spec_is_digit(s[p]) {
        1 + digit_run(s, p + 1)
    } else {
        0
    }
}

/// The decimal value of the digits `s[p..e]`.
pub open spec fn digits_value(s: Seq<u8>, p: int, e: int) -> nat
    decreases e - p,
{
    if e <= p {
        0
    } else {
        digits_value(s, p, e - 1) * 10 + (s[e - 1] - 48) as nat
    }
}

/// `bounded::skip_many(range, digit)` followed by a decimal conversion into a
/// `usize`: at most `max` digits (unbounded when `max` is `None`) are taken
/// greedily, at least `min` must be present, and the number must fit.
pub open spec fn spec_parse_digits(s: Seq<u8>, p: int, min: nat, max: Option<nat>) -> Option<(int, nat)> {
    let run = digit_run(s, p);
    let n: nat = match max {
        Some(m) => if run < m { run } else { m },
        None => run,
    };
    if n < min {
        None
    } else if digits_value(s, p, p + n) > usize::MAX {
        None
    } else {
        Some((p + n, digits_value(s, p, p + n)))
    }
}

pub proof fn lemma_digit_run_bound(s: Seq<u8>, p: int)
    requires
        0 <= p <= s.len(),
    ensures
        p + digit_run(s, p) <= s.len(),
        forall|i: int| p <= i < p + digit_run(s, p) ==> spec_is_digit(#[trigger] s[i]),
        p + digit_run(s, p) < s.len() ==> !spec_is_digit(s[p + digit_run(s, p)]),
    decreases s.len() - p,
{
    if p < s.len() && spec_is_digit(s[p]) {
        lemma_digit_run_bound(s, p + 1);
    }
}

pub proof fn lemma_digit_run_exact(s: Seq<u8>, p: int, e: int)
    requires
        0 <= p <= e <= s.len(),
        forall|i: int| p <= i < e ==> spec_is_digit(#[trigger] s[i]),
        e == s.len() || !spec_is_digit(s[e]),
    ensures
        digit_run(s, p) == e - p,
    decreases e - p,
{
    if p < e {
        lemma_digit_run_exact(s, p + 1, e);
    }
}

pub proof fn lemma_digits_value_mono(s: Seq<u8>, p: int, k: int, e: int)
    requires
        p <= k <= e,
        forall|i: int| p <= i < e ==> spec_is_digit(#[trigger] s[i]),
    ensures
        digits_value(s, p, k) <= digits_value(s, p, e),
    decreases e - k,
{
    if k < e {
        lemma_digits_value_mono(s, p, k, e - 1);
        assert(spec_is_digit(s[e - 1]));
    }
}

pub open spec fn opt_nat(m: Option<usize>) -> Option<nat> {
    match m {
        Some(k) => Some(k as nat),
        None => None,
    }
}

/// Parses a run of decimal digits: `min` digits at least, `max` at most
/// (unbounded when `None`), converted into a `usize`.
pub fn parse_digits(s: &[u8], pos: usize, min: usize, max: Option<usize>) -> (r: Option<(usize, usize)>)
    requires
        pos <= s.len(),
    ensures
        match r {
            Some((e, v)) => spec_parse_digits(s@, pos as int, min as nat, opt_nat(max))
                == Some((e as int, v as nat)),
            None => spec_parse_digits(s@, pos as int, min as nat, opt_nat(max)) is None,
        },
        r matches Some((e, _)) ==> pos <= e <= s.len(),
{
    let mut i = pos;
    let mut value: usize = 0;
    let mut overflow = false;
    proof {
        lemma_digit_run_bound(s@, pos as int);
    }
    let end: usize = match max {
        Some(m) => if m < s.len() - pos { pos + m } else { s.len() },
        None => s.len(),
    };
    while i < end && is_digit(s[i])
        invariant
            pos <= i <= end <= s.len(),
            end == match max {
                Some(m) => if m < s.len() - pos { pos + m } else { s.len() as int },
                None => s.len() as int,
            },
            i - pos <= digit_run(s@, pos as int),
            forall|j: int| pos <= j < i ==> spec_is_digit(#[trigger] s@[j]),
            match max {
                Some(m) => i - pos <= m,
                None => true,
            },
            !overflow ==> value == digits_value(s@, pos as int, i as int),
            overflow ==> digits_value(s@, pos as int, i as int) > usize::MAX,
        decreases s.len() - i,
    {
        let d = (s[i] - 48) as usize;
        proof {
            lemma_digit_run_bound(s@, pos as int);
            lemma_digits_value_mono(s@, pos as int, i as int, i + 1);
        }
        if !overflow {
            if value > (usize::MAX - d) / 10 {
                overflow = true;
                assert(value * 10 + d > usize::MAX) by (nonlinear_arith)
                    requires value > (usize::MAX - d) / 10, d <= 9;
            } else {
                assert(value * 10 + d <= usize::MAX) by (nonlinear_arith)
                    requires value <= (usize::MAX - d) / 10, d <= 9;
                value = value * 10 + d;
            }
        }
        i = i + 1;
    }
    proof {
        lemma_digit_run_bound(s@, pos as int);
        if i == end && end < s.len() {
        } else {
            lemma_digit_run_exact(s@, pos as int, i as int);
        }
    }
    if i - pos < min {
        return None;
    }
    if overflow {
        return None;
    }
    Some((i, value))
}

/// ASCII case folding (`A`-`Z` to `a`-`z`), the table `DOWNCASE_ASCII`.
pub open spec fn spec_downcase(c: u8) -> u8 {
    if 65 <= c <= 90 {
        (c + 32) as u8
    } else {
        c
    }
}

pub fn downcase(c: u8) -> (r: u8)
    ensures
        r == spec_downcase(c),
{
    if 65 <= c && c <= 90 {
        c + 32
    } else {
        c
    }
}

/// `s[p..]` starts with `name`, comparing ASCII letters without regard to case.
pub open spec fn spec_downcased_string(s: Seq<u8>, p: int, name: Seq<u8>) -> Option<int> {
    if 0 <= p && p + name.len() <= s.len() && (forall|i: int|
        0 <= i < name.len() ==> spec_downcase(#[trigger] s[p + i]) == spec_downcase(name[i])) {
        Some(p + name.len())
    } else {
        None
    }
}

/// The length of the longest prefix of `name` that `s[p..]` starts with,
/// ASCII letters compared without regard to case, counting from `k`.
pub open spec fn downcased_prefix(s: Seq<u8>, p: int, name: Seq<u8>, k: int) -> int
    decreases name.len() - k,
{
    if 0 <= k < name.len() && 0 <= p + k < s.len() && spec_downcase(s[p + k]) == spec_downcase(name[k]) {
        downcased_prefix(s, p, name, k + 1)
    } else {
        k
    }
}

proof fn lemma_downcased_prefix(s: Seq<u8>, p: int, name: Seq<u8>, k: int)
    requires
        0 <= p <= s.len(),
        0 <= k <= name.len(),
        p + k <= s.len(),
        forall|i: int| 0 <= i < k ==> spec_downcase(#[trigger] s[p + i]) == spec_downcase(name[i]),
    ensures
        k <= downcased_prefix(s, p, name, k) <= name.len(),
        p + downcased_prefix(s, p, name, k) <= s.len(),
        forall|i: int|
            0 <= i < downcased_prefix(s, p, name, k) ==> spec_downcase(#[trigger] s[p + i]) == spec_downcase(name[i]),
        downcased_prefix(s, p, name, k) < name.len() ==> !(p + downcased_prefix(s, p, name, k) < s.len()
            && spec_downcase(s[p + downcased_prefix(s, p, name, k)]) == spec_downcase(
            name[downcased_prefix(s, p, name, k)],
        )),
    decreases name.len() - k,
{
    if 0 <= k < name.len() && 0 <= p + k < s.len() && spec_downcase(s[p + k]) == spec_downcase(name[k]) {
        lemma_downcased_prefix(s, p, name, k + 1);
    }
}

/// The same as matching the literal `name`, except that ASCII letters are
/// compared without regard to case.  Returns the position after the match;
/// on failure, the byte of `name` that was expected where the match stopped.
pub fn downcased_string(s: &[u8], pos: usize, name: &[u8]) -> (r: Result<usize, u8>)
    requires
        pos <= s.len(),
    ensures
        match r {
            Ok(e) => spec_downcased_string(s@, pos as int, name@) == Some(e as int),
            Err(b) => spec_downcased_string(s@, pos as int, name@) is None && downcased_prefix(s@, pos as int, name@, 0)
                < name@.len() && b == name@[downcased_prefix(s@, pos as int, name@, 0)],
        },
        r matches Ok(e) ==> pos <= e <= s.len(),
{
    proof {
        lemma_downcased_prefix(s@, pos as int, name@, 0);
    }
    let mut n: usize = 0;
    while n < name.len()
        invariant
            pos <= s.len(),
            n <= name.len(),
            pos + n <= s.len(),
            forall|i: int| 0 <= i < n ==> spec_downcase(#[trigger] s@[pos + i]) == spec_downcase(name@[i]),
            downcased_prefix(s@, pos as int, name@, 0) == downcased_prefix(s@, pos as int, name@, n as int),
        decreases name.len() - n,
    {
        if pos + n >= s.len() || downcase(s[pos + n]) != downcase(name[n]) {
            proof {
                if pos + n < s.len() {
                    assert(!(spec_downcase(s@[pos + n as int]) == spec_downcase(name@[n as int])));
                }
                assert(downcased_prefix(s@, pos as int, name@, n as int) == n);
            }
            return Err(name[n]);
        }
        n = n + 1;
    }
    Ok(pos + n)
}

/// Appends `s[from..to]` to `v`.
pub fn push_range(v: &mut Vec<u8>, s: &[u8], from: usize, to: usize)
    requires
        from <= to <= s.len(),
    ensures
        final(v)@ == old(v)@ + s@.subrange(from as int, to as int),
{
    let mut i = from;
    while i < to
        invariant
            from <= i <= to <= s.len(),
            v@ == old(v)@ + s@.subrange(from as int, i as int),
        decreases to - i,
    {
        v.push(s[i]);
        assert(s@.subrange(from as int, i + 1) == s@.subrange(from as int, i as int).push(s@[i as int]));
        i = i + 1;
    }
}

/// A copy of `s[from..to]`.
pub fn copy_range(s: &[u8], from: usize, to: usize) -> (r: Vec<u8>)
    requires
        from <= to <= s.len(),
    ensures
        r@ == s@.subrange(from as int, to as int),
{
    let mut v = Vec::new();
    push_range(&mut v, s, from, to);
    assert(Seq::<u8>::empty() + s@.subrange(from as int, to as int) == s@.subrange(from as int, to as int));
    v
}

/// Bytes that are all ASCII (below 128).
pub open spec fn is_ascii_bytes(b: Seq<u8>) -> bool {
    forall|i: int| 0 <= i < b.len() ==> #[trigger] b[i] < 128
}

/// ASCII bytes read as characters.
pub open spec fn ascii_chars(b: Seq<u8>) -> Seq<char> {
    b.map_values(|c: u8| c as char)
}

/// ASCII bytes are valid UTF-8 and decode to the characters of the same codes.
pub proof fn lemma_ascii_utf8(b: Seq<u8>)
    requires
        is_ascii_bytes(b),
    ensures
        valid_utf8(b),
        decode_utf8(b) == ascii_chars(b),
    decreases b.len(),
{
    if b.len() > 0 {
        let rest = b.subrange(1, b.len() as int);
        assert(is_ascii_bytes(rest)) by {
            assert forall|i: int| 0 <= i < rest.len() implies #[trigger] rest[i] < 128 by {
                assert(rest[i] == b[i + 1]);
            }
        }
        lemma_ascii_utf8(rest);
        let c = b[0];
        assert(c < 128);
        assert(c & 0x7f == c) by (bit_vector)
            requires c < 128;
        assert(vstd::utf8::pop_first_scalar(b) == rest);
        assert(decode_utf8(b) =~= ascii_chars(b)) by {
            assert(ascii_chars(b) =~= seq![c as char] + ascii_chars(rest));
        }
    } else {
        assert(decode_utf8(b) =~= ascii_chars(b));
    }
}

/// `String::from_utf8` of std: the text that the bytes encode in UTF-8, or
/// `None` when they are not valid UTF-8.  The contract claims what std
/// documents, in terms of vstd's UTF-8 definitions.
#[verifier::external_body]
pub fn string_from_utf8(v: Vec<u8>) -> (r: Option<String>)
    ensures
        r is Some <==> valid_utf8(v@),
        r matches Some(x) ==> x@ == decode_utf8(v@),
{
    String::from_utf8(v).ok()
}

/// The text of ASCII bytes.
pub fn ascii_string(v: Vec<u8>) -> (r: String)
    requires
        is_ascii_bytes(v@),
    ensures
        r@ == ascii_chars(v@),
{
    proof {
        lemma_ascii_utf8(v@);
    }
    let ghost bytes = v@;
    match string_from_utf8(v) {
        Some(x) => x,
        None => {
            assert(false);
            String::new()
        },
    }
}

/// The text that `String::from_utf8_lossy` makes of `b`: the decoded
/// characters, each invalid sequence being replaced by U+FFFD.
pub uninterp spec fn utf8_lossy(b: Seq<u8>) -> Seq<char>;

/// `String::from_utf8_lossy(b).into_owned()` of std.  The contract names the
/// result `utf8_lossy(b)`, and states what std documents of valid input:
/// it is then decoded unchanged.  How invalid sequences are replaced is left
/// to the name.
#[verifier::external_body]
pub fn string_from_utf8_lossy(b: &[u8]) -> (r: String)
    ensures
        r@ == utf8_lossy(b@),
        valid_utf8(b@) ==> r@ == decode_utf8(b@),
{
    String::from_utf8_lossy(b).into_owned()
}

/// `String::push_str` of std: appends `t` to `s`.  The contract claims what
/// std documents: the text of `s` becomes its old text followed by `t`.
#[verifier::external_body]
pub fn string_push_str(s: &mut String, t: &str)
    ensures
        final(s)@ == old(s)@ + t@,
{
    s.push_str(t)
}

/// The decimal digits of `n`, most significant first, as ASCII bytes.
pub open spec fn decimal_bytes(n: nat) -> Seq<u8>
    decreases n,
{
    if n < 10 {
        seq![(48 + n) as u8]
    } else {
        decimal_bytes(n / 10).push((48 + n % 10) as u8)
    }
}

pub proof fn lemma_decimal_bytes_ascii(n: nat)
    ensures
        is_ascii_bytes(decimal_bytes(n)),
    decreases n,
{
    if n >= 10 {
        lemma_decimal_bytes_ascii(n / 10);
    }
}

fn push_decimal(out: &mut Vec<u8>, n: usize)
    ensures
        final(out)@ == old(out)@ + decimal_bytes(n as nat),
    decreases n,
{
    if n >= 10 {
        push_decimal(out, n / 10);
    }
    out.push(48 + (n % 10) as u8);
    proof {
        if n < 10 {
            assert(decimal_bytes(n as nat) == seq![(48 + n) as u8]);
        }
    }
}

/// The decimal text of `n`.
pub fn decimal_string(n: usize) -> (r: String)
    ensures
        r@ == ascii_chars(decimal_bytes(n as nat)),
{
    let mut v: Vec<u8> = Vec::new();
    push_decimal(&mut v, n);
    assert(v@ =~= decimal_bytes(n as nat));
    proof {
        lemma_decimal_bytes_ascii(n as nat);
    }
    ascii_string(v)
}

/// The text of the bytes of `bufs` put end to end; they must form valid
/// UTF-8.
pub fn unchecked_string_from_bufs(bufs: Vec<Vec<u8>>) -> (r: String)
    requires
        valid_utf8(views(bufs@).flatten()),
    ensures
        r@ == decode_utf8(views(bufs@).flatten()),
{
    let mut bytes: Vec<u8> = Vec::new();
    let mut i: usize = 0;
    while i < bufs.len()
        invariant
            i <= bufs@.len(),
            bytes@ == views(bufs@).take(i as int).flatten_alt(),
        decreases bufs.len() - i,
    {
        let ghost before = bytes@;
        push_range(&mut bytes, bufs[i].as_slice(), 0, bufs[i].len());
        proof {
            let t = views(bufs@).take(i + 1);
            assert(t.drop_last() =~= views(bufs@).take(i as int));
            assert(t.last() == bufs@[i as int]@);
            assert(bufs@[i as int]@.subrange(0, bufs@[i as int]@.len() as int) =~= bufs@[i as int]@);
        }
        i = i + 1;
    }
    proof {
        assert(views(bufs@).take(bufs@.len() as int) =~= views(bufs@));
        views(bufs@).lemma_flatten_and_flatten_alt_are_equivalent();
    }
    match string_from_utf8(bytes) {
        Some(x) => x,
        None => {
            assert(false);
            String::new()
        },
    }
}

} // verus!
