//! Reading a request head: its lines, the method, the header fields and the
//! declared body length.

use vstd::prelude::*;
use crate::admission::views;
use crate::connection::{vec_opt, RequestHead};
use crate::text::{eq_ignore_case, push_all, same_ignoring_case};
use vstd::string::StringSliceAdditionalSpecFns;

verus! {

/// `k` starts a blank line: a carriage return and line feed twice.
pub open spec fn blank_line_at(b: Seq<u8>, k: int) -> bool {
    0 <= k && k + 4 <= b.len() && b[k] == 13 && b[k + 1] == 10 && b[k + 2] == 13 && b[k + 3]
        == 10
}

/// Where the head of a request ends: at the first blank line.
pub fn find_head_end(b: &[u8]) -> (r: Option<usize>)
    ensures
        match r {
            Some(k) => blank_line_at(b@, k as int) && forall|j: int|
                0 <= j < k ==> !#[trigger] blank_line_at(b@, j),
            None => forall|j: int| !#[trigger] blank_line_at(b@, j),
        },
{
    let len = b.len();
    if len < 4 {
        return None;
    }
    let mut k: usize = 0;
    while k <= len - 4
        invariant
            len == b@.len(),
            len >= 4,
            0 <= k <= len - 3,
            forall|j: int| 0 <= j < k ==> !#[trigger] blank_line_at(b@, j),
        decreases len - k,
    {
        if b[k] == 13 && b[k + 1] == 10 && b[k + 2] == 13 && b[k + 3] == 10 {
            return Some(k);
        }
        k += 1;
    }
    None
}

/// The finished lines and the line in progress after the first `i` bytes.
pub open spec fn split_state(text: Seq<u8>, i: int) -> (Seq<Seq<u8>>, Seq<u8>)
    decreases i,
{
    if i <= 0 {
        (Seq::empty(), Seq::empty())
    } else {
        let (done, cur) = split_state(text, i - 1);
        if text[i - 1] == 10 {
            (done.push(cur), Seq::empty())
        } else {
            (done, cur.push(text[i - 1]))
        }
    }
}

/// A line without the carriage return that ends it, if any.
pub open spec fn trim_cr(l: Seq<u8>) -> Seq<u8> {
    if l.len() > 0 && l.last() == 13 {
        l.drop_last()
    } else {
        l
    }
}

/// The text cut at each line feed, each line without its carriage return.
pub open spec fn lines_of(text: Seq<u8>) -> Seq<Seq<u8>> {
    let (done, cur) = split_state(text, text.len() as int);
    done.push(cur).map_values(|l: Seq<u8>| trim_cr(l))
}

fn trimmed(v: Vec<u8>) -> (r: Vec<u8>)
    ensures
        r@ == trim_cr(v@),
{
    let ghost original = v@;
    let mut v = v;
    if v.len() > 0 && v[v.len() - 1] == 13 {
        v.pop();
        assert(v@ =~= trim_cr(original));
    }
    v
}

pub fn split_lines(text: &[u8]) -> (r: Vec<Vec<u8>>)
    ensures
        views(r@) == lines_of(text@),
{
    let mut done: Vec<Vec<u8>> = Vec::new();
    let mut cur: Vec<u8> = Vec::new();
    let mut i: usize = 0;
    while i < text.len()
        invariant
            0 <= i <= text@.len(),
            views(done@) == split_state(text@, i as int).0.map_values(|l: Seq<u8>| trim_cr(l)),
            cur@ == split_state(text@, i as int).1,
        decreases text@.len() - i,
    {
        let ghost before = split_state(text@, i as int);
        let ghost d0 = done@;
        if text[i] == 10 {
            let line = trimmed(cur);
            let ghost lv = line@;
            done.push(line);
            cur = Vec::new();
            assert(views(done@) =~= views(d0).push(lv));
            assert(before.0.push(before.1).map_values(|l: Seq<u8>| trim_cr(l)) =~= before.0.map_values(
                |l: Seq<u8>| trim_cr(l),
            ).push(trim_cr(before.1)));
        } else {
            cur.push(text[i]);
        }
        i += 1;
        assert(split_state(text@, i as int) == (if text@[i - 1] == 10 {
            (before.0.push(before.1), Seq::<u8>::empty())
        } else {
            (before.0, before.1.push(text@[i - 1]))
        }));
        assert(cur@ =~= split_state(text@, i as int).1);
    }
    let line = trimmed(cur);
    let ghost st = split_state(text@, text@.len() as int);
    let ghost d0 = done@;
    let ghost lv = line@;
    done.push(line);
    assert(views(done@) =~= views(d0).push(lv));
    assert(st.0.push(st.1).map_values(|l: Seq<u8>| trim_cr(l)) =~= st.0.map_values(
        |l: Seq<u8>| trim_cr(l),
    ).push(trim_cr(st.1)));
    assert(views(done@) =~= lines_of(text@));
    done
}

/// `k` is the position of the first colon of `l`.
pub open spec fn colon_at(l: Seq<u8>, k: int) -> bool {
    0 <= k < l.len() && l[k] == 58 && forall|j: int| 0 <= j < k ==> #[trigger] l[j] != 58
}

pub open spec fn has_colon(l: Seq<u8>) -> bool {
    exists|k: int| colon_at(l, k)
}

pub open spec fn skip_blanks(s: Seq<u8>) -> Seq<u8>
    decreases s.len(),
{
    if s.len() > 0 && (s[0] == 32 || s[0] == 9) {
        skip_blanks(s.drop_first())
    } else {
        s
    }
}

/// The name of a header line: what comes before its first colon.
pub open spec fn field_name(l: Seq<u8>) -> Seq<u8> {
    l.subrange(0, choose|k: int| colon_at(l, k))
}

/// The value of a header line: what follows its first colon, without the
/// blanks that lead it.
pub open spec fn field_value(l: Seq<u8>) -> Seq<u8> {
    skip_blanks(l.subrange((choose|k: int| colon_at(l, k)) + 1, l.len() as int))
}

/// The value of the last of the first `n` lines that is a header of this
/// name, up to ASCII case.
pub open spec fn header_in(lines: Seq<Seq<u8>>, n: int, name: Seq<u8>) -> Option<Seq<u8>>
    decreases n,
{
    if n <= 0 {
        None
    } else if has_colon(lines[n - 1]) && same_ignoring_case(field_name(lines[n - 1]), name) {
        Some(field_value(lines[n - 1]))
    } else {
        header_in(lines, n - 1, name)
    }
}

/// The header lines of a head: every line after the request line.
pub open spec fn header_lines(text: Seq<u8>) -> Seq<Seq<u8>> {
    lines_of(text).drop_first()
}

pub open spec fn header_of(text: Seq<u8>, name: Seq<u8>) -> Option<Seq<u8>> {
    let h = header_lines(text);
    header_in(h, h.len() as int, name)
}

/// `k` ends the method: the first space of the request line, or its end.
pub open spec fn method_end(l: Seq<u8>, k: int) -> bool {
    0 <= k <= l.len() && (k == l.len() || l[k] == 32) && forall|j: int|
        0 <= j < k ==> #[trigger] l[j] != 32
}

pub open spec fn method_of(text: Seq<u8>) -> Seq<u8> {
    let l = lines_of(text)[0];
    l.subrange(0, choose|k: int| method_end(l, k))
}

fn find_colon(l: &[u8]) -> (r: Option<usize>)
    ensures
        match r {
            Some(k) => colon_at(l@, k as int),
            None => !has_colon(l@),
        },
{
    let mut k: usize = 0;
    while k < l.len()
        invariant
            0 <= k <= l@.len(),
            forall|j: int| 0 <= j < k ==> #[trigger] l@[j] != 58,
        decreases l@.len() - k,
    {
        if l[k] == 58 {
            assert(colon_at(l@, k as int));
            return Some(k);
        }
        k += 1;
    }
    assert forall|c: int| !colon_at(l@, c) by {
        if 0 <= c < l@.len() {
            assert(l@[c] != 58);
        }
    }
    None
}

proof fn lemma_colon_unique(l: Seq<u8>, a: int, b: int)
    requires
        colon_at(l, a),
        colon_at(l, b),
    ensures
        a == b,
{
    if a < b {
        assert(l[a] != 58);
    } else if b < a {
        assert(l[b] != 58);
    }
}

fn after_blanks(s: &[u8]) -> (r: &[u8])
    ensures
        r@ == skip_blanks(s@),
{
    let mut i: usize = 0;
    assert(s@.subrange(0, s@.len() as int) =~= s@);
    while i < s.len() && (s[i] == 32 || s[i] == 9)
        invariant
            0 <= i <= s@.len(),
            skip_blanks(s@.subrange(i as int, s@.len() as int)) == skip_blanks(s@),
        decreases s@.len() - i,
    {
        assert(s@.subrange(i as int, s@.len() as int).drop_first() =~= s@.subrange(
            i + 1,
            s@.len() as int,
        ));
        i += 1;
    }
    assert(s@.subrange(0, s@.len() as int) =~= s@);
    vstd::slice::slice_subrange(s, i, s.len())
}

/// The value of the last header line of this name, up to ASCII case.
pub fn find_header(lines: &Vec<Vec<u8>>, from: usize, name: &[u8]) -> (r: Option<Vec<u8>>)
    requires
        from <= lines@.len(),
    ensures
        vec_opt(r) == header_in(views(lines@).subrange(from as int, lines@.len() as int), lines@.len() - from, name@),
{
    let ghost hs = views(lines@).subrange(from as int, lines@.len() as int);
    let mut n: usize = lines.len();
    while n > from
        invariant
            from <= n <= lines@.len(),
            hs == views(lines@).subrange(from as int, lines@.len() as int),
            header_in(hs, lines@.len() - from, name@) == header_in(hs, n - from, name@),
        decreases n,
    {
        let l = lines[n - 1].as_slice();
        assert(hs[n - 1 - from] == l@);
        match find_colon(l) {
            Some(k) => {
                proof {
                    let c = choose|c: int| colon_at(l@, c);
                    lemma_colon_unique(l@, c, k as int);
                }
                let len = l.len();
                assert(k < len);
                let nm = vstd::slice::slice_subrange(l, 0, k);
                if eq_ignore_case(nm, name) {
                    let rest = vstd::slice::slice_subrange(l, k + 1, len);
                    let v = after_blanks(rest);
                    let mut out: Vec<u8> = Vec::new();
                    push_all(&mut out, v);
                    return Some(out);
                }
            },
            None => {},
        }
        n -= 1;
    }
    None
}

pub open spec fn all_digits(s: Seq<u8>) -> bool {
    forall|i: int| 0 <= i < s.len() ==> 48 <= #[trigger] s[i] && s[i] <= 57
}

/// The number that a string of decimal digits writes.
pub open spec fn digits_value(s: Seq<u8>) -> int
    decreases s.len(),
{
    if s.len() == 0 {
        0
    } else {
        digits_value(s.drop_last()) * 10 + (s.last() - 48)
    }
}

/// A `Content-Length` value: one or more decimal digits, of a value that fits
/// in 64 bits.
pub open spec fn length_of(v: Seq<u8>) -> Option<u64> {
    if v.len() > 0 && all_digits(v) && digits_value(v) <= u64::MAX {
        Some(digits_value(v) as u64)
    } else {
        None
    }
}

proof fn lemma_digits_grow(s: Seq<u8>, i: int, j: int)
    requires
        all_digits(s),
        0 <= i <= j <= s.len(),
    ensures
        0 <= digits_value(s.subrange(0, i)) <= digits_value(s.subrange(0, j)),
    decreases j - i,
{
    if i < j {
        lemma_digits_grow(s, i, j - 1);
        assert(s.subrange(0, j).drop_last() =~= s.subrange(0, j - 1));
        assert(48 <= s[j - 1] <= 57);
        assert(0 <= digits_value(s.subrange(0, j - 1)) * 10);
    } else {
        lemma_digits_nonneg(s.subrange(0, i));
    }
}

proof fn lemma_digits_nonneg(s: Seq<u8>)
    requires
        all_digits(s),
    ensures
        digits_value(s) >= 0,
    decreases s.len(),
{
    if s.len() > 0 {
        assert(all_digits(s.drop_last()));
        lemma_digits_nonneg(s.drop_last());
        assert(48 <= s[s.len() - 1]);
    }
}

pub fn parse_length(v: &[u8]) -> (r: Option<u64>)
    ensures
        r == length_of(v@),
{
    if v.len() == 0 {
        return None;
    }
    let mut i: usize = 0;
    while i < v.len()
        invariant
            0 <= i <= v@.len(),
            forall|j: int| 0 <= j < i ==> 48 <= #[trigger] v@[j] && v@[j] <= 57,
        decreases v@.len() - i,
    {
        if v[i] < 48 || v[i] > 57 {
            return None;
        }
        i += 1;
    }
    let mut acc: u64 = 0;
    let mut i: usize = 0;
    assert(v@.subrange(0, 0) =~= Seq::<u8>::empty());
    while i < v.len()
        invariant
            0 <= i <= v@.len(),
            all_digits(v@),
            acc as int == digits_value(v@.subrange(0, i as int)),
        decreases v@.len() - i,
    {
        let d = (v[i] - 48) as u64;
        assert(v@.subrange(0, i + 1).drop_last() =~= v@.subrange(0, i as int));
        if acc > (u64::MAX - d) / 10 {
            proof {
                assert(acc * 10 + d > u64::MAX) by (nonlinear_arith)
                    requires
                        acc > (u64::MAX - d) / 10,
                        d <= 9,
                ;
                lemma_digits_grow(v@, i + 1, v@.len() as int);
                assert(v@.subrange(0, v@.len() as int) =~= v@);
            }
            return None;
        }
        proof {
            assert(acc * 10 + d <= u64::MAX) by (nonlinear_arith)
                requires
                    acc <= (u64::MAX - d) / 10,
                    d <= 9,
            ;
        }
        acc = acc * 10 + d;
        i += 1;
    }
    assert(v@.subrange(0, v@.len() as int) =~= v@);
    Some(acc)
}

/// Reads the head of a request, the text before the blank line that ends it:
/// the method from the request line, and the `Host`, `Origin`,
/// `Content-Type` and `Content-Length` fields, the last of each where one repeats.
pub fn parse_head(text: &[u8]) -> (r: RequestHead)
    ensures
        r.method@ == method_of(text@),
        vec_opt(r.host) == header_of(text@, "host".spec_bytes()),
        vec_opt(r.origin) == header_of(text@, "origin".spec_bytes()),
        vec_opt(r.content_type) == header_of(text@, "content-type".spec_bytes()),
        r.content_length == match header_of(text@, "content-length".spec_bytes()) {
            Some(v) => length_of(v),
            None => None,
        },
{
    let lines = split_lines(text);
    let first = lines[0].as_slice();
    let mut k: usize = 0;
    while k < first.len() && first[k] != 32
        invariant
            0 <= k <= first@.len(),
            forall|j: int| 0 <= j < k ==> #[trigger] first@[j] != 32,
        decreases first@.len() - k,
    {
        k += 1;
    }
    proof {
        assert(method_end(first@, k as int));
        let c = choose|c: int| method_end(first@, c);
        if c < k {
            assert(first@[c] != 32);
        } else if c > k {
            assert(first@[k as int] != 32);
        }
    }
    let mut method: Vec<u8> = Vec::new();
    push_all(&mut method, vstd::slice::slice_subrange(first, 0, k));
    assert(views(lines@).subrange(1, lines@.len() as int) =~= header_lines(text@));
    let content_length = match find_header(&lines, 1, "content-length".as_bytes()) {
        Some(v) => parse_length(v.as_slice()),
        None => None,
    };
    RequestHead {
        method,
        content_length,
        host: find_header(&lines, 1, "host".as_bytes()),
        origin: find_header(&lines, 1, "origin".as_bytes()),
        content_type: find_header(&lines, 1, "content-type".as_bytes()),
    }
}

} // verus!
