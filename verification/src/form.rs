//! Parsing of `application/x-www-form-urlencoded` bodies.
//!
//! A body is a sequence of `key=value` segments separated by `&`. Within a
//! segment, the bytes before the first `=` form the key and the bytes after
//! it form the value (a segment without `=` has an empty value). Keys and
//! values are percent-decoded: `+` stands for a space and `%XY` (two hex
//! digits) stands for the byte `0xXY`. A `%` not followed by two hex digits
//! makes the whole body malformed.

use vstd::prelude::*;

verus! {

/// `&`, the separator between key/value segments.
pub const AMP: u8 = 38;
/// `=`, the separator between a key and its value.
pub const EQ: u8 = 61;
/// `%`, the escape introducing two hex digits.
pub const PERCENT: u8 = 37;
/// `+`, the encoding of a space inside a segment.
pub const PLUS: u8 = 43;
/// The space byte that `+` decodes to.
pub const SPACE: u8 = 32;

/// Is `b` an ASCII hex digit (`0-9`, `a-f`, `A-F`)?
pub open spec fn is_hex_digit(b: u8) -> bool {
    (48 <= b && b <= 57) || (97 <= b && b <= 102) || (65 <= b && b <= 70)
}

/// The numeric value of the hex digit `b` (meaningful only when
/// `is_hex_digit(b)` holds).
pub open spec fn hex_value(b: u8) -> u8 {
    if 48 <= b && b <= 57 {
        (b - 48) as u8
    } else if 97 <= b && b <= 102 {
        (b - 87) as u8
    } else {
        (b - 55) as u8
    }
}

/// Percent-decoding of one segment: `+` becomes a space, `%XY` becomes the
/// byte `0xXY`, every other byte stands for itself. `None` when a `%` is not
/// followed by two hex digits.
pub open spec fn spec_decode(s: Seq<u8>) -> Option<Seq<u8>>
    decreases s.len(),
{
    if s.len() == 0 {
        Some(Seq::empty())
    } else if s[0] == PLUS {
        match spec_decode(s.skip(1)) {
            Some(r) => Some(seq![SPACE] + r),
            None => None,
        }
    } else if s[0] == PERCENT {
        if s.len() >= 3 && is_hex_digit(s[1]) && is_hex_digit(s[2]) {
            match spec_decode(s.skip(3)) {
                Some(r) => Some(seq![(hex_value(s[1]) * 16 + hex_value(s[2])) as u8] + r),
                None => None,
            }
        } else {
            None
        }
    } else {
        match spec_decode(s.skip(1)) {
            Some(r) => Some(seq![s[0]] + r),
            None => None,
        }
    }
}

/// The position of the first occurrence of `b` in `s`, or `s.len()` when `b`
/// does not occur.
pub open spec fn first_index_of(s: Seq<u8>, b: u8) -> nat
    decreases s.len(),
{
    if s.len() == 0 {
        0
    } else if s[0] == b {
        0
    } else {
        (1 + first_index_of(s.skip(1), b)) as nat
    }
}

/// A position that holds `b` and has no `b` before it is `first_index_of`;
/// so is the length when `b` does not occur at all.
pub proof fn lemma_first_index_of_is(s: Seq<u8>, b: u8, i: int)
    requires
        0 <= i <= s.len(),
        i < s.len() ==> s[i] == b,
        forall|j: int| 0 <= j < i ==> s[j] != b,
    ensures
        first_index_of(s, b) == i,
    decreases s.len(),
{
    if i == 0 {
    } else {
        assert(s[0] != b);
        assert forall|j: int| 0 <= j < i - 1 implies s.skip(1)[j] != b by {
            assert(s.skip(1)[j] == s[j + 1]);
        }
        assert(i - 1 < s.skip(1).len() ==> s.skip(1)[i - 1] == b);
        lemma_first_index_of_is(s.skip(1), b, i - 1);
    }
}

/// The position of the first occurrence of `b` in `s` at or after `from`, or
/// `s.len()` when there is none.
fn find_from(s: &Vec<u8>, from: usize, b: u8) -> (i: usize)
    requires
        from <= s.len(),
    ensures
        from <= i <= s.len(),
        i < s.len() ==> s@[i as int] == b,
        forall|j: int| from <= j < i ==> s@[j] != b,
{
    let mut i: usize = from;
    while i < s.len()
        invariant
            from <= i <= s.len(),
            forall|j: int| from <= j < i ==> s@[j] != b,
        decreases s.len() - i,
    {
        if s[i] == b {
            return i;
        }
        i = i + 1;
    }
    i
}

/// Copies `s[lo..hi]` into a fresh vector.
fn copy_range(s: &Vec<u8>, lo: usize, hi: usize) -> (r: Vec<u8>)
    requires
        lo <= hi <= s.len(),
    ensures
        r@ == s@.subrange(lo as int, hi as int),
{
    let mut r: Vec<u8> = Vec::new();
    let mut i: usize = lo;
    while i < hi
        invariant
            lo <= i <= hi <= s.len(),
            r@ == s@.subrange(lo as int, i as int),
        decreases hi - i,
    {
        r.push(s[i]);
        i = i + 1;
        proof {
            assert(s@.subrange(lo as int, i as int) =~= s@.subrange(lo as int, i - 1).push(
                s@[i - 1],
            ));
        }
    }
    r
}

/// Byte-wise equality of two vectors.
pub fn bytes_eq(a: &Vec<u8>, b: &Vec<u8>) -> (r: bool)
    ensures
        r == (a@ == b@),
{
    if a.len() != b.len() {
        return false;
    }
    let mut i: usize = 0;
    while i < a.len()
        invariant
            i <= a.len() == b.len(),
            forall|j: int| 0 <= j < i ==> a@[j] == b@[j],
        decreases a.len() - i,
    {
        if a[i] != b[i] {
            return false;
        }
        i = i + 1;
    }
    proof {
        assert(a@ =~= b@);
    }
    true
}

/// The numeric value of a hex digit, or `None` when `b` is not one.
fn hex_digit_value(b: u8) -> (r: Option<u8>)
    ensures
        r is Some <==> is_hex_digit(b),
        r is Some ==> r.unwrap() == hex_value(b),
{
    if 48 <= b && b <= 57 {
        Some(b - 48)
    } else if 97 <= b && b <= 102 {
        Some(b - 87)
    } else if 65 <= b && b <= 70 {
        Some(b - 55)
    } else {
        None
    }
}

/// Percent-decodes one segment, following `spec_decode`.
pub fn percent_decode(s: &Vec<u8>) -> (r: Option<Vec<u8>>)
    ensures
        match r {
            Some(v) => spec_decode(s@) == Some(v@),
            None => spec_decode(s@) is None,
        },
{
    let mut out: Vec<u8> = Vec::new();
    let mut i: usize = 0;
    proof {
        assert(s@.skip(0) =~= s@);
    }
    while i < s.len()
        invariant
            i <= s.len(),
            spec_decode(s@) == (match spec_decode(s@.skip(i as int)) {
                Some(rest) => Some(out@ + rest),
                None => None::<Seq<u8>>,
            }),
        decreases s.len() - i,
    {
        let ghost t = s@.skip(i as int);
        let ghost out0 = out@;
        proof {
            assert(t[0] == s@[i as int]);
        }
        let c = s[i];
        if c == PLUS {
            out.push(SPACE);
            i = i + 1;
            proof {
                assert(t.skip(1) =~= s@.skip(i as int));
                if spec_decode(s@.skip(i as int)) is Some {
                    let rest = spec_decode(s@.skip(i as int)).unwrap();
                    assert(spec_decode(t) == Some(seq![SPACE] + rest));
                    assert(out0 + (seq![SPACE] + rest) =~= out@ + rest);
                }
            }
        } else if c == PERCENT {
            if s.len() - i < 3 {
                proof {
                    assert(t.len() < 3);
                    assert(spec_decode(t) is None);
                }
                return None;
            }
            proof {
                assert(t[1] == s@[i + 1]);
                assert(t[2] == s@[i + 2]);
            }
            let hi = hex_digit_value(s[i + 1]);
            let lo = hex_digit_value(s[i + 2]);
            match (hi, lo) {
                (Some(h), Some(l)) => {
                    let byte: u8 = h * 16 + l;
                    out.push(byte);
                    i = i + 3;
                    proof {
                        assert(t.skip(3) =~= s@.skip(i as int));
                        if spec_decode(s@.skip(i as int)) is Some {
                            let rest = spec_decode(s@.skip(i as int)).unwrap();
                            assert(spec_decode(t) == Some(seq![byte] + rest));
                            assert(out0 + (seq![byte] + rest) =~= out@ + rest);
                        }
                    }
                },
                _ => {
                    proof {
                        assert(spec_decode(t) is None);
                    }
                    return None;
                },
            }
        } else {
            out.push(c);
            i = i + 1;
            proof {
                assert(t.skip(1) =~= s@.skip(i as int));
                if spec_decode(s@.skip(i as int)) is Some {
                    let rest = spec_decode(s@.skip(i as int)).unwrap();
                    assert(spec_decode(t) == Some(seq![c] + rest));
                    assert(out0 + (seq![c] + rest) =~= out@ + rest);
                }
            }
        }
    }
    proof {
        assert(s@.skip(s@.len() as int) =~= Seq::<u8>::empty());
        assert(out@ + Seq::<u8>::empty() =~= out@);
    }
    Some(out)
}

/// One decoded `key=value` pair.
pub struct Pair {
    pub key: Vec<u8>,
    pub value: Vec<u8>,
}

impl View for Pair {
    type V = (Seq<u8>, Seq<u8>);

    open spec fn view(&self) -> (Seq<u8>, Seq<u8>) {
        (self.key@, self.value@)
    }
}

/// Splits one segment at its first `=` and percent-decodes both halves; a
/// segment without `=` is a key with an empty value. `None` when either half
/// is malformed.
pub open spec fn spec_parse_pair(seg: Seq<u8>) -> Option<(Seq<u8>, Seq<u8>)> {
    let j = first_index_of(seg, EQ) as int;
    if j >= seg.len() {
        match spec_decode(seg) {
            Some(k) => Some((k, Seq::empty())),
            None => None,
        }
    } else {
        match (spec_decode(seg.take(j)), spec_decode(seg.skip(j + 1))) {
            (Some(k), Some(v)) => Some((k, v)),
            _ => None,
        }
    }
}

/// The decoded pairs of a whole body: segments are separated by `&`, in
/// order; `None` as soon as one segment is malformed. An empty body is one
/// empty segment, whose pair has an empty key and an empty value.
pub open spec fn spec_parse_form(s: Seq<u8>) -> Option<Seq<(Seq<u8>, Seq<u8>)>>
    decreases s.len(),
{
    let i = first_index_of(s, AMP) as int;
    if i >= s.len() {
        match spec_parse_pair(s) {
            Some(p) => Some(seq![p]),
            None => None,
        }
    } else {
        match spec_parse_pair(s.take(i)) {
            Some(p) => match spec_parse_form(s.skip(i + 1)) {
                Some(r) => Some(seq![p] + r),
                None => None,
            },
            None => None,
        }
    }
}

/// Parses one segment, following `spec_parse_pair`.
fn parse_pair(seg: &Vec<u8>) -> (r: Option<Pair>)
    ensures
        match r {
            Some(p) => spec_parse_pair(seg@) == Some(p@),
            None => spec_parse_pair(seg@) is None,
        },
{
    let j = find_from(seg, 0, EQ);
    proof {
        lemma_first_index_of_is(seg@, EQ, j as int);
    }
    if j == seg.len() {
        match percent_decode(seg) {
            Some(k) => {
                let p = Pair { key: k, value: Vec::new() };
                proof {
                    assert(p@.1 =~= Seq::<u8>::empty());
                }
                Some(p)
            },
            None => None,
        }
    } else {
        let raw_key = copy_range(seg, 0, j);
        let raw_val = copy_range(seg, j + 1, seg.len());
        proof {
            assert(raw_key@ =~= seg@.take(j as int));
            assert(raw_val@ =~= seg@.skip(j + 1));
        }
        match (percent_decode(&raw_key), percent_decode(&raw_val)) {
            (Some(k), Some(v)) => Some(Pair { key: k, value: v }),
            _ => None,
        }
    }
}

/// Parses a whole body into its decoded pairs, following `spec_parse_form`.
pub fn parse_form(body: &Vec<u8>) -> (r: Option<Vec<Pair>>)
    ensures
        match r {
            Some(ps) => spec_parse_form(body@) == Some(ps@.map_values(|p: Pair| p@)),
            None => spec_parse_form(body@) is None,
        },
{
    let mut out: Vec<Pair> = Vec::new();
    let mut pos: usize = 0;
    proof {
        assert(body@.skip(0) =~= body@);
        assert(out@.map_values(|p: Pair| p@) =~= Seq::<(Seq<u8>, Seq<u8>)>::empty());
    }
    loop
        invariant
            pos <= body.len(),
            spec_parse_form(body@) == (match spec_parse_form(body@.skip(pos as int)) {
                Some(r) => Some(out@.map_values(|p: Pair| p@) + r),
                None => None::<Seq<(Seq<u8>, Seq<u8>)>>,
            }),
        decreases body.len() - pos,
    {
        let ghost pos0 = pos as int;
        let ghost t = body@.skip(pos as int);
        let ghost out0 = out@.map_values(|p: Pair| p@);
        let i = find_from(body, pos, AMP);
        proof {
            assert forall|j: int| 0 <= j < i - pos implies t[j] != AMP by {
                assert(t[j] == body@[pos + j]);
            }
            assert(i < body@.len() ==> t[i - pos] == body@[i as int]);
            lemma_first_index_of_is(t, AMP, i - pos);
        }
        let seg = copy_range(body, pos, i);
        proof {
            if i == body@.len() {
                assert(seg@ =~= t);
            } else {
                assert(seg@ =~= t.take(i - pos));
            }
        }
        match parse_pair(&seg) {
            None => {
                return None;
            },
            Some(p) => {
                let ghost pv = p@;
                out.push(p);
                proof {
                    assert(out@.map_values(|p: Pair| p@) =~= out0.push(pv));
                }
                if i == body.len() {
                    proof {
                        assert(spec_parse_form(t) == Some(seq![pv]));
                        assert(out0 + seq![pv] =~= out@.map_values(|p: Pair| p@));
                    }
                    return Some(out);
                }
                pos = i + 1;
                proof {
                    assert(t.skip(i - pos0 + 1) =~= body@.skip(pos as int));
                    if spec_parse_form(body@.skip(pos as int)) is Some {
                        let rest = spec_parse_form(body@.skip(pos as int)).unwrap();
                        assert(spec_parse_form(t) == Some(seq![pv] + rest));
                        assert(out0 + (seq![pv] + rest) =~= out@.map_values(|p: Pair| p@) + rest);
                    }
                }
            },
        }
    }
}

/// The value of the first pair whose key is `key`, or `None` when no pair
/// has that key.
pub open spec fn spec_lookup(pairs: Seq<(Seq<u8>, Seq<u8>)>, key: Seq<u8>) -> Option<Seq<u8>>
    decreases pairs.len(),
{
    if pairs.len() == 0 {
        None
    } else if pairs[0].0 == key {
        Some(pairs[0].1)
    } else {
        spec_lookup(pairs.skip(1), key)
    }
}

/// Looks a key up among decoded pairs, following `spec_lookup`; hands back a
/// copy of the value of its first occurrence.
pub fn lookup(pairs: &Vec<Pair>, key: &Vec<u8>) -> (r: Option<Vec<u8>>)
    ensures
        match r {
            Some(v) => spec_lookup(pairs@.map_values(|p: Pair| p@), key@) == Some(v@),
            None => spec_lookup(pairs@.map_values(|p: Pair| p@), key@) is None,
        },
{
    let ghost all = pairs@.map_values(|p: Pair| p@);
    let mut i: usize = 0;
    proof {
        assert(all.skip(0) =~= all);
    }
    while i < pairs.len()
        invariant
            i <= pairs.len(),
            all == pairs@.map_values(|p: Pair| p@),
            spec_lookup(all, key@) == spec_lookup(all.skip(i as int), key@),
        decreases pairs.len() - i,
    {
        let ghost t = all.skip(i as int);
        proof {
            assert(t[0] == all[i as int]);
            assert(t.skip(1) =~= all.skip(i + 1));
        }
        if bytes_eq(&pairs[i].key, key) {
            let value = &pairs[i].value;
            let copy = copy_range(value, 0, value.len());
            proof {
                assert(copy@ =~= pairs@[i as int].value@);
            }
            return Some(copy);
        }
        i = i + 1;
    }
    None
}

/// The decoded value stored under `key` in `body`: `None` when the body is
/// malformed or the key does not occur.
pub open spec fn spec_form_value(body: Seq<u8>, key: Seq<u8>) -> Option<Seq<u8>> {
    match spec_parse_form(body) {
        Some(ps) => spec_lookup(ps, key),
        None => None,
    }
}

/// Parses `body` and looks `key` up, following `spec_form_value`.
pub fn form_value(body: &Vec<u8>, key: &Vec<u8>) -> (r: Option<Vec<u8>>)
    ensures
        match r {
            Some(v) => spec_form_value(body@, key@) == Some(v@),
            None => spec_form_value(body@, key@) is None,
        },
{
    match parse_form(body) {
        Some(pairs) => lookup(&pairs, key),
        None => None,
    }
}

} // verus!
