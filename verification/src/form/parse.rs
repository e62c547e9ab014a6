//! `application/x-www-form-urlencoded` bodies.
//!
//! The body is split at `&`; empty pieces are skipped.  A piece is split at
//! its first `=` (no `=`: the value is empty).  In names and values `+` is a
//! space and `%XX` a byte; the decoded bytes must be UTF-8.  A later pair
//! replaces an earlier one with the same name.

use vstd::prelude::*;

use crate::form::error::FormError;
use crate::session::map::StringMap;
use crate::text::{split_on, utf8_str};

verus! {

/// Value of a hexadecimal digit byte.
pub open spec fn hex_val(b: u8) -> Option<u8> {
    if 48 <= b <= 57 {
        Some((b - 48) as u8)
    } else if 97 <= b <= 102 {
        Some((b - 87) as u8)
    } else if 65 <= b <= 70 {
        Some((b - 55) as u8)
    } else {
        None
    }
}

/// Bytes of a name or value after `+` and `%XX` decoding; `None` for a `%`
/// not followed by two hexadecimal digits.
pub open spec fn form_decode(s: Seq<u8>) -> Option<Seq<u8>>
    decreases s.len(),
{
    if s.len() == 0 {
        Some(seq![])
    } else if s[0] == 0x2B {
        match form_decode(s.skip(1)) {
            Some(r) => Some(seq![0x20u8] + r),
            None => None,
        }
    } else if s[0] == 0x25 {
        if s.len() < 3 {
            None
        } else {
            match (hex_val(s[1]), hex_val(s[2]), form_decode(s.skip(3))) {
                (Some(h), Some(l), Some(r)) => Some(seq![(h * 16 + l) as u8] + r),
                _ => None,
            }
        }
    } else {
        match form_decode(s.skip(1)) {
            Some(r) => Some(seq![s[0]] + r),
            None => None,
        }
    }
}

/// Text of a name or value: decoded bytes that are valid UTF-8.
pub open spec fn decoded_text(s: Seq<u8>) -> Option<Seq<char>> {
    match form_decode(s) {
        Some(b) => if vstd::utf8::valid_utf8(b) {
            Some(vstd::utf8::decode_utf8(b))
        } else {
            None
        },
        None => None,
    }
}

/// Position of the first `=` in a piece.
pub open spec fn first_eq(seg: Seq<u8>) -> Option<int> {
    if exists|i: int| 0 <= i < seg.len() && seg[i] == 0x3D {
        Some(choose|i: int| 0 <= i < seg.len() && seg[i] == 0x3D && forall|j: int| 0 <= j < i ==> seg[j] != 0x3D)
    } else {
        None
    }
}

/// Raw name of a piece.
pub open spec fn raw_name(seg: Seq<u8>) -> Seq<u8> {
    match first_eq(seg) {
        Some(i) => seg.take(i),
        None => seg,
    }
}

/// Raw value of a piece.
pub open spec fn raw_value(seg: Seq<u8>) -> Seq<u8> {
    match first_eq(seg) {
        Some(i) => seg.skip(i + 1),
        None => seq![],
    }
}

/// Pairs of the pieces, in order; `None` when a name or value is malformed.
pub open spec fn parse_pieces(segs: Seq<Seq<u8>>) -> Option<Map<Seq<char>, Seq<char>>>
    decreases segs.len(),
{
    if segs.len() == 0 {
        Some(Map::empty())
    } else {
        match parse_pieces(segs.drop_last()) {
            None => None,
            Some(m) => if segs.last().len() == 0 {
                Some(m)
            } else {
                match (decoded_text(raw_name(segs.last())), decoded_text(raw_value(segs.last()))) {
                    (Some(k), Some(v)) => Some(m.insert(k, v)),
                    _ => None,
                }
            },
        }
    }
}

/// Pairs of a body; `None` when it is not valid form encoding.
pub open spec fn parse_body(body: Seq<u8>) -> Option<Map<Seq<char>, Seq<char>>> {
    parse_pieces(split_on(body, 0x26u8))
}

/// Splits `s` at every `sep`.
fn split_bytes(s: &[u8], sep: u8) -> (out: Vec<Vec<u8>>)
    ensures
        out@.map_values(|v: Vec<u8>| v@) == split_on(s@, sep),
{
    let mut out: Vec<Vec<u8>> = Vec::new();
    let mut cur: Vec<u8> = Vec::new();
    let mut i: usize = 0;
    assert(s@.take(0) =~= Seq::<u8>::empty());
    while i < s.len()
        invariant
            i <= s.len(),
            out@.map_values(|v: Vec<u8>| v@).push(cur@) == split_on(s@.take(i as int), sep),
        decreases s.len() - i,
    {
        let c = s[i];
        let ghost before = out@.map_values(|v: Vec<u8>| v@);
        let ghost cur_before = cur@;
        assert(s@.take(i as int + 1).drop_last() =~= s@.take(i as int));
        assert(s@.take(i as int + 1).last() == c);
        if c == sep {
            out.push(cur);
            cur = Vec::new();
            assert(out@.map_values(|v: Vec<u8>| v@) =~= before.push(cur_before));
            assert(out@.map_values(|v: Vec<u8>| v@).push(cur@) =~= split_on(s@.take(i as int + 1), sep));
        } else {
            cur.push(c);
            let ghost p = before.push(cur_before);
            assert(p.update(p.len() - 1, p.last().push(c)) =~= before.push(cur@));
        }
        i = i + 1;
    }
    assert(s@.take(s.len() as int) =~= s@);
    let ghost before = out@.map_values(|v: Vec<u8>| v@);
    out.push(cur);
    assert(out@.map_values(|v: Vec<u8>| v@) =~= before.push(cur@));
    out
}

fn hex_value(b: u8) -> (r: Option<u8>)
    ensures
        r == hex_val(b),
{
    if 48 <= b && b <= 57 {
        Some(b - 48)
    } else if 97 <= b && b <= 102 {
        Some(b - 87)
    } else if 65 <= b && b <= 70 {
        Some(b - 55)
    } else {
        None
    }
}

/// Decodes `+` and `%XX` in a name or value.
fn decode_component(s: &[u8]) -> (r: Option<Vec<u8>>)
    ensures
        match r {
            Some(b) => form_decode(s@) == Some(b@),
            None => form_decode(s@) is None,
        },
{
    let mut out: Vec<u8> = Vec::new();
    let mut i: usize = 0;
    assert(s@.skip(0) =~= s@);
    proof {
        match form_decode(s@) {
            Some(r) => {
                assert(out@ + r =~= r);
            },
            None => {},
        }
    }
    while i < s.len()
        invariant
            i <= s.len(),
            form_decode(s@) == match form_decode(s@.skip(i as int)) {
                Some(r) => Some(out@ + r),
                None => None,
            },
        decreases s.len() - i,
    {
        let ghost rest = s@.skip(i as int);
        let ghost before = out@;
        let c = s[i];
        if c == 0x2B {
            out.push(0x20);
            assert(rest.skip(1) =~= s@.skip(i as int + 1));
            proof {
                match form_decode(s@.skip(i as int + 1)) {
                    Some(r) => {
                        assert(before + (seq![0x20u8] + r) =~= out@ + r);
                    },
                    None => {},
                }
            }
            i = i + 1;
        } else if c == 0x25 {
            if s.len() - i < 3 {
                assert(rest.len() < 3);
                return None;
            }
            let h = hex_value(s[i + 1]);
            let l = hex_value(s[i + 2]);
            match (h, l) {
                (Some(hv), Some(lv)) => {
                    let b: u8 = hv * 16 + lv;
                    out.push(b);
                    assert(rest.skip(3) =~= s@.skip(i as int + 3));
                    assert(rest[1] == s@[i as int + 1]);
                    assert(rest[2] == s@[i as int + 2]);
                    proof {
                        match form_decode(s@.skip(i as int + 3)) {
                            Some(r) => {
                                assert(before + (seq![(hv * 16 + lv) as u8] + r) =~= out@ + r);
                            },
                            None => {},
                        }
                    }
                    i = i + 3;
                },
                _ => {
                    assert(rest[1] == s@[i as int + 1]);
                    assert(rest[2] == s@[i as int + 2]);
                    return None;
                },
            }
        } else {
            out.push(c);
            assert(rest.skip(1) =~= s@.skip(i as int + 1));
            proof {
                match form_decode(s@.skip(i as int + 1)) {
                    Some(r) => {
                        assert(before + (seq![c] + r) =~= out@ + r);
                    },
                    None => {},
                }
            }
            i = i + 1;
        }
    }
    assert(s@.skip(s.len() as int) =~= Seq::<u8>::empty());
    assert(out@ + Seq::<u8>::empty() =~= out@);
    Some(out)
}

/// Decoded text of a name or value.
fn component_text(s: &[u8]) -> (r: Option<String>)
    ensures
        match r {
            Some(t) => decoded_text(s@) == Some(t@),
            None => decoded_text(s@) is None,
        },
{
    match decode_component(s) {
        None => None,
        Some(bytes) => match utf8_str(bytes.as_slice()) {
            Some(text) => Some(text.to_owned()),
            None => None,
        },
    }
}

/// Position of the first `=`.
fn find_eq(seg: &[u8]) -> (r: Option<usize>)
    ensures
        match r {
            Some(i) => first_eq(seg@) == Some(i as int) && i < seg@.len(),
            None => first_eq(seg@) is None,
        },
{
    let mut i: usize = 0;
    while i < seg.len()
        invariant
            i <= seg.len(),
            forall|j: int| 0 <= j < i ==> seg@[j] != 0x3D,
        decreases seg.len() - i,
    {
        if seg[i] == 0x3D {
            proof {
                let k = choose|k: int| 0 <= k < seg@.len() && seg@[k] == 0x3D && forall|j: int|
                    0 <= j < k ==> seg@[j] != 0x3D;
                assert(k == i) by {
                    if k < i {
                        assert(seg@[k] != 0x3D);
                    }
                    if i < k {
                        assert(seg@[i as int] != 0x3D);
                    }
                }
            }
            return Some(i);
        }
        i = i + 1;
    }
    None
}

/// Name/value pairs of a form body; [`FormError::InvalidEncoding`] exactly
/// when a name or value has a bad `%` escape or is not UTF-8.
pub fn parse_urlencoded(body: &[u8]) -> (r: Result<StringMap, FormError>)
    ensures
        match parse_body(body@) {
            Some(m) => r matches Ok(x) && x@ == m,
            None => r == Err::<StringMap, FormError>(FormError::InvalidEncoding),
        },
{
    let pieces = split_bytes(body, 0x26);
    let ghost segs = pieces@.map_values(|v: Vec<u8>| v@);
    let mut map = StringMap::new();
    let mut i: usize = 0;
    assert(segs.take(0) =~= Seq::<Seq<u8>>::empty());
    while i < pieces.len()
        invariant
            i <= pieces.len(),
            segs == pieces@.map_values(|v: Vec<u8>| v@),
            segs == split_on(body@, 0x26u8),
            parse_pieces(segs.take(i as int)) == Some(map@),
        decreases pieces.len() - i,
    {
        let seg = &pieces[i];
        proof {
            assert(segs.take(i as int + 1).drop_last() =~= segs.take(i as int));
            assert(segs.take(i as int + 1).last() == seg@);
        }
        if seg.len() > 0 {
            let (name_raw, value_raw): (Vec<u8>, Vec<u8>) = match find_eq(seg) {
                Some(k) => {
                    let mut a: Vec<u8> = Vec::new();
                    let mut b: Vec<u8> = Vec::new();
                    let mut j: usize = 0;
                    while j < k
                        invariant
                            j <= k < seg@.len(),
                            a@ == seg@.take(j as int),
                        decreases k - j,
                    {
                        a.push(seg[j]);
                        assert(seg@.take(j as int + 1) =~= seg@.take(j as int).push(seg@[j as int]));
                        j = j + 1;
                    }
                    let mut j2: usize = k + 1;
                    assert(seg@.subrange(k as int + 1, j2 as int) =~= Seq::<u8>::empty());
                    while j2 < seg.len()
                        invariant
                            k < j2 <= seg@.len(),
                            b@ == seg@.subrange(k as int + 1, j2 as int),
                        decreases seg.len() - j2,
                    {
                        b.push(seg[j2]);
                        assert(seg@.subrange(k as int + 1, j2 as int + 1) =~= seg@.subrange(
                            k as int + 1,
                            j2 as int,
                        ).push(seg@[j2 as int]));
                        j2 = j2 + 1;
                    }
                    assert(b@ =~= seg@.skip(k as int + 1));
                    (a, b)
                },
                None => {
                    let mut a: Vec<u8> = Vec::new();
                    let mut j: usize = 0;
                    while j < seg.len()
                        invariant
                            j <= seg@.len(),
                            a@ == seg@.take(j as int),
                        decreases seg.len() - j,
                    {
                        a.push(seg[j]);
                        assert(seg@.take(j as int + 1) =~= seg@.take(j as int).push(seg@[j as int]));
                        j = j + 1;
                    }
                    assert(a@ =~= seg@);
                    (a, Vec::new())
                },
            };
            assert(name_raw@ == raw_name(seg@));
            assert(value_raw@ =~= raw_value(seg@));
            let name = component_text(name_raw.as_slice());
            let value = component_text(value_raw.as_slice());
            match (name, value) {
                (Some(k), Some(v)) => {
                    map.insert(k, v);
                },
                _ => {
                    proof {
                        lemma_parse_pieces_stays_none(segs, i as int + 1);
                        assert(segs.take(segs.len() as int) =~= segs);
                    }
                    return Err(FormError::InvalidEncoding);
                },
            }
        }
        i = i + 1;
    }
    assert(segs.take(pieces.len() as int) =~= segs);
    Ok(map)
}

/// Once a prefix of the pieces fails to parse, every longer prefix does.
proof fn lemma_parse_pieces_stays_none(segs: Seq<Seq<u8>>, n: int)
    requires
        0 <= n <= segs.len(),
        parse_pieces(segs.take(n)) is None,
    ensures
        parse_pieces(segs) is None,
    decreases segs.len() - n,
{
    if n < segs.len() {
        assert(segs.take(n + 1).drop_last() =~= segs.take(n));
        lemma_parse_pieces_stays_none(segs, n + 1);
    } else {
        assert(segs.take(n) =~= segs);
    }
}

} // verus!
