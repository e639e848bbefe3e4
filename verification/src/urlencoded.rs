//! Decoding of `application/x-www-form-urlencoded` bytes.
//!
//! A body is a `&`-separated list of pairs; each pair holds a key and a
//! value separated by the first `=` (a pair without `=` is a key with an
//! empty value).  Inside keys and values, `+` stands for a space and
//! `%XY` with two hex digits stands for the byte `0xXY`; a `%` not
//! followed by two hex digits makes the pair undecodable.

use vstd::prelude::*;

verus! {

pub const PERCENT: u8 = 0x25;

pub const PLUS: u8 = 0x2b;

pub const SPACE: u8 = 0x20;

pub const AMP: u8 = 0x26;

pub const EQUALS: u8 = 0x3d;

/// The ASCII hex digits: `0-9`, `A-F`, `a-f`.
pub open spec fn is_hex_digit(b: u8) -> bool {
    (0x30 <= b && b <= 0x39) || (0x41 <= b && b <= 0x46) || (0x61 <= b && b <= 0x66)
}

/// The numeric value of a hex digit.
pub open spec fn hex_val(b: u8) -> u8
    recommends
        is_hex_digit(b),
{
    if 0x30 <= b && b <= 0x39 {
        (b - 0x30) as u8
    } else if 0x41 <= b && b <= 0x46 {
        (b - 0x41 + 10) as u8
    } else {
        (b - 0x61 + 10) as u8
    }
}

/// Whether every `%` in `s` is followed by two hex digits.
pub open spec fn decode_ok(s: Seq<u8>) -> bool
    decreases s.len(),
{
    if s.len() == 0 {
        true
    } else if s[0] == PERCENT {
        if s.len() >= 3 {
            is_hex_digit(s[1]) && is_hex_digit(s[2]) && decode_ok(s.skip(3))
        } else {
            false
        }
    } else {
        decode_ok(s.skip(1))
    }
}

/// The decoded bytes of `s`: `+` becomes a space, `%XY` becomes the byte
/// `0xXY`, every other byte stands for itself.  Meaningful only when
/// `decode_ok(s)` holds.
pub open spec fn decode_spec(s: Seq<u8>) -> Seq<u8>
    recommends
        decode_ok(s),
    decreases s.len(),
{
    if s.len() == 0 {
        Seq::empty()
    } else if s[0] == PERCENT {
        if s.len() >= 3 {
            seq![(hex_val(s[1]) * 16 + hex_val(s[2])) as u8] + decode_spec(s.skip(3))
        } else {
            Seq::empty()
        }
    } else if s[0] == PLUS {
        seq![SPACE] + decode_spec(s.skip(1))
    } else {
        seq![s[0]] + decode_spec(s.skip(1))
    }
}

/// The pieces of `s` around the separator `sep`; `n` separators give
/// `n + 1` pieces, so the result is never empty.
pub open spec fn split_sep(s: Seq<u8>, sep: u8) -> Seq<Seq<u8>>
    decreases s.len(),
{
    if s.len() == 0 {
        seq![Seq::<u8>::empty()]
    } else {
        let init = split_sep(s.drop_last(), sep);
        if s.last() == sep {
            init + seq![Seq::<u8>::empty()]
        } else {
            init.update(init.len() - 1, init.last().push(s.last()))
        }
    }
}

/// A sequence without the separator splits into itself alone.
pub proof fn lemma_split_sep_no_sep(s: Seq<u8>, sep: u8)
    requires
        forall|i: int| 0 <= i < s.len() ==> s[i] != sep,
    ensures
        split_sep(s, sep) == seq![s],
    decreases s.len(),
{
    if s.len() == 0 {
        assert(split_sep(s, sep) =~~= seq![s]);
    } else {
        assert(forall|i: int| 0 <= i < s.drop_last().len() ==> s.drop_last()[i] == s[i]);
        lemma_split_sep_no_sep(s.drop_last(), sep);
        assert(s[s.len() - 1] != sep);
        assert(split_sep(s, sep) =~~= seq![s.drop_last().push(s.last())]);
        assert(s.drop_last().push(s.last()) =~= s);
        assert(split_sep(s, sep) =~~= seq![s]);
    }
}

/// A sequence with exactly one separator splits into the two sides.
pub proof fn lemma_split_sep_one_sep(a: Seq<u8>, b: Seq<u8>, sep: u8)
    requires
        forall|i: int| 0 <= i < a.len() ==> a[i] != sep,
        forall|i: int| 0 <= i < b.len() ==> b[i] != sep,
    ensures
        split_sep(a + seq![sep] + b, sep) == seq![a, b],
    decreases b.len(),
{
    let s = a + seq![sep] + b;
    if b.len() == 0 {
        assert(s.drop_last() =~= a);
        assert(s.last() == sep);
        lemma_split_sep_no_sep(a, sep);
        assert(split_sep(s, sep) =~~= seq![a, b]);
    } else {
        assert(s.drop_last() =~= a + seq![sep] + b.drop_last());
        assert(forall|i: int| 0 <= i < b.drop_last().len() ==> b.drop_last()[i] == b[i]);
        lemma_split_sep_one_sep(a, b.drop_last(), sep);
        assert(s.last() == b.last());
        assert(b[b.len() - 1] != sep);
        let init = seq![a, b.drop_last()];
        assert(split_sep(s, sep) =~~= init.update(1, b.drop_last().push(b.last())));
        assert(b.drop_last().push(b.last()) =~= b);
        assert(split_sep(s, sep) =~~= seq![a, b]);
    }
}

/// The key and value of one raw pair: the part before the first `=` and
/// the part after it; with no `=`, the whole pair is the key.
pub open spec fn split_pair(p: Seq<u8>) -> (Seq<u8>, Seq<u8>)
    decreases p.len(),
{
    if p.len() == 0 {
        (Seq::<u8>::empty(), Seq::<u8>::empty())
    } else if p[0] == EQUALS {
        (Seq::<u8>::empty(), p.skip(1))
    } else {
        let rest = split_pair(p.skip(1));
        (seq![p[0]] + rest.0, rest.1)
    }
}

/// `split_pair` in terms of the position `j` of the first `=` (or the
/// length of `p` when it has none).
pub proof fn lemma_split_pair_at(p: Seq<u8>, j: int)
    requires
        0 <= j <= p.len(),
        forall|k: int| 0 <= k < j ==> p[k] != EQUALS,
        j < p.len() ==> p[j] == EQUALS,
    ensures
        split_pair(p).0 == p.take(j),
        split_pair(p).1 == if j == p.len() {
            Seq::<u8>::empty()
        } else {
            p.skip(j + 1)
        },
    decreases j,
{
    if j == 0 {
        assert(p.take(0) =~= Seq::<u8>::empty());
    } else {
        assert(p[0] != EQUALS);
        assert forall|k: int| 0 <= k < j - 1 implies p.skip(1)[k] != EQUALS by {
            assert(p.skip(1)[k] == p[k + 1]);
        }
        if j - 1 < p.skip(1).len() {
            assert(p.skip(1)[j - 1] == p[j]);
        }
        lemma_split_pair_at(p.skip(1), j - 1);
        assert(seq![p[0]] + p.skip(1).take(j - 1) =~= p.take(j));
        if j < p.len() {
            assert(p.skip(1).skip(j) =~= p.skip(j + 1));
        }
    }
}

/// How many pairs of a key/value list carry the given key.
pub open spec fn count_key(pairs: Seq<(Seq<u8>, Seq<u8>)>, key: Seq<u8>) -> nat
    decreases pairs.len(),
{
    if pairs.len() == 0 {
        0
    } else {
        count_key(pairs.drop_last(), key) + if pairs.last().0 == key {
            1nat
        } else {
            0nat
        }
    }
}

/// The value of the first pair with the given key, if any.
pub open spec fn first_val(pairs: Seq<(Seq<u8>, Seq<u8>)>, key: Seq<u8>) -> Option<Seq<u8>>
    decreases pairs.len(),
{
    if pairs.len() == 0 {
        None
    } else {
        let init = first_val(pairs.drop_last(), key);
        if init is Some {
            init
        } else if pairs.last().0 == key {
            Some(pairs.last().1)
        } else {
            None
        }
    }
}

/// Once the first value for a key is found in a prefix, the rest of the
/// list does not change it.
pub proof fn lemma_first_val_extend(pairs: Seq<(Seq<u8>, Seq<u8>)>, key: Seq<u8>, j: int)
    requires
        0 <= j <= pairs.len(),
        first_val(pairs.take(j), key) is Some,
    ensures
        first_val(pairs, key) == first_val(pairs.take(j), key),
    decreases pairs.len() - j,
{
    if j == pairs.len() {
        assert(pairs.take(j) =~= pairs);
    } else {
        assert(pairs.take(j + 1).drop_last() =~= pairs.take(j));
        lemma_first_val_extend(pairs, key, j + 1);
    }
}

/// The numeric value of an ASCII hex digit, or nothing for another byte.
fn hex_digit_value(b: u8) -> (r: Option<u8>)
    ensures
        r is Some <==> is_hex_digit(b),
        r matches Some(v) ==> v == hex_val(b) && v < 16,
{
    if 0x30 <= b && b <= 0x39 {
        Some(b - 0x30)
    } else if 0x41 <= b && b <= 0x46 {
        Some(b - 0x41 + 10)
    } else if 0x61 <= b && b <= 0x66 {
        Some(b - 0x61 + 10)
    } else {
        None
    }
}

/// Decodes `+` and `%XY` escapes; fails exactly when some `%` is not
/// followed by two hex digits.
pub fn percent_decode(s: &Vec<u8>) -> (r: Option<Vec<u8>>)
    ensures
        r is Some <==> decode_ok(s@),
        r matches Some(v) ==> v@ == decode_spec(s@),
{
    let mut out: Vec<u8> = Vec::new();
    let mut i: usize = 0;
    proof {
        assert(s@.skip(0) =~= s@);
        assert(out@ + decode_spec(s@) =~= decode_spec(s@));
    }
    while i < s.len()
        invariant
            i <= s.len(),
            decode_ok(s@) == decode_ok(s@.skip(i as int)),
            out@ + decode_spec(s@.skip(i as int)) == decode_spec(s@),
        decreases s.len() - i,
    {
        let ghost tail = s@.skip(i as int);
        let b = s[i];
        assert(tail[0] == b);
        if b == PERCENT {
            if s.len() - i >= 3 {
                assert(tail[1] == s@[i + 1] && tail[2] == s@[i + 2]);
                let h1 = hex_digit_value(s[i + 1]);
                let h2 = hex_digit_value(s[i + 2]);
                match (h1, h2) {
                    (Some(v1), Some(v2)) => {
                        proof {
                            assert(tail.skip(3) =~= s@.skip(i as int + 3));
                            assert(out@ + seq![(hex_val(tail[1]) * 16 + hex_val(tail[2])) as u8]
                                + decode_spec(tail.skip(3)) =~= out@ + (seq![(hex_val(tail[1]) * 16
                                + hex_val(tail[2])) as u8] + decode_spec(tail.skip(3))));
                        }
                        out.push(v1 * 16 + v2);
                        i = i + 3;
                    },
                    _ => {
                        assert(!decode_ok(tail));
                        return None;
                    },
                }
            } else {
                assert(!decode_ok(tail));
                return None;
            }
        } else {
            proof {
                assert(tail.skip(1) =~= s@.skip(i as int + 1));
                let ghost d: u8 = if b == PLUS {
                    SPACE
                } else {
                    b
                };
                assert(out@ + seq![d] + decode_spec(tail.skip(1)) =~= out@ + (seq![d]
                    + decode_spec(tail.skip(1))));
            }
            if b == PLUS {
                out.push(SPACE);
            } else {
                out.push(b);
            }
            i = i + 1;
        }
    }
    proof {
        assert(s@.skip(i as int) =~= Seq::<u8>::empty());
        assert(out@ =~= out@ + decode_spec(Seq::<u8>::empty()));
    }
    Some(out)
}

/// Splits `s` into the pieces around `sep`.
pub fn split_on(s: &Vec<u8>, sep: u8) -> (r: Vec<Vec<u8>>)
    ensures
        r@.map_values(|v: Vec<u8>| v@) == split_sep(s@, sep),
{
    let mut done: Vec<Vec<u8>> = Vec::new();
    let mut cur: Vec<u8> = Vec::new();
    let mut i: usize = 0;
    while i < s.len()
        invariant
            i <= s.len(),
            done@.map_values(|v: Vec<u8>| v@) + seq![cur@] == split_sep(s@.take(i as int), sep),
        decreases s.len() - i,
    {
        let ghost pre = s@.take(i as int);
        let ghost now = s@.take(i as int + 1);
        proof {
            assert(now.drop_last() =~= pre);
            assert(now.last() == s@[i as int]);
        }
        let b = s[i];
        if b == sep {
            let ghost old_done = done@;
            let ghost old_cur = cur@;
            done.push(cur);
            cur = Vec::new();
            proof {
                assert(done@.map_values(|v: Vec<u8>| v@) =~= old_done.map_values(
                    |v: Vec<u8>| v@,
                ).push(old_cur));
                assert(done@.map_values(|v: Vec<u8>| v@) + seq![cur@] =~= (old_done.map_values(
                    |v: Vec<u8>| v@,
                ) + seq![old_cur]) + seq![Seq::<u8>::empty()]);
            }
        } else {
            let ghost old_cur = cur@;
            cur.push(b);
            proof {
                let ghost m = done@.map_values(|v: Vec<u8>| v@) + seq![old_cur];
                assert(m.len() >= 1);
                assert(m.last() == old_cur);
                assert(done@.map_values(|v: Vec<u8>| v@) + seq![cur@] =~= m.update(
                    m.len() - 1,
                    m.last().push(s@[i as int]),
                ));
            }
        }
        i = i + 1;
    }
    proof {
        assert(s@.take(i as int) =~= s@);
    }
    let ghost old_done = done@;
    let ghost old_cur = cur@;
    done.push(cur);
    proof {
        assert(done@.map_values(|v: Vec<u8>| v@) =~= old_done.map_values(|v: Vec<u8>| v@).push(
            old_cur,
        ));
        assert(done@.map_values(|v: Vec<u8>| v@) =~= old_done.map_values(|v: Vec<u8>| v@) + seq![
            old_cur,
        ]);
    }
    done
}

/// Copies `s[from..to]` into a fresh vector.
pub fn subvec(s: &Vec<u8>, from: usize, to: usize) -> (r: Vec<u8>)
    requires
        from <= to <= s@.len(),
    ensures
        r@ == s@.subrange(from as int, to as int),
{
    let mut out: Vec<u8> = Vec::new();
    let mut i: usize = from;
    while i < to
        invariant
            from <= i <= to,
            out@ == s@.subrange(from as int, i as int),
        decreases to - i,
    {
        out.push(s[i]);
        proof {
            assert(out@ =~= s@.subrange(from as int, i as int + 1));
        }
        i = i + 1;
    }
    out
}

/// Splits one raw pair at its first `=`.
pub fn split_eq(p: &Vec<u8>) -> (r: (Vec<u8>, Vec<u8>))
    ensures
        r.0@ == split_pair(p@).0,
        r.1@ == split_pair(p@).1,
{
    let mut j: usize = 0;
    while j < p.len() && p[j] != EQUALS
        invariant
            j <= p.len(),
            forall|k: int| 0 <= k < j ==> p@[k] != EQUALS,
        decreases p.len() - j,
    {
        j = j + 1;
    }
    proof {
        lemma_split_pair_at(p@, j as int);
    }
    let key = subvec(p, 0, j);
    proof {
        assert(p@.subrange(0, j as int) =~= p@.take(j as int));
    }
    if j == p.len() {
        (key, Vec::new())
    } else {
        let val = subvec(p, j + 1, p.len());
        proof {
            assert(p@.subrange(j as int + 1, p@.len() as int) =~= p@.skip(j as int + 1));
        }
        (key, val)
    }
}

} // verus!
