use vstd::prelude::*;
use vstd::slice::slice_subrange;
use vstd::utf8::{decode_utf8, valid_utf8};

verus! {

/// The 13 bytes `CollectionV0.` that open a collection's metadata.
pub open spec fn collection_header() -> Seq<u8> {
    seq![67u8, 111, 108, 108, 101, 99, 116, 105, 111, 110, 86, 48, 46]
}

/// The most bytes that an unsigned 64-bit varint may take.
pub const MAX_VARINT_LEN: usize = 10;

/// The little-endian base-128 varint of at most `k` bytes that starts at `pos`: its value
/// and the position after it. None where the bytes run out, the varint is longer, or its
/// value does not fit in 64 bits.
pub open spec fn varint(b: Seq<u8>, pos: int, k: nat) -> Option<(nat, int)>
    decreases k,
{
    if k == 0 || pos < 0 || pos >= b.len() {
        None
    } else if b[pos] < 128 {
        Some((b[pos] as nat, pos + 1))
    } else {
        match varint(b, pos + 1, (k - 1) as nat) {
            None => None,
            Some((v, e)) => if (b[pos] - 128) + 128 * v <= u64::MAX {
                Some((((b[pos] - 128) + 128 * v) as nat, e))
            } else {
                None
            },
        }
    }
}

/// `count` length-prefixed UTF-8 strings starting at `pos`, decoded; None where the bytes
/// run out or a string is not valid UTF-8.
pub open spec fn decode_strings(b: Seq<u8>, pos: int, count: nat) -> Option<Seq<Seq<char>>>
    decreases count,
{
    if count == 0 {
        Some(Seq::empty())
    } else {
        match varint(b, pos, 10) {
            None => None,
            Some((len, p)) => if p + len > b.len() || !valid_utf8(b.subrange(p, p + len)) {
                None
            } else {
                match decode_strings(b, p + len, (count - 1) as nat) {
                    None => None,
                    Some(rest) => Some(seq![decode_utf8(b.subrange(p, p + len))] + rest),
                }
            },
        }
    }
}

/// The entry names that a collection's metadata lists: the header, then a varint count,
/// then that many strings. Bytes after the last name are ignored.
pub open spec fn decode_meta(b: Seq<u8>) -> Option<Seq<Seq<char>>> {
    if b.len() < 13 || b.subrange(0, 13) != collection_header() {
        None
    } else {
        match varint(b, 13, 10) {
            None => None,
            Some((n, p)) => decode_strings(b, p, n),
        }
    }
}

/// Relies on std::str::from_utf8: it succeeds exactly on valid UTF-8, and the text holds the
/// characters that the bytes encode.
#[verifier::external_body]
fn utf8_text(b: &[u8]) -> (r: Option<String>)
    ensures
        r is Some <==> valid_utf8(b@),
        r matches Some(s) ==> s@ == decode_utf8(b@),
{
    std::str::from_utf8(b).ok().map(|s| s.to_string())
}

proof fn lemma_varint_end(b: Seq<u8>, pos: int, k: nat)
    ensures
        varint(b, pos, k) matches Some((v, e)) ==> pos < e <= b.len() && e - pos <= k && v <= u64::MAX,
    decreases k,
{
    if k > 0 && 0 <= pos < b.len() && b[pos] >= 128 {
        lemma_varint_end(b, pos + 1, (k - 1) as nat);
    }
}

/// Reads the varint of at most `k` bytes at `pos`.
pub fn read_varint(b: &[u8], pos: usize, k: usize) -> (r: Option<(u64, usize)>)
    ensures
        r matches Some((v, e)) ==> varint(b@, pos as int, k as nat) == Some((v as nat, e as int)),
        r is None ==> varint(b@, pos as int, k as nat) is None,
    decreases k,
{
    proof {
        lemma_varint_end(b@, pos as int, k as nat);
    }
    if k == 0 || pos >= b.len() {
        return None;
    }
    let byte = b[pos];
    if byte < 128 {
        return Some((byte as u64, pos + 1));
    }
    match read_varint(b, pos + 1, k - 1) {
        None => None,
        Some((v, e)) => {
            let low = (byte - 128) as u64;
            if v > (u64::MAX - low) / 128 {
                assert((byte - 128) + 128 * v > u64::MAX) by (nonlinear_arith)
                    requires
                        v > (u64::MAX - low) / 128,
                        low == byte - 128,
                        low < 128,
                ;
                None
            } else {
                assert(low + 128 * v <= u64::MAX) by (nonlinear_arith)
                    requires
                        v <= (u64::MAX - low) / 128,
                        low < 128,
                ;
                Some((low + 128 * v, e))
            }
        },
    }
}

/// Decodes the entry names from a collection's metadata, or None where it is malformed.
pub fn decode_names(b: &[u8]) -> (r: Option<Vec<String>>)
    ensures
        r is None <==> decode_meta(b@) is None,
        r matches Some(v) ==> decode_meta(b@) == Some(Seq::new(v@.len(), |i: int| v@[i]@)),
{
    if b.len() < 13 {
        return None;
    }
    let mut i: usize = 0;
    while i < 13
        invariant
            13 <= b@.len(),
            i <= 13,
            forall|j: int| 0 <= j < i ==> b@[j] == collection_header()[j],
        decreases 13 - i,
    {
        let want: u8 = if i == 0 { 67 } else if i == 1 { 111 } else if i == 2 { 108 } else if i == 3 {
            108
        } else if i == 4 { 101 } else if i == 5 { 99 } else if i == 6 { 116 } else if i == 7 {
            105
        } else if i == 8 { 111 } else if i == 9 { 110 } else if i == 10 { 86 } else if i == 11 {
            48
        } else { 46 };
        if b[i] != want {
            assert(b@.subrange(0, 13)[i as int] != collection_header()[i as int]);
            return None;
        }
        i = i + 1;
    }
    assert(b@.subrange(0, 13) =~= collection_header());
    let (count, start) = match read_varint(b, 13, MAX_VARINT_LEN) {
        None => {
            return None;
        },
        Some(x) => x,
    };
    let mut names: Vec<String> = Vec::new();
    let mut pos: usize = start;
    let mut n: u64 = 0;
    while n < count
        invariant
            n <= count,
            names@.len() == n,
            decode_meta(b@) == match decode_strings(b@, pos as int, (count - n) as nat) {
                None => None,
                Some(rest) => Some(Seq::new(names@.len(), |i: int| names@[i]@) + rest),
            },
        decreases count - n,
    {
        let ghost before = Seq::new(names@.len(), |i: int| names@[i]@);
        proof {
            lemma_varint_end(b@, pos as int, 10);
        }
        let (len, p) = match read_varint(b, pos, MAX_VARINT_LEN) {
            None => {
                return None;
            },
            Some(x) => x,
        };
        if len > (b.len() - p) as u64 {
            return None;
        }
        let end = p + len as usize;
        let text = match utf8_text(slice_subrange(b, p, end)) {
            None => {
                return None;
            },
            Some(t) => t,
        };
        names.push(text);
        pos = end;
        n = n + 1;
        proof {
            let after = Seq::new(names@.len(), |i: int| names@[i]@);
            assert(after =~= before.push(names@[names@.len() - 1]@));
            let rest = decode_strings(b@, pos as int, (count - n) as nat);
            if let Some(r) = rest {
                assert(before + (seq![decode_utf8(b@.subrange(p as int, end as int))] + r)
                    =~= after + r);
            }
        }
    }
    assert(Seq::new(names@.len(), |i: int| names@[i]@) + Seq::<Seq<char>>::empty() =~= Seq::new(
        names@.len(),
        |i: int| names@[i]@,
    ));
    Some(names)
}

} // verus!
