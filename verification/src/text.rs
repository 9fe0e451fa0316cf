//! Case-insensitive substring matching on byte strings.
//!
//! Application names, descriptions, keywords and the typed query are held
//! as UTF-8 byte vectors.  A query matches a text when the ASCII-lowered
//! query occurs as a contiguous substring of the ASCII-lowered text.

use vstd::prelude::*;

verus! {

/// ASCII lower-casing of one byte: `b'A'..=b'Z'` map to `b'a'..=b'z'`,
/// every other byte is unchanged.
pub open spec fn lower_byte(b: u8) -> u8 {
    if 65 <= b && b <= 90 {
        (b + 32) as u8
    } else {
        b
    }
}

/// ASCII lower-casing of a whole byte string.
pub open spec fn lower_seq(s: Seq<u8>) -> Seq<u8> {
    s.map_values(|b: u8| lower_byte(b))
}

/// `needle` occurs in `hay` starting at position `i`.
pub open spec fn match_at(hay: Seq<u8>, needle: Seq<u8>, i: int) -> bool {
    0 <= i && i + needle.len() <= hay.len() && hay.subrange(i, i + needle.len()) == needle
}

/// `needle` occurs somewhere in `hay` as a contiguous substring.
pub open spec fn contains_seq(hay: Seq<u8>, needle: Seq<u8>) -> bool {
    exists|i: int| match_at(hay, needle, i)
}

/// The query matches the text when the lowered query occurs in the
/// lowered text.  An empty query matches every text.
pub open spec fn query_matches(text: Seq<u8>, query: Seq<u8>) -> bool {
    contains_seq(lower_seq(text), lower_seq(query))
}

/// ASCII-lower every byte of `v`.
pub fn lower_vec(v: &Vec<u8>) -> (r: Vec<u8>)
    ensures
        r@ == lower_seq(v@),
{
    let mut r: Vec<u8> = Vec::new();
    let mut i: usize = 0;
    while i < v.len()
        invariant
            i <= v@.len(),
            r@ == lower_seq(v@.take(i as int)),
        decreases v@.len() - i,
    {
        let b = v[i];
        let lb: u8 = if 65 <= b && b <= 90 {
            b + 32
        } else {
            b
        };
        r.push(lb);
        i = i + 1;
        proof {
            assert(r@ =~= lower_seq(v@.take(i as int)));
        }
    }
    proof {
        assert(v@.take(v@.len() as int) =~= v@);
    }
    r
}

/// `needle` matches `hay` at position `i`.
fn match_here(hay: &Vec<u8>, needle: &Vec<u8>, i: usize) -> (r: bool)
    requires
        i + needle@.len() <= hay@.len(),
    ensures
        r == match_at(hay@, needle@, i as int),
{
    let hlen = hay.len();
    let mut k: usize = 0;
    while k < needle.len()
        invariant
            hlen == hay@.len(),
            i + needle@.len() <= hay@.len(),
            k <= needle@.len(),
            forall|t: int| 0 <= t < k ==> hay@[i + t] == needle@[t],
        decreases needle@.len() - k,
    {
        if hay[i + k] != needle[k] {
            proof {
                assert(hay@.subrange(i as int, i + needle@.len())[k as int] == hay@[i + k]);
            }
            return false;
        }
        k = k + 1;
    }
    proof {
        assert(hay@.subrange(i as int, i + needle@.len()) =~= needle@);
    }
    true
}

/// Position of the first occurrence of `needle` in `hay`, if any.
pub fn find_sub(hay: &Vec<u8>, needle: &Vec<u8>) -> (r: Option<usize>)
    ensures
        match r {
            Some(i) => match_at(hay@, needle@, i as int) && forall|j: int|
                0 <= j < i ==> !match_at(hay@, needle@, j),
            None => !contains_seq(hay@, needle@),
        },
{
    let n = needle.len();
    let h = hay.len();
    if n > h {
        return None;
    }
    if n == 0 {
        proof {
            assert(hay@.subrange(0, 0) =~= needle@);
        }
        return Some(0);
    }
    let mut i: usize = 0;
    while i <= h - n
        invariant
            n == needle@.len(),
            h == hay@.len(),
            1 <= n <= h,
            i <= h - n + 1,
            forall|j: int| 0 <= j < i ==> !match_at(hay@, needle@, j),
        decreases h - n + 1 - i,
    {
        if match_here(hay, needle, i) {
            return Some(i);
        }
        i = i + 1;
    }
    None
}

/// The query matches the text, ignoring ASCII case.
pub fn matches_ignore_case(text: &Vec<u8>, query: &Vec<u8>) -> (r: bool)
    ensures
        r == query_matches(text@, query@),
{
    let lt = lower_vec(text);
    let lq = lower_vec(query);
    find_sub(&lt, &lq).is_some()
}

} // verus!
