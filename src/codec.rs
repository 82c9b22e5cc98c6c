//! The byte form of a tag set in an extended attribute: the tags' UTF-8
//! bytes joined by `|`. On reading, NUL separates tags as well.
use vstd::prelude::*;
use vstd::utf8::*;
use crate::tagset::TagSet;

verus! {

broadcast use {vstd::seq_lib::group_seq_properties, vstd::set::group_set_axioms};

/// The byte written between two tags: `|`.
pub const SEPARATOR: u8 = 0x7c;

/// A byte that ends a tag on reading: NUL or `|`.
pub open spec fn is_sep(b: u8) -> bool {
    b == 0 || b == SEPARATOR
}

/// A character that a stored tag cannot hold: NUL or `|`.
pub open spec fn is_sep_char(c: char) -> bool {
    c as u32 == 0 || c as u32 == SEPARATOR as u32
}

/// A tag that survives being written and read back.
pub open spec fn storable(t: Seq<char>) -> bool {
    forall|i: int| 0 <= i < t.len() ==> !is_sep_char(#[trigger] t[i])
}

/// The byte runs between separators, in order; `b` with no separator is one
/// run, the empty payload included.
pub open spec fn segments(b: Seq<u8>) -> Seq<Seq<u8>>
    decreases b.len(),
{
    if b.len() == 0 {
        seq![Seq::<u8>::empty()]
    } else {
        let s = segments(b.drop_last());
        if is_sep(b.last()) {
            s.push(Seq::<u8>::empty())
        } else {
            s.update(s.len() - 1, s.last().push(b.last()))
        }
    }
}

/// The tags that a payload holds, or `None` where a run is not UTF-8.
pub open spec fn payload_tags(b: Seq<u8>) -> Option<Set<Seq<char>>> {
    if forall|i: int| 0 <= i < segments(b).len() ==> valid_utf8(#[trigger] segments(b)[i]) {
        Some(segments(b).map_values(|s: Seq<u8>| decode_utf8(s)).to_set())
    } else {
        None
    }
}

/// The tags of `ts`, in order, as UTF-8 joined by `|`.
pub open spec fn joined(ts: Seq<Seq<char>>) -> Seq<u8>
    decreases ts.len(),
{
    if ts.len() == 0 {
        Seq::empty()
    } else if ts.len() == 1 {
        encode_utf8(ts[0])
    } else {
        joined(ts.drop_last()) + seq![SEPARATOR] + encode_utf8(ts.last())
    }
}

proof fn lemma_segments_len(b: Seq<u8>)
    ensures
        segments(b).len() >= 1,
    decreases b.len(),
{
    if b.len() > 0 {
        lemma_segments_len(b.drop_last());
    }
}

/// Bytes free of separators extend the last run.
proof fn lemma_segments_extend(x: Seq<u8>, y: Seq<u8>)
    requires
        forall|i: int| 0 <= i < y.len() ==> !is_sep(#[trigger] y[i]),
    ensures
        segments(x + y) == segments(x).update(
            segments(x).len() - 1,
            segments(x).last() + y,
        ),
    decreases y.len(),
{
    lemma_segments_len(x);
    if y.len() == 0 {
        assert(x + y =~= x);
        assert(segments(x).last() + y =~= segments(x).last());
        assert(segments(x).update(segments(x).len() - 1, segments(x).last()) =~= segments(x));
    } else {
        let y2 = y.drop_last();
        lemma_segments_extend(x, y2);
        assert((x + y).drop_last() =~= x + y2);
        assert((x + y).last() == y.last());
        assert(segments(x).last() + y =~= (segments(x).last() + y2).push(y.last()));
        assert(segments(x + y) =~= segments(x).update(
            segments(x).len() - 1,
            segments(x).last() + y,
        ));
    }
}

proof fn lemma_high_bit(x: u8)
    by (bit_vector)
    ensures
        (0x80u8 | x) >= 0x80,
        (0xC0u8 | x) >= 0x80,
        (0xE0u8 | x) >= 0x80,
        (0xF0u8 | x) >= 0x80,
{
}

proof fn lemma_low_byte(v: u32)
    by (bit_vector)
    requires
        v <= 0x7F,
    ensures
        (v & 0x7F) as u8 == v as u8,
{
}

/// A storable tag's UTF-8 bytes hold no separator.
proof fn lemma_encode_no_sep(t: Seq<char>)
    requires
        storable(t),
    ensures
        forall|i: int| 0 <= i < encode_utf8(t).len() ==> !is_sep(#[trigger] encode_utf8(t)[i]),
    decreases t.len(),
{
    if t.len() > 0 {
        let rest = t.drop_first();
        assert(storable(rest)) by {
            assert forall|i: int| 0 <= i < rest.len() implies !is_sep_char(#[trigger] rest[i]) by {
                assert(rest[i] == t[i + 1]);
            }
        }
        lemma_encode_no_sep(rest);
        let v = t[0] as u32;
        assert(!is_sep_char(t[0]));
        let e = encode_scalar(v);
        if has_width_1_encoding(v) {
            lemma_low_byte(v);
        } else if has_width_2_encoding(v) {
            lemma_high_bit(((v >> 6) & 0x1F) as u8);
            lemma_high_bit((v & 0x3F) as u8);
        } else if has_width_3_encoding(v) {
            lemma_high_bit(((v >> 12) & 0x0F) as u8);
            lemma_high_bit(((v >> 6) & 0x3F) as u8);
            lemma_high_bit((v & 0x3F) as u8);
        } else {
            lemma_high_bit(((v >> 18) & 0x7) as u8);
            lemma_high_bit(((v >> 12) & 0x3F) as u8);
            lemma_high_bit(((v >> 6) & 0x3F) as u8);
            lemma_high_bit((v & 0x3F) as u8);
        }
        assert(forall|i: int| 0 <= i < e.len() ==> !is_sep(#[trigger] e[i]));
        assert(encode_utf8(t) == e + encode_utf8(rest));
    }
}

/// Splitting the joined form of storable tags gives back each tag's bytes.
proof fn lemma_segments_joined(ts: Seq<Seq<char>>)
    requires
        ts.len() > 0,
        forall|i: int| 0 <= i < ts.len() ==> storable(#[trigger] ts[i]),
    ensures
        segments(joined(ts)) == ts.map_values(|t: Seq<char>| encode_utf8(t)),
    decreases ts.len(),
{
    let e = encode_utf8(ts.last());
    lemma_encode_no_sep(ts.last());
    if ts.len() == 1 {
        lemma_segments_extend(Seq::empty(), e);
        assert(Seq::<u8>::empty() + e =~= e);
        assert(segments(joined(ts)) =~= ts.map_values(|t: Seq<char>| encode_utf8(t)));
    } else {
        let front = ts.drop_last();
        lemma_segments_joined(front);
        let x = joined(front).push(SEPARATOR);
        assert(joined(front) + seq![SEPARATOR] =~= x);
        assert(x.drop_last() =~= joined(front));
        lemma_segments_extend(x, e);
        lemma_segments_len(x);
        assert(Seq::<u8>::empty() + e =~= e);
        assert(segments(joined(ts)) =~= ts.map_values(|t: Seq<char>| encode_utf8(t)));
    }
}

/// Reading back the payload written for a non-empty set of storable tags
/// gives that set.
pub proof fn lemma_payload_round_trip(tags: TagSet)
    requires
        tags.wf(),
        tags@.len() > 0,
        forall|t: Seq<char>| tags@.contains(t) ==> storable(t),
    ensures
        payload_tags(joined(tags.tag_seq())) == Some(tags@),
{
    let ts = tags.tag_seq();
    assert(ts.len() > 0) by {
        if ts.len() == 0 {
            assert(ts.to_set() =~= Set::<Seq<char>>::empty());
        }
    }
    assert forall|i: int| 0 <= i < ts.len() implies storable(#[trigger] ts[i]) by {
        assert(tags@.contains(ts[i]));
    }
    lemma_segments_joined(ts);
    let segs = segments(joined(ts));
    assert forall|i: int| 0 <= i < segs.len() implies valid_utf8(#[trigger] segs[i]) by {
        encode_utf8_valid_utf8(ts[i]);
    }
    let decoded = segs.map_values(|s: Seq<u8>| decode_utf8(s));
    assert(decoded =~= ts) by {
        assert forall|i: int| 0 <= i < ts.len() implies decoded[i] == ts[i] by {
            encode_utf8_decode_utf8(ts[i]);
        }
    }
}

/// Relies on `std::str::from_utf8`: it succeeds exactly on valid UTF-8, and
/// then holds the characters that the bytes encode.
#[verifier::external_body]
fn utf8_string(b: &[u8]) -> (r: Option<String>)
    ensures
        r is Some <==> valid_utf8(b@),
        r is Some ==> r->0@ == decode_utf8(b@),
{
    std::str::from_utf8(b).ok().map(String::from)
}

/// The byte runs of `b` between separators.
pub fn split_payload(b: &Vec<u8>) -> (r: Vec<Vec<u8>>)
    ensures
        r@.map_values(|v: Vec<u8>| v@) == segments(b@),
{
    let mut out: Vec<Vec<u8>> = Vec::new();
    let mut cur: Vec<u8> = Vec::new();
    let mut i: usize = 0;
    proof {
        assert(b@.take(0) =~= Seq::<u8>::empty());
        assert(out@.map_values(|v: Vec<u8>| v@).push(cur@) =~= segments(b@.take(0)));
    }
    while i < b.len()
        invariant
            i <= b@.len(),
            out@.map_values(|v: Vec<u8>| v@).push(cur@) == segments(b@.take(i as int)),
        decreases b@.len() - i,
    {
        let ghost before = out@.map_values(|v: Vec<u8>| v@).push(cur@);
        proof {
            assert(b@.take(i as int + 1).drop_last() =~= b@.take(i as int));
            assert(b@.take(i as int + 1).last() == b@[i as int]);
        }
        let c = b[i];
        if c == 0 || c == SEPARATOR {
            let done = cur;
            cur = Vec::new();
            out.push(done);
            assert(out@.map_values(|v: Vec<u8>| v@).push(cur@) =~= before.push(Seq::<u8>::empty()));
        } else {
            cur.push(c);
            assert(out@.map_values(|v: Vec<u8>| v@).push(cur@) =~= before.update(
                before.len() - 1,
                before.last().push(c),
            ));
        }
        i = i + 1;
    }
    assert(b@.take(b@.len() as int) =~= b@);
    out.push(cur);
    out
}

/// The tags that the payload `b` holds; `None` where a run between
/// separators is not UTF-8.
pub fn decode_payload(b: &Vec<u8>) -> (r: Option<TagSet>)
    ensures
        r is Some <==> payload_tags(b@) is Some,
        r is Some ==> r->0.wf() && r->0@ == payload_tags(b@)->0,
{
    let runs = split_payload(b);
    let ghost segs = segments(b@);
    let mut strs: Vec<String> = Vec::new();
    let mut i: usize = 0;
    while i < runs.len()
        invariant
            runs@.map_values(|v: Vec<u8>| v@) == segs,
            segs == segments(b@),
            i <= runs@.len(),
            forall|j: int| 0 <= j < i ==> valid_utf8(#[trigger] segs[j]),
            strs@.map_values(|s: String| s@) == segs.take(i as int).map_values(
                |s: Seq<u8>| decode_utf8(s),
            ),
        decreases runs@.len() - i,
    {
        assert(runs@.map_values(|v: Vec<u8>| v@)[i as int] == runs@[i as int]@);
        match utf8_string(runs[i].as_slice()) {
            Some(s) => {
                let ghost prev = strs@;
                let ghost sv = s@;
                strs.push(s);
                assert(strs@ == prev.push(strs@.last()));
                assert(strs@.map_values(|s: String| s@) =~= prev.map_values(|s: String| s@).push(sv));
                assert(segs.take(i as int + 1) =~= segs.take(i as int).push(segs[i as int]));
                assert(strs@.map_values(|s: String| s@) =~= segs.take(i as int + 1).map_values(
                    |s: Seq<u8>| decode_utf8(s),
                ));
            },
            None => {
                assert(!valid_utf8(segs[i as int]));
                return None;
            },
        }
        i = i + 1;
    }
    assert(segs.take(segs.len() as int) =~= segs);
    Some(TagSet::from_vec(strs))
}

/// The payload for `tags`: their UTF-8 bytes joined by `|`, in the order in
/// which the set holds them.
pub fn encode_payload(tags: &TagSet) -> (r: Vec<u8>)
    ensures
        r@ == joined(tags.tag_seq()),
{
    let items = tags.items();
    let ghost ts = tags.tag_seq();
    let mut out: Vec<u8> = Vec::new();
    let mut i: usize = 0;
    assert(ts.take(0) =~= Seq::<Seq<char>>::empty());
    while i < items.len()
        invariant
            items@.map_values(|s: String| s@) == ts,
            i <= ts.len(),
            out@ == joined(ts.take(i as int)),
        decreases ts.len() - i,
    {
        let ghost prev = out@;
        if i > 0 {
            out.push(SEPARATOR);
        }
        let bytes = items[i].as_str().as_bytes();
        let ghost mid = out@;
        let mut k: usize = 0;
        while k < bytes.len()
            invariant
                k <= bytes@.len(),
                out@ == mid + bytes@.take(k as int),
            decreases bytes@.len() - k,
        {
            out.push(bytes[k]);
            assert(bytes@.take(k as int + 1) =~= bytes@.take(k as int).push(bytes@[k as int]));
            k = k + 1;
        }
        proof {
            assert(bytes@.take(bytes@.len() as int) =~= bytes@);
            let t = ts.take(i as int + 1);
            assert(t.drop_last() =~= ts.take(i as int));
            assert(t.last() == ts[i as int]);
            if i == 0 {
                assert(mid =~= Seq::<u8>::empty());
                assert(out@ =~= encode_utf8(ts[0]));
            } else {
                assert(mid =~= prev + seq![SEPARATOR]);
            }
        }
        i = i + 1;
    }
    assert(ts.take(ts.len() as int) =~= ts);
    out
}

} // verus!
