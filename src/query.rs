use vstd::prelude::*;
use crate::router::seg_is;

verus! {

/// The (name, value) pairs of a query string, in order, as form_urlencoded decodes them.
pub uninterp spec fn query_pairs(q: Seq<u8>) -> Seq<(Seq<u8>, Seq<u8>)>;

pub open spec fn pairs_view(v: Seq<(Vec<u8>, Vec<u8>)>) -> Seq<(Seq<u8>, Seq<u8>)> {
    v.map_values(|p: (Vec<u8>, Vec<u8>)| (p.0@, p.1@))
}

/// Relies on form_urlencoded::parse: it splits on `&` and `=`, decodes `+` and escapes,
/// and depends on the input bytes alone; an empty input has no pairs.
#[verifier::external_body]
fn parse_pairs(q: &[u8]) -> (r: Vec<(Vec<u8>, Vec<u8>)>)
    ensures
        pairs_view(r@) == query_pairs(q@),
        q@.len() == 0 ==> r@.len() == 0,
{
    form_urlencoded::parse(q).map(|(k, v)| (k.into_owned().into_bytes(), v.into_owned().into_bytes())).collect()
}

/// The value that the last pair named `k` gives it, if any pair does.
pub open spec fn last_value(s: Seq<(Seq<u8>, Seq<u8>)>, k: Seq<u8>) -> Option<Seq<u8>>
    decreases s.len(),
{
    if s.len() == 0 {
        None
    } else if s.last().0 == k {
        Some(s.last().1)
    } else {
        last_value(s.drop_last(), k)
    }
}

/// `m` holds each name of `s` once, with the value of its last pair, and nothing else.
pub open spec fn is_query_map(m: Seq<(Seq<u8>, Seq<u8>)>, s: Seq<(Seq<u8>, Seq<u8>)>) -> bool {
    &&& forall|a: int, b: int| 0 <= a < b < m.len() ==> m[a].0 != m[b].0
    &&& forall|a: int| 0 <= a < m.len() ==> last_value(s, #[trigger] m[a].0) == Some(m[a].1)
    &&& forall|k: Seq<u8>| #[trigger] last_value(s, k) is Some ==> exists|a: int|
        0 <= a < m.len() && m[a].0 == k
}

/// Collects (name, value) pairs into a mapping: each name once, with the value of
/// its last pair.
pub fn collect_pairs(pairs: Vec<(Vec<u8>, Vec<u8>)>) -> (r: Vec<(Vec<u8>, Vec<u8>)>)
    ensures
        is_query_map(pairs_view(r@), pairs_view(pairs@)),
{
    let ghost s = pairs_view(pairs@);
    let mut out: Vec<(Vec<u8>, Vec<u8>)> = Vec::new();
    let mut i: usize = 0;
    while i < pairs.len()
        invariant
            i <= pairs@.len(),
            s == pairs_view(pairs@),
            is_query_map(pairs_view(out@), s.take(i as int)),
        decreases pairs@.len() - i,
    {
        let ghost before = s.take(i as int);
        let ghost after = s.take(i + 1);
        assert(after.drop_last() =~= before);
        assert(after.last() == s[i as int]);
        let k = pairs[i].0.clone();
        let v = pairs[i].1.clone();
        assert(k@ == s[i as int].0 && v@ == s[i as int].1);
        let mut j: usize = 0;
        let mut found = false;
        while j < out.len() && !found
            invariant
                j <= out@.len(),
                found ==> j < out@.len() && out@[j as int].0@ == k@,
                !found ==> forall|a: int| 0 <= a < j ==> out@[a].0@ != k@,
            decreases out@.len() - j + (if found { 0int } else { 1int }),
        {
            if seg_is(out[j].0.as_slice(), k.as_slice()) {
                found = true;
            } else {
                j = j + 1;
            }
        }
        let ghost old_view = pairs_view(out@);
        assert(found ==> old_view[j as int].0 == k@);
        assert(!found ==> forall|a: int| 0 <= a < old_view.len() ==> old_view[a].0 != k@);
        if found {
            out.set(j, (k, v));
        } else {
            out.push((k, v));
        }
        let ghost m = pairs_view(out@);
        let ghost at = if found { j as int } else { old_view.len() as int };
        assert(m[at] == (k@, v@));
        assert(last_value(after, k@) == Some(v@));
        assert forall|a: int| 0 <= a < m.len() && a != at implies m[a] == old_view[a]
            && m[a].0 != k@ by {
            if found {
                assert(old_view[a].0 != old_view[j as int].0);
            }
        }
        assert forall|a: int, b: int| 0 <= a < b < m.len() implies m[a].0 != m[b].0 by {
            if a != at && b != at {
                assert(old_view[a].0 != old_view[b].0);
            }
        }
        assert forall|a: int| 0 <= a < m.len() implies last_value(after, #[trigger] m[a].0)
            == Some(m[a].1) by {
            if a != at {
                assert(last_value(before, old_view[a].0) == Some(old_view[a].1));
            }
        }
        assert forall|kk: Seq<u8>| #[trigger] last_value(after, kk) is Some implies exists|a: int|
            0 <= a < m.len() && m[a].0 == kk by {
            if kk == k@ {
                assert(m[at].0 == kk);
            } else {
                assert(last_value(before, kk) is Some);
                let a = choose|a: int| 0 <= a < old_view.len() && old_view[a].0 == kk;
                assert(m[a] == old_view[a]);
            }
        }
        i = i + 1;
    }
    assert(s.take(i as int) =~= s);
    out
}

/// Parses a query string into the mapping that the items listing receives.
pub fn parse_query(q: &[u8]) -> (r: Vec<(Vec<u8>, Vec<u8>)>)
    ensures
        is_query_map(pairs_view(r@), query_pairs(q@)),
{
    let pairs = parse_pairs(q);
    collect_pairs(pairs)
}

} // verus!
