use crate::allocators::{fresh_synth, lemma_has_name_grow};
use crate::api::{avs, has_name, uniq_names, Api, ApiV, Payload, PayloadV};
use crate::apivec::ApiVec;
use crate::name::QualifiedName;
use vstd::prelude::*;

verus! {

/// The record mentions the primitive C type named `n` somewhere in its
/// signature, fields or target.
pub open spec fn prim_mention(a: ApiV, n: Seq<char>) -> bool {
    match a.payload {
        PayloadV::Function(f) => (exists|i: int|
            0 <= i < f.params.len() && (#[trigger] f.params[i]).ty.primitive && f.params[i].ty.name
                == n) || (match f.ret {
            Some(t) => t.primitive && t.name == n,
            None => false,
        }),
        PayloadV::Record(d) => exists|i: int|
            0 <= i < d.fields.len() && (#[trigger] d.fields[i]).primitive && d.fields[i].name == n,
        PayloadV::Typedef(t) => t.primitive && t.name == n,
        _ => false,
    }
}

/// A synthesized primitive-type marker is justified by some surviving
/// record that actually mentions the type.
pub open spec fn is_ctype_marker_rec(a: ApiV, s: Seq<ApiV>) -> bool {
    a.payload is CTypeMarker && (exists|i: int|
        0 <= i < s.len() && prim_mention(#[trigger] s[i], a.name)) && fresh_synth(a)
}

/// Every collected name is mentioned by the record.
pub open spec fn prims_sound(a: ApiV, names: Seq<Seq<char>>) -> bool {
    forall|q: int| #![trigger names[q]] 0 <= q < names.len() ==> prim_mention(a, names[q])
}

/// Every primitive type the record mentions was collected.
pub open spec fn prims_complete(a: ApiV, names: Seq<Seq<char>>) -> bool {
    forall|n: Seq<char>| #[trigger] prim_mention(a, n) ==> names.contains(n)
}

/// Collect the names of every primitive C type one record mentions.
fn collect_prim_mentions(a: &Api) -> (names: Vec<QualifiedName>)
    ensures
        prims_sound(a@, names@.map_values(|m: QualifiedName| m@)),
        prims_complete(a@, names@.map_values(|m: QualifiedName| m@)),
{
    let mut names: Vec<QualifiedName> = Vec::new();
    match &a.payload {
        Payload::Function(f) => {
            let ghost fv = (match a@.payload {
                PayloadV::Function(fv0) => fv0,
                _ => arbitrary(),
            });
            let plen = f.params.len();
            let mut p: usize = 0;
            while p < plen
                invariant
                    p <= plen,
                    fv == f@,
                    plen == fv.params.len(),
                    prims_sound(a@, names@.map_values(|m: QualifiedName| m@)),
                    forall|q: int|
                        0 <= q < p && (#[trigger] fv.params[q]).ty.primitive
                            ==> names@.map_values(|m: QualifiedName| m@).contains(
                            fv.params[q].ty.name,
                        ),
                decreases plen - p,
            {
                let prm = &f.params[p];
                proof {
                    assert(fv.params[p as int] == f.params@[p as int]@);
                }
                if prm.ty.primitive {
                    let ghost prev = names@.map_values(|m: QualifiedName| m@);
                    names.push(prm.ty.name.clone());
                    let ghost cur = names@.map_values(|m: QualifiedName| m@);
                    proof {
                        assert(forall|q: int| 0 <= q < prev.len() ==> #[trigger] cur[q] == prev[q]);
                        assert(cur[cur.len() - 1] == fv.params[p as int].ty.name);
                        assert(prim_mention(a@, fv.params[p as int].ty.name));
                        assert forall|q: int|
                            0 <= q < p + 1 && (#[trigger] fv.params[q]).ty.primitive implies cur.contains(
                            fv.params[q].ty.name,
                        ) by {
                            if q < p {
                                let w = choose|w: int|
                                    0 <= w < prev.len() && #[trigger] prev[w] == fv.params[q].ty.name;
                                assert(cur[w] == fv.params[q].ty.name);
                            } else {
                                assert(cur[cur.len() - 1] == fv.params[q].ty.name);
                            }
                        }
                    }
                }
                p = p + 1;
            }
            let ret_prim = match &f.ret {
                Some(t) => {
                    if t.primitive {
                        Some(t.name.clone())
                    } else {
                        None
                    }
                },
                None => None,
            };
            if let Some(rn) = ret_prim {
                let ghost prev = names@.map_values(|m: QualifiedName| m@);
                names.push(rn);
                let ghost cur = names@.map_values(|m: QualifiedName| m@);
                proof {
                    assert(forall|q: int| 0 <= q < prev.len() ==> #[trigger] cur[q] == prev[q]);
                    assert(forall|x: Seq<char>|
                        #[trigger] prev.contains(x) ==> cur.contains(x)) by {
                        assert forall|x: Seq<char>|
                            #[trigger] prev.contains(x) implies cur.contains(x) by {
                            let w = choose|w: int| 0 <= w < prev.len() && #[trigger] prev[w] == x;
                            assert(cur[w] == x);
                        }
                    }
                }
            }
            proof {
                let cur = names@.map_values(|m: QualifiedName| m@);
                assert forall|n: Seq<char>| #[trigger] prim_mention(a@, n) implies cur.contains(
                    n,
                ) by {
                    if exists|i: int|
                        0 <= i < fv.params.len() && (#[trigger] fv.params[i]).ty.primitive
                            && fv.params[i].ty.name == n {
                        let i = choose|i: int|
                            0 <= i < fv.params.len() && (#[trigger] fv.params[i]).ty.primitive
                                && fv.params[i].ty.name == n;
                        assert(cur.contains(fv.params[i].ty.name));
                    } else {
                        assert(match fv.ret {
                            Some(t) => t.primitive && t.name == n,
                            None => false,
                        });
                        assert(cur[cur.len() - 1] == n);
                    }
                }
            }
        },
        Payload::Record(d) => {
            let ghost dv = (match a@.payload {
                PayloadV::Record(dv0) => dv0,
                _ => arbitrary(),
            });
            let flen = d.fields.len();
            let mut p: usize = 0;
            while p < flen
                invariant
                    p <= flen,
                    dv == d@,
                    flen == dv.fields.len(),
                    prims_sound(a@, names@.map_values(|m: QualifiedName| m@)),
                    forall|q: int|
                        0 <= q < p && (#[trigger] dv.fields[q]).primitive ==> names@.map_values(
                            |m: QualifiedName| m@,
                        ).contains(dv.fields[q].name),
                decreases flen - p,
            {
                let fld = &d.fields[p];
                proof {
                    assert(dv.fields[p as int] == d.fields@[p as int]@);
                }
                if fld.primitive {
                    let ghost prev = names@.map_values(|m: QualifiedName| m@);
                    names.push(fld.name.clone());
                    let ghost cur = names@.map_values(|m: QualifiedName| m@);
                    proof {
                        assert(forall|q: int| 0 <= q < prev.len() ==> #[trigger] cur[q] == prev[q]);
                        assert(cur[cur.len() - 1] == dv.fields[p as int].name);
                        assert(prim_mention(a@, dv.fields[p as int].name));
                        assert forall|q: int|
                            0 <= q < p + 1 && (#[trigger] dv.fields[q]).primitive implies cur.contains(
                            dv.fields[q].name,
                        ) by {
                            if q < p {
                                let w = choose|w: int|
                                    0 <= w < prev.len() && #[trigger] prev[w] == dv.fields[q].name;
                                assert(cur[w] == dv.fields[q].name);
                            } else {
                                assert(cur[cur.len() - 1] == dv.fields[q].name);
                            }
                        }
                    }
                }
                p = p + 1;
            }
            proof {
                let cur = names@.map_values(|m: QualifiedName| m@);
                assert forall|n: Seq<char>| #[trigger] prim_mention(a@, n) implies cur.contains(
                    n,
                ) by {
                    let i = choose|i: int|
                        0 <= i < dv.fields.len() && (#[trigger] dv.fields[i]).primitive
                            && dv.fields[i].name == n;
                    assert(cur.contains(dv.fields[i].name));
                }
            }
        },
        Payload::Typedef(t) => {
            if t.primitive {
                names.push(t.name.clone());
                proof {
                    let cur = names@.map_values(|m: QualifiedName| m@);
                    assert(cur[0] == t@.name);
                    assert(prim_mention(a@, t@.name));
                }
            }
        },
        _ => {},
    }
    names
}

/// After pruning, record which primitive C types are actually
/// referenced by surviving records, one marker per distinct type, so
/// the generator can emit exactly the necessary forward declarations.
pub fn append_ctype_information(apis: &mut ApiVec)
    requires
        uniq_names(avs(old(apis)@)),
    ensures
        final(apis)@.len() >= old(apis)@.len(),
        forall|i: int|
            0 <= i < old(apis)@.len() ==> avs(final(apis)@)[i] == avs(old(apis)@)[i],
        forall|k: int|
            old(apis)@.len() <= k < final(apis)@.len() ==> is_ctype_marker_rec(
                #[trigger] avs(final(apis)@)[k],
                avs(old(apis)@),
            ),
        forall|d: int, n: Seq<char>|
            #![trigger prim_mention(avs(old(apis)@)[d], n)]
            0 <= d < old(apis)@.len() && prim_mention(avs(old(apis)@)[d], n) ==> has_name(
                avs(final(apis)@),
                n,
            ),
        uniq_names(avs(final(apis)@)),
{
    let ghost s = avs(apis@);
    let len0 = apis.len();
    let mut d: usize = 0;
    while d < len0
        invariant
            len0 == s.len(),
            d <= len0,
            apis@.len() >= len0,
            forall|p: int| 0 <= p < len0 ==> avs(apis@)[p] == s[p],
            forall|k: int|
                len0 <= k < apis@.len() ==> is_ctype_marker_rec(#[trigger] avs(apis@)[k], s),
            forall|p: int, n: Seq<char>|
                #![trigger prim_mention(s[p], n)]
                0 <= p < d && prim_mention(s[p], n) ==> has_name(avs(apis@), n),
            uniq_names(avs(apis@)),
        decreases len0 - d,
    {
        let mentions = collect_prim_mentions(apis.get(d));
        proof {
            assert(avs(apis@)[d as int] == apis@[d as int]@);
            assert(avs(apis@)[d as int] == s[d as int]);
        }
        let ghost mviews = mentions@.map_values(|m: QualifiedName| m@);
        let mlen = mentions.len();
        let mut q: usize = 0;
        while q < mlen
            invariant
                q <= mlen,
                d < len0,
                len0 == s.len(),
                apis@.len() >= len0,
                mlen == mviews.len(),
                mviews == mentions@.map_values(|m: QualifiedName| m@),
                prims_sound(s[d as int], mviews),
                forall|p: int| 0 <= p < len0 ==> avs(apis@)[p] == s[p],
                forall|k: int|
                    len0 <= k < apis@.len() ==> is_ctype_marker_rec(#[trigger] avs(apis@)[k], s),
                forall|p: int, n: Seq<char>|
                    #![trigger prim_mention(s[p], n)]
                    0 <= p < d && prim_mention(s[p], n) ==> has_name(avs(apis@), n),
                forall|w: int| 0 <= w < q ==> has_name(avs(apis@), #[trigger] mviews[w]),
                uniq_names(avs(apis@)),
            decreases mlen - q,
        {
            let m = mentions[q].clone();
            proof {
                assert(m@ == mviews[q as int]);
                assert(prim_mention(s[d as int], m@));
            }
            if !apis.contains_name(&m) {
                let rec = Api::plain(m, None, Payload::CTypeMarker, false);
                let ghost prev = apis@;
                apis.push(rec);
                proof {
                    assert(forall|p: int|
                        0 <= p < prev.len() ==> #[trigger] avs(apis@)[p] == avs(prev)[p]);
                    assert(avs(apis@).last() == apis@.last()@);
                    assert(is_ctype_marker_rec(avs(apis@).last(), s));
                    assert(forall|p: int, pq: int|
                        0 <= p < pq < avs(apis@).len() ==> avs(apis@)[p].name != avs(
                            apis@,
                        )[pq].name);
                    lemma_has_name_grow(avs(prev), avs(apis@));
                }
            }
            proof {
                assert(has_name(avs(apis@), mviews[q as int]));
            }
            q = q + 1;
        }
        proof {
            assert forall|n: Seq<char>| prim_mention(#[trigger] s[d as int], n) implies has_name(
                avs(apis@),
                n,
            ) by {
                assert(mviews.contains(n));
                let w = choose|w: int| 0 <= w < mviews.len() && #[trigger] mviews[w] == n;
                assert(has_name(avs(apis@), mviews[w]));
            }
        }
        d = d + 1;
    }
}

} // verus!
