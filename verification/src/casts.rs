use crate::api::{
    avs, clone_names, downcast_name_v, has_name, uniq_names, upcast_name_v, Api, ApiV, CastDetails,
    Payload, PayloadV,
};
use crate::allocators::{fresh_synth, lemma_has_name_grow};
use crate::apivec::ApiVec;
use crate::name::QualifiedName;
use vstd::prelude::*;
use vstd::string::StringExecFns;

verus! {

/// `from` declares `to` among its bases in the snapshot.
pub open spec fn has_base(s: Seq<ApiV>, from: Seq<char>, to: Seq<char>) -> bool {
    exists|d: int|
        0 <= d < s.len() && (match (#[trigger] s[d]).payload {
            PayloadV::Record(dd) => s[d].name == from && (exists|bi: int|
                0 <= bi < dd.bases.len() && #[trigger] dd.bases[bi] == to),
            _ => false,
        })
}

/// Some record-type of the snapshot carries this name.
pub open spec fn record_named(s: Seq<ApiV>, n: Seq<char>) -> bool {
    exists|j: int| 0 <= j < s.len() && (#[trigger] s[j]).name == n && s[j].payload is Record
}

/// The pairs for which cast helpers are synthesized: inheritance pairs
/// whose base is itself a known record-type.
pub open spec fn cast_pair(s: Seq<ApiV>, from: Seq<char>, to: Seq<char>) -> bool {
    has_base(s, from, to) && record_named(s, to)
}

/// A synthesized cast helper is justified by an inheritance pair of
/// the input snapshot and named canonically after its two ends.
pub open spec fn is_synth_cast(a: ApiV, s: Seq<ApiV>) -> bool {
    match a.payload {
        PayloadV::Cast(c) => cast_pair(s, c.from, c.to) && a.name == (if c.upcast {
            upcast_name_v(c.from, c.to)
        } else {
            downcast_name_v(c.from, c.to)
        }) && fresh_synth(a),
        _ => false,
    }
}

pub fn upcast_name_exec(from: &QualifiedName, to: &QualifiedName) -> (r: QualifiedName)
    ensures
        r@ == upcast_name_v(from@, to@),
{
    QualifiedName { text: from.text.clone().concat("_shim_upcast_").concat(to.text.as_str()) }
}

pub fn downcast_name_exec(from: &QualifiedName, to: &QualifiedName) -> (r: QualifiedName)
    ensures
        r@ == downcast_name_v(from@, to@),
{
    QualifiedName { text: from.text.clone().concat("_shim_downcast_").concat(to.text.as_str()) }
}

/// Cast insertion: for every record-type and each of its bases that is
/// itself a known record-type, append an explicit upcast and downcast
/// helper record. A synthesized name colliding with an existing record
/// is skipped rather than duplicated.
pub fn add_casts(apis: ApiVec) -> (r: ApiVec)
    requires
        uniq_names(avs(apis@)),
    ensures
        r@.len() >= apis@.len(),
        forall|i: int| 0 <= i < apis@.len() ==> avs(r@)[i] == avs(apis@)[i],
        forall|k: int|
            apis@.len() <= k < r@.len() ==> is_synth_cast(#[trigger] avs(r@)[k], avs(apis@)),
        forall|d: int, bi: int|
            #![trigger payload_base(avs(apis@)[d].payload, bi)]
            0 <= d < apis@.len() && (match avs(apis@)[d].payload {
                PayloadV::Record(dd) => 0 <= bi < dd.bases.len() && record_named(
                    avs(apis@),
                    dd.bases[bi],
                ),
                _ => false,
            }) ==> has_name(
                avs(r@),
                upcast_name_v(avs(apis@)[d].name, payload_base(avs(apis@)[d].payload, bi)),
            ) && has_name(
                avs(r@),
                downcast_name_v(avs(apis@)[d].name, payload_base(avs(apis@)[d].payload, bi)),
            ),
        uniq_names(avs(r@)),
{
    let ghost s = avs(apis@);
    let len0 = apis.len();
    let mut out = apis;
    let mut d: usize = 0;
    while d < len0
        invariant
            len0 == s.len(),
            d <= len0,
            out@.len() >= len0,
            forall|p: int| 0 <= p < len0 ==> avs(out@)[p] == s[p],
            forall|k: int| len0 <= k < out@.len() ==> is_synth_cast(#[trigger] avs(out@)[k], s),
            forall|p: int, bi: int|
                #![trigger payload_base(s[p].payload, bi)]
                0 <= p < d && (match s[p].payload {
                    PayloadV::Record(dd) => 0 <= bi < dd.bases.len() && record_named(
                        s,
                        dd.bases[bi],
                    ),
                    _ => false,
                }) ==> has_name(avs(out@), upcast_name_v(s[p].name, payload_base(s[p].payload, bi)))
                    && has_name(
                    avs(out@),
                    downcast_name_v(s[p].name, payload_base(s[p].payload, bi)),
                ),
            uniq_names(avs(out@)),
        decreases len0 - d,
    {
        let (from, bases) = {
            let a = out.get(d);
            proof {
                assert(avs(out@)[d as int] == out@[d as int]@);
            }
            match &a.payload {
                Payload::Record(dd) => (a.name.clone(), Some(clone_names(&dd.bases))),
                _ => (a.name.clone(), None),
            }
        };
        if let Some(bases) = bases {
            let ghost dv = (match s[d as int].payload {
                PayloadV::Record(dd) => dd,
                _ => arbitrary(),
            });
            let blen = bases.len();
            let mut bi: usize = 0;
            while bi < blen
                invariant
                    bi <= blen,
                    d < len0,
                    len0 == s.len(),
                    out@.len() >= len0,
                    s[d as int].payload == PayloadV::Record(dv),
                    blen == dv.bases.len(),
                    from@ == s[d as int].name,
                    forall|q: int| 0 <= q < blen ==> bases@[q]@ == dv.bases[q],
                    forall|p: int| 0 <= p < len0 ==> avs(out@)[p] == s[p],
                    forall|k: int|
                        len0 <= k < out@.len() ==> is_synth_cast(#[trigger] avs(out@)[k], s),
                    forall|p: int, bj: int|
                        #![trigger payload_base(s[p].payload, bj)]
                        0 <= p < d && (match s[p].payload {
                            PayloadV::Record(dd) => 0 <= bj < dd.bases.len() && record_named(
                                s,
                                dd.bases[bj],
                            ),
                            _ => false,
                        }) ==> has_name(
                            avs(out@),
                            upcast_name_v(s[p].name, payload_base(s[p].payload, bj)),
                        ) && has_name(
                            avs(out@),
                            downcast_name_v(s[p].name, payload_base(s[p].payload, bj)),
                        ),
                    forall|bj: int|
                        0 <= bj < bi && record_named(s, dv.bases[bj]) ==> has_name(
                            avs(out@),
                            upcast_name_v(s[d as int].name, #[trigger] dv.bases[bj]),
                        ) && has_name(
                            avs(out@),
                            downcast_name_v(s[d as int].name, dv.bases[bj]),
                        ),
                    uniq_names(avs(out@)),
                decreases blen - bi,
            {
                let base = &bases[bi];
                proof {
                    assert(base@ == dv.bases[bi as int]);
                }
                // Is the base itself a known record-type? Scan the
                // unchanged prefix of the collection.
                let mut known = false;
                let mut jj: usize = 0;
                while jj < len0
                    invariant
                        jj <= len0,
                        len0 == s.len(),
                        out@.len() >= len0,
                        forall|p: int| 0 <= p < len0 ==> avs(out@)[p] == s[p],
                        known == (exists|j: int|
                            0 <= j < jj && (#[trigger] s[j]).name == base@
                                && s[j].payload is Record),
                    decreases len0 - jj,
                {
                    let b = out.get(jj);
                    proof {
                        assert(avs(out@)[jj as int] == out@[jj as int]@);
                        assert(avs(out@)[jj as int] == s[jj as int]);
                    }
                    let is_rec = match &b.payload {
                        Payload::Record(_) => true,
                        _ => false,
                    };
                    if is_rec && b.name.eq_name(base) {
                        proof {
                            assert(s[jj as int].name == base@ && s[jj as int].payload is Record);
                        }
                        known = true;
                    }
                    jj = jj + 1;
                }
                if known {
                    proof {
                        assert(record_named(s, base@));
                        assert(has_base(s, from@, base@)) by {
                            assert(match s[d as int].payload {
                                PayloadV::Record(dd) => s[d as int].name == from@ && 0 <= bi
                                    < dd.bases.len() && dd.bases[bi as int] == base@,
                                _ => false,
                            });
                        }
                    }
                    let un = upcast_name_exec(&from, base);
                    if !out.contains_name(&un) {
                        let rec = Api::plain(
                            un,
                            None,
                            Payload::Cast(
                                CastDetails { from: from.clone(), to: base.clone(), upcast: true },
                            ),
                            false,
                        );
                        let ghost prev = out@;
                        out.push(rec);
                        proof {
                            assert(forall|p: int|
                                0 <= p < prev.len() ==> #[trigger] avs(out@)[p] == avs(prev)[p]);
                            assert(avs(out@).last() == out@.last()@);
                            assert(is_synth_cast(avs(out@).last(), s));
                            assert(forall|p: int, q: int|
                                0 <= p < q < avs(out@).len() ==> avs(out@)[p].name != avs(
                                    out@,
                                )[q].name);
                            lemma_has_name_grow(avs(prev), avs(out@));
                        }
                    }
                    proof {
                        assert(has_name(avs(out@), upcast_name_v(s[d as int].name, base@)));
                    }
                    let dn = downcast_name_exec(&from, base);
                    if !out.contains_name(&dn) {
                        let rec = Api::plain(
                            dn,
                            None,
                            Payload::Cast(
                                CastDetails { from: from.clone(), to: base.clone(), upcast: false },
                            ),
                            false,
                        );
                        let ghost prev = out@;
                        out.push(rec);
                        proof {
                            assert(forall|p: int|
                                0 <= p < prev.len() ==> #[trigger] avs(out@)[p] == avs(prev)[p]);
                            assert(avs(out@).last() == out@.last()@);
                            assert(is_synth_cast(avs(out@).last(), s));
                            assert(forall|p: int, q: int|
                                0 <= p < q < avs(out@).len() ==> avs(out@)[p].name != avs(
                                    out@,
                                )[q].name);
                            lemma_has_name_grow(avs(prev), avs(out@));
                        }
                    }
                    proof {
                        assert(has_name(avs(out@), downcast_name_v(s[d as int].name, base@)));
                    }
                }
                bi = bi + 1;
            }
        }
        d = d + 1;
    }
    out
}

/// The `bi`-th base of a record payload (meaningful only for records).
pub open spec fn payload_base(p: PayloadV, bi: int) -> Seq<char> {
    match p {
        PayloadV::Record(dd) => dd.bases[bi],
        _ => Seq::empty(),
    }
}

} // verus!
