use crate::api::{avs, Api, ApiV, Payload, PayloadV, SpecialMember};
use crate::apivec::ApiVec;
use crate::name::QualifiedName;
use vstd::prelude::*;

verus! {

/// A copy/move constructor or destructor record of the named type that
/// the bridge's value-holder abstraction needs retained even when
/// nothing else references it.
pub open spec fn retained_member(tname: Seq<char>, b: ApiV) -> bool {
    match b.payload {
        PayloadV::Function(f) => (f.special is CopyConstructor || f.special is MoveConstructor
            || f.special is Destructor) && f.self_ty == Some(tname) && b.ignored is None,
        _ => false,
    }
}

/// Every collected dependency name belongs to a retained member.
pub open spec fn deps_sound(s: Seq<ApiV>, tname: Seq<char>, deps: Seq<Seq<char>>) -> bool {
    forall|q: int|
        #![trigger deps[q]]
        0 <= q < deps.len() ==> (exists|jj: int|
            #![trigger s[jj]]
            0 <= jj < s.len() && retained_member(tname, s[jj]) && s[jj].name == deps[q])
}

/// Every retained member with an index in the given range was
/// collected.
pub open spec fn deps_complete(
    s: Seq<ApiV>,
    tname: Seq<char>,
    deps: Seq<Seq<char>>,
    lo: int,
    hi: int,
) -> bool {
    forall|jj: int|
        #![trigger s[jj]]
        lo <= jj < hi && retained_member(tname, s[jj]) ==> (exists|q: int|
            #![trigger deps[q]]
            0 <= q < deps.len() && deps[q] == s[jj].name)
}

/// The decoration one record receives: on record-types, exactly the
/// names of their retained special members; identical in every other
/// field.
pub open spec fn ctor_decorated_ok(s: Seq<ApiV>, i: int, o: ApiV) -> bool {
    let a = s[i];
    o.name == a.name && o.cpp_name == a.cpp_name && o.payload == a.payload && o.class == a.class
        && o.shape == a.shape && o.ignored == a.ignored && o.always_keep == a.always_keep && (if
    a.payload is Record {
        deps_sound(s, a.name, o.ctor_deps) && deps_complete(s, a.name, o.ctor_deps, 0, s.len() as int)
    } else {
        o.ctor_deps == a.ctor_deps
    })
}

/// Is this record a retained special member of the named type?
fn retained_member_exec(b: &Api, tname: &QualifiedName) -> (r: bool)
    ensures
        r == retained_member(tname@, b@),
{
    match &b.payload {
        Payload::Function(f) => {
            let sp = match f.special {
                SpecialMember::CopyConstructor => true,
                SpecialMember::MoveConstructor => true,
                SpecialMember::Destructor => true,
                _ => false,
            };
            sp && b.ignored.is_none() && (match &f.self_ty {
                Some(t) => t.eq_name(tname),
                None => false,
            })
        },
        _ => false,
    }
}

/// Collect the names of every retained member of `tname` from the
/// whole snapshot, in collection order.
fn collect_retained(apis: &ApiVec, tname: &QualifiedName) -> (deps: Vec<QualifiedName>)
    ensures
        deps_sound(avs(apis@), tname@, deps@.map_values(|m: QualifiedName| m@)),
        deps_complete(
            avs(apis@),
            tname@,
            deps@.map_values(|m: QualifiedName| m@),
            0,
            avs(apis@).len() as int,
        ),
{
    let ghost s = avs(apis@);
    let n = apis.len();
    let mut deps: Vec<QualifiedName> = Vec::new();
    let mut j: usize = 0;
    while j < n
        invariant
            j <= n,
            n == s.len(),
            deps_sound(s, tname@, deps@.map_values(|m: QualifiedName| m@)),
            deps_complete(s, tname@, deps@.map_values(|m: QualifiedName| m@), 0, j as int),
        decreases n - j,
    {
        let b = apis.get(j);
        proof {
            assert(s[j as int] == apis@[j as int]@);
        }
        if retained_member_exec(b, tname) {
            let ghost prev = deps@.map_values(|m: QualifiedName| m@);
            deps.push(b.name.clone());
            let ghost cur = deps@.map_values(|m: QualifiedName| m@);
            proof {
                assert(retained_member(tname@, s[j as int]));
                assert(cur.len() == prev.len() + 1);
                assert(forall|q: int| 0 <= q < prev.len() ==> #[trigger] cur[q] == prev[q]);
                assert(cur[cur.len() - 1] == s[j as int].name);
                assert(deps_sound(s, tname@, cur)) by {
                    assert forall|q: int| #![trigger cur[q]] 0 <= q < cur.len() implies (exists|
                        jj: int,
                    |
                        #![trigger s[jj]]
                        0 <= jj < s.len() && retained_member(tname@, s[jj]) && s[jj].name
                            == cur[q]) by {
                        if q < prev.len() {
                            assert(cur[q] == prev[q]);
                        } else {
                            assert(retained_member(tname@, s[j as int]) && s[j as int].name
                                == cur[q]);
                        }
                    }
                }
                assert(deps_complete(s, tname@, cur, 0, j + 1)) by {
                    assert forall|jj: int|
                        #![trigger s[jj]]
                        0 <= jj < j + 1 && retained_member(tname@, s[jj]) implies (exists|q: int|
                        #![trigger cur[q]]
                        0 <= q < cur.len() && cur[q] == s[jj].name) by {
                        if jj < j {
                            let q = choose|q: int|
                                #![trigger prev[q]]
                                0 <= q < prev.len() && prev[q] == s[jj].name;
                            assert(cur[q] == s[jj].name);
                        } else {
                            assert(cur[cur.len() - 1] == s[jj].name);
                        }
                    }
                }
            }
        } else {
            proof {
                assert(deps_complete(s, tname@, deps@.map_values(|m: QualifiedName| m@), 0, j + 1));
            }
        }
        j = j + 1;
    }
    deps
}

/// Constructor-dependency decoration: note on each record-type which
/// copy/move constructor and destructor records must stay alive for
/// its value-holder abstraction, feeding extra retention edges into
/// reachability pruning.
pub fn decorate_types_with_constructor_deps(apis: ApiVec) -> (r: ApiVec)
    ensures
        r@.len() == apis@.len(),
        forall|i: int|
            0 <= i < apis@.len() ==> ctor_decorated_ok(avs(apis@), i, #[trigger] avs(r@)[i]),
{
    let ghost s = avs(apis@);
    let n = apis.len();
    // Pass 1: collect the retained-member names per record, against
    // the unchanged input snapshot.
    let mut deps_per: Vec<Option<Vec<QualifiedName>>> = Vec::new();
    let mut i: usize = 0;
    while i < n
        invariant
            i <= n,
            n == s.len(),
            deps_per@.len() == i,
            forall|p: int|
                0 <= p < i ==> (match #[trigger] deps_per@[p] {
                    Some(d) => s[p].payload is Record && deps_sound(
                        s,
                        s[p].name,
                        d@.map_values(|m: QualifiedName| m@),
                    ) && deps_complete(
                        s,
                        s[p].name,
                        d@.map_values(|m: QualifiedName| m@),
                        0,
                        s.len() as int,
                    ),
                    None => !(s[p].payload is Record),
                }),
        decreases n - i,
    {
        let a = apis.get(i);
        proof {
            assert(s[i as int] == apis@[i as int]@);
        }
        let entry = match &a.payload {
            Payload::Record(_) => Some(collect_retained(&apis, &a.name)),
            _ => None,
        };
        deps_per.push(entry);
        i = i + 1;
    }
    // Pass 2: attach the decoration in collection order.
    let ghost dps = deps_per@;
    let mut rest = apis;
    let mut out = ApiVec::new();
    while rest.len() > 0
        invariant
            s.len() == out@.len() + rest@.len(),
            s.len() == n,
            dps.len() == n,
            deps_per@ == dps.subrange(out@.len() as int, n as int),
            avs(rest@) == s.subrange(out@.len() as int, s.len() as int),
            forall|p: int|
                0 <= p < n ==> (match #[trigger] dps[p] {
                    Some(d) => s[p].payload is Record && deps_sound(
                        s,
                        s[p].name,
                        d@.map_values(|m: QualifiedName| m@),
                    ) && deps_complete(
                        s,
                        s[p].name,
                        d@.map_values(|m: QualifiedName| m@),
                        0,
                        s.len() as int,
                    ),
                    None => !(s[p].payload is Record),
                }),
            forall|p: int| 0 <= p < out@.len() ==> ctor_decorated_ok(s, p, #[trigger] avs(out@)[p]),
        decreases rest@.len(),
    {
        let k = out.len();
        let ghost prev_rest = rest@;
        let ghost prev_deps = deps_per@;
        let mut a = rest.remove_first();
        let entry = deps_per.remove(0);
        proof {
            assert(a@ == avs(prev_rest)[0]);
            assert(a@ == s[k as int]);
            assert(entry == dps[k as int]);
            assert(avs(rest@) =~= s.subrange(k + 1, s.len() as int)) by {
                assert(forall|p: int|
                    0 <= p < rest@.len() ==> #[trigger] avs(rest@)[p] == avs(prev_rest)[p + 1]);
            }
            assert(deps_per@ =~= dps.subrange(k + 1, n as int));
        }
        if let Some(deps) = entry {
            a.ctor_deps = deps;
        }
        let ghost prev_out = out@;
        out.push(a);
        proof {
            assert(avs(out@)[k as int] == out@[k as int]@);
            assert(ctor_decorated_ok(s, k as int, avs(out@)[k as int]));
            assert(forall|p: int| 0 <= p < k ==> #[trigger] avs(out@)[p] == avs(prev_out)[p]);
        }
    }
    out
}

} // verus!
