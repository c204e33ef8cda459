//! Policy compilation: a named policy lists predicates by name (all required,
//! none allowed); compiling it resolves every name through the predicate
//! space and builds a term with both index-list and mask forms. Unresolved
//! names surface in the error, never silently dropped, and the policy is
//! rejected as a whole.

use vstd::prelude::*;

use crate::model::Term;
use crate::model::mask_of;
use crate::space::PredicateSpace;
use crate::space::resolves;

verus! {

/// A named rule over predicate names instead of indices: every name in
/// `all` must hold, no name in `none` may.
pub struct PolicySpec {
    pub name: String,
    pub all: Vec<String>,
    pub none: Vec<String>,
}

/// A policy referenced at least one predicate name absent from the space.
/// Carries every unresolved name, in the order the policy listed them.
#[derive(Debug)]
pub struct NameResolutionError {
    pub unresolved: Vec<String>,
}

/// The names as character sequences, in order.
pub open spec fn views_of(names: Seq<String>) -> Seq<Seq<char>> {
    names.map(|i: int, s: String| s@)
}

/// Every one of `names` resolves in `sn`.
pub open spec fn all_resolve(sn: Seq<Seq<char>>, names: Seq<Seq<char>>) -> bool {
    forall|k: int| 0 <= k < names.len() ==> resolves(sn, #[trigger] names[k])
}

/// The subsequence of `names` that does not resolve in `sn`, in order.
pub open spec fn unresolved_of(sn: Seq<Seq<char>>, names: Seq<Seq<char>>) -> Seq<Seq<char>>
    decreases names.len(),
{
    if names.len() == 0 {
        Seq::empty()
    } else if resolves(sn, names.last()) {
        unresolved_of(sn, names.drop_last())
    } else {
        unresolved_of(sn, names.drop_last()).push(names.last())
    }
}

/// Nothing of `names` is unresolved exactly when every name resolves.
pub proof fn lemma_unresolved_empty(sn: Seq<Seq<char>>, names: Seq<Seq<char>>)
    ensures
        (unresolved_of(sn, names).len() == 0) == all_resolve(sn, names),
    decreases names.len(),
{
    if names.len() > 0 {
        lemma_unresolved_empty(sn, names.drop_last());
        if all_resolve(sn, names.drop_last()) && resolves(sn, names.last()) {
            assert forall|k: int| 0 <= k < names.len() implies resolves(sn, #[trigger] names[k])
                by {
                if k < names.len() - 1 {
                    assert(names.drop_last()[k] == names[k]);
                }
            }
        }
        if all_resolve(sn, names) {
            assert forall|k: int| 0 <= k < names.drop_last().len() implies resolves(
                sn,
                #[trigger] names.drop_last()[k],
            ) by {
                assert(names.drop_last()[k] == names[k]);
            }
        }
    }
}

/// `idx` resolves `names` against `sn`: entry for entry, the lowest index
/// bound to the name.
pub open spec fn resolved_indices(sn: Seq<Seq<char>>, names: Seq<String>, idx: Seq<u8>) -> bool {
    &&& idx.len() == names.len()
    &&& forall|k: int|
        0 <= k < names.len() ==> {
            &&& 0 <= (#[trigger] idx[k] as int) < sn.len()
            &&& sn[idx[k] as int] == names[k]@
            &&& forall|j: int| 0 <= j < idx[k] as int ==> sn[j] != names[k]@
        }
}

/// Compiles a policy against a predicate space. Succeeds exactly when every
/// listed name resolves; the term's required indices resolve `all` entry for
/// entry and its forbidden indices resolve `none`, with both masks computed.
/// On failure the error carries exactly the names that did not resolve, the
/// `all` list's first.
pub fn compile_policy(space: &PredicateSpace, policy: &PolicySpec) -> (r: Result<
    Term,
    NameResolutionError,
>)
    requires
        space.wf(),
    ensures
        r is Ok == (all_resolve(space.spec_names(), views_of(policy.all@)) && all_resolve(
            space.spec_names(),
            views_of(policy.none@),
        )),
        match r {
            Ok(t) => {
                &&& resolved_indices(space.spec_names(), policy.all@, t.req_idx@)
                &&& resolved_indices(space.spec_names(), policy.none@, t.forb_idx@)
                &&& t.req_mask == mask_of(t.req_idx@)
                &&& t.forb_mask == mask_of(t.forb_idx@)
                &&& t.wf(space.spec_names().len() as nat)
            },
            Err(e) => {
                &&& e.unresolved@.len() > 0
                &&& views_of(e.unresolved@) == unresolved_of(
                    space.spec_names(),
                    views_of(policy.all@),
                ) + unresolved_of(space.spec_names(), views_of(policy.none@))
            },
        },
{
    let ghost sn = space.spec_names();
    let mut req_idx: Vec<u8> = Vec::new();
    let mut forb_idx: Vec<u8> = Vec::new();
    let mut unresolved: Vec<String> = Vec::new();
    let na = policy.all.len();
    for i in 0..na
        invariant
            space.wf(),
            sn == space.spec_names(),
            na == policy.all@.len(),
            unresolved@.len() == 0 ==> resolved_indices(sn, policy.all@.take(i as int), req_idx@),
            forall|k: int| 0 <= k < req_idx@.len() ==> (#[trigger] req_idx@[k] as int) < sn.len(),
            views_of(unresolved@) == unresolved_of(sn, views_of(policy.all@.take(i as int))),
    {
        let ghost un0 = unresolved@;
        let ghost rq0 = req_idx@;
        let ghost va1 = views_of(policy.all@.take(i + 1));
        proof {
            assert(va1.drop_last() =~= views_of(policy.all@.take(i as int)));
            assert(va1.last() == policy.all@[i as int]@);
        }
        match space.lookup(policy.all[i].as_str()) {
            Some(ix) => {
                req_idx.push(ix as u8);
                proof {
                    assert(sn[ix as int] == policy.all@[i as int]@);
                    assert(resolves(sn, va1.last()));
                    if un0.len() == 0 {
                        assert forall|k: int| 0 <= k < i + 1 implies {
                            &&& 0 <= (#[trigger] req_idx@[k] as int) < sn.len()
                            &&& sn[req_idx@[k] as int] == policy.all@.take(i + 1)[k]@
                            &&& forall|j: int|
                                0 <= j < req_idx@[k] as int ==> sn[j] != policy.all@.take(
                                    i + 1,
                                )[k]@
                        } by {
                            if k < i {
                                assert(req_idx@[k] == rq0[k]);
                                assert(policy.all@.take(i + 1)[k] == policy.all@.take(i as int)[k]);
                            } else {
                                assert(req_idx@[k] == ix as u8);
                            }
                        }
                        assert(resolved_indices(sn, policy.all@.take(i + 1), req_idx@));
                    }
                }
            },
            None => {
                unresolved.push(policy.all[i].clone());
                proof {
                    assert(!resolves(sn, va1.last()));
                    assert(views_of(unresolved@) =~= views_of(un0).push(
                        policy.all@[i as int]@,
                    ));
                }
            },
        }
    }
    proof {
        assert(policy.all@.take(na as int) =~= policy.all@);
    }
    let nn = policy.none.len();
    for i in 0..nn
        invariant
            space.wf(),
            sn == space.spec_names(),
            na == policy.all@.len(),
            nn == policy.none@.len(),
            unresolved@.len() == 0 ==> resolved_indices(sn, policy.all@, req_idx@),
            unresolved@.len() == 0 ==> resolved_indices(sn, policy.none@.take(i as int), forb_idx@),
            forall|k: int| 0 <= k < req_idx@.len() ==> (#[trigger] req_idx@[k] as int) < sn.len(),
            forall|k: int| 0 <= k < forb_idx@.len() ==> (#[trigger] forb_idx@[k] as int) < sn.len(),
            views_of(unresolved@) == unresolved_of(sn, views_of(policy.all@)) + unresolved_of(
                sn,
                views_of(policy.none@.take(i as int)),
            ),
    {
        let ghost un0 = unresolved@;
        let ghost fb0 = forb_idx@;
        let ghost vn1 = views_of(policy.none@.take(i + 1));
        proof {
            assert(vn1.drop_last() =~= views_of(policy.none@.take(i as int)));
            assert(vn1.last() == policy.none@[i as int]@);
        }
        match space.lookup(policy.none[i].as_str()) {
            Some(ix) => {
                forb_idx.push(ix as u8);
                proof {
                    assert(sn[ix as int] == policy.none@[i as int]@);
                    assert(resolves(sn, vn1.last()));
                    if un0.len() == 0 {
                        assert forall|k: int| 0 <= k < i + 1 implies {
                            &&& 0 <= (#[trigger] forb_idx@[k] as int) < sn.len()
                            &&& sn[forb_idx@[k] as int] == policy.none@.take(i + 1)[k]@
                            &&& forall|j: int|
                                0 <= j < forb_idx@[k] as int ==> sn[j] != policy.none@.take(
                                    i + 1,
                                )[k]@
                        } by {
                            if k < i {
                                assert(forb_idx@[k] == fb0[k]);
                                assert(policy.none@.take(i + 1)[k] == policy.none@.take(
                                    i as int,
                                )[k]);
                            } else {
                                assert(forb_idx@[k] == ix as u8);
                            }
                        }
                        assert(resolved_indices(sn, policy.none@.take(i + 1), forb_idx@));
                    }
                }
            },
            None => {
                unresolved.push(policy.none[i].clone());
                proof {
                    assert(!resolves(sn, vn1.last()));
                    assert(views_of(unresolved@) =~= views_of(un0).push(
                        policy.none@[i as int]@,
                    ));
                    assert(unresolved_of(sn, vn1) == unresolved_of(
                        sn,
                        views_of(policy.none@.take(i as int)),
                    ).push(policy.none@[i as int]@));
                    assert(views_of(unresolved@) =~= unresolved_of(sn, views_of(policy.all@))
                        + unresolved_of(sn, vn1));
                }
            },
        }
    }
    proof {
        assert(policy.none@.take(nn as int) =~= policy.none@);
        lemma_unresolved_empty(sn, views_of(policy.all@));
        lemma_unresolved_empty(sn, views_of(policy.none@));
    }
    if unresolved.len() == 0 {
        Ok(Term::new(req_idx, forb_idx))
    } else {
        Err(NameResolutionError { unresolved })
    }
}

} // verus!
