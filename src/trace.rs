//! Whole runs. A run whose listing calls are all answered by one registry
//! lists the services of exactly the namespaces that pass its filter, each
//! once and in listing order; it never fails; and when it finishes it
//! publishes exactly the groups of the registry's services that have an
//! address, each labelled with its namespace's and its service's name.

use vstd::prelude::*;
use crate::discovery::{
    addresses, lemma_filter_exact, lemma_no_filter_keeps_all, lemma_retained_is_filter, passes,
    passes_filter, retained, service_group, standard_labels, summary_view, GroupModel, Summary,
};
use crate::run::{
    answers, discovered, initial, lemma_faithful_step, lemma_initial_on_track, listed_services,
    namespace_groups, next, on_track, open_namespace, open_service, opt_group, pending,
    service_groups, ActionModel, RegistryModel, Response, RunModel, Stage,
};

verus! {

/// The actions that a run in state `m` takes on the responses `rs`, one for
/// each response.
pub open spec fn run_actions(m: RunModel, rs: Seq<Response>) -> Seq<ActionModel>
    decreases rs.len(),
{
    if rs.len() == 0 {
        Seq::empty()
    } else {
        seq![next(m, rs[0]).1] + run_actions(next(m, rs[0]).0, rs.drop_first())
    }
}

/// Whether each response of `rs` is what `reg` answers to the listing call
/// that a run, starting in state `m`, has asked for at that point.
pub open spec fn answered_by(reg: RegistryModel, m: RunModel, rs: Seq<Response>) -> bool
    decreases rs.len(),
{
    rs.len() == 0 || (answers(reg, pending(m), rs[0]) && answered_by(
        reg,
        next(m, rs[0]).0,
        rs.drop_first(),
    ))
}

/// The identifiers of the namespaces whose services the actions ask for, in
/// order.
pub open spec fn service_listings(acts: Seq<ActionModel>) -> Seq<Seq<char>>
    decreases acts.len(),
{
    if acts.len() == 0 {
        Seq::empty()
    } else {
        let rest = service_listings(acts.drop_first());
        match acts[0] {
            ActionModel::ListServices(id) => seq![id] + rest,
            _ => rest,
        }
    }
}

/// The identifiers of a list of namespaces or services.
pub open spec fn ids(s: Seq<(Seq<char>, Seq<char>)>) -> Seq<Seq<char>> {
    s.map_values(|p: (Seq<char>, Seq<char>)| p.0)
}

/// The identifiers of the namespaces whose services a run in state `m` has
/// still to ask for.
pub open spec fn remaining_ids(reg: RegistryModel, m: RunModel) -> Seq<Seq<char>> {
    match m.stage {
        Stage::Namespaces => ids(retained(reg.namespaces, m.filter)),
        Stage::Services | Stage::Instances => ids(
            m.namespaces.subrange((m.ns_at + 1) as int, m.namespaces.len() as int),
        ),
        Stage::Over => Seq::empty(),
    }
}

/// Group `g` is the one of service `svc` in namespace `ns_name`.
pub open spec fn names_group(
    reg: RegistryModel,
    ns_name: Seq<char>,
    svc: (Seq<char>, Seq<char>),
    g: GroupModel,
) -> bool {
    &&& g.targets == addresses((reg.instances)(svc.0))
    &&& g.targets.len() > 0
    &&& g.labels == standard_labels(ns_name, svc.1)
}

proof fn lemma_open_namespace_ids(
    filter: Option<Seq<char>>,
    nss: Seq<(Seq<char>, Seq<char>)>,
    k: nat,
    groups: Seq<GroupModel>,
)
    requires
        k <= nss.len(),
    ensures
        ({
            let (after, a) = open_namespace(filter, nss, k, groups);
            &&& a is ListServices || a is Finish
            &&& a matches ActionModel::ListServices(id) ==> {
                &&& after.stage == Stage::Services
                &&& after.namespaces == nss
                &&& after.ns_at == k
                &&& ids(nss.subrange(k as int, nss.len() as int)) == seq![id] + ids(
                    nss.subrange((k + 1) as int, nss.len() as int),
                )
            }
            &&& a is Finish ==> ids(nss.subrange(k as int, nss.len() as int)) == Seq::<
                Seq<char>,
            >::empty()
        }),
{
    if k < nss.len() {
        assert(ids(nss.subrange(k as int, nss.len() as int)) =~= seq![nss[k as int].0] + ids(
            nss.subrange((k + 1) as int, nss.len() as int),
        ));
    } else {
        assert(ids(nss.subrange(k as int, nss.len() as int)) =~= Seq::<Seq<char>>::empty());
    }
}

proof fn lemma_open_service_ids(
    filter: Option<Seq<char>>,
    nss: Seq<(Seq<char>, Seq<char>)>,
    k: nat,
    svcs: Seq<(Seq<char>, Seq<char>)>,
    j: nat,
    groups: Seq<GroupModel>,
)
    requires
        k < nss.len(),
        j <= svcs.len(),
    ensures
        ({
            let (after, a) = open_service(filter, nss, k, svcs, j, groups);
            let rest = ids(nss.subrange((k + 1) as int, nss.len() as int));
            &&& a is ListServices || a is ListInstances || a is Finish
            &&& a is ListInstances ==> after.stage == Stage::Instances && after.namespaces == nss
                && after.ns_at == k
            &&& a matches ActionModel::ListServices(id) ==> {
                &&& after.stage == Stage::Services
                &&& after.namespaces == nss
                &&& rest == seq![id] + ids(
                    nss.subrange((after.ns_at + 1) as int, nss.len() as int),
                )
            }
            &&& a is Finish ==> rest == Seq::<Seq<char>>::empty()
        }),
{
    if j >= svcs.len() {
        lemma_open_namespace_ids(filter, nss, k + 1, groups);
    }
}

proof fn lemma_listing_step(reg: RegistryModel, m: RunModel, response: Response)
    requires
        on_track(reg, m),
        answers(reg, pending(m), response),
    ensures
        ({
            let (after, a) = next(m, response);
            &&& a matches ActionModel::ListServices(id) ==> remaining_ids(reg, m) == seq![id]
                + remaining_ids(reg, after)
            &&& a is ListInstances ==> remaining_ids(reg, m) == remaining_ids(reg, after)
            &&& a is Finish ==> remaining_ids(reg, m) == Seq::<Seq<char>>::empty()
        }),
{
    let nss = retained(reg.namespaces, m.filter);
    match response {
        Response::Namespaces(list) => {
            assert(nss.subrange(0, nss.len() as int) =~= nss);
            lemma_open_namespace_ids(m.filter, nss, 0, m.groups);
        },
        Response::Services(list) => {
            lemma_open_service_ids(
                m.filter,
                nss,
                m.ns_at,
                list@.map_values(|s: Summary| summary_view(s)),
                0,
                m.groups,
            );
        },
        Response::Instances(list) => {
            lemma_open_service_ids(m.filter, nss, m.ns_at, m.services, m.svc_at + 1, m.groups);
        },
        Response::Failed => {},
    }
}

proof fn lemma_run_from(reg: RegistryModel, m: RunModel, rs: Seq<Response>)
    requires
        on_track(reg, m),
        answered_by(reg, m, rs),
    ensures
        ({
            let acts = run_actions(m, rs);
            &&& service_listings(acts).is_prefix_of(remaining_ids(reg, m))
            &&& forall|i: int| 0 <= i < acts.len() ==> acts[i] != ActionModel::Finish(None)
            &&& acts.len() > 0 && acts.last() is Finish ==> {
                &&& acts.last() == ActionModel::Finish(Some(discovered(reg, m.filter)))
                &&& service_listings(acts) == remaining_ids(reg, m)
            }
        }),
    decreases rs.len(),
{
    let acts = run_actions(m, rs);
    if rs.len() == 0 {
        assert(service_listings(acts) =~= remaining_ids(reg, m).subrange(0, 0));
    } else {
        let (after, a) = next(m, rs[0]);
        let rest = rs.drop_first();
        lemma_faithful_step(reg, m, rs[0]);
        lemma_listing_step(reg, m, rs[0]);
        assert(acts == seq![a] + run_actions(after, rest));
        assert((seq![a] + run_actions(after, rest)).drop_first() =~= run_actions(after, rest));
        if after.stage == Stage::Over {
            assert(answered_by(reg, after, rest));
            assert(a is Finish);
            if rest.len() > 0 {
                assert(!answers(reg, pending(after), rest[0]));
            }
            assert(rest.len() == 0);
            assert(acts =~= seq![a]);
            assert(acts.drop_first() =~= Seq::<ActionModel>::empty());
            assert(service_listings(acts.drop_first()) =~= Seq::<Seq<char>>::empty());
            assert(acts[0] is Finish);
            assert(service_listings(acts) =~= Seq::<Seq<char>>::empty());
            assert(service_listings(acts) =~= remaining_ids(reg, m).subrange(0, 0));
        } else {
            lemma_run_from(reg, after, rest);
            let later = run_actions(after, rest);
            assert(a != ActionModel::Finish(None));
            assert forall|i: int| 0 <= i < acts.len() implies acts[i] != ActionModel::Finish(
                None,
            ) by {
                if i > 0 {
                    assert(acts[i] == later[i - 1]);
                }
            }
            if later.len() > 0 {
                assert(acts.last() == later.last());
            }
            match a {
                ActionModel::ListServices(id) => {
                    assert(service_listings(acts) == seq![id] + service_listings(later));
                    assert(service_listings(acts).is_prefix_of(remaining_ids(reg, m))) by {
                        assert(service_listings(acts) =~= remaining_ids(reg, m).subrange(
                            0,
                            service_listings(acts).len() as int,
                        ));
                    }
                },
                _ => {
                    assert(service_listings(acts) == service_listings(later));
                },
            }
        }
    }
}

/// A run answered by one registry never fails. The services it lists are
/// those of the namespaces that pass its filter, in listing order, each once;
/// when it finishes it has listed all of them and publishes exactly
/// `discovered(reg, filter)`.
pub proof fn lemma_whole_run(reg: RegistryModel, filter: Option<Seq<char>>, rs: Seq<Response>)
    requires
        answered_by(reg, initial(filter), rs),
    ensures
        ({
            let acts = run_actions(initial(filter), rs);
            let wanted = ids(retained(reg.namespaces, filter));
            &&& service_listings(acts).is_prefix_of(wanted)
            &&& forall|i: int| 0 <= i < acts.len() ==> acts[i] != ActionModel::Finish(None)
            &&& acts.len() > 0 && acts.last() is Finish ==> {
                &&& acts.last() == ActionModel::Finish(Some(discovered(reg, filter)))
                &&& service_listings(acts) == wanted
            }
        }),
{
    lemma_initial_on_track(reg, filter);
    lemma_run_from(reg, initial(filter), rs);
}

/// Whether `id` is the identifier of a listed namespace whose name passes
/// `filter`.
pub open spec fn listed_and_passing(reg: RegistryModel, filter: Option<Seq<char>>, id: Seq<char>) -> bool {
    exists|k: int|
        0 <= k < reg.namespaces.len() && summary_view(#[trigger] reg.namespaces[k]).0 == id
            && passes(summary_view(reg.namespaces[k]).1, filter)
}

/// Under a filter, a run answered by one registry asks for the services only
/// of listed namespaces whose name equals the filter exactly.
pub proof fn lemma_only_filtered_namespaces_listed(
    reg: RegistryModel,
    filter: Option<Seq<char>>,
    rs: Seq<Response>,
)
    requires
        answered_by(reg, initial(filter), rs),
    ensures
        forall|i: int|
            0 <= i < service_listings(run_actions(initial(filter), rs)).len() ==> listed_and_passing(
                reg,
                filter,
                #[trigger] service_listings(run_actions(initial(filter), rs))[i],
            ),
{
    lemma_whole_run(reg, filter, rs);
    lemma_filter_exact(reg.namespaces, filter);
    lemma_retained_is_filter(reg.namespaces, filter);
    let nss = retained(reg.namespaces, filter);
    let views = reg.namespaces.map_values(|s: Summary| summary_view(s));
    let listed = service_listings(run_actions(initial(filter), rs));
    assert forall|i: int| 0 <= i < listed.len() implies listed_and_passing(
        reg,
        filter,
        #[trigger] listed[i],
    ) by {
        assert(listed[i] == ids(nss)[i]);
        assert(nss.contains(nss[i]));
        views.lemma_filter_contains_rev(passes_filter(filter), nss[i]);
        let k = choose|k: int| 0 <= k < views.len() && views[k] == nss[i];
        assert(summary_view(reg.namespaces[k]) == nss[i]);
        assert(passes(nss[i].1, filter));
    }
}

/// A listed namespace whose name differs from the filter, and whose
/// identifier no other listed namespace shares, never has its services asked
/// for.
pub proof fn lemma_filtered_out_never_listed(
    reg: RegistryModel,
    filter: Option<Seq<char>>,
    rs: Seq<Response>,
    n: int,
)
    requires
        answered_by(reg, initial(filter), rs),
        0 <= n < reg.namespaces.len(),
        !passes(summary_view(reg.namespaces[n]).1, filter),
        forall|k: int|
            0 <= k < reg.namespaces.len() && summary_view(reg.namespaces[k]).0 == summary_view(
                reg.namespaces[n],
            ).0 ==> k == n,
    ensures
        !service_listings(run_actions(initial(filter), rs)).contains(
            summary_view(reg.namespaces[n]).0,
        ),
{
    lemma_only_filtered_namespaces_listed(reg, filter, rs);
    let listed = service_listings(run_actions(initial(filter), rs));
    if listed.contains(summary_view(reg.namespaces[n]).0) {
        let i = choose|i: int| 0 <= i < listed.len() && listed[i] == summary_view(reg.namespaces[n]).0;
        assert(listed_and_passing(reg, filter, listed[i]));
    }
}

/// Without a filter, a run answered by one registry asks for the services of
/// the listed namespaces in listing order, and, when it finishes, has asked
/// for those of every one of them.
pub proof fn lemma_no_filter_lists_every_namespace(reg: RegistryModel, rs: Seq<Response>)
    requires
        answered_by(reg, initial(None), rs),
    ensures
        ({
            let acts = run_actions(initial(None), rs);
            let all = reg.namespaces.map_values(|s: Summary| summary_view(s).0);
            &&& service_listings(acts).is_prefix_of(all)
            &&& acts.len() > 0 && acts.last() is Finish ==> service_listings(acts) == all
        }),
{
    lemma_whole_run(reg, None, rs);
    lemma_no_filter_keeps_all(reg.namespaces);
    assert(ids(retained(reg.namespaces, None)) =~= reg.namespaces.map_values(
        |s: Summary| summary_view(s).0,
    ));
}

proof fn lemma_service_groups_named(
    reg: RegistryModel,
    ns_name: Seq<char>,
    svcs: Seq<(Seq<char>, Seq<char>)>,
)
    ensures
        forall|i: int|
            0 <= i < service_groups(reg, ns_name, svcs).len() ==> exists|j: int|
                0 <= j < svcs.len() && names_group(
                    reg,
                    ns_name,
                    svcs[j],
                    #[trigger] service_groups(reg, ns_name, svcs)[i],
                ),
    decreases svcs.len(),
{
    if svcs.len() > 0 {
        let rest = svcs.drop_first();
        lemma_service_groups_named(reg, ns_name, rest);
        let first = opt_group(service_group(ns_name, svcs[0].1, (reg.instances)(svcs[0].0)));
        let all = service_groups(reg, ns_name, svcs);
        assert(all == first + service_groups(reg, ns_name, rest));
        assert forall|i: int| 0 <= i < all.len() implies exists|j: int|
            0 <= j < svcs.len() && names_group(reg, ns_name, svcs[j], #[trigger] all[i]) by {
            if i < first.len() {
                assert(names_group(reg, ns_name, svcs[0], all[i]));
            } else {
                let g = service_groups(reg, ns_name, rest)[i - first.len()];
                assert(all[i] == g);
                let j = choose|j: int| 0 <= j < rest.len() && names_group(reg, ns_name, rest[j], g);
                assert(svcs[j + 1] == rest[j]);
            }
        }
    }
}

proof fn lemma_namespace_groups_named(reg: RegistryModel, nss: Seq<(Seq<char>, Seq<char>)>)
    ensures
        forall|i: int|
            0 <= i < namespace_groups(reg, nss).len() ==> exists|k: int, j: int|
                0 <= k < nss.len() && 0 <= j < listed_services(reg, nss[k].0).len() && names_group(
                    reg,
                    nss[k].1,
                    listed_services(reg, nss[k].0)[j],
                    #[trigger] namespace_groups(reg, nss)[i],
                ),
    decreases nss.len(),
{
    if nss.len() > 0 {
        let rest = nss.drop_first();
        lemma_namespace_groups_named(reg, rest);
        let svcs = listed_services(reg, nss[0].0);
        lemma_service_groups_named(reg, nss[0].1, svcs);
        let first = service_groups(reg, nss[0].1, svcs);
        let all = namespace_groups(reg, nss);
        assert(all == first + namespace_groups(reg, rest));
        assert forall|i: int| 0 <= i < all.len() implies exists|k: int, j: int|
            0 <= k < nss.len() && 0 <= j < listed_services(reg, nss[k].0).len() && names_group(
                reg,
                nss[k].1,
                listed_services(reg, nss[k].0)[j],
                #[trigger] all[i],
            ) by {
            if i < first.len() {
                assert(first[i] == all[i]);
                let j = choose|j: int| 0 <= j < svcs.len() && names_group(reg, nss[0].1, svcs[j], first[i]);
                assert(names_group(reg, nss[0].1, listed_services(reg, nss[0].0)[j], all[i]));
            } else {
                let g = namespace_groups(reg, rest)[i - first.len()];
                assert(all[i] == g);
                let (k, j) = choose|k: int, j: int|
                    0 <= k < rest.len() && 0 <= j < listed_services(reg, rest[k].0).len()
                        && names_group(reg, rest[k].1, listed_services(reg, rest[k].0)[j], g);
                assert(nss[k + 1] == rest[k]);
            }
        }
    }
}

/// Every group that a run answered by one registry publishes is that of one
/// service of a namespace the run processes: its addresses are those the
/// service's instances give, at least one, and its only two labels carry the
/// namespace's and the service's names.
pub proof fn lemma_published_groups_named(
    reg: RegistryModel,
    filter: Option<Seq<char>>,
    rs: Seq<Response>,
)
    requires
        answered_by(reg, initial(filter), rs),
    ensures
        ({
            let acts = run_actions(initial(filter), rs);
            let nss = retained(reg.namespaces, filter);
            acts.len() > 0 && acts.last() is Finish ==> (acts.last() matches ActionModel::Finish(
                Some(gs),
            ) && forall|i: int|
                0 <= i < gs.len() ==> exists|k: int, j: int|
                    0 <= k < nss.len() && 0 <= j < listed_services(reg, nss[k].0).len()
                        && names_group(
                        reg,
                        nss[k].1,
                        listed_services(reg, nss[k].0)[j],
                        #[trigger] gs[i],
                    ))
        }),
{
    lemma_whole_run(reg, filter, rs);
    lemma_namespace_groups_named(reg, retained(reg.namespaces, filter));
}

} // verus!
