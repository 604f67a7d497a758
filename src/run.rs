//! One discovery run as a state machine. The caller performs each listing
//! call that an [`Action`] asks for and hands back what the registry answered;
//! the run decides what to ask next and, at the end, what to publish.
//!
//! Namespaces are visited in the order the registry lists them, and within a
//! namespace its services in listing order. A failure of any listing call ends
//! the run with an error: groups already built are dropped, never returned.

use vstd::prelude::*;
use crate::discovery::{
    group_for_service, groups_view, lemma_filter_exact, lemma_group_labels, namespace_label, passes, service_label, Discovery, name_entries, named_views, retained, retained_namespaces,
    service_group, summary_view, GroupModel, InstanceRecord, Named, PrometheusTarget, Summary,
};
use crate::handlers::CloudMapError;
use crate::text::opt_text;

verus! {

/// What a run waits for.
#[derive(Clone, Copy, PartialEq, Eq, Structural)]
pub enum Stage {
    Namespaces,
    Services,
    Instances,
    Over,
}

/// What the registry answered to the last listing call.
pub enum Response {
    Namespaces(Vec<Summary>),
    Services(Vec<Summary>),
    Instances(Vec<InstanceRecord>),
    /// The listing call failed.
    Failed,
}

/// What the caller does next.
pub enum Action {
    ListNamespaces,
    /// List the services of the namespace with this identifier.
    ListServices(String),
    /// List the instances of the service with this identifier.
    ListInstances(String),
    /// The run is over, with this result.
    Finish(Result<Vec<PrometheusTarget>, CloudMapError>),
}

/// What an action asks for.
pub enum ActionModel {
    ListNamespaces,
    ListServices(Seq<char>),
    ListInstances(Seq<char>),
    Finish(Option<Seq<GroupModel>>),
}

impl View for Action {
    type V = ActionModel;

    open spec fn view(&self) -> ActionModel {
        match self {
            Action::ListNamespaces => ActionModel::ListNamespaces,
            Action::ListServices(id) => ActionModel::ListServices(id@),
            Action::ListInstances(id) => ActionModel::ListInstances(id@),
            Action::Finish(Ok(g)) => ActionModel::Finish(Some(groups_view(g@))),
            Action::Finish(Err(_)) => ActionModel::Finish(None),
        }
    }
}

/// The state of a run: the namespaces it processes and the one it is at, the
/// services of that namespace and the one it is at, and the groups so far.
pub struct RunModel {
    pub filter: Option<Seq<char>>,
    pub stage: Stage,
    pub namespaces: Seq<(Seq<char>, Seq<char>)>,
    pub ns_at: nat,
    pub services: Seq<(Seq<char>, Seq<char>)>,
    pub svc_at: nat,
    pub groups: Seq<GroupModel>,
}

/// A run that has ended and holds nothing more.
pub open spec fn over(filter: Option<Seq<char>>) -> RunModel {
    RunModel {
        filter,
        stage: Stage::Over,
        namespaces: Seq::empty(),
        ns_at: 0,
        services: Seq::empty(),
        svc_at: 0,
        groups: Seq::empty(),
    }
}

/// Move to namespace `k`: ask for its services, or finish with the groups
/// where no namespace is left.
pub open spec fn open_namespace(
    filter: Option<Seq<char>>,
    namespaces: Seq<(Seq<char>, Seq<char>)>,
    k: nat,
    groups: Seq<GroupModel>,
) -> (RunModel, ActionModel) {
    if k < namespaces.len() {
        (
            RunModel {
                filter,
                stage: Stage::Services,
                namespaces,
                ns_at: k,
                services: Seq::empty(),
                svc_at: 0,
                groups,
            },
            ActionModel::ListServices(namespaces[k as int].0),
        )
    } else {
        (over(filter), ActionModel::Finish(Some(groups)))
    }
}

/// Move to service `j` of the current namespace: ask for its instances, or
/// go on to the next namespace where no service is left.
pub open spec fn open_service(
    filter: Option<Seq<char>>,
    namespaces: Seq<(Seq<char>, Seq<char>)>,
    ns_at: nat,
    services: Seq<(Seq<char>, Seq<char>)>,
    j: nat,
    groups: Seq<GroupModel>,
) -> (RunModel, ActionModel) {
    if j < services.len() {
        (
            RunModel {
                filter,
                stage: Stage::Instances,
                namespaces,
                ns_at,
                services,
                svc_at: j,
                groups,
            },
            ActionModel::ListInstances(services[j as int].0),
        )
    } else {
        open_namespace(filter, namespaces, ns_at + 1, groups)
    }
}

/// The groups after the instances of the current service came back: its
/// group is appended where it has one.
pub open spec fn add_group(m: RunModel, insts: Seq<InstanceRecord>) -> Seq<GroupModel> {
    match service_group(m.namespaces[m.ns_at as int].1, m.services[m.svc_at as int].1, insts) {
        Some(g) => m.groups.push(g),
        None => m.groups,
    }
}

/// One step of a run: the state and the action that follow a response.
/// A failed call, or an answer the run did not ask for, ends it with an error.
pub open spec fn next(m: RunModel, response: Response) -> (RunModel, ActionModel) {
    match response {
        Response::Namespaces(list) if m.stage == Stage::Namespaces => open_namespace(
            m.filter,
            retained(list@, m.filter),
            0,
            m.groups,
        ),
        Response::Services(list) if m.stage == Stage::Services => open_service(
            m.filter,
            m.namespaces,
            m.ns_at,
            list@.map_values(|s: Summary| summary_view(s)),
            0,
            m.groups,
        ),
        Response::Instances(list) if m.stage == Stage::Instances => open_service(
            m.filter,
            m.namespaces,
            m.ns_at,
            m.services,
            m.svc_at + 1,
            add_group(m, list@),
        ),
        _ => (over(m.filter), ActionModel::Finish(None)),
    }
}

/// The state in which a run starts: it asks for the namespaces.
pub open spec fn initial(filter: Option<Seq<char>>) -> RunModel {
    RunModel {
        filter,
        stage: Stage::Namespaces,
        namespaces: Seq::empty(),
        ns_at: 0,
        services: Seq::empty(),
        svc_at: 0,
        groups: Seq::empty(),
    }
}

/// A discovery run in progress.
pub struct DiscoveryRun {
    filter: Option<String>,
    stage: Stage,
    namespaces: Vec<Named>,
    ns_at: usize,
    services: Vec<Named>,
    svc_at: usize,
    groups: Vec<PrometheusTarget>,
}

impl View for DiscoveryRun {
    type V = RunModel;

    closed spec fn view(&self) -> RunModel {
        RunModel {
            filter: opt_text(self.filter),
            stage: self.stage,
            namespaces: named_views(self.namespaces@),
            ns_at: self.ns_at as nat,
            services: named_views(self.services@),
            svc_at: self.svc_at as nat,
            groups: groups_view(self.groups@),
        }
    }
}

impl DiscoveryRun {
    #[verifier::type_invariant]
    spec fn positions_in_range(&self) -> bool {
        &&& self.ns_at <= self.namespaces@.len()
        &&& self.svc_at <= self.services@.len()
        &&& self.stage == Stage::Services ==> self.ns_at < self.namespaces@.len()
        &&& self.stage == Stage::Instances ==> self.ns_at < self.namespaces@.len()
            && self.svc_at < self.services@.len()
    }

    /// Starts a run that processes the namespaces whose name passes `filter`.
    pub fn start(filter: Option<String>) -> (r: (DiscoveryRun, Action))
        ensures
            r.0@ == initial(opt_text(filter)),
            r.1@ == ActionModel::ListNamespaces,
    {
        let run = DiscoveryRun {
            filter,
            stage: Stage::Namespaces,
            namespaces: Vec::new(),
            ns_at: 0,
            services: Vec::new(),
            svc_at: 0,
            groups: Vec::new(),
        };
        proof {
            assert(run@.namespaces =~= Seq::<(Seq<char>, Seq<char>)>::empty());
            assert(run@.services =~= Seq::<(Seq<char>, Seq<char>)>::empty());
            assert(run@.groups =~= Seq::<GroupModel>::empty());
        }
        (run, Action::ListNamespaces)
    }

    /// The state of a run that has ended.
    fn ended(filter: Option<String>) -> (r: DiscoveryRun)
        ensures
            r@ == over(opt_text(filter)),
    {
        let run = DiscoveryRun {
            filter,
            stage: Stage::Over,
            namespaces: Vec::new(),
            ns_at: 0,
            services: Vec::new(),
            svc_at: 0,
            groups: Vec::new(),
        };
        proof {
            assert(run@.namespaces =~= Seq::<(Seq<char>, Seq<char>)>::empty());
            assert(run@.services =~= Seq::<(Seq<char>, Seq<char>)>::empty());
            assert(run@.groups =~= Seq::<GroupModel>::empty());
        }
        run
    }

    fn open_namespace(
        filter: Option<String>,
        namespaces: Vec<Named>,
        k: usize,
        groups: Vec<PrometheusTarget>,
    ) -> (r: (DiscoveryRun, Action))
        requires
            k <= namespaces@.len(),
        ensures
            (r.0@, r.1@) == open_namespace(
                opt_text(filter),
                named_views(namespaces@),
                k as nat,
                groups_view(groups@),
            ),
    {
        if k < namespaces.len() {
            let id = namespaces[k].id.clone();
            let run = DiscoveryRun {
                filter,
                stage: Stage::Services,
                namespaces,
                ns_at: k,
                services: Vec::new(),
                svc_at: 0,
                groups,
            };
            assert(run@.services =~= Seq::<(Seq<char>, Seq<char>)>::empty());
            (run, Action::ListServices(id))
        } else {
            (DiscoveryRun::ended(filter), Action::Finish(Ok(groups)))
        }
    }

    fn open_service(
        filter: Option<String>,
        namespaces: Vec<Named>,
        ns_at: usize,
        services: Vec<Named>,
        j: usize,
        groups: Vec<PrometheusTarget>,
    ) -> (r: (DiscoveryRun, Action))
        requires
            ns_at < namespaces@.len(),
            j <= services@.len(),
        ensures
            (r.0@, r.1@) == open_service(
                opt_text(filter),
                named_views(namespaces@),
                ns_at as nat,
                named_views(services@),
                j as nat,
                groups_view(groups@),
            ),
    {
        if j < services.len() {
            let id = services[j].id.clone();
            let run = DiscoveryRun {
                filter,
                stage: Stage::Instances,
                namespaces,
                ns_at,
                services,
                svc_at: j,
                groups,
            };
            (run, Action::ListInstances(id))
        } else {
            let count = namespaces.len();
            assert(ns_at + 1 <= count);
            DiscoveryRun::open_namespace(filter, namespaces, ns_at + 1, groups)
        }
    }

    /// Takes the registry's answer to the last action and returns the state
    /// and action that follow.
    pub fn advance(self, response: Response) -> (r: (DiscoveryRun, Action))
        ensures
            (r.0@, r.1@) == next(self@, response),
    {
        proof {
            use_type_invariant(&self);
        }
        let ghost m = self@;
        let DiscoveryRun { filter, stage, namespaces, ns_at, services, svc_at, mut groups } = self;
        match response {
            Response::Namespaces(list) => {
                if stage == Stage::Namespaces {
                    let kept = retained_namespaces(&list, &filter);
                    DiscoveryRun::open_namespace(filter, kept, 0, groups)
                } else {
                    (DiscoveryRun::ended(filter), Action::Finish(Err(CloudMapError)))
                }
            },
            Response::Services(list) => {
                if stage == Stage::Services {
                    let named = name_entries(&list);
                    DiscoveryRun::open_service(filter, namespaces, ns_at, named, 0, groups)
                } else {
                    (DiscoveryRun::ended(filter), Action::Finish(Err(CloudMapError)))
                }
            },
            Response::Instances(list) => {
                if stage == Stage::Instances {
                    let found = group_for_service(
                        &namespaces[ns_at].name,
                        &services[svc_at].name,
                        &list,
                    );
                    match found {
                        Some(g) => {
                            assert(groups_view(groups@.push(g)) =~= groups_view(groups@).push(g@));
                            groups.push(g);
                        },
                        None => {},
                    }
                    assert(groups_view(groups@) == add_group(m, list@));
                    let count = services.len();
                    assert(svc_at + 1 <= count);
                    DiscoveryRun::open_service(filter, namespaces, ns_at, services, svc_at + 1, groups)
                } else {
                    (DiscoveryRun::ended(filter), Action::Finish(Err(CloudMapError)))
                }
            },
            Response::Failed => (DiscoveryRun::ended(filter), Action::Finish(Err(CloudMapError))),
        }
    }
}

impl Discovery {
    /// Starts a discovery run under this service's namespace filter.
    pub fn begin(&self) -> (r: (DiscoveryRun, Action))
        ensures
            r.0@ == initial(opt_text(self.config().namespace)),
            r.1@ == ActionModel::ListNamespaces,
    {
        DiscoveryRun::start(self.namespace_filter())
    }
}

/// A group as a run publishes it: at least one address, and the namespace
/// label followed by the service label.
pub open spec fn published_group(g: GroupModel) -> bool {
    &&& g.targets.len() > 0
    &&& g.labels.len() == 2
    &&& g.labels[0].0 == namespace_label()
    &&& g.labels[1].0 == service_label()
}

/// What holds of every state that a run reaches: each namespace it processes
/// passes its filter, its positions are in range, and each group it holds is
/// one it may publish.
pub open spec fn run_inv(m: RunModel) -> bool {
    &&& forall|k: int| 0 <= k < m.namespaces.len() ==> passes(#[trigger] m.namespaces[k].1, m.filter)
    &&& m.stage == Stage::Services ==> m.ns_at < m.namespaces.len()
    &&& m.stage == Stage::Instances ==> m.ns_at < m.namespaces.len() && m.svc_at < m.services.len()
    &&& forall|g: int| 0 <= g < m.groups.len() ==> published_group(#[trigger] m.groups[g])
}

/// A run starts in a state of the invariant.
pub proof fn lemma_initial_inv(filter: Option<Seq<char>>)
    ensures
        run_inv(initial(filter)),
{
}

/// Each step keeps the invariant. The services of a namespace are asked for
/// only where its name passes the run's filter, and a run that finishes well
/// publishes only groups with an address and the two labels.
pub proof fn lemma_step_keeps_inv(m: RunModel, response: Response)
    requires
        run_inv(m),
    ensures
        run_inv(next(m, response).0),
        next(m, response).0.filter == m.filter,
        next(m, response).1 matches ActionModel::ListServices(id) ==> {
            let after = next(m, response).0;
            &&& after.ns_at < after.namespaces.len()
            &&& id == after.namespaces[after.ns_at as int].0
            &&& passes(after.namespaces[after.ns_at as int].1, m.filter)
        },
        next(m, response).1 matches ActionModel::Finish(Some(gs)) ==> forall|g: int|
            0 <= g < gs.len() ==> published_group(#[trigger] gs[g]),
{
    match response {
        Response::Namespaces(list) => {
            if m.stage == Stage::Namespaces {
                lemma_filter_exact(list@, m.filter);
            }
        },
        Response::Instances(list) => {
            if m.stage == Stage::Instances {
                let ns = m.namespaces[m.ns_at as int].1;
                let svc = m.services[m.svc_at as int].1;
                lemma_group_labels(ns, svc, list@);
                let gs = add_group(m, list@);
                assert forall|g: int| 0 <= g < gs.len() implies published_group(#[trigger] gs[g]) by {
                    if g < m.groups.len() {
                        assert(gs[g] == m.groups[g]);
                    }
                }
            }
        },
        _ => {},
    }
}

/// A failed listing call ends the run with an error, whatever groups it had
/// built: none of them is handed out.
pub proof fn lemma_failure_discards_groups(m: RunModel)
    ensures
        next(m, Response::Failed) == (over(m.filter), ActionModel::Finish(None)),
{
}

/// A registry as a run sees it: the namespaces it lists, the services it lists
/// for a namespace identifier, and the instances it lists for a service
/// identifier.
pub struct RegistryModel {
    pub namespaces: Seq<Summary>,
    pub services: spec_fn(Seq<char>) -> Seq<Summary>,
    pub instances: spec_fn(Seq<char>) -> Seq<InstanceRecord>,
}

/// No group or one.
pub open spec fn opt_group(o: Option<GroupModel>) -> Seq<GroupModel> {
    match o {
        Some(g) => seq![g],
        None => Seq::empty(),
    }
}

/// The services that `reg` lists for a namespace, identifiers and names settled.
pub open spec fn listed_services(reg: RegistryModel, ns_id: Seq<char>) -> Seq<(Seq<char>, Seq<char>)> {
    (reg.services)(ns_id).map_values(|s: Summary| summary_view(s))
}

/// The groups of the services `svcs` of namespace `ns_name`, in order.
pub open spec fn service_groups(
    reg: RegistryModel,
    ns_name: Seq<char>,
    svcs: Seq<(Seq<char>, Seq<char>)>,
) -> Seq<GroupModel>
    decreases svcs.len(),
{
    if svcs.len() == 0 {
        Seq::empty()
    } else {
        opt_group(service_group(ns_name, svcs[0].1, (reg.instances)(svcs[0].0))) + service_groups(
            reg,
            ns_name,
            svcs.drop_first(),
        )
    }
}

/// The groups of the namespaces `nss`: those of the first namespace's
/// services, then those of the rest.
pub open spec fn namespace_groups(reg: RegistryModel, nss: Seq<(Seq<char>, Seq<char>)>) -> Seq<
    GroupModel,
>
    decreases nss.len(),
{
    if nss.len() == 0 {
        Seq::empty()
    } else {
        service_groups(reg, nss[0].1, listed_services(reg, nss[0].0)) + namespace_groups(
            reg,
            nss.drop_first(),
        )
    }
}

/// What a run against `reg` publishes under `filter`.
pub open spec fn discovered(reg: RegistryModel, filter: Option<Seq<char>>) -> Seq<GroupModel> {
    namespace_groups(reg, retained(reg.namespaces, filter))
}

/// The listing call that a run in state `m` has asked for.
pub open spec fn pending(m: RunModel) -> ActionModel {
    match m.stage {
        Stage::Namespaces => ActionModel::ListNamespaces,
        Stage::Services => ActionModel::ListServices(m.namespaces[m.ns_at as int].0),
        Stage::Instances => ActionModel::ListInstances(m.services[m.svc_at as int].0),
        Stage::Over => ActionModel::Finish(None),
    }
}

/// Whether `response` is what `reg` answers to `action`.
pub open spec fn answers(reg: RegistryModel, action: ActionModel, response: Response) -> bool {
    match (action, response) {
        (ActionModel::ListNamespaces, Response::Namespaces(list)) => list@ == reg.namespaces,
        (ActionModel::ListServices(id), Response::Services(list)) => list@ == (reg.services)(id),
        (ActionModel::ListInstances(id), Response::Instances(list)) => list@ == (reg.instances)(id),
        _ => false,
    }
}

/// A run in state `m` is on track against `reg`: the groups it holds,
/// followed by those of the services and namespaces it has still to visit,
/// are what the run publishes.
pub open spec fn on_track(reg: RegistryModel, m: RunModel) -> bool {
    let nss = retained(reg.namespaces, m.filter);
    let total = discovered(reg, m.filter);
    match m.stage {
        Stage::Namespaces => m.groups.len() == 0,
        Stage::Services => {
            &&& m.namespaces == nss
            &&& m.ns_at < nss.len()
            &&& m.groups + namespace_groups(reg, nss.subrange(m.ns_at as int, nss.len() as int))
                == total
        },
        Stage::Instances => {
            &&& m.namespaces == nss
            &&& m.ns_at < nss.len()
            &&& m.services == listed_services(reg, nss[m.ns_at as int].0)
            &&& m.svc_at < m.services.len()
            &&& m.groups + service_groups(
                reg,
                nss[m.ns_at as int].1,
                m.services.subrange(m.svc_at as int, m.services.len() as int),
            ) + namespace_groups(reg, nss.subrange((m.ns_at + 1) as int, nss.len() as int)) == total
        },
        Stage::Over => false,
    }
}

/// The state after a step is on track and has asked for its next listing, or
/// the run has finished and published exactly what `reg` gives under `filter`.
pub open spec fn continues_or_publishes(
    reg: RegistryModel,
    filter: Option<Seq<char>>,
    after: (RunModel, ActionModel),
) -> bool {
    ||| after.0.filter == filter && on_track(reg, after.0) && after.1 == pending(after.0)
    ||| after.0.stage == Stage::Over && after.1 == ActionModel::Finish(Some(discovered(reg, filter)))
}

proof fn lemma_open_namespace_on_track(
    reg: RegistryModel,
    filter: Option<Seq<char>>,
    k: nat,
    groups: Seq<GroupModel>,
)
    requires
        k <= retained(reg.namespaces, filter).len(),
        groups + namespace_groups(
            reg,
            retained(reg.namespaces, filter).subrange(
                k as int,
                retained(reg.namespaces, filter).len() as int,
            ),
        ) == discovered(reg, filter),
    ensures
        continues_or_publishes(
            reg,
            filter,
            open_namespace(filter, retained(reg.namespaces, filter), k, groups),
        ),
{
    let nss = retained(reg.namespaces, filter);
    if k >= nss.len() {
        assert(nss.subrange(k as int, nss.len() as int) =~= Seq::<(Seq<char>, Seq<char>)>::empty());
        assert(groups + Seq::<GroupModel>::empty() =~= groups);
    }
}

proof fn lemma_open_service_on_track(
    reg: RegistryModel,
    filter: Option<Seq<char>>,
    k: nat,
    j: nat,
    groups: Seq<GroupModel>,
)
    requires
        k < retained(reg.namespaces, filter).len(),
        j <= listed_services(reg, retained(reg.namespaces, filter)[k as int].0).len(),
        ({
            let nss = retained(reg.namespaces, filter);
            let svcs = listed_services(reg, nss[k as int].0);
            groups + service_groups(reg, nss[k as int].1, svcs.subrange(j as int, svcs.len() as int))
                + namespace_groups(reg, nss.subrange((k + 1) as int, nss.len() as int)) == discovered(
                reg,
                filter,
            )
        }),
    ensures
        continues_or_publishes(
            reg,
            filter,
            open_service(
                filter,
                retained(reg.namespaces, filter),
                k,
                listed_services(reg, retained(reg.namespaces, filter)[k as int].0),
                j,
                groups,
            ),
        ),
{
    let nss = retained(reg.namespaces, filter);
    let svcs = listed_services(reg, nss[k as int].0);
    if j >= svcs.len() {
        assert(svcs.subrange(j as int, svcs.len() as int) =~= Seq::<(Seq<char>, Seq<char>)>::empty());
        assert(groups + Seq::<GroupModel>::empty() =~= groups);
        lemma_open_namespace_on_track(reg, filter, k + 1, groups);
    }
}

/// A run starts on track against any registry, asking for the namespaces.
pub proof fn lemma_initial_on_track(reg: RegistryModel, filter: Option<Seq<char>>)
    ensures
        on_track(reg, initial(filter)),
        pending(initial(filter)) == ActionModel::ListNamespaces,
{
}

/// A run whose listing calls are answered by one registry visits namespaces in
/// listing order and, within each, services in listing order, and publishes
/// exactly the groups that this gives: each step keeps it on track and asks for
/// the next listing, until it finishes with all of them.
pub proof fn lemma_faithful_step(reg: RegistryModel, m: RunModel, response: Response)
    requires
        on_track(reg, m),
        answers(reg, pending(m), response),
    ensures
        continues_or_publishes(reg, m.filter, next(m, response)),
{
    let nss = retained(reg.namespaces, m.filter);
    let total = discovered(reg, m.filter);
    match response {
        Response::Namespaces(list) => {
            assert(m.groups =~= Seq::<GroupModel>::empty());
            assert(nss.subrange(0, nss.len() as int) =~= nss);
            assert(m.groups + namespace_groups(reg, nss) =~= namespace_groups(reg, nss));
            lemma_open_namespace_on_track(reg, m.filter, 0, m.groups);
        },
        Response::Services(list) => {
            let k = m.ns_at;
            let rest = nss.subrange(k as int, nss.len() as int);
            let svcs = listed_services(reg, nss[k as int].0);
            assert(rest[0] == nss[k as int]);
            assert(rest.drop_first() =~= nss.subrange((k + 1) as int, nss.len() as int));
            assert(svcs.subrange(0, svcs.len() as int) =~= svcs);
            assert(list@.map_values(|s: Summary| summary_view(s)) == svcs);
            assert(m.groups + service_groups(reg, nss[k as int].1, svcs) + namespace_groups(
                reg,
                nss.subrange((k + 1) as int, nss.len() as int),
            ) =~= m.groups + namespace_groups(reg, rest));
            lemma_open_service_on_track(reg, m.filter, k, 0, m.groups);
        },
        Response::Instances(list) => {
            let k = m.ns_at;
            let j = m.svc_at;
            let svcs = m.services;
            let rest = svcs.subrange(j as int, svcs.len() as int);
            assert(rest[0] == svcs[j as int]);
            assert(rest.drop_first() =~= svcs.subrange((j + 1) as int, svcs.len() as int));
            let g = service_group(nss[k as int].1, svcs[j as int].1, list@);
            assert(add_group(m, list@) =~= m.groups + opt_group(g));
            let later = namespace_groups(reg, nss.subrange((k + 1) as int, nss.len() as int));
            assert(m.groups + opt_group(g) + service_groups(
                reg,
                nss[k as int].1,
                svcs.subrange((j + 1) as int, svcs.len() as int),
            ) + later =~= m.groups + service_groups(reg, nss[k as int].1, rest) + later);
            lemma_open_service_on_track(reg, m.filter, k, j + 1, add_group(m, list@));
        },
        Response::Failed => {},
    }
}

} // verus!
