//! Target groups and the policy that builds them from registry records: which
//! attribute gives an instance's address, which namespaces a filter keeps, and
//! how the addresses of one service become one labelled group.

use vstd::prelude::*;
use crate::text::{lookup, opt_text, same_text, text_or, texts, Table};

verus! {

/// The label key that carries the namespace name of a target group.
pub open spec fn namespace_label() -> Seq<char> {
    "__meta_cloudmap_namespace_name"@
}

/// The label key that carries the service name of a target group.
pub open spec fn service_label() -> Seq<char> {
    "__meta_cloudmap_service_name"@
}

/// The name given to a namespace or service that the registry left unnamed.
pub open spec fn unknown_name() -> Seq<char> {
    "unknown"@
}

/// The two labels of the group of service `svc` in namespace `ns`.
pub open spec fn standard_labels(ns: Seq<char>, svc: Seq<char>) -> Seq<(Seq<char>, Seq<char>)> {
    seq![(namespace_label(), ns), (service_label(), svc)]
}

/// The labels of a target group: each key once, in the order in which it was
/// first set.
pub type Labels = Table;

/// The attributes of a registered instance: each key once.
pub type Attributes = Table;

/// The two labels that name a group's namespace and service.
fn name_labels(namespace_name: String, service_name: String) -> (r: Labels)
    ensures
        r@ == standard_labels(namespace_name@, service_name@),
{
    proof {
        reveal_strlit("__meta_cloudmap_namespace_name");
        reveal_strlit("__meta_cloudmap_service_name");
    }
    let ns_key = String::from_str("__meta_cloudmap_namespace_name");
    let svc_key = String::from_str("__meta_cloudmap_service_name");
    let ghost ns = namespace_name@;
    let ghost svc = service_name@;
    let mut r = Table::new();
    r.insert(ns_key, namespace_name);
    assert(namespace_label().len() != service_label().len());
    assert(r@ =~= seq![(namespace_label(), ns)]);
    assert(lookup(r@, service_label()) is None) by {
        assert(r@[0].0 != service_label());
        assert(r@.drop_first().len() == 0);
        assert(lookup(r@.drop_first(), service_label()) is None);
    }
    r.insert(svc_key, service_name);
    assert(r@ =~= standard_labels(ns, svc));
    r
}

/// What a target group holds: its addresses and its labels.
pub struct GroupModel {
    pub targets: Seq<Seq<char>>,
    pub labels: Seq<(Seq<char>, Seq<char>)>,
}

/// A group of scrape targets, as Prometheus's HTTP service discovery reads it:
/// the addresses of one service's instances and the labels that name the
/// service and its namespace.
#[derive(Debug, PartialEq)]
pub struct PrometheusTarget {
    /// Addresses, each an IP address or `ip:port`.
    pub targets: Vec<String>,
    /// Metadata labels for relabelling.
    pub labels: Labels,
}

impl View for PrometheusTarget {
    type V = GroupModel;

    open spec fn view(&self) -> GroupModel {
        GroupModel { targets: texts(self.targets@), labels: self.labels@ }
    }
}

/// The views of a list of target groups.
pub open spec fn groups_view(v: Seq<PrometheusTarget>) -> Seq<GroupModel> {
    v.map_values(|g: PrometheusTarget| g@)
}

/// A namespace or a service as the registry lists it.
#[derive(Debug)]
pub struct Summary {
    pub id: Option<String>,
    pub name: Option<String>,
}

/// A registered instance and its attributes, which the registry may omit.
#[derive(Debug)]
pub struct InstanceRecord {
    pub id: Option<String>,
    pub attributes: Option<Attributes>,
}

/// A namespace or a service with its identifier and display name settled.
#[derive(Debug)]
pub struct Named {
    pub id: String,
    pub name: String,
}

impl View for Named {
    type V = (Seq<char>, Seq<char>);

    open spec fn view(&self) -> (Seq<char>, Seq<char>) {
        (self.id@, self.name@)
    }
}

/// The views of a list of named entries.
pub open spec fn named_views(v: Seq<Named>) -> Seq<(Seq<char>, Seq<char>)> {
    v.map_values(|n: Named| n@)
}

/// Identifier and display name of a listed entry: an absent identifier is
/// empty, an absent name is `unknown`.
pub open spec fn summary_view(s: Summary) -> (Seq<char>, Seq<char>) {
    (text_or(s.id, Seq::empty()), text_or(s.name, unknown_name()))
}

/// Whether a namespace of this name is processed under `filter`: every one
/// when there is no filter, else only the one whose name equals it exactly.
pub open spec fn passes(name: Seq<char>, filter: Option<Seq<char>>) -> bool {
    match filter {
        None => true,
        Some(f) => name == f,
    }
}

/// The namespaces that a run processes, in the order the registry gave them.
pub open spec fn retained(list: Seq<Summary>, filter: Option<Seq<char>>) -> Seq<(Seq<char>, Seq<char>)>
    decreases list.len(),
{
    if list.len() == 0 {
        Seq::empty()
    } else {
        let rest = retained(list.drop_last(), filter);
        let v = summary_view(list.last());
        if passes(v.1, filter) {
            rest.push(v)
        } else {
            rest
        }
    }
}

/// Value `a` where there is one, else `b`.
pub open spec fn first_of(a: Option<Seq<char>>, b: Option<Seq<char>>) -> Option<Seq<char>> {
    if a is Some {
        a
    } else {
        b
    }
}

/// The address of an instance with these attributes: the value of the first
/// of `AWS_INSTANCE_IPV4`, `IPv4`, `ip` and `address` that is present.
pub open spec fn address_in(attrs: Seq<(Seq<char>, Seq<char>)>) -> Option<Seq<char>> {
    first_of(
        lookup(attrs, "AWS_INSTANCE_IPV4"@),
        first_of(
            lookup(attrs, "IPv4"@),
            first_of(lookup(attrs, "ip"@), lookup(attrs, "address"@)),
        ),
    )
}

/// The address of an instance; none where it has no attributes.
pub open spec fn address_of(inst: InstanceRecord) -> Option<Seq<char>> {
    match inst.attributes {
        None => None,
        Some(a) => address_in(a@),
    }
}

/// The addresses of a service's instances, in the order of the instances.
pub open spec fn addresses(insts: Seq<InstanceRecord>) -> Seq<Seq<char>>
    decreases insts.len(),
{
    if insts.len() == 0 {
        Seq::empty()
    } else {
        let rest = addresses(insts.drop_last());
        match address_of(insts.last()) {
            Some(a) => rest.push(a),
            None => rest,
        }
    }
}

/// The group of service `svc` in namespace `ns`; none where no instance has
/// an address.
pub open spec fn service_group(ns: Seq<char>, svc: Seq<char>, insts: Seq<InstanceRecord>) -> Option<
    GroupModel,
> {
    let a = addresses(insts);
    if a.len() == 0 {
        None
    } else {
        Some(GroupModel { targets: a, labels: standard_labels(ns, svc) })
    }
}

/// The address of an instance with these attributes, copied verbatim.
pub fn extract_address(attributes: &Option<Attributes>) -> (r: Option<String>)
    ensures
        opt_text(r) == match attributes {
            None => None,
            Some(a) => address_in(a@),
        },
{
    match attributes {
        None => None,
        Some(a) => {
            if let Some(v) = a.get("AWS_INSTANCE_IPV4") {
                return Some(v.clone());
            }
            if let Some(v) = a.get("IPv4") {
                return Some(v.clone());
            }
            if let Some(v) = a.get("ip") {
                return Some(v.clone());
            }
            match a.get("address") {
                Some(v) => Some(v.clone()),
                None => None,
            }
        },
    }
}

/// The addresses of a service's instances, in order, duplicates kept.
pub fn service_addresses(instances: &Vec<InstanceRecord>) -> (r: Vec<String>)
    ensures
        texts(r@) == addresses(instances@),
{
    let mut out: Vec<String> = Vec::new();
    let mut i: usize = 0;
    while i < instances.len()
        invariant
            i <= instances@.len(),
            texts(out@) == addresses(instances@.take(i as int)),
        decreases instances@.len() - i,
    {
        let found = extract_address(&instances[i].attributes);
        assert(instances@.take(i + 1).drop_last() =~= instances@.take(i as int));
        match found {
            Some(a) => {
                assert(texts(out@.push(a)) =~= texts(out@).push(a@));
                out.push(a);
            },
            None => {},
        }
        i += 1;
    }
    assert(instances@.take(instances@.len() as int) =~= instances@);
    out
}

/// The group of one service, or none where no instance gave an address.
pub fn group_for_service(namespace_name: &String, service_name: &String, instances: &Vec<InstanceRecord>) -> (r:
    Option<PrometheusTarget>)
    ensures
        match r {
            Some(g) => service_group(namespace_name@, service_name@, instances@) == Some(g@),
            None => service_group(namespace_name@, service_name@, instances@) is None,
        },
{
    let targets = service_addresses(instances);
    if targets.len() == 0 {
        None
    } else {
        let labels = name_labels(namespace_name.clone(), service_name.clone());
        Some(PrometheusTarget { targets, labels })
    }
}

/// The settled identifier and name of each listed entry.
pub fn name_entries(list: &Vec<Summary>) -> (r: Vec<Named>)
    ensures
        named_views(r@) == list@.map_values(|s: Summary| summary_view(s)),
{
    let mut out: Vec<Named> = Vec::new();
    let mut i: usize = 0;
    while i < list.len()
        invariant
            i <= list@.len(),
            named_views(out@) == list@.take(i as int).map_values(|s: Summary| summary_view(s)),
        decreases list@.len() - i,
    {
        let n = settle(&list[i]);
        assert(list@.take(i + 1) =~= list@.take(i as int).push(list@[i as int]));
        assert(named_views(out@.push(n)) =~= named_views(out@).push(n@));
        assert(list@.take(i + 1).map_values(|s: Summary| summary_view(s)) =~= list@.take(
            i as int,
        ).map_values(|s: Summary| summary_view(s)).push(summary_view(list@[i as int])));
        out.push(n);
        i += 1;
    }
    assert(list@.take(list@.len() as int) =~= list@);
    out
}

/// The identifier and display name of one listed entry.
fn settle(s: &Summary) -> (r: Named)
    ensures
        r@ == summary_view(*s),
{
    let id = match &s.id {
        Some(v) => v.clone(),
        None => String::new(),
    };
    let name = match &s.name {
        Some(v) => v.clone(),
        None => String::from_str("unknown"),
    };
    Named { id, name }
}

/// The namespaces that a run processes: those that pass `filter`, in the
/// order of the listing.
pub fn retained_namespaces(list: &Vec<Summary>, filter: &Option<String>) -> (r: Vec<Named>)
    ensures
        named_views(r@) == retained(list@, opt_text(*filter)),
{
    let mut out: Vec<Named> = Vec::new();
    let mut i: usize = 0;
    while i < list.len()
        invariant
            i <= list@.len(),
            named_views(out@) == retained(list@.take(i as int), opt_text(*filter)),
        decreases list@.len() - i,
    {
        let n = settle(&list[i]);
        assert(list@.take(i + 1).drop_last() =~= list@.take(i as int));
        let keep = match filter {
            None => true,
            Some(f) => same_text(n.name.as_str(), f.as_str()),
        };
        if keep {
            assert(named_views(out@.push(n)) =~= named_views(out@).push(n@));
            out.push(n);
        }
        i += 1;
    }
    assert(list@.take(list@.len() as int) =~= list@);
    out
}

/// What a discovery needs to know besides the registry.
#[derive(Debug, Clone)]
pub struct Config {
    /// The registry's region; the client is built for it.
    pub region: Option<String>,
    /// The one namespace to discover; all of them where absent.
    pub namespace: Option<String>,
}

/// The registry client that the caller performs the listing calls with; it
/// is carried through and never looked into.
#[verifier::external_type_specification]
#[verifier::external_body]
pub struct ExServiceDiscoveryClient(aws_sdk_servicediscovery::Client);

/// A discovery service: the registry client and the configuration.
pub struct Discovery {
    client: aws_sdk_servicediscovery::Client,
    config: Config,
}

impl Discovery {
    pub fn new(client: aws_sdk_servicediscovery::Client, config: Config) -> (r: Discovery)
        ensures
            r.client_spec() == client,
            r.config() == config,
    {
        Discovery { client, config }
    }

    /// The configuration.
    pub closed spec fn config(&self) -> Config {
        self.config
    }

    /// The registry client.
    pub closed spec fn client_spec(&self) -> aws_sdk_servicediscovery::Client {
        self.client
    }

    /// The registry client.
    pub fn client(&self) -> (r: &aws_sdk_servicediscovery::Client)
        ensures
            *r == self.client_spec(),
    {
        &self.client
    }

    /// The namespace filter.
    pub fn namespace_filter(&self) -> (r: Option<String>)
        ensures
            opt_text(r) == opt_text(self.config().namespace),
    {
        match &self.config.namespace {
            Some(f) => Some(f.clone()),
            None => None,
        }
    }

    /// A group of the given addresses, labelled with the namespace and the
    /// service name.
    pub fn create_prometheus_target(
        &self,
        namespace_name: &str,
        service_name: &str,
        instance_ips: Vec<String>,
    ) -> (r: PrometheusTarget)
        ensures
            r.targets@ == instance_ips@,
            r.labels@ == standard_labels(namespace_name@, service_name@),
    {
        let labels = name_labels(String::from_str(namespace_name), String::from_str(service_name));
        PrometheusTarget { targets: instance_ips, labels }
    }
}

/// The test that a namespace's identifier and name pass `filter`.
pub open spec fn passes_filter(filter: Option<Seq<char>>) -> spec_fn((Seq<char>, Seq<char>)) -> bool {
    |v: (Seq<char>, Seq<char>)| passes(v.1, filter)
}

/// The namespaces that a run processes are the listed ones that pass the
/// filter, in listing order.
pub proof fn lemma_retained_is_filter(list: Seq<Summary>, filter: Option<Seq<char>>)
    ensures
        retained(list, filter) == list.map_values(|s: Summary| summary_view(s)).filter(
            passes_filter(filter),
        ),
    decreases list.len(),
{
    reveal(Seq::filter);
    let views = list.map_values(|s: Summary| summary_view(s));
    if list.len() > 0 {
        lemma_retained_is_filter(list.drop_last(), filter);
        assert(views.drop_last() =~= list.drop_last().map_values(|s: Summary| summary_view(s)));
    } else {
        assert(views =~= Seq::<(Seq<char>, Seq<char>)>::empty());
    }
}

/// A filter is applied by exact equality of names: every namespace that a run
/// processes has the filter's name, and every listed namespace of that name
/// is processed.
pub proof fn lemma_filter_exact(list: Seq<Summary>, filter: Option<Seq<char>>)
    ensures
        forall|k: int|
            0 <= k < retained(list, filter).len() ==> passes(
                #[trigger] retained(list, filter)[k].1,
                filter,
            ),
        forall|i: int|
            0 <= i < list.len() && passes(summary_view(list[i]).1, filter) ==> retained(
                list,
                filter,
            ).contains(#[trigger] summary_view(list[i])),
{
    lemma_retained_is_filter(list, filter);
    let views = list.map_values(|s: Summary| summary_view(s));
    assert forall|k: int| 0 <= k < retained(list, filter).len() implies passes(
        #[trigger] retained(list, filter)[k].1,
        filter,
    ) by {
        views.lemma_filter_pred(passes_filter(filter), k);
    }
    assert forall|i: int|
        0 <= i < list.len() && passes(summary_view(list[i]).1, filter) implies retained(
        list,
        filter,
    ).contains(#[trigger] summary_view(list[i])) by {
        assert(views[i] == summary_view(list[i]));
        views.lemma_filter_contains(passes_filter(filter), i);
    }
}

/// Without a filter every listed namespace is processed, in listing order.
pub proof fn lemma_no_filter_keeps_all(list: Seq<Summary>)
    ensures
        retained(list, None) == list.map_values(|s: Summary| summary_view(s)),
    decreases list.len(),
{
    if list.len() > 0 {
        lemma_no_filter_keeps_all(list.drop_last());
        assert(list.map_values(|s: Summary| summary_view(s)) =~= list.drop_last().map_values(
            |s: Summary| summary_view(s),
        ).push(summary_view(list.last())));
    } else {
        assert(list.map_values(|s: Summary| summary_view(s)) =~= Seq::<
            (Seq<char>, Seq<char>),
        >::empty());
    }
}

/// A service yields a group exactly when some instance gives an address; the
/// group holds those addresses and exactly two labels, which carry the names
/// of the namespace and of the service.
pub proof fn lemma_group_labels(ns: Seq<char>, svc: Seq<char>, insts: Seq<InstanceRecord>)
    ensures
        service_group(ns, svc, insts) is Some <==> addresses(insts).len() > 0,
        service_group(ns, svc, insts) matches Some(g) ==> {
            &&& g.targets == addresses(insts)
            &&& g.labels.len() == 2
            &&& lookup(g.labels, namespace_label()) == Some(ns)
            &&& lookup(g.labels, service_label()) == Some(svc)
        },
{
    reveal_strlit("__meta_cloudmap_namespace_name");
    reveal_strlit("__meta_cloudmap_service_name");
    let l = standard_labels(ns, svc);
    assert(namespace_label().len() != service_label().len());
    assert(l.drop_first()[0] == (service_label(), svc));
    assert(lookup(l.drop_first(), service_label()) == Some(svc));
}

} // verus!
