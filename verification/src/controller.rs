//! Reconciling the peers of an instance with the endpoints that the
//! orchestrator lists: the ready ones, by their first address, without the
//! instance itself.

use vstd::prelude::*;

verus! {

/// Seconds after which an object is reconciled again, whether the last
/// attempt succeeded or failed.
pub const REQUEUE_SECS: u64 = 300;

/// The conditions of a listed endpoint.
pub struct EndpointConditions {
    pub ready: Option<bool>,
}

/// One listed endpoint.
pub struct Endpoint {
    pub conditions: Option<EndpointConditions>,
    pub addresses: Vec<String>,
}

/// What reconciling works on: the address of the instance and its peers.
pub struct Context {
    current_pod_ip: String,
    nodes: Vec<String>,
}

impl View for Context {
    type V = Seq<Seq<char>>;

    closed spec fn view(&self) -> Seq<Seq<char>> {
        self.nodes.deep_view()
    }
}

/// Whether an endpoint is known to be ready.
pub open spec fn is_ready(endpoint: Endpoint) -> bool {
    endpoint.conditions matches Some(conditions) && conditions.ready == Some(true)
}

/// Whether an endpoint counts as a peer of the instance at `own`: it is
/// ready, has an address, and the first of its addresses is not `own`.
pub open spec fn is_peer(endpoint: Endpoint, own: Seq<char>) -> bool {
    is_ready(endpoint) && endpoint.addresses@.len() > 0 && endpoint.addresses@[0]@ != own
}

/// The first addresses of the peers among `endpoints`, in the order listed.
pub open spec fn peers(endpoints: Seq<Endpoint>, own: Seq<char>) -> Seq<Seq<char>>
    decreases endpoints.len(),
{
    if endpoints.len() == 0 {
        Seq::<Seq<char>>::empty()
    } else {
        let before = peers(endpoints.drop_last(), own);
        if is_peer(endpoints.last(), own) {
            before.push(endpoints.last().addresses@[0]@)
        } else {
            before
        }
    }
}

/// The peers never include the instance itself, and each of them is the
/// first address of a ready endpoint of the list.
pub proof fn lemma_peers(endpoints: Seq<Endpoint>, own: Seq<char>)
    ensures
        !peers(endpoints, own).contains(own),
        forall|i: int|
            0 <= i < peers(endpoints, own).len() ==> exists|j: int|
                0 <= j < endpoints.len() && is_peer(#[trigger] endpoints[j], own)
                    && endpoints[j].addresses@[0]@ == #[trigger] peers(endpoints, own)[i],
        forall|j: int|
            0 <= j < endpoints.len() && is_peer(#[trigger] endpoints[j], own) ==> peers(
                endpoints,
                own,
            ).contains(endpoints[j].addresses@[0]@),
    decreases endpoints.len(),
{
    if endpoints.len() > 0 {
        let front = endpoints.drop_last();
        let last = endpoints.last();
        lemma_peers(front, own);
        let before = peers(front, own);
        let all = peers(endpoints, own);
        assert forall|i: int| 0 <= i < all.len() implies exists|j: int|
            0 <= j < endpoints.len() && is_peer(#[trigger] endpoints[j], own)
                && endpoints[j].addresses@[0]@ == #[trigger] all[i] by {
            if i < before.len() {
                let j = choose|j: int|
                    0 <= j < front.len() && is_peer(#[trigger] front[j], own)
                        && front[j].addresses@[0]@ == before[i];
                assert(endpoints[j] == front[j]);
            } else {
                assert(endpoints[endpoints.len() - 1] == last);
            }
        }
        assert forall|j: int|
            0 <= j < endpoints.len() && is_peer(#[trigger] endpoints[j], own) implies all.contains(
            endpoints[j].addresses@[0]@,
        ) by {
            if j < front.len() {
                assert(front[j] == endpoints[j]);
                let at = before.index_of(endpoints[j].addresses@[0]@);
                assert(all[at] == endpoints[j].addresses@[0]@);
            } else {
                assert(all[all.len() - 1] == endpoints[j].addresses@[0]@);
            }
        }
        if all.contains(own) {
            let at = all.index_of(own);
            if at < before.len() {
                assert(before[at] == own);
            }
        }
    }
}

impl Context {
    /// The text of the address of the instance itself.
    pub closed spec fn own_address(self) -> Seq<char> {
        self.current_pod_ip@
    }

    /// The context of the instance at `current_pod_ip`, without peers.
    pub fn new(current_pod_ip: String) -> (ctx: Self)
        ensures
            ctx.own_address() == current_pod_ip@,
            ctx@ == Seq::<Seq<char>>::empty(),
    {
        Context { current_pod_ip, nodes: Vec::new() }
    }

    /// The peers of the instance.
    pub fn nodes(&self) -> (nodes: &Vec<String>)
        ensures
            nodes.deep_view() == self@,
    {
        &self.nodes
    }

    /// The address of the instance itself.
    pub fn current_pod_ip(&self) -> (address: &String)
        ensures
            address@ == self.own_address(),
    {
        &self.current_pod_ip
    }
}

/// The delay, in seconds, before an object whose reconciliation failed is
/// taken up again.
pub fn error_policy() -> (secs: u64)
    ensures
        secs == REQUEUE_SECS,
{
    REQUEUE_SECS
}

/// Replaces the peers of the context by those among `endpoints` and hands
/// back the delay, in seconds, before the next reconciliation.
pub fn reconcile(endpoints: &Vec<Endpoint>, ctx: &mut Context) -> (secs: u64)
    ensures
        secs == REQUEUE_SECS,
        final(ctx).own_address() == old(ctx).own_address(),
        final(ctx)@ == peers(endpoints@, old(ctx).own_address()),
        !final(ctx)@.contains(old(ctx).own_address()),
{
    let mut nodes: Vec<String> = Vec::new();
    let mut i: usize = 0;
    while i < endpoints.len()
        invariant
            i <= endpoints@.len(),
            nodes.deep_view() == peers(endpoints@.take(i as int), ctx.own_address()),
        decreases endpoints@.len() - i,
    {
        let node: &Endpoint = &endpoints[i];
        let ready: bool = match &node.conditions {
            Some(conditions) => match conditions.ready {
                Some(is_ready) => is_ready,
                None => false,
            },
            None => false,
        };
        proof {
            assert(endpoints@.take(i + 1).drop_last() =~= endpoints@.take(i as int));
            assert(endpoints@.take(i + 1).last() == *node);
        }
        if ready && node.addresses.len() > 0 {
            if !(node.addresses[0] == ctx.current_pod_ip) {
                let ghost before = nodes.deep_view();
                nodes.push(node.addresses[0].clone());
                assert(nodes.deep_view() =~= before.push(node.addresses@[0]@));
            }
        }
        i += 1;
    }
    proof {
        assert(endpoints@.take(i as int) =~= endpoints@);
        lemma_peers(endpoints@, ctx.own_address());
    }
    ctx.nodes = nodes;
    REQUEUE_SECS
}

} // verus!
