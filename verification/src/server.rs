//! The routing state of the forwarding engine: the backend set, replaced as
//! a whole on every update, and the choice of a backend for a connection.

use vstd::prelude::*;

verus! {

/// The address on which the engine listens.
pub const LISTEN_ADDRESS: &'static str = "0.0.0.0:9999";

/// The address a connection is sent to while no backend is known.
pub const DEFAULT_TARGET: &'static str = "127.0.0.1:8000";

/// The text of [`DEFAULT_TARGET`].
pub open spec fn default_target() -> Seq<char> {
    "127.0.0.1:8000"@
}

/// The target of a connection for which `draw` was drawn: the default
/// address while the set is empty, else the backend at `draw` modulo the
/// number of backends.
pub open spec fn target_for(backends: Seq<Seq<char>>, draw: int) -> Seq<char> {
    if backends.len() == 0 {
        default_target()
    } else {
        backends[draw % (backends.len() as int)]
    }
}

/// The backend set after one update: the update, whatever was there.
pub open spec fn replaced(current: Seq<Seq<char>>, update: Seq<Seq<char>>) -> Seq<Seq<char>> {
    update
}

/// The backend set after a series of updates, applied one after the other.
pub open spec fn after_updates(initial: Seq<Seq<char>>, updates: Seq<Seq<Seq<char>>>) -> Seq<
    Seq<char>,
>
    decreases updates.len(),
{
    if updates.len() == 0 {
        initial
    } else {
        replaced(after_updates(initial, updates.drop_last()), updates.last())
    }
}

/// Whatever the updates were, the set that a reader finds is the initial
/// one or the last update, whole: never a mix of two updates.
pub proof fn lemma_updates_are_whole(initial: Seq<Seq<char>>, updates: Seq<Seq<Seq<char>>>)
    ensures
        after_updates(initial, updates) == if updates.len() == 0 {
            initial
        } else {
            updates.last()
        },
{
}

/// A non-empty backend set is never left: the target is one of its
/// members, whatever was drawn. An empty one always gives the default.
pub proof fn lemma_target_is_member(backends: Seq<Seq<char>>, draw: int)
    requires
        0 <= draw,
    ensures
        backends.len() > 0 ==> backends.contains(target_for(backends, draw)),
        backends.len() == 0 ==> target_for(backends, draw) == default_target(),
{
    if backends.len() > 0 {
        let at = draw % (backends.len() as int);
        assert(backends[at] == target_for(backends, draw));
    }
}

/// Calls `rand::random::<usize>()`, which draws a number from the
/// generator of the calling thread. Nothing is claimed of the number.
#[verifier::external_body]
fn random_draw() -> (draw: usize) {
    rand::random::<usize>()
}

/// The routing state shared by the dispatcher, which writes it, and the
/// connections, which read it.
pub struct ProxyServer {
    listen_address: String,
    endpoints: Vec<String>,
}

impl View for ProxyServer {
    type V = Seq<Seq<char>>;

    closed spec fn view(&self) -> Seq<Seq<char>> {
        self.endpoints.deep_view()
    }
}

impl ProxyServer {
    /// The text of the address to listen on.
    pub closed spec fn listen_text(self) -> Seq<char> {
        self.listen_address@
    }

    /// The state at start-up: no backend is known.
    pub fn new(listen_address: &str) -> (server: Self)
        ensures
            server.listen_text() == listen_address@,
            server@ == Seq::<Seq<char>>::empty(),
    {
        ProxyServer { listen_address: listen_address.to_owned(), endpoints: Vec::new() }
    }

    /// The address to listen on.
    pub fn listen_address(&self) -> (address: &String)
        ensures
            address@ == self.listen_text(),
    {
        &self.listen_address
    }

    /// Replaces the backend set by `new_endpoints`, whole.
    pub fn update_endpoints(&mut self, new_endpoints: Vec<String>)
        ensures
            final(self)@ == replaced(old(self)@, new_endpoints.deep_view()),
            final(self).listen_text() == old(self).listen_text(),
    {
        self.endpoints = new_endpoints;
    }

    /// A copy of the backend set.
    pub fn endpoints(&self) -> (snapshot: Vec<String>)
        ensures
            snapshot.deep_view() == self@,
    {
        let mut snapshot: Vec<String> = Vec::new();
        let mut i: usize = 0;
        while i < self.endpoints.len()
            invariant
                i <= self.endpoints@.len(),
                snapshot.deep_view() == self.endpoints.deep_view().take(i as int),
            decreases self.endpoints@.len() - i,
        {
            let ghost before = snapshot.deep_view();
            snapshot.push(self.endpoints[i].clone());
            assert(snapshot.deep_view() =~= before.push(self.endpoints@[i as int]@));
            i += 1;
        }
        snapshot
    }

    /// The target of a connection for which `draw` was drawn.
    pub fn select_target(&self, draw: usize) -> (target: String)
        ensures
            target@ == target_for(self@, draw as int),
    {
        let n_nodes: usize = self.endpoints.len();
        if n_nodes == 0 {
            DEFAULT_TARGET.to_owned()
        } else {
            let index: usize = draw % n_nodes;
            self.endpoints[index].clone()
        }
    }

    /// Chooses the target of a new connection at random among the backends
    /// known at this moment, or the default address if none is known.
    pub fn handle_request(&self) -> (target: String)
        ensures
            exists|draw: int| 0 <= draw && target@ == #[trigger] target_for(self@, draw),
            self@.len() > 0 ==> self@.contains(target@),
            self@.len() == 0 ==> target@ == default_target(),
    {
        let draw: usize = random_draw();
        let target: String = self.select_target(draw);
        proof {
            lemma_target_is_member(self@, draw as int);
        }
        target
    }
}

} // verus!
