use vstd::prelude::*;

verus! {

/// A table keyed by service name, at most one value per name.
struct NameTable<C> {
    active_services: Vec<(String, C)>,
    services: Ghost<Map<Seq<char>, C>>,
}

impl<C> View for NameTable<C> {
    type V = Map<Seq<char>, C>;

    closed spec fn view(&self) -> Map<Seq<char>, C> {
        self.services@
    }
}

/// A command that mutates the registry.
pub enum ServiceMessage<C> {
    /// Track a newly launched connection under a service name.
    AddService { name: String, service: C },
    /// Remove the connection of a service name, so that it can be cancelled.
    CancelService { name: String },
    /// Reserve a service name for a launch about to start.
    ClaimLaunch { name: String },
    /// Give up the reservation of a launch that failed.
    ReleaseLaunch { name: String },
}

/// What the registry did with a command.
#[derive(Debug, PartialEq, Eq)]
pub enum Handled<C> {
    /// The connection is now tracked.
    Added,
    /// The name already had a connection: the new one was not stored and is
    /// handed back, to be shut down by the caller.
    Rejected(C),
    /// The connection that was tracked under the name, now removed; the
    /// caller cancels it.
    Cancelled(C),
    /// No connection was tracked under the name.
    NotFound,
    /// The name is reserved for a launch that the caller now starts.
    Claimed,
    /// The name has a connection or a launch in flight: nothing is to be done.
    AlreadyManaged,
    /// The name is no longer reserved.
    Released,
}

/// The connections after a command.
pub open spec fn apply_message<C>(m: Map<Seq<char>, C>, msg: ServiceMessage<C>) -> Map<Seq<char>, C> {
    match msg {
        ServiceMessage::AddService { name, service } => {
            if m.contains_key(name@) {
                m
            } else {
                m.insert(name@, service)
            }
        },
        ServiceMessage::CancelService { name } => m.remove(name@),
        _ => m,
    }
}

/// The names reserved for launches in flight after a command: a claim of a
/// free name reserves it; an add or a release ends the reservation.
pub open spec fn apply_launching<C>(
    m: Map<Seq<char>, C>,
    l: Set<Seq<char>>,
    msg: ServiceMessage<C>,
) -> Set<Seq<char>> {
    match msg {
        ServiceMessage::ClaimLaunch { name } => {
            if m.contains_key(name@) || l.contains(name@) {
                l
            } else {
                l.insert(name@)
            }
        },
        ServiceMessage::AddService { name, .. } => l.remove(name@),
        ServiceMessage::ReleaseLaunch { name } => l.remove(name@),
        ServiceMessage::CancelService { .. } => l,
    }
}

/// The answer to a command, given the connections and the names reserved
/// for launches.
pub open spec fn reply_to<C>(m: Map<Seq<char>, C>, l: Set<Seq<char>>, msg: ServiceMessage<C>) -> Handled<C> {
    match msg {
        ServiceMessage::AddService { name, service } => {
            if m.contains_key(name@) {
                Handled::Rejected(service)
            } else {
                Handled::Added
            }
        },
        ServiceMessage::CancelService { name } => {
            if m.contains_key(name@) {
                Handled::Cancelled(m[name@])
            } else {
                Handled::NotFound
            }
        },
        ServiceMessage::ClaimLaunch { name } => {
            if m.contains_key(name@) || l.contains(name@) {
                Handled::AlreadyManaged
            } else {
                Handled::Claimed
            }
        },
        ServiceMessage::ReleaseLaunch { .. } => Handled::Released,
    }
}

/// The registry after a sequence of commands, applied in order.
pub open spec fn replay<C>(m: Map<Seq<char>, C>, msgs: Seq<ServiceMessage<C>>) -> Map<Seq<char>, C>
    decreases msgs.len(),
{
    if msgs.len() == 0 {
        m
    } else {
        apply_message(replay(m, msgs.drop_last()), msgs.last())
    }
}

/// Whether a command cancels the given name.
pub open spec fn cancels<C>(msg: ServiceMessage<C>, name: Seq<char>) -> bool {
    match msg {
        ServiceMessage::CancelService { name: n } => n@ == name,
        _ => false,
    }
}

impl<C> NameTable<C> {
    /// Names are unique in the backing vector, and the vector and the map
    /// hold the same pairs.
    pub closed spec fn wf(&self) -> bool {
        let e = self.active_services@;
        &&& forall|i: int, j: int| 0 <= i < j < e.len() ==> e[i].0@ != e[j].0@
        &&& forall|i: int|
            0 <= i < e.len() ==> #[trigger] self.services@.contains_key(e[i].0@)
                && self.services@[e[i].0@] == e[i].1
        &&& forall|k: Seq<char>| #[trigger]
            self.services@.contains_key(k) ==> exists|i: int| 0 <= i < e.len() && e[i].0@ == k
    }

    /// An empty table.
    pub fn new() -> (r: Self)
        ensures
            r.wf(),
            r@ == Map::<Seq<char>, C>::empty(),
    {
        NameTable { active_services: Vec::new(), services: Ghost(Map::empty()) }
    }

    fn find(&self, name: &String) -> (r: Option<usize>)
        requires
            self.wf(),
        ensures
            match r {
                Some(i) => i < self.active_services@.len() && self.active_services@[i as int].0@
                    == name@,
                None => !self@.contains_key(name@),
            },
    {
        let mut i: usize = 0;
        while i < self.active_services.len()
            invariant
                self.wf(),
                i <= self.active_services@.len(),
                forall|j: int| 0 <= j < i ==> self.active_services@[j].0@ != name@,
            decreases self.active_services@.len() - i,
        {
            if self.active_services[i].0 == *name {
                return Some(i);
            }
            i += 1;
        }
        None
    }

    /// Whether a connection is tracked under the name.
    pub fn contains(&self, name: &String) -> (r: bool)
        requires
            self.wf(),
        ensures
            r == self@.contains_key(name@),
    {
        self.find(name).is_some()
    }

    /// The connection tracked under the name, if any.
    pub fn lookup(&self, name: &String) -> (r: Option<&C>)
        requires
            self.wf(),
        ensures
            r is Some <==> self@.contains_key(name@),
            r matches Some(c) ==> *c == self@[name@],
    {
        match self.find(name) {
            Some(i) => {
                assert(self.services@.contains_key(self.active_services@[i as int].0@));
                Some(&self.active_services[i].1)
            },
            None => None,
        }
    }

    /// Tracks a connection under a name that has none; a name that already
    /// has one keeps it, and the new connection is handed back.
    pub fn add(&mut self, name: String, service: C) -> (r: Option<C>)
        requires
            old(self).wf(),
        ensures
            final(self).wf(),
            old(self)@.contains_key(name@) ==> final(self)@ == old(self)@ && r == Some(service),
            !old(self)@.contains_key(name@) ==> final(self)@ == old(self)@.insert(name@, service)
                && r is None,
    {
        if self.find(&name).is_some() {
            return Some(service);
        }
        let ghost key = name@;
        self.services = Ghost(self.services@.insert(key, service));
        self.active_services.push((name, service));
        proof {
            let e = self.active_services@;
            assert forall|k: Seq<char>| #[trigger] self.services@.contains_key(k) implies exists|
                i: int,
            | 0 <= i < e.len() && e[i].0@ == k by {
                if k != key {
                    let i = choose|i: int|
                        0 <= i < old(self).active_services@.len()
                            && old(self).active_services@[i].0@ == k;
                    assert(e[i] == old(self).active_services@[i]);
                } else {
                    assert(e[e.len() - 1].0@ == k);
                }
            }
        }
        None
    }

    /// Removes and returns the connection tracked under the name, if any.
    pub fn remove(&mut self, name: &String) -> (r: Option<C>)
        requires
            old(self).wf(),
        ensures
            final(self).wf(),
            final(self)@ == old(self)@.remove(name@),
            old(self)@.contains_key(name@) ==> r == Some(old(self)@[name@]),
            !old(self)@.contains_key(name@) ==> r is None,
    {
        match self.find(name) {
            None => {
                assert(self@.remove(name@) =~= self@);
                None
            },
            Some(i) => {
                let ghost old_e = self.active_services@;
                let ghost key = name@;
                self.services = Ghost(self.services@.remove(key));
                let (_, service) = self.active_services.remove(i);
                proof {
                    let e = self.active_services@;
                    assert forall|a: int| 0 <= a < e.len() implies e[a] == old_e[if a < i {
                        a
                    } else {
                        a + 1
                    }] by {}
                    assert forall|a: int| 0 <= a < e.len() implies e[a].0@ != key by {
                        let b = if a < i {
                            a
                        } else {
                            a + 1
                        };
                        assert(e[a] == old_e[b]);
                    }
                    assert forall|a: int, b: int| 0 <= a < b < e.len() implies e[a].0@
                        != e[b].0@ by {
                        let a2 = if a < i {
                            a
                        } else {
                            a + 1
                        };
                        let b2 = if b < i {
                            b
                        } else {
                            b + 1
                        };
                        assert(e[a] == old_e[a2]);
                        assert(e[b] == old_e[b2]);
                    }
                    assert forall|a: int| 0 <= a < e.len() implies #[trigger] self.services@.contains_key(
                        e[a].0@,
                    ) && self.services@[e[a].0@] == e[a].1 by {
                        let b = if a < i {
                            a
                        } else {
                            a + 1
                        };
                        assert(e[a] == old_e[b]);
                        assert(old_e[b].0@ != old_e[i as int].0@);
                        assert(old(self).services@.contains_key(old_e[b].0@));
                    }
                    assert forall|k: Seq<char>| #[trigger] self.services@.contains_key(k) implies exists|
                        a: int,
                    | 0 <= a < e.len() && e[a].0@ == k by {
                        let b = choose|b: int| 0 <= b < old_e.len() && old_e[b].0@ == k;
                        assert(b != i);
                        let a = if b < i {
                            b
                        } else {
                            b - 1
                        };
                        assert(e[a] == old_e[b]);
                    }
                }
                Some(service)
            },
        }
    }
}

/// The registry of live connections, keyed by the full name of the service
/// that each one serves, with the names reserved for launches in flight. It
/// holds at most one connection per name.
pub struct ActorState<C> {
    active_services: NameTable<C>,
    launching: NameTable<()>,
}

impl<C> View for ActorState<C> {
    type V = Map<Seq<char>, C>;

    /// The connections, by service name.
    closed spec fn view(&self) -> Map<Seq<char>, C> {
        self.active_services@
    }
}

impl<C> ActorState<C> {
    pub closed spec fn wf(&self) -> bool {
        self.active_services.wf() && self.launching.wf()
    }

    /// The names reserved for launches in flight.
    pub closed spec fn launching(&self) -> Set<Seq<char>> {
        self.launching@.dom()
    }

    /// An empty registry.
    pub fn new() -> (r: Self)
        ensures
            r.wf(),
            r@ == Map::<Seq<char>, C>::empty(),
            r.launching() == Set::<Seq<char>>::empty(),
    {
        let r = ActorState { active_services: NameTable::new(), launching: NameTable::new() };
        assert(r.launching() =~= Set::<Seq<char>>::empty());
        r
    }

    /// Whether a connection is tracked under the name.
    pub fn contains(&self, name: &String) -> (r: bool)
        requires
            self.wf(),
        ensures
            r == self@.contains_key(name@),
    {
        self.active_services.contains(name)
    }

    /// Whether a launch is in flight for the name.
    pub fn is_launching(&self, name: &String) -> (r: bool)
        requires
            self.wf(),
        ensures
            r == self.launching().contains(name@),
    {
        self.launching.contains(name)
    }

    /// The connection tracked under the name, if any.
    pub fn lookup(&self, name: &String) -> (r: Option<&C>)
        requires
            self.wf(),
        ensures
            r is Some <==> self@.contains_key(name@),
            r matches Some(c) ==> *c == self@[name@],
    {
        self.active_services.lookup(name)
    }

    /// Tracks a connection under a name that has none, and ends the name's
    /// launch reservation; a name that already has a connection keeps it,
    /// and the new connection is handed back.
    pub fn add_service(&mut self, name: String, service: C) -> (r: Option<C>)
        requires
            old(self).wf(),
        ensures
            final(self).wf(),
            final(self).launching() == old(self).launching().remove(name@),
            old(self)@.contains_key(name@) ==> final(self)@ == old(self)@ && r == Some(service),
            !old(self)@.contains_key(name@) ==> final(self)@ == old(self)@.insert(name@, service)
                && r is None,
    {
        let _ = self.launching.remove(&name);
        let r = self.active_services.add(name, service);
        assert(self.launching() =~= old(self).launching().remove(name@));
        r
    }

    /// Removes and returns the connection tracked under the name, if any.
    pub fn cancel_service(&mut self, name: &String) -> (r: Option<C>)
        requires
            old(self).wf(),
        ensures
            final(self).wf(),
            final(self).launching() == old(self).launching(),
            final(self)@ == old(self)@.remove(name@),
            old(self)@.contains_key(name@) ==> r == Some(old(self)@[name@]),
            !old(self)@.contains_key(name@) ==> r is None,
    {
        self.active_services.remove(name)
    }

    /// Reserves a name that has neither a connection nor a launch in flight,
    /// and says whether it did.
    pub fn claim_launch(&mut self, name: String) -> (r: bool)
        requires
            old(self).wf(),
        ensures
            final(self).wf(),
            final(self)@ == old(self)@,
            r == !(old(self)@.contains_key(name@) || old(self).launching().contains(name@)),
            final(self).launching() == if r {
                old(self).launching().insert(name@)
            } else {
                old(self).launching()
            },
    {
        if self.active_services.contains(&name) || self.launching.contains(&name) {
            return false;
        }
        let ghost key = name@;
        let _ = self.launching.add(name, ());
        assert(self.launching() =~= old(self).launching().insert(key));
        true
    }

    /// Ends the launch reservation of a name.
    pub fn release_launch(&mut self, name: &String)
        requires
            old(self).wf(),
        ensures
            final(self).wf(),
            final(self)@ == old(self)@,
            final(self).launching() == old(self).launching().remove(name@),
    {
        let _ = self.launching.remove(name);
        assert(self.launching() =~= old(self).launching().remove(name@));
    }
}

/// The single owner of the registry: every mutation goes through `handle`,
/// one command at a time.
#[derive(Clone, Copy, Debug, Default)]
pub struct ServiceActor;

impl ServiceActor {
    /// The state the actor starts from: no connection is tracked.
    pub fn pre_start<C>(&self) -> (r: ActorState<C>)
        ensures
            r.wf(),
            r@ == Map::<Seq<char>, C>::empty(),
            r.launching() == Set::<Seq<char>>::empty(),
    {
        ActorState::new()
    }

    /// Applies one command to the registry and says what became of it.
    pub fn handle<C>(&self, state: &mut ActorState<C>, message: ServiceMessage<C>) -> (r: Handled<C>)
        requires
            old(state).wf(),
        ensures
            final(state).wf(),
            final(state)@ == apply_message(old(state)@, message),
            final(state).launching() == apply_launching(old(state)@, old(state).launching(), message),
            r == reply_to(old(state)@, old(state).launching(), message),
    {
        match message {
            ServiceMessage::AddService { name, service } => {
                match state.add_service(name, service) {
                    Some(refused) => Handled::Rejected(refused),
                    None => Handled::Added,
                }
            },
            ServiceMessage::CancelService { name } => {
                match state.cancel_service(&name) {
                    Some(service) => Handled::Cancelled(service),
                    None => Handled::NotFound,
                }
            },
            ServiceMessage::ClaimLaunch { name } => {
                if state.claim_launch(name) {
                    Handled::Claimed
                } else {
                    Handled::AlreadyManaged
                }
            },
            ServiceMessage::ReleaseLaunch { name } => {
                state.release_launch(&name);
                Handled::Released
            },
        }
    }
}

/// Once a connection is registered under a name, every sequence of commands
/// that does not cancel that name leaves exactly that connection under it: a
/// later add for the name never replaces it, so no second connection for the
/// name survives beside or over the first.
pub proof fn lemma_registered_connection_kept<C>(
    m: Map<Seq<char>, C>,
    msgs: Seq<ServiceMessage<C>>,
    name: Seq<char>,
)
    requires
        m.contains_key(name),
        forall|i: int| 0 <= i < msgs.len() ==> !cancels(#[trigger] msgs[i], name),
    ensures
        replay(m, msgs).contains_key(name),
        replay(m, msgs)[name] == m[name],
    decreases msgs.len(),
{
    if msgs.len() > 0 {
        let rest = msgs.drop_last();
        assert forall|i: int| 0 <= i < rest.len() implies !cancels(#[trigger] rest[i], name) by {
            assert(rest[i] == msgs[i]);
        }
        lemma_registered_connection_kept(m, rest, name);
        assert(!cancels(msgs[msgs.len() - 1], name));
    }
}

/// No launched connection is left behind: an add either stores its
/// connection under the name or hands it back to be shut down, and a cancel
/// hands back the connection it removes.
pub proof fn lemma_no_connection_left_behind<C>(
    m: Map<Seq<char>, C>,
    l: Set<Seq<char>>,
    name: String,
    service: C,
)
    ensures
        ({
            let add = ServiceMessage::AddService { name, service };
            (apply_message(m, add).contains_key(name@) && apply_message(m, add)[name@] == service
                && reply_to(m, l, add) == Handled::<C>::Added) || reply_to(m, l, add)
                == Handled::Rejected(service)
        }),
        m.contains_key(name@) ==> reply_to(m, l, ServiceMessage::CancelService { name })
            == Handled::Cancelled(m[name@]) && !apply_message(
            m,
            ServiceMessage::CancelService { name },
        ).contains_key(name@),
{
}

/// Resolving a service again while it has a connection or a launch in flight
/// is a no-op: the claim for a new launch is refused and changes nothing. And
/// should a launch for a registered name complete all the same, its add is
/// refused and leaves the connections as they were, so no second start is
/// reported.
pub proof fn lemma_duplicate_resolve_is_noop<C>(
    m: Map<Seq<char>, C>,
    l: Set<Seq<char>>,
    name: String,
    service: C,
)
    requires
        m.contains_key(name@) || l.contains(name@),
    ensures
        reply_to(m, l, ServiceMessage::<C>::ClaimLaunch { name }) == Handled::<C>::AlreadyManaged,
        apply_message(m, ServiceMessage::ClaimLaunch { name }) == m,
        apply_launching(m, l, ServiceMessage::ClaimLaunch { name }) == l,
        m.contains_key(name@) ==> reply_to(m, l, ServiceMessage::AddService { name, service })
            == Handled::Rejected(service) && apply_message(
            m,
            ServiceMessage::AddService { name, service },
        ) == m,
{
}

/// A cancel for a name without a connection changes nothing and answers
/// `NotFound`.
pub proof fn lemma_cancel_absent_is_not_found<C>(m: Map<Seq<char>, C>, l: Set<Seq<char>>, name: String)
    requires
        !m.contains_key(name@),
    ensures
        apply_message(m, ServiceMessage::CancelService { name }) == m,
        apply_launching(m, l, ServiceMessage::CancelService { name }) == l,
        reply_to(m, l, ServiceMessage::<C>::CancelService { name }) == Handled::<C>::NotFound,
{
    assert(m.remove(name@) =~= m);
}

/// How many commands of the sequence add a connection under the name.
pub open spec fn adds_for<C>(msgs: Seq<ServiceMessage<C>>, name: Seq<char>) -> nat
    decreases msgs.len(),
{
    if msgs.len() == 0 {
        0
    } else {
        adds_for(msgs.drop_last(), name) + match msgs.last() {
            ServiceMessage::AddService { name: n, .. } => if n@ == name {
                1nat
            } else {
                0nat
            },
            _ => 0nat,
        }
    }
}

/// How many connections for the name the replies to the sequence hand back
/// to be shut down, as rejected duplicates or as cancelled connections.
pub open spec fn handed_back_for<C>(
    m: Map<Seq<char>, C>,
    msgs: Seq<ServiceMessage<C>>,
    name: Seq<char>,
) -> nat
    decreases msgs.len(),
{
    if msgs.len() == 0 {
        0
    } else {
        let before = replay(m, msgs.drop_last());
        handed_back_for(m, msgs.drop_last(), name) + match msgs.last() {
            ServiceMessage::AddService { name: n, .. } => if n@ == name && before.contains_key(
                name,
            ) {
                1nat
            } else {
                0nat
            },
            ServiceMessage::CancelService { name: n } => if n@ == name && before.contains_key(
                name,
            ) {
                1nat
            } else {
                0nat
            },
            _ => 0nat,
        }
    }
}

/// Whatever the interleaving of commands, every connection added for a name
/// is accounted for: the name holds at most one connection at any point, and
/// each of the others was handed back by a reply, to be shut down. Starting
/// from no connection for the name, the adds for it equal the one still
/// registered (if any) plus those handed back.
pub proof fn lemma_every_connection_accounted_for<C>(
    m: Map<Seq<char>, C>,
    msgs: Seq<ServiceMessage<C>>,
    name: Seq<char>,
)
    requires
        !m.contains_key(name),
    ensures
        adds_for(msgs, name) == (if replay(m, msgs).contains_key(name) {
            1nat
        } else {
            0nat
        }) + handed_back_for(m, msgs, name),
    decreases msgs.len(),
{
    if msgs.len() > 0 {
        lemma_every_connection_accounted_for(m, msgs.drop_last(), name);
    }
}

} // verus!
