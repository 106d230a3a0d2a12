//! The session state: the one attached peer (its origin and its table of
//! pending locally-issued requests) and the one-shot shutdown trigger.
//!
//! The session enforces the exclusivity rule (at most one peer attached at a
//! time), keeps the correlation table of pending request ids, and arms and
//! fires the shutdown signal at most once. The runtime around the library
//! owns the real channels; it keys its waiters by the ids this table holds.

use vstd::prelude::*;

verus! {

use crate::errors::{AcceptError, ClientDisconnectedError, ConnectionAlreadyInUse,
    OriginAddressRequired};

/// The attached peer: its origin address (rendered as text) and the ids of
/// the locally-issued requests still awaiting a reply.
#[derive(Debug)]
pub struct AppClient {
    pub origin: String,
    pub pending_answers: Vec<String>,
}

/// The process-wide session state.
#[derive(Debug)]
pub struct AppContext {
    /// Whether the one-shot shutdown signal is still armed (not yet fired).
    pub shutdown_armed: bool,
    /// The attached peer, if any.
    pub client: Option<AppClient>,
}

/// The mathematical value of the attached peer.
pub struct ClientV {
    pub origin: Seq<char>,
    pub pending: Seq<Seq<char>>,
}

/// The mathematical value of the session state.
pub struct AppContextV {
    pub shutdown_armed: bool,
    pub client: Option<ClientV>,
}

impl View for AppClient {
    type V = ClientV;

    open spec fn view(&self) -> ClientV {
        ClientV { origin: self.origin@, pending: self.pending_answers.deep_view() }
    }
}

impl View for AppContext {
    type V = AppContextV;

    open spec fn view(&self) -> AppContextV {
        AppContextV {
            shutdown_armed: self.shutdown_armed,
            client: match &self.client {
                Some(c) => Some(c@),
                None => None,
            },
        }
    }
}

/// Whether the id stands in the pending table.
pub open spec fn has_id(p: Seq<Seq<char>>, id: Seq<char>) -> bool {
    exists|i: int| 0 <= i < p.len() && p[i] == id
}

/// The position of the id in the pending table (meaningful when the table is
/// duplicate-free and holds the id).
pub open spec fn index_of_id(p: Seq<Seq<char>>, id: Seq<char>) -> int {
    choose|i: int| 0 <= i < p.len() && p[i] == id
}

/// The pending table with the id taken out, and unchanged when the id is not
/// in it.
pub open spec fn remove_id(p: Seq<Seq<char>>, id: Seq<char>) -> Seq<Seq<char>> {
    if has_id(p, id) {
        p.remove(index_of_id(p, id))
    } else {
        p
    }
}

/// The pending table holds no id twice: every entry corresponds to exactly
/// one request this process sent out and not yet saw answered or abandoned.
pub open spec fn pending_unique(p: Seq<Seq<char>>) -> bool {
    forall|i: int, j: int| 0 <= i < j < p.len() ==> p[i] != p[j]
}

impl AppContextV {
    /// The ids pending for the attached peer; empty when none is attached.
    pub open spec fn pending(self) -> Seq<Seq<char>> {
        match self.client {
            Some(c) => c.pending,
            None => Seq::empty(),
        }
    }

    /// The session's internal invariant.
    pub open spec fn wf(self) -> bool {
        pending_unique(self.pending())
    }
}

/// Taking the id out of a duplicate-free table removes exactly that id, keeps
/// every other id, shortens the table by one when the id was there, and
/// leaves the table duplicate-free.
pub proof fn lemma_remove_id(p: Seq<Seq<char>>, id: Seq<char>)
    requires
        pending_unique(p),
    ensures
        !has_id(remove_id(p, id), id),
        forall|x: Seq<char>| x != id ==> (has_id(remove_id(p, id), x) <==> has_id(p, x)),
        has_id(p, id) ==> remove_id(p, id).len() == p.len() - 1,
        !has_id(p, id) ==> remove_id(p, id) == p,
        pending_unique(remove_id(p, id)),
{
    if has_id(p, id) {
        let k = index_of_id(p, id);
        let q = p.remove(k);
        assert(0 <= k < p.len() && p[k] == id);
        assert forall|i: int| 0 <= i < q.len() implies q[i] == (if i < k {
            p[i]
        } else {
            p[i + 1]
        }) by {}
        assert forall|x: Seq<char>| x != id implies (has_id(q, x) <==> has_id(p, x)) by {
            if has_id(p, x) {
                let i = choose|i: int| 0 <= i < p.len() && p[i] == x;
                if i < k {
                    assert(q[i] == x);
                } else {
                    assert(i != k);
                    assert(q[i - 1] == x);
                }
            }
            if has_id(q, x) {
                let i = choose|i: int| 0 <= i < q.len() && q[i] == x;
                if i < k {
                    assert(p[i] == x);
                } else {
                    assert(p[i + 1] == x);
                }
            }
        }
        assert forall|i: int| 0 <= i < q.len() implies q[i] != id by {
            if i < k {
                assert(p[i] != p[k]);
            } else {
                assert(p[i + 1] != p[k]);
            }
        }
        assert(!has_id(q, id));
    }
}

/// Finds the position of the id in the table, scanning from the front.
fn find_id(p: &Vec<String>, id: &String) -> (r: Option<usize>)
    ensures
        match r {
            Some(i) => i < p@.len() && p.deep_view()[i as int] == id@,
            None => !has_id(p.deep_view(), id@),
        },
{
    let n = p.len();
    let mut i: usize = 0;
    while i < n
        invariant
            i <= n,
            n == p@.len(),
            forall|k: int| 0 <= k < i ==> p.deep_view()[k] != id@,
        decreases n - i,
    {
        proof {
            assert(p.deep_view()[i as int] == p@[i as int]@);
        }
        if p[i] == *id {
            return Some(i);
        }
        i += 1;
    }
    None
}

impl AppContext {
    /// A fresh session: no peer attached, shutdown signal not armed.
    pub fn new() -> (r: AppContext)
        ensures
            r@ == (AppContextV { shutdown_armed: false, client: None }),
            r@.wf(),
    {
        AppContext { shutdown_armed: false, client: None }
    }

    /// Arms the one-shot shutdown signal at startup.
    pub fn arm_shutdown(&mut self)
        ensures
            final(self)@ == (AppContextV { shutdown_armed: true, ..old(self)@ }),
    {
        self.shutdown_armed = true;
    }

    /// Whether a peer is currently attached.
    pub fn client_exists(&self) -> (r: bool)
        ensures
            r == (self@.client is Some),
    {
        self.client.is_some()
    }

    /// Consumes the one-shot shutdown signal. Returns whether the caller must
    /// fire the real signal now: true at most once over the session's life,
    /// so firing twice is a no-op.
    pub fn shutdown(&mut self) -> (fire: bool)
        ensures
            (final(self)@, fire) == shutdown_step(old(self)@),
    {
        let fire = self.shutdown_armed;
        self.shutdown_armed = false;
        fire
    }

    /// Installs a connecting peer, enforcing the exclusivity rule: rejected
    /// without any state change while a peer is attached or when the
    /// transport supplied no origin address; otherwise the peer is attached
    /// with an empty pending table.
    pub fn accept_peer(&mut self, origin: Option<String>) -> (r: Result<(), AcceptError>)
        ensures
            old(self)@.client is Some ==> (r matches Err(AcceptError::AlreadyInUse(_)))
                && final(self)@ == old(self)@,
            old(self)@.client is None && origin is None ==> (r matches Err(
                AcceptError::OriginRequired(_),
            )) && final(self)@ == old(self)@,
            old(self)@.client is None && origin is Some ==> r is Ok && final(self)@
                == (AppContextV {
                shutdown_armed: old(self)@.shutdown_armed,
                client: Some(ClientV { origin: origin->Some_0@, pending: Seq::empty() }),
            }),
            old(self)@.wf() ==> final(self)@.wf(),
    {
        if self.client.is_some() {
            Err(AcceptError::AlreadyInUse(ConnectionAlreadyInUse))
        } else {
            match origin {
                None => Err(AcceptError::OriginRequired(OriginAddressRequired)),
                Some(o) => {
                    self.client = Some(AppClient { origin: o, pending_answers: Vec::new() });
                    proof {
                        assert(final(self)@.pending() =~= Seq::<Seq<char>>::empty());
                    }
                    Ok(())
                },
            }
        }
    }

    /// Tears the attached peer out of the session and returns the ids of all
    /// of its still-pending requests, so that every waiter can be failed with
    /// a disconnect error and none is left hanging. Afterwards no peer is
    /// attached and the pending table is empty.
    pub fn detach_peer(&mut self) -> (waiters: Vec<String>)
        ensures
            final(self)@ == (AppContextV { client: None, ..old(self)@ }),
            waiters.deep_view() == old(self)@.pending(),
    {
        let client = self.client.take();
        match client {
            Some(c) => c.pending_answers,
            None => {
                let w: Vec<String> = Vec::new();
                proof {
                    assert(w.deep_view() =~= Seq::<Seq<char>>::empty());
                }
                w
            },
        }
    }

    /// Whether a locally-issued request with this id is still awaiting its
    /// reply.
    pub fn has_pending(&self, id: &String) -> (r: bool)
        ensures
            r == has_id(self@.pending(), id@),
    {
        match &self.client {
            None => {
                proof {
                    assert(!has_id(self@.pending(), id@));
                }
                false
            },
            Some(c) => {
                let p = &c.pending_answers;
                let n = p.len();
                let mut i: usize = 0;
                while i < n
                    invariant
                        i <= n,
                        n == p@.len(),
                        p.deep_view() == self@.pending(),
                        forall|k: int| 0 <= k < i ==> p.deep_view()[k] != id@,
                    decreases n - i,
                {
                    if p[i] == *id {
                        proof {
                            assert(p.deep_view()[i as int] == id@);
                        }
                        return true;
                    }
                    i += 1;
                }
                false
            },
        }
    }

    /// How many locally-issued requests are pending.
    pub fn pending_count(&self) -> (r: usize)
        ensures
            r == self@.pending().len(),
    {
        match &self.client {
            None => 0,
            Some(c) => c.pending_answers.len(),
        }
    }

    /// Registers a pending resolution slot under the given id before the
    /// request goes out, so that no reply can arrive before its waiter
    /// exists. Fails without registering anything while no peer is attached.
    /// An id already in the table is not added twice.
    pub fn register_pending(&mut self, id: String) -> (r: Result<(), ClientDisconnectedError>)
        requires
            old(self)@.wf(),
        ensures
            final(self)@.wf(),
            final(self)@.shutdown_armed == old(self)@.shutdown_armed,
            old(self)@.client is None ==> r is Err && final(self)@ == old(self)@,
            old(self)@.client is Some ==> r is Ok && final(self)@.client is Some
                && final(self)@.client->Some_0.origin == old(self)@.client->Some_0.origin
                && final(self)@.pending() == (if has_id(old(self)@.pending(), id@) {
                old(self)@.pending()
            } else {
                old(self)@.pending().push(id@)
            }),
    {
        if self.has_pending(&id) {
            match &self.client {
                Some(_) => Ok(()),
                None => Err(ClientDisconnectedError {}),
            }
        } else {
            match &mut self.client {
                None => Err(ClientDisconnectedError {}),
                Some(c) => {
                    c.pending_answers.push(id);
                    proof {
                        let oldp = old(self)@.pending();
                        let newp = final(self)@.pending();
                        assert(newp =~= oldp.push(id@));
                        assert forall|i: int, j: int| 0 <= i < j < newp.len() implies newp[i]
                            != newp[j] by {
                            if j == newp.len() - 1 {
                                assert(!has_id(oldp, id@));
                                assert(oldp[i] != id@);
                            }
                        }
                    }
                    Ok(())
                },
            }
        }
    }

    /// Removes the pending slot for this id, if any: done when a matching
    /// reply arrived, or when sending the request failed after registration
    /// (so no orphaned waiter remains). Returns whether the id was pending.
    pub fn remove_pending(&mut self, id: &String) -> (found: bool)
        requires
            old(self)@.wf(),
        ensures
            final(self)@.wf(),
            found == has_id(old(self)@.pending(), id@),
            final(self)@.shutdown_armed == old(self)@.shutdown_armed,
            old(self)@.client is None ==> final(self)@ == old(self)@,
            old(self)@.client is Some ==> final(self)@.client is Some
                && final(self)@.client->Some_0.origin == old(self)@.client->Some_0.origin
                && final(self)@.pending() == remove_id(old(self)@.pending(), id@),
    {
        let idx: Option<usize> = match &self.client {
            None => None,
            Some(c) => find_id(&c.pending_answers, id),
        };
        match idx {
            None => {
                proof {
                    assert(!has_id(old(self)@.pending(), id@));
                }
                false
            },
            Some(i) => {
                let taken = self.client.take();
                match taken {
                    None => {
                        proof {
                            assert(false);
                        }
                        false
                    },
                    Some(mut c) => {
                        let ghost oldp = old(self)@.pending();
                        proof {
                            assert(oldp[i as int] == id@);
                            assert(has_id(oldp, id@));
                            let k = index_of_id(oldp, id@);
                            assert(0 <= k < oldp.len() && oldp[k] == id@);
                            if k != i {
                                assert(oldp[k] == oldp[i as int]);
                                assert(false);
                            }
                            lemma_remove_id(oldp, id@);
                        }
                        c.pending_answers.remove(i);
                        self.client = Some(c);
                        proof {
                            assert(final(self)@.pending() =~= remove_id(oldp, id@));
                        }
                        true
                    },
                }
            },
        }
    }
}

/// What consuming the shutdown trigger does: the signal is fired exactly when
/// it was still armed, and is disarmed afterwards; the rest of the session is
/// untouched.
pub open spec fn shutdown_step(s: AppContextV) -> (AppContextV, bool) {
    (AppContextV { shutdown_armed: false, ..s }, s.shutdown_armed)
}

/// Consuming the shutdown trigger twice is a no-op: the second step fires
/// nothing and changes nothing.
pub proof fn lemma_shutdown_twice(s: AppContextV)
    ensures
        shutdown_step(shutdown_step(s).0).1 == false,
        shutdown_step(shutdown_step(s).0).0 == shutdown_step(s).0,
{
}

} // verus!
