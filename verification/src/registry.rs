//! Bidirectional mapping between transient native participant tokens and
//! stable logical client handles.
//!
//! The registry maintains a bijection between the currently live tokens and
//! their handles, and allocates handles from a strictly increasing counter,
//! so an identifier is never issued twice no matter how many join/leave
//! cycles occur or how often the engine reuses a token value.

use vstd::prelude::*;

verus! {

broadcast use vstd::std_specs::hash::group_hash_axioms;

use std::collections::HashMap;
use crate::events::NativeToken;
use crate::events::WuClient;

/// Registry of live participants: both directions of the token/handle
/// mapping, the allocation counter, and the ghost set of every handle
/// ever issued (used to state that handles are never reused).
pub struct HandleRegistry {
    token_to_handle: HashMap<NativeToken, u32>,
    handle_to_token: HashMap<u32, NativeToken>,
    counter: u32,
    issued: Ghost<Set<u32>>,
}

impl HandleRegistry {
    /// The live tokens and the handle each resolves to.
    pub closed spec fn tokens(self) -> Map<NativeToken, u32> {
        self.token_to_handle@
    }

    /// The live handles and the token each resolves to.
    pub closed spec fn handles(self) -> Map<u32, NativeToken> {
        self.handle_to_token@
    }

    /// The highest handle value issued so far; the next fresh handle is
    /// one greater.
    pub closed spec fn counter_val(self) -> u32 {
        self.counter
    }

    /// Every handle value ever issued, live or not.
    pub closed spec fn issued(self) -> Set<u32> {
        self.issued@
    }

    /// Well-formedness: the two maps are inverse bijections on the live
    /// entries, every live handle was issued, and every issued handle lies
    /// in `1 ..= counter_val()`.
    pub open spec fn wf(self) -> bool {
        &&& forall|t: NativeToken| #[trigger] self.tokens().contains_key(t) ==> {
            &&& self.handles().contains_key(self.tokens()[t])
            &&& self.handles()[self.tokens()[t]] == t
        }
        &&& forall|h: u32| #[trigger] self.handles().contains_key(h) ==> {
            &&& self.tokens().contains_key(self.handles()[h])
            &&& self.tokens()[self.handles()[h]] == h
            &&& self.issued().contains(h)
        }
        &&& forall|h: u32| #[trigger] self.issued().contains(h) ==> 1 <= h && h <= self.counter_val()
    }

    /// An empty registry: nothing live, nothing issued.
    pub fn new() -> (r: Self)
        ensures
            r.wf(),
            r.tokens() == Map::<NativeToken, u32>::empty(),
            r.handles() == Map::<u32, NativeToken>::empty(),
            r.counter_val() == 0,
            r.issued() == Set::<u32>::empty(),
    {
        HandleRegistry {
            token_to_handle: HashMap::new(),
            handle_to_token: HashMap::new(),
            counter: 0,
            issued: Ghost(Set::empty()),
        }
    }

    /// Return the existing handle for `token` if it is live; otherwise
    /// allocate the next identifier, insert both directions of the
    /// mapping, and return it. Never fails.
    pub fn resolve_or_create(&mut self, token: NativeToken) -> (h: WuClient)
        requires
            old(self).wf(),
            old(self).counter_val() < u32::MAX,
        ensures
            final(self).wf(),
            resolve_transition(*old(self), *final(self), token, h.0),
    {
        match self.token_to_handle.get(&token) {
            Some(id) => WuClient(*id),
            None => {
                let id = self.counter + 1;
                self.counter = id;
                self.token_to_handle.insert(token, id);
                self.handle_to_token.insert(id, token);
                self.issued = Ghost(self.issued@.insert(id));
                proof {
                    let pre = *old(self);
                    assert forall|t: NativeToken| #[trigger] self.tokens().contains_key(t) implies {
                        &&& self.handles().contains_key(self.tokens()[t])
                        &&& self.handles()[self.tokens()[t]] == t
                    } by {
                        if t != token {
                            assert(pre.tokens().contains_key(t));
                            assert(pre.tokens()[t] <= pre.counter_val());
                        }
                    }
                    assert forall|h: u32| #[trigger] self.handles().contains_key(h) implies {
                        &&& self.tokens().contains_key(self.handles()[h])
                        &&& self.tokens()[self.handles()[h]] == h
                        &&& self.issued().contains(h)
                    } by {
                        if h != id {
                            assert(pre.handles().contains_key(h));
                            assert(pre.handles()[h] != token);
                        }
                    }
                    assert forall|h: u32| #[trigger] self.issued().contains(h) implies 1 <= h
                        && h <= self.counter_val() by {
                        if h != id {
                            assert(pre.issued().contains(h));
                        }
                    }
                }
                WuClient(id)
            },
        }
    }

    /// How many identifiers have been issued so far: the counter's
    /// current value.
    pub fn counter_value(&self) -> (r: u32)
        ensures
            r == self.counter_val(),
    {
        self.counter
    }

    /// Pure read: the token the handle currently resolves to, if any.
    pub fn lookup(&self, handle: WuClient) -> (r: Option<NativeToken>)
        ensures
            match r {
                Some(t) => self.handles().contains_key(handle.0) && self.handles()[handle.0] == t,
                None => !self.handles().contains_key(handle.0),
            },
    {
        match self.handle_to_token.get(&handle.0) {
            Some(t) => Some(*t),
            None => None,
        }
    }

    /// Evict both directions of the mapping for `handle` if it is live;
    /// report whether anything was removed. The counter and the issued
    /// set are untouched, so the handle value stays retired forever.
    pub fn remove(&mut self, handle: WuClient) -> (r: bool)
        requires
            old(self).wf(),
        ensures
            final(self).wf(),
            r == old(self).handles().contains_key(handle.0),
            remove_transition(*old(self), *final(self), handle.0),
    {
        match self.handle_to_token.remove(&handle.0) {
            Some(tok) => {
                self.token_to_handle.remove(&tok);
                proof {
                    let pre = *old(self);
                    assert forall|t: NativeToken| #[trigger] self.tokens().contains_key(t) implies {
                        &&& self.handles().contains_key(self.tokens()[t])
                        &&& self.handles()[self.tokens()[t]] == t
                    } by {
                        assert(pre.tokens().contains_key(t));
                        if pre.tokens()[t] == handle.0 {
                            assert(pre.handles()[handle.0] == t);
                        }
                    }
                    assert forall|h: u32| #[trigger] self.handles().contains_key(h) implies {
                        &&& self.tokens().contains_key(self.handles()[h])
                        &&& self.tokens()[self.handles()[h]] == h
                        &&& self.issued().contains(h)
                    } by {
                        assert(pre.handles().contains_key(h));
                        if pre.handles()[h] == tok {
                            assert(pre.tokens()[tok] == h);
                            assert(pre.tokens()[tok] == handle.0);
                        }
                    }
                    assert forall|h: u32| #[trigger] self.issued().contains(h) implies 1 <= h
                        && h <= self.counter_val() by {
                        assert(pre.issued().contains(h));
                    }
                }
                true
            },
            None => {
                proof {
                    assert(old(self).handles().remove(handle.0) =~= old(self).handles());
                    assert(self.handles() == old(self).handles());
                    assert(self.tokens() == old(self).tokens());
                    assert(self.issued() == old(self).issued());
                    assert(self.counter_val() == old(self).counter_val());
                }
                false
            },
        }
    }
}

/// How one `resolve_or_create` call relates the registry state before it
/// (`pre`) to the state after it (`post`), the token it was given and the
/// handle value it returned.
pub open spec fn resolve_transition(
    pre: HandleRegistry,
    post: HandleRegistry,
    token: NativeToken,
    h: u32,
) -> bool {
    &&& post.tokens().contains_key(token) && post.tokens()[token] == h
    &&& post.handles().contains_key(h) && post.handles()[h] == token
    &&& pre.tokens().contains_key(token) ==> {
        &&& h == pre.tokens()[token]
        &&& post.tokens() == pre.tokens()
        &&& post.handles() == pre.handles()
        &&& post.counter_val() == pre.counter_val()
        &&& post.issued() == pre.issued()
    }
    &&& !pre.tokens().contains_key(token) ==> {
        &&& h == pre.counter_val() + 1
        &&& !pre.issued().contains(h)
        &&& post.tokens() == pre.tokens().insert(token, h)
        &&& post.handles() == pre.handles().insert(h, token)
        &&& post.counter_val() == pre.counter_val() + 1
        &&& post.issued() == pre.issued().insert(h)
    }
}

/// How one `remove` call relates the registry state before it (`pre`) to
/// the state after it (`post`) and the handle it was asked to evict.
pub open spec fn remove_transition(pre: HandleRegistry, post: HandleRegistry, h: u32) -> bool {
    &&& post.counter_val() == pre.counter_val()
    &&& post.issued() == pre.issued()
    &&& post.handles() == pre.handles().remove(h)
    &&& pre.handles().contains_key(h) ==> post.tokens() == pre.tokens().remove(pre.handles()[h])
    &&& !pre.handles().contains_key(h) ==> post.tokens() == pre.tokens()
}

/// One operation on a registry, seen as a relation between the state
/// before and the state after: either a `resolve_or_create` or a `remove`.
pub open spec fn registry_step(pre: HandleRegistry, post: HandleRegistry) -> bool {
    ||| exists|t: NativeToken, h: u32| #[trigger] resolve_transition(pre, post, t, h)
    ||| exists|h: u32| #[trigger] remove_transition(pre, post, h)
}

/// A possible history of one registry: every adjacent pair of states is
/// related by one operation.
pub open spec fn evolution(tr: Seq<HandleRegistry>) -> bool {
    forall|i: int| 0 <= i && i + 1 < tr.len() ==> #[trigger] registry_step(tr[i], tr[i + 1])
}

/// One step preserves well-formedness: each operation leaves the registry
/// a bijection between live tokens and live handles.
pub proof fn lemma_step_preserves_wf(pre: HandleRegistry, post: HandleRegistry)
    requires
        pre.wf(),
        registry_step(pre, post),
    ensures
        post.wf(),
{
    if exists|t: NativeToken, h: u32| #[trigger] resolve_transition(pre, post, t, h) {
        let (t, h) = choose|t: NativeToken, h: u32| #[trigger] resolve_transition(pre, post, t, h);
        if pre.tokens().contains_key(t) {
        } else {
            assert forall|t2: NativeToken| #[trigger] post.tokens().contains_key(t2) implies {
                &&& post.handles().contains_key(post.tokens()[t2])
                &&& post.handles()[post.tokens()[t2]] == t2
            } by {
                if t2 != t {
                    assert(pre.tokens().contains_key(t2));
                    assert(pre.tokens()[t2] <= pre.counter_val());
                }
            }
            assert forall|h2: u32| #[trigger] post.handles().contains_key(h2) implies {
                &&& post.tokens().contains_key(post.handles()[h2])
                &&& post.tokens()[post.handles()[h2]] == h2
                &&& post.issued().contains(h2)
            } by {
                if h2 != h {
                    assert(pre.handles().contains_key(h2));
                    assert(pre.handles()[h2] != t);
                }
            }
        }
    } else {
        let h = choose|h: u32| #[trigger] remove_transition(pre, post, h);
        assert(remove_transition(pre, post, h));
        assert forall|t2: NativeToken| #[trigger] post.tokens().contains_key(t2) implies {
            &&& post.handles().contains_key(post.tokens()[t2])
            &&& post.handles()[post.tokens()[t2]] == t2
        } by {
            assert(pre.tokens().contains_key(t2));
            if pre.tokens()[t2] == h {
                assert(pre.handles().contains_key(h));
                assert(pre.handles()[h] == t2);
                assert(pre.handles().contains_key(pre.tokens()[t2]));
                assert(!post.tokens().contains_key(t2));
            }
        }
        assert forall|h2: u32| #[trigger] post.handles().contains_key(h2) implies {
            &&& post.tokens().contains_key(post.handles()[h2])
            &&& post.tokens()[post.handles()[h2]] == h2
            &&& post.issued().contains(h2)
        } by {
            assert(pre.handles().contains_key(h2));
            if pre.handles().contains_key(h) && pre.handles()[h2] == pre.handles()[h] {
                assert(pre.tokens()[pre.handles()[h2]] == h2);
                assert(pre.tokens()[pre.handles()[h]] == h);
            }
        }
    }
}

/// Law: the bijection invariant holds at every instant — every state of a
/// history that starts well-formed is well-formed.
pub proof fn lemma_evolution_preserves_wf(tr: Seq<HandleRegistry>, j: int)
    requires
        evolution(tr),
        0 <= j < tr.len(),
        tr[0].wf(),
    ensures
        tr[j].wf(),
    decreases j,
{
    if j > 0 {
        lemma_evolution_preserves_wf(tr, j - 1);
        assert(registry_step(tr[j - 1], tr[j - 1 + 1]));
        lemma_step_preserves_wf(tr[j - 1], tr[j]);
    }
}

/// Law: every currently live token resolves back to itself. If `t` is
/// live, the handle it maps to is live and maps back to `t`; with the
/// contracts of `resolve_or_create` and `lookup`, this is exactly
/// `lookup(resolve_or_create(t)) == t` for every live token.
pub proof fn lemma_live_token_round_trip(r: HandleRegistry, t: NativeToken)
    requires
        r.wf(),
        r.tokens().contains_key(t),
    ensures
        r.handles().contains_key(r.tokens()[t]),
        r.handles()[r.tokens()[t]] == t,
{
}

/// Law: two joins carrying the same native token, with no intervening
/// leave, yield identical client handles.
pub proof fn lemma_same_token_same_handle(
    r0: HandleRegistry,
    r1: HandleRegistry,
    r2: HandleRegistry,
    t: NativeToken,
    h1: u32,
    h2: u32,
)
    requires
        resolve_transition(r0, r1, t, h1),
        resolve_transition(r1, r2, t, h2),
    ensures
        h1 == h2,
{
}

/// Law: a leave for handle `h`, followed by a join reusing the same
/// native token, yields a new handle different from `h`, and `h` is not
/// resolvable afterwards.
pub proof fn lemma_leave_then_rejoin(
    r0: HandleRegistry,
    r1: HandleRegistry,
    r2: HandleRegistry,
    t: NativeToken,
    h: u32,
    h2: u32,
)
    requires
        r0.wf(),
        r0.tokens().contains_key(t),
        h == r0.tokens()[t],
        remove_transition(r0, r1, h),
        resolve_transition(r1, r2, t, h2),
    ensures
        h2 != h,
        !r2.handles().contains_key(h),
{
    assert(r0.handles().contains_key(h) && r0.handles()[h] == t);
    assert(!r1.tokens().contains_key(t));
    assert(h2 == r1.counter_val() + 1);
    assert(r0.issued().contains(h));
    assert(h <= r0.counter_val());
}

/// One step preserves retirement: a handle that has been issued and is no
/// longer live cannot become live again, because a join either returns an
/// already-live handle or allocates one that was never issued.
pub proof fn lemma_retired_stays_retired_step(pre: HandleRegistry, post: HandleRegistry, h: u32)
    requires
        registry_step(pre, post),
        pre.issued().contains(h),
        !pre.handles().contains_key(h),
    ensures
        post.issued().contains(h),
        !post.handles().contains_key(h),
{
    if exists|t: NativeToken, h2: u32| #[trigger] resolve_transition(pre, post, t, h2) {
        let (t, h2) = choose|t: NativeToken, h2: u32|
            #[trigger] resolve_transition(pre, post, t, h2);
        if !pre.tokens().contains_key(t) {
            assert(h2 != h);
        }
    } else {
        let hr = choose|hr: u32| #[trigger] remove_transition(pre, post, hr);
        assert(post.handles() == pre.handles().remove(hr));
    }
}

/// Law: along any history of the registry, a retired handle stays retired
/// — once a leave has evicted handle `h`, no later state resolves it.
pub proof fn lemma_retired_stays_retired(tr: Seq<HandleRegistry>, i: int, j: int, h: u32)
    requires
        evolution(tr),
        0 <= i <= j < tr.len(),
        tr[i].issued().contains(h),
        !tr[i].handles().contains_key(h),
    ensures
        tr[j].issued().contains(h),
        !tr[j].handles().contains_key(h),
    decreases j - i,
{
    if i < j {
        lemma_retired_stays_retired(tr, i, j - 1, h);
        assert(registry_step(tr[j - 1], tr[j - 1 + 1]));
        lemma_retired_stays_retired_step(tr[j - 1], tr[j], h);
    }
}

/// One step never forgets an issued handle: the issued set only grows.
pub proof fn lemma_step_issued_monotone(pre: HandleRegistry, post: HandleRegistry)
    requires
        registry_step(pre, post),
    ensures
        pre.issued().subset_of(post.issued()),
{
    if exists|t: NativeToken, h2: u32| #[trigger] resolve_transition(pre, post, t, h2) {
        let (t, h2) = choose|t: NativeToken, h2: u32|
            #[trigger] resolve_transition(pre, post, t, h2);
        assert(resolve_transition(pre, post, t, h2));
    } else {
        let hr = choose|hr: u32| #[trigger] remove_transition(pre, post, hr);
        assert(remove_transition(pre, post, hr));
    }
}

/// Along any history, the issued set only grows.
pub proof fn lemma_evolution_issued_monotone(tr: Seq<HandleRegistry>, i: int, j: int)
    requires
        evolution(tr),
        0 <= i <= j < tr.len(),
    ensures
        tr[i].issued().subset_of(tr[j].issued()),
    decreases j - i,
{
    if i < j {
        lemma_evolution_issued_monotone(tr, i, j - 1);
        assert(registry_step(tr[j - 1], tr[j - 1 + 1]));
        lemma_step_issued_monotone(tr[j - 1], tr[j]);
    }
}

/// Law: no client handle value is ever issued twice. Two allocations for
/// previously unmapped tokens, at different points of one history, return
/// distinct handles, no matter how many join/leave cycles lie between.
pub proof fn lemma_no_handle_reissued(
    tr: Seq<HandleRegistry>,
    i: int,
    j: int,
    t1: NativeToken,
    t2: NativeToken,
    h1: u32,
    h2: u32,
)
    requires
        evolution(tr),
        0 <= i,
        i + 1 <= j,
        j + 1 < tr.len(),
        !tr[i].tokens().contains_key(t1),
        resolve_transition(tr[i], tr[i + 1], t1, h1),
        !tr[j].tokens().contains_key(t2),
        resolve_transition(tr[j], tr[j + 1], t2, h2),
    ensures
        h1 != h2,
{
    assert(tr[i + 1].issued().contains(h1));
    lemma_evolution_issued_monotone(tr, i + 1, j);
    assert(tr[j].issued().contains(h1));
    assert(!tr[j].issued().contains(h2));
}

} // verus!
