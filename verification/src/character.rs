//! Character-side data the synchronization layer touches: per-player
//! animation state, transition descriptions, and asset metadata.

use vstd::prelude::*;

use crate::input::Buttons;

verus! {

/// Identifies one state of a character's state machine.
pub type StateId = usize;

/// Where a player currently is inside the character state machine: the
/// active state and how many frames it has been active.
#[derive(Clone, Copy, Debug, Default, PartialEq, Eq, Structural)]
pub struct PlayerState {
    pub state_id: StateId,
    pub frame: usize,
}

impl PlayerState {
    /// Advances one frame within the current state.
    pub fn tick(&mut self)
        requires
            old(self).frame < usize::MAX,
        ensures
            final(self).frame == old(self).frame + 1,
            final(self).state_id == old(self).state_id,
    {
        self.frame = self.frame + 1;
    }
}

/// A singular condition for a state transition.
#[derive(Clone, Copy, Debug, PartialEq, Eq, Structural)]
pub enum TransitionCondition {
    /// Fires when the state's animation has completed.
    StateEnd,
    /// Fires once the state has passed a specific frame.
    PassedFrame(usize),
    /// Fires while one or more buttons are held simultaneously.
    ButtonHeld(Buttons),
    /// Fires when one or more buttons are pressed simultaneously.
    ButtonTapped(Buttons),
}

/// An outgoing edge of the character state machine.
#[derive(Clone, Debug)]
pub struct StateTransition {
    /// Optional debug name for the transition.
    pub name: Option<String>,
    /// The state entered once every condition is satisfied.
    pub target_state: StateId,
    /// Conditions that must all hold for the transition to fire.
    pub transition: Vec<TransitionCondition>,
}

/// Why a state machine failed validation.
#[derive(Clone, Copy, Debug, PartialEq, Eq, Structural)]
pub enum StateMachineValidationError {
    InvalidTransitionTarget { from: StateId, to: StateId },
}

/// One state of a character's state machine: a debug name and the
/// outgoing transitions.
#[derive(Clone, Debug)]
pub struct State {
    pub name: String,
    pub transitions: Vec<StateTransition>,
}

impl State {
    /// Drops every transition that leads to `state`.
    pub fn remove_transitions_to(&mut self, state: StateId)
        ensures
            final(self).name == old(self).name,
            final(self).transitions@ == old(self).transitions@.filter(
                |t: StateTransition| t.target_state != state,
            ),
    {
        let ghost pre = self.transitions@;
        let ghost pred = |t: StateTransition| t.target_state != state;
        let mut i: usize = 0;
        let ghost j: int = 0;
        while i < self.transitions.len()
            invariant
                self.name == old(self).name,
                0 <= i <= self.transitions@.len(),
                0 <= j <= pre.len(),
                i == pre.subrange(0, j).filter(pred).len(),
                self.transitions@ == pre.subrange(0, j).filter(pred) + pre.subrange(
                    j,
                    pre.len() as int,
                ),
                pred == (|t: StateTransition| t.target_state != state),
            decreases pre.len() - j,
        {
            let ghost prefix = pre.subrange(0, j);
            proof {
                assert(self.transitions@[i as int] == pre[j]) by {
                    assert(self.transitions@[i as int] == (prefix.filter(pred) + pre.subrange(
                        j,
                        pre.len() as int,
                    ))[i as int]);
                };
                reveal(Seq::filter);
                assert(pre.subrange(0, j + 1).drop_last() == prefix);
                assert(pre.subrange(0, j + 1).last() == pre[j]);
            }
            if self.transitions[i].target_state == state {
                self.transitions.remove(i);
                proof {
                    assert(self.transitions@ =~= prefix.filter(pred) + pre.subrange(
                        j + 1,
                        pre.len() as int,
                    ));
                    assert(pre.subrange(0, j + 1).filter(pred) == prefix.filter(pred));
                }
            } else {
                proof {
                    assert(pre.subrange(0, j + 1).filter(pred) == prefix.filter(pred).push(pre[j]));
                    assert(self.transitions@ =~= pre.subrange(0, j + 1).filter(pred)
                        + pre.subrange(j + 1, pre.len() as int));
                }
                i = i + 1;
            }
            proof {
                j = j + 1;
            }
        }
        proof {
            assert(pre.subrange(j, pre.len() as int).len() == 0);
            assert(j == pre.len());
            assert(pre.subrange(0, j) == pre);
            assert(self.transitions@ =~= pre.filter(pred));
        }
    }
}

/// A character's full state machine: states addressed by identifier,
/// each with its outgoing transitions.
#[derive(Clone, Debug)]
pub struct StateMachine(Vec<(StateId, State)>);

impl StateMachine {
    /// The stored states, as (identifier, state) pairs.
    pub closed spec fn entries(self) -> Seq<(StateId, State)> {
        self.0@
    }

    /// Identifiers are unique.
    pub open spec fn wf(self) -> bool {
        forall|i: int, j: int|
            0 <= i < j < self.entries().len() ==> (#[trigger] self.entries()[i]).0 != (
            #[trigger] self.entries()[j]).0
    }

    /// Whether some state has identifier `id`.
    pub open spec fn has_state(self, id: StateId) -> bool {
        exists|i: int| 0 <= i < self.entries().len() && (#[trigger] self.entries()[i]).0 == id
    }

    pub open spec fn idx_of(self, id: StateId) -> int {
        choose|i: int| 0 <= i < self.entries().len() && (#[trigger] self.entries()[i]).0 == id
    }

    /// The state stored under `id`.
    pub open spec fn state_at(self, id: StateId) -> State {
        self.entries()[self.idx_of(id)].1
    }

    pub fn new() -> (r: StateMachine)
        ensures
            r.wf(),
            r.entries().len() == 0,
    {
        StateMachine(Vec::new())
    }

    /// Adds a state under the next free identifier (the current number of
    /// states) and returns that identifier; an existing state under that
    /// identifier is replaced, as a map insertion would.
    pub fn add_state(&mut self, state: State) -> (r: StateId)
        requires
            old(self).wf(),
        ensures
            final(self).wf(),
            r == old(self).entries().len(),
            final(self).has_state(r),
            final(self).state_at(r) == state,
            forall|g: StateId|
                g != r ==> final(self).has_state(g) == old(self).has_state(g),
            forall|g: StateId|
                g != r && old(self).has_state(g) ==> final(self).state_at(g) == old(self).state_at(
                    g,
                ),
    {
        let id = self.0.len();
        let n = self.0.len();
        let mut i: usize = 0;
        // an identifier equal to the length can exist after removals
        while i < n && self.0[i].0 != id
            invariant
                n == self.entries().len(),
                0 <= i <= n,
                self.wf(),
                forall|k: int| 0 <= k < i ==> (#[trigger] self.entries()[k]).0 != id,
            decreases n - i,
        {
            i = i + 1;
        }
        if i < n {
            self.0[i] = (id, state);
            proof {
                let fin = self.entries();
                assert(fin[i as int].0 == id);
                assert(self.has_state(id));
                assert(self.idx_of(id) == i as int) by {
                    let k = self.idx_of(id);
                    assert(fin[k].0 == id);
                    if k != i {
                        assert(old(self).entries()[k] == fin[k]);
                        assert(old(self).entries()[i as int].0 == id);
                    }
                };
                assert forall|g: StateId| g != id implies self.has_state(g) == old(
                    self,
                ).has_state(g) && (old(self).has_state(g) ==> self.state_at(g) == old(
                    self,
                ).state_at(g)) by {
                    if old(self).has_state(g) {
                        let k = old(self).idx_of(g);
                        assert(old(self).entries()[k].0 == g);
                        assert(k != i);
                        assert(self.entries()[k].0 == g);
                        assert(self.has_state(g));
                        let k2 = self.idx_of(g);
                        assert(self.entries()[k2].0 == g);
                        assert(k2 != i);
                        assert(old(self).entries()[k2].0 == g);
                        assert(k2 == k);
                    }
                    if self.has_state(g) {
                        let k = self.idx_of(g);
                        assert(self.entries()[k].0 == g);
                        assert(k != i);
                        assert(old(self).entries()[k].0 == g);
                        assert(old(self).has_state(g));
                    }
                };
            }
        } else {
            self.0.push((id, state));
            proof {
                let fin = self.entries();
                assert(fin[n as int].0 == id);
                assert(self.has_state(id));
                assert(self.idx_of(id) == n as int) by {
                    let k = self.idx_of(id);
                    assert(fin[k].0 == id);
                    if k != n {
                        assert(old(self).entries()[k].0 == id);
                    }
                };
                assert forall|g: StateId| g != id implies self.has_state(g) == old(
                    self,
                ).has_state(g) && (old(self).has_state(g) ==> self.state_at(g) == old(
                    self,
                ).state_at(g)) by {
                    if old(self).has_state(g) {
                        let k = old(self).idx_of(g);
                        assert(fin[k].0 == g);
                        assert(self.has_state(g));
                        let k2 = self.idx_of(g);
                        assert(fin[k2].0 == g);
                        assert(k2 != n);
                        assert(old(self).entries()[k2].0 == g);
                        assert(k2 == k);
                    }
                    if self.has_state(g) {
                        let k = self.idx_of(g);
                        assert(fin[k].0 == g);
                        assert(k != n);
                        assert(old(self).entries()[k].0 == g);
                        assert(old(self).has_state(g));
                    }
                };
            }
        }
        id
    }

    /// Removes the state stored under `id`, along with every transition
    /// of the remaining states that led to it.
    pub fn remove_state(&mut self, id: StateId)
        requires
            old(self).wf(),
        ensures
            final(self).wf(),
            !final(self).has_state(id),
            forall|g: StateId|
                g != id ==> final(self).has_state(g) == old(self).has_state(g),
            forall|g: StateId|
                g != id && old(self).has_state(g) ==> (#[trigger] final(self).state_at(g)).name
                    == old(self).state_at(g).name && final(self).state_at(g).transitions@ == old(
                    self,
                ).state_at(g).transitions@.filter(|t: StateTransition| t.target_state != id),
    {
        let ghost pre = self.0@;
        let n = self.0.len();
        let mut i: usize = 0;
        while i < n && self.0[i].0 != id
            invariant
                n == self.entries().len(),
                0 <= i <= n,
                self.wf(),
                self.0@ == pre,
                forall|k: int| 0 <= k < i ==> (#[trigger] self.entries()[k]).0 != id,
            decreases n - i,
        {
            i = i + 1;
        }
        let ghost removed: Seq<(StateId, State)> = if i < n {
            pre.remove(i as int)
        } else {
            pre
        };
        if i < n {
            self.0.remove(i);
        }
        proof {
            assert(self.0@ == removed);
            assert(forall|k: int|
                0 <= k < removed.len() ==> (#[trigger] removed[k]).0 != id) by {
                if i < n {
                    assert(forall|k: int|
                        0 <= k < removed.len() ==> removed[k] == (if k < i {
                            pre[k]
                        } else {
                            pre[k + 1]
                        }));
                    assert(pre[i as int].0 == id);
                    assert(forall|a: int, b: int|
                        0 <= a < b < pre.len() ==> (#[trigger] pre[a]).0 != (#[trigger] pre[b]).0);
                }
            };
            assert(forall|a: int, b: int|
                0 <= a < b < removed.len() ==> (#[trigger] removed[a]).0 != (
                #[trigger] removed[b]).0) by {
                if i < n {
                    assert(forall|k: int|
                        0 <= k < removed.len() ==> removed[k] == (if k < i {
                            pre[k]
                        } else {
                            pre[k + 1]
                        }));
                }
            };
        }
        let m = self.0.len();
        let mut q: usize = 0;
        while q < m
            invariant
                m == self.entries().len(),
                0 <= q <= m,
                self.0@.len() == removed.len(),
                forall|k: int| 0 <= k < removed.len() ==> (#[trigger] self.0@[k]).0 == removed[k].0,
                forall|k: int| 0 <= k < removed.len() ==> (#[trigger] removed[k]).0 != id,
                forall|a: int, b: int|
                    0 <= a < b < removed.len() ==> (#[trigger] removed[a]).0 != (
                    #[trigger] removed[b]).0,
                forall|k: int|
                    q <= k < removed.len() ==> (#[trigger] self.0@[k]).1 == removed[k].1,
                forall|k: int|
                    0 <= k < q ==> (#[trigger] self.0@[k]).1.name == removed[k].1.name
                        && self.0@[k].1.transitions@ == removed[k].1.transitions@.filter(
                        |t: StateTransition| t.target_state != id,
                    ),
            decreases m - q,
        {
            self.0[q].1.remove_transitions_to(id);
            q = q + 1;
        }
        proof {
            let fin = self.entries();
            assert(!self.has_state(id)) by {
                if self.has_state(id) {
                    let k = self.idx_of(id);
                    assert(fin[k].0 == removed[k].0);
                }
            };
            assert forall|g: StateId| g != id implies self.has_state(g) == old(self).has_state(
                g,
            ) by {
                if old(self).has_state(g) {
                    let k = old(self).idx_of(g);
                    assert(pre[k].0 == g);
                    if i < n {
                        if k < i {
                            assert(removed[k].0 == g);
                        } else {
                            assert(k != i);
                            assert(removed[k - 1].0 == g);
                        }
                        assert(exists|w: int|
                            0 <= w < removed.len() && (#[trigger] removed[w]).0 == g);
                    } else {
                        assert(removed[k].0 == g);
                    }
                    let w = choose|w: int| 0 <= w < removed.len() && (#[trigger] removed[w]).0 == g;
                    assert(fin[w].0 == g);
                    assert(self.has_state(g));
                }
                if self.has_state(g) {
                    let k = self.idx_of(g);
                    assert(fin[k].0 == g && removed[k].0 == g);
                    if i < n {
                        if k < i {
                            assert(pre[k].0 == g);
                        } else {
                            assert(pre[k + 1].0 == g);
                        }
                        assert(exists|w: int| 0 <= w < pre.len() && (#[trigger] pre[w]).0 == g);
                    } else {
                        assert(pre[k].0 == g);
                    }
                    let w = choose|w: int| 0 <= w < pre.len() && (#[trigger] pre[w]).0 == g;
                    assert(old(self).entries()[w].0 == g);
                    assert(old(self).has_state(g));
                }
            };
            assert forall|g: StateId|
                g != id && old(self).has_state(g) implies (#[trigger] self.state_at(g)).name == old(
                self,
            ).state_at(g).name && self.state_at(g).transitions@ == old(self).state_at(
                g,
            ).transitions@.filter(|t: StateTransition| t.target_state != id) by {
                let k0 = old(self).idx_of(g);
                assert(pre[k0].0 == g);
                let k = self.idx_of(g);
                assert(self.has_state(g));
                assert(fin[k].0 == g && removed[k].0 == g);
                if i < n {
                    let orig = if k < i {
                        k
                    } else {
                        k + 1
                    };
                    assert(removed[k] == pre[orig]);
                    assert(pre[orig].0 == g);
                    assert(orig == k0) by {
                        assert(forall|a: int, b: int|
                            0 <= a < b < pre.len() ==> (#[trigger] pre[a]).0 != (
                            #[trigger] pre[b]).0);
                    };
                } else {
                    assert(removed[k] == pre[k]);
                    assert(k == k0) by {
                        assert(forall|a: int, b: int|
                            0 <= a < b < pre.len() ==> (#[trigger] pre[a]).0 != (
                            #[trigger] pre[b]).0);
                    };
                }
                assert(removed[k].1 == pre[k0].1);
                assert(fin[k].1.name == removed[k].1.name && fin[k].1.transitions@
                    == removed[k].1.transitions@.filter(
                    |t: StateTransition| t.target_state != id,
                ));
            };
        }
    }

    /// Creates a transition from `from` to `to` with no conditions yet;
    /// nothing happens unless both states exist, and whether they did is
    /// returned.
    pub fn create_transition(&mut self, from: StateId, to: StateId) -> (r: bool)
        requires
            old(self).wf(),
        ensures
            final(self).wf(),
            r == (old(self).has_state(from) && old(self).has_state(to)),
            !r ==> final(self).entries() == old(self).entries(),
            r ==> {
                &&& final(self).has_state(from)
                &&& final(self).state_at(from).name == old(self).state_at(from).name
                &&& final(self).state_at(from).transitions@.len() == old(self).state_at(
                    from,
                ).transitions@.len() + 1
                &&& final(self).state_at(from).transitions@.last().target_state == to
                &&& forall|g: StateId|
                    g != from ==> final(self).has_state(g) == old(self).has_state(g)
                &&& forall|g: StateId|
                    g != from && old(self).has_state(g) ==> final(self).state_at(g) == old(
                        self,
                    ).state_at(g)
            },
    {
        if !self.contains_state(to) {
            return false;
        }
        let ghost pre = self.0@;
        let n = self.0.len();
        let mut i: usize = 0;
        while i < n && self.0[i].0 != from
            invariant
                n == self.entries().len(),
                self.0@ == pre,
                0 <= i <= n,
                self.wf(),
                forall|k: int| 0 <= k < i ==> (#[trigger] self.entries()[k]).0 != from,
            decreases n - i,
        {
            i = i + 1;
        }
        if i >= n {
            proof {
                assert(!self.has_state(from));
            }
            return false;
        }
        proof {
            assert(self.entries()[i as int].0 == from);
            assert(self.has_state(from));
        }
        self.0[i].1.transitions.push(
            StateTransition { name: None, target_state: to, transition: Vec::new() },
        );
        proof {
            let fin = self.entries();
            assert(fin.len() == pre.len());
            assert(forall|k: int| 0 <= k < fin.len() ==> (#[trigger] fin[k]).0 == pre[k].0);
            assert(forall|k: int| 0 <= k < fin.len() && k != i ==> (#[trigger] fin[k]) == pre[k]);
            assert(fin[i as int].0 == from);
            assert(self.idx_of(from) == i as int) by {
                let k = self.idx_of(from);
                assert(fin[k].0 == from);
                if k != i {
                    assert(pre[k].0 == from);
                }
            };
            assert(old(self).idx_of(from) == i as int) by {
                let k = old(self).idx_of(from);
                assert(pre[k].0 == from);
                if k != i {
                    assert(pre[i as int].0 == from);
                }
            };
            assert forall|g: StateId| g != from implies self.has_state(g) == old(self).has_state(
                g,
            ) && (old(self).has_state(g) ==> self.state_at(g) == old(self).state_at(g)) by {
                if old(self).has_state(g) {
                    let k = old(self).idx_of(g);
                    assert(pre[k].0 == g);
                    assert(fin[k].0 == g);
                    assert(self.has_state(g));
                    let k2 = self.idx_of(g);
                    assert(fin[k2].0 == g);
                    assert(k2 == k) by {
                        assert(pre[k2].0 == g);
                    };
                    assert(k != i);
                    assert(fin[k] == pre[k]);
                }
                if self.has_state(g) {
                    let k = self.idx_of(g);
                    assert(fin[k].0 == g);
                    assert(pre[k].0 == g);
                    assert(old(self).has_state(g));
                }
            };
        }
        true
    }

    /// The state stored under `id`, if any.
    pub fn get_state(&self, id: StateId) -> (r: Option<&State>)
        requires
            self.wf(),
        ensures
            r is Some <==> self.has_state(id),
            r is Some ==> *r.unwrap() == self.state_at(id),
    {
        let n = self.0.len();
        let mut i: usize = 0;
        while i < n && self.0[i].0 != id
            invariant
                n == self.entries().len(),
                0 <= i <= n,
                self.wf(),
                forall|k: int| 0 <= k < i ==> (#[trigger] self.entries()[k]).0 != id,
            decreases n - i,
        {
            i = i + 1;
        }
        if i < n {
            proof {
                assert(self.entries()[i as int].0 == id);
                assert(self.has_state(id));
                let k = self.idx_of(id);
                assert(self.entries()[k].0 == id);
                assert(k == i);
            }
            Some(&self.0[i].1)
        } else {
            proof {
                assert(!self.has_state(id));
            }
            None
        }
    }

    /// Whether the machine contains a state with identifier `id`.
    pub fn contains_state(&self, id: StateId) -> (r: bool)
        requires
            self.wf(),
        ensures
            r == self.has_state(id),
    {
        self.get_state(id).is_some()
    }
}

/// Validates a state machine's construction: every transition of every
/// state must lead to a state the machine contains. The first violation
/// found is reported with the offending edge.
pub fn validate(machine: StateMachine) -> (r: Result<(), StateMachineValidationError>)
    requires
        machine.wf(),
    ensures
        r is Ok <==> (forall|i: int, j: int|
            0 <= i < machine.entries().len() && 0 <= j < (#[trigger] machine.entries()[
                i
            ]).1.transitions@.len() ==> machine.has_state(
                (#[trigger] machine.entries()[i].1.transitions@[j]).target_state,
            )),
        r is Err ==> (r.unwrap_err() matches StateMachineValidationError::InvalidTransitionTarget {
            from,
            to,
        } && !machine.has_state(to) && exists|i: int, j: int|
            0 <= i < machine.entries().len() && (#[trigger] machine.entries()[i]).0 == from && 0
                <= j < machine.entries()[i].1.transitions@.len() && (#[trigger] machine.entries()[
                i
            ].1.transitions@[j]).target_state == to),
{
    let n = machine.0.len();
    let mut i: usize = 0;
    while i < n
        invariant
            n == machine.entries().len(),
            0 <= i <= n,
            machine.wf(),
            forall|a: int, b: int|
                0 <= a < i && 0 <= b < (#[trigger] machine.entries()[a]).1.transitions@.len()
                    ==> machine.has_state(
                    (#[trigger] machine.entries()[a].1.transitions@[b]).target_state,
                ),
        decreases n - i,
    {
        let m = machine.0[i].1.transitions.len();
        let mut j: usize = 0;
        while j < m
            invariant
                n == machine.entries().len(),
                0 <= i < n,
                m == machine.entries()[i as int].1.transitions@.len(),
                0 <= j <= m,
                machine.wf(),
                forall|a: int, b: int|
                    0 <= a < i && 0 <= b < (#[trigger] machine.entries()[a]).1.transitions@.len()
                        ==> machine.has_state(
                        (#[trigger] machine.entries()[a].1.transitions@[b]).target_state,
                    ),
                forall|b: int|
                    0 <= b < j ==> machine.has_state(
                        (#[trigger] machine.entries()[i as int].1.transitions@[b]).target_state,
                    ),
            decreases m - j,
        {
            let target = machine.0[i].1.transitions[j].target_state;
            if !machine.contains_state(target) {
                return Err(
                    StateMachineValidationError::InvalidTransitionTarget {
                        from: machine.0[i].0,
                        to: target,
                    },
                );
            }
            j = j + 1;
        }
        i = i + 1;
    }
    Ok(())
}

/// Metadata describing one selectable character.
#[derive(Clone, Debug)]
pub struct CharacterAsset {
    pub short_name: String,
    pub long_name: String,
    pub palletes: Vec<CharacterPallette>,
}

/// One colour palette of a character.
#[derive(Clone, Copy, Debug, PartialEq, Eq, Structural)]
pub struct CharacterPallette {}

/// How strongly a hitbox claims a contested collision.
#[derive(Clone, Copy, Debug, PartialEq, Eq, Structural)]
pub enum HitboxPriority {
    Transcendent,
    Normal(u16),
}

impl Default for HitboxPriority {
    fn default() -> (r: Self)
        ensures
            r == HitboxPriority::Normal(0u16),
    {
        HitboxPriority::Normal(0)
    }
}

impl HitboxPriority {
    /// Whether `self` outranks `other`: transcendent hitboxes outrank all
    /// normal ones, and normal ones compare by their value.
    pub fn outranks(&self, other: &HitboxPriority) -> (r: bool)
        ensures
            r == match (*self, *other) {
                (HitboxPriority::Transcendent, _) => !(*other is Transcendent),
                (HitboxPriority::Normal(a), HitboxPriority::Normal(b)) => a > b,
                (HitboxPriority::Normal(_), HitboxPriority::Transcendent) => false,
            },
    {
        match (self, other) {
            (HitboxPriority::Transcendent, HitboxPriority::Transcendent) => false,
            (HitboxPriority::Transcendent, HitboxPriority::Normal(_)) => true,
            (HitboxPriority::Normal(_), HitboxPriority::Transcendent) => false,
            (HitboxPriority::Normal(a), HitboxPriority::Normal(b)) => a > b,
        }
    }
}

/// What a hurtbox does with incoming hits during the current frame.
#[derive(Clone, Copy, Debug, PartialEq, Eq, Structural)]
pub enum HurtboxType {
    Inactive,
    Damageable,
    Intangible,
    Invincible,
    Grazing,
    Shield,
}

} // verus!
