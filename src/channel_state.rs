use vstd::prelude::*;

use std::sync::Arc;

use crate::key_index::KeyIndex;
use crate::persisted::share;

verus! {

/// Why a value of the process-wide state could not be had.
#[derive(Debug, Clone, PartialEq, Eq)]
pub enum StateError {
    /// The request was made without a context.
    NoContext,
    /// No value of the named type was registered.
    NoValue(String),
}

/// Why a value of a channel's state could not be had.
#[derive(Debug, Clone, PartialEq, Eq)]
pub enum ChannelStateError {
    NoContext,
    /// No per-channel state was configured.
    NoChannelContainer,
    NoValue(String),
}

impl StateError {
    pub fn message(&self) -> (r: String)
        ensures
            match self {
                StateError::NoContext => r@ == "CommandRequest is missing context"@,
                StateError::NoValue(n) => r@ == "No value set for type "@ + n@,
            },
    {
        match self {
            StateError::NoContext => String::from_str("CommandRequest is missing context"),
            StateError::NoValue(name) => {
                let mut s = String::from_str("No value set for type ");
                s.append(name.as_str());
                s
            },
        }
    }
}

impl ChannelStateError {
    pub fn message(&self) -> (r: String)
        ensures
            match self {
                ChannelStateError::NoContext => r@ == "CommandRequest is missing context"@,
                ChannelStateError::NoChannelContainer => r@ == "No ChannelContainer was setup"@,
                ChannelStateError::NoValue(n) => r@ == "No value set for type "@ + n@
                    + " in ChannelContainer"@,
            },
    {
        match self {
            ChannelStateError::NoContext => String::from_str("CommandRequest is missing context"),
            ChannelStateError::NoChannelContainer => String::from_str("No ChannelContainer was setup"),
            ChannelStateError::NoValue(name) => {
                let mut s = String::from_str("No value set for type ");
                s.append(name.as_str());
                s.append(" in ChannelContainer");
                s
            },
        }
    }
}

/// The state of each channel, made by an initializer the first time the channel is asked
/// for and the same value from then on.
pub struct ChannelContainer<S> {
    index: KeyIndex,
    slots: Vec<Arc<S>>,
}

impl<S> ChannelContainer<S> {
    pub closed spec fn wf(&self) -> bool {
        &&& self.index.wf()
        &&& forall|k: Seq<char>| #[trigger]
            self.index.view().contains_key(k) ==> self.index.view()[k] < self.slots.len()
    }

    /// The state of channel `k`, once made.
    pub closed spec fn value_of(&self, k: Seq<char>) -> Option<S> {
        if self.index.view().contains_key(k) {
            Some(*self.slots@[self.index.view()[k] as int])
        } else {
            None
        }
    }

    pub fn new() -> (r: Self)
        ensures
            r.wf(),
            forall|k: Seq<char>| r.value_of(k) is None,
    {
        ChannelContainer { index: KeyIndex::new(), slots: Vec::new() }
    }

    /// The state of `channel`, when it was made already.
    pub fn lookup(&self, channel: &str) -> (r: Option<Arc<S>>)
        requires
            self.wf(),
        ensures
            match r {
                Some(a) => self.value_of(channel@) == Some(*a),
                None => self.value_of(channel@) is None,
            },
    {
        match self.index.get(channel) {
            Some(i) => Some(share(&self.slots[i])),
            None => None,
        }
    }

    /// The state of `channel`, made with `init` when the channel is new. Returns it and
    /// whether `init` ran; it runs exactly when the channel had no state.
    pub fn get_or_init<F: Fn(&str) -> S>(&mut self, channel: &str, init: F) -> (r: (Arc<S>, bool))
        requires
            old(self).wf(),
            init.requires((channel,)),
        ensures
            final(self).wf(),
            init_step(old(self).value_of(channel@), final(self).value_of(channel@), *r.0, r.1),
            r.1 ==> init.ensures((channel,), *r.0),
            forall|k: Seq<char>| k != channel@ ==> final(self).value_of(k) == old(self).value_of(k),
    {
        match self.index.get(channel) {
            Some(i) => (share(&self.slots[i]), false),
            None => {
                let value = Arc::new(init(channel));
                let i = self.slots.len();
                self.slots.push(share(&value));
                self.index.insert(channel, i);
                proof {
                    assert forall|k: Seq<char>| k != channel@ implies self.value_of(k) == old(
                        self,
                    ).value_of(k) by {
                        if old(self).index.view().contains_key(k) {
                            assert(self.slots@[old(self).index.view()[k] as int] == old(
                                self,
                            ).slots@[old(self).index.view()[k] as int]);
                        }
                    }
                }
                (value, true)
            },
        }
    }
}

/// One access to a channel's state: `before` and `after` are its state around the access,
/// `v` what the access returned and `ran` whether the initializer ran.
pub open spec fn init_step<S>(before: Option<S>, after: Option<S>, v: S, ran: bool) -> bool {
    &&& ran == (before is None)
    &&& after == Some(v)
    &&& (before matches Some(b) ==> v == b)
}

/// Two accesses to the same channel run the initializer at most once, and exactly once
/// when the channel had no state: the second one finds the value the first one left.
pub proof fn lemma_initializer_runs_once<S>(
    s0: Option<S>,
    s1: Option<S>,
    s2: Option<S>,
    v1: S,
    v2: S,
    ran1: bool,
    ran2: bool,
)
    requires
        init_step(s0, s1, v1, ran1),
        init_step(s1, s2, v2, ran2),
    ensures
        !ran2,
        v2 == v1,
        s2 == s1,
        ran1 <==> s0 is None,
{
}

/// Any number of accesses to the same channel, one after another (as the container's write
/// lock orders them): the initializer runs only in the first, and there exactly when the
/// channel had no state; every access returns the same value.
pub proof fn lemma_initializer_runs_once_over<S>(
    states: Seq<Option<S>>,
    values: Seq<S>,
    ran: Seq<bool>,
)
    requires
        values.len() >= 1,
        states.len() == values.len() + 1,
        ran.len() == values.len(),
        forall|i: int|
            0 <= i < values.len() ==> init_step(
                #[trigger] states[i],
                states[i + 1],
                values[i],
                ran[i],
            ),
    ensures
        ran[0] <==> states[0] is None,
        forall|i: int| 0 < i < ran.len() ==> !(#[trigger] ran[i]),
        forall|i: int| 0 <= i < values.len() ==> #[trigger] values[i] == values[0],
{
    assert forall|i: int| 0 < i < ran.len() implies !(#[trigger] ran[i]) by {
        assert(init_step(states[i - 1], states[i], values[i - 1], ran[i - 1]));
        assert(init_step(states[i], states[i + 1], values[i], ran[i]));
    }
    assert forall|i: int| 0 <= i < values.len() implies #[trigger] values[i] == values[0] by {
        lemma_same_value_from_start(states, values, ran, i);
    }
}

proof fn lemma_same_value_from_start<S>(states: Seq<Option<S>>, values: Seq<S>, ran: Seq<bool>, i: int)
    requires
        0 <= i < values.len(),
        states.len() == values.len() + 1,
        ran.len() == values.len(),
        forall|j: int|
            0 <= j < values.len() ==> init_step(
                #[trigger] states[j],
                states[j + 1],
                values[j],
                ran[j],
            ),
    ensures
        values[i] == values[0],
    decreases i,
{
    if i > 0 {
        assert(init_step(states[i - 1], states[i], values[i - 1], ran[i - 1]));
        assert(init_step(states[i], states[i + 1], values[i], ran[i]));
        lemma_same_value_from_start(states, values, ran, i - 1);
    }
}

/// The handles one request has taken from a `ChannelContainer`, so that taking the same
/// channel's state again does not go back to the container.
pub struct ChannelCache<S> {
    index: KeyIndex,
    slots: Vec<Arc<S>>,
}

impl<S> ChannelCache<S> {
    pub closed spec fn wf(&self) -> bool {
        &&& self.index.wf()
        &&& forall|k: Seq<char>| #[trigger]
            self.index.view().contains_key(k) ==> self.index.view()[k] < self.slots.len()
    }

    pub closed spec fn cached(&self, k: Seq<char>) -> Option<S> {
        if self.index.view().contains_key(k) {
            Some(*self.slots@[self.index.view()[k] as int])
        } else {
            None
        }
    }

    /// Every cached handle holds what the container holds for that channel.
    pub open spec fn agrees_with(&self, c: &ChannelContainer<S>) -> bool {
        forall|k: Seq<char>| #[trigger] self.cached(k) is Some ==> self.cached(k) == c.value_of(k)
    }

    pub fn new() -> (r: Self)
        ensures
            r.wf(),
            forall|k: Seq<char>| r.cached(k) is None,
    {
        ChannelCache { index: KeyIndex::new(), slots: Vec::new() }
    }

    /// The handle this request already took for `channel`, if any.
    pub fn lookup(&self, channel: &str) -> (r: Option<Arc<S>>)
        requires
            self.wf(),
        ensures
            match r {
                Some(a) => self.cached(channel@) == Some(*a),
                None => self.cached(channel@) is None,
            },
    {
        match self.index.get(channel) {
            Some(i) => Some(share(&self.slots[i])),
            None => None,
        }
    }

    /// The state of `channel` when the container made it already, kept in the cache from
    /// then on; `None` when the channel is new. Needs only to read the container.
    pub fn take_existing(&mut self, container: &ChannelContainer<S>, channel: &str) -> (r: Option<
        Arc<S>,
    >)
        requires
            old(self).wf(),
            container.wf(),
            old(self).agrees_with(container),
        ensures
            final(self).wf(),
            final(self).agrees_with(container),
            match r {
                Some(a) => container.value_of(channel@) == Some(*a),
                None => container.value_of(channel@) is None,
            },
    {
        match self.index.get(channel) {
            Some(i) => {
                assert(self.cached(channel@) is Some);
                Some(share(&self.slots[i]))
            },
            None => match container.lookup(channel) {
                None => None,
                Some(value) => {
                    let i = self.slots.len();
                    self.slots.push(share(&value));
                    self.index.insert(channel, i);
                    proof {
                        assert forall|k: Seq<char>| #[trigger] self.cached(k) is Some implies self.cached(
                            k,
                        ) == container.value_of(k) by {
                            if k != channel@ {
                                assert(old(self).cached(k) is Some);
                                assert(self.slots@[old(self).index.view()[k] as int] == old(
                                    self,
                                ).slots@[old(self).index.view()[k] as int]);
                            }
                        }
                    }
                    Some(value)
                },
            },
        }
    }

    /// The state of `channel`: from the cache when it was taken before in this request,
    /// else from the container (which makes it when the channel is new).
    pub fn get<F: Fn(&str) -> S>(
        &mut self,
        container: &mut ChannelContainer<S>,
        channel: &str,
        init: F,
    ) -> (r: Arc<S>)
        requires
            old(self).wf(),
            old(container).wf(),
            old(self).agrees_with(old(container)),
            init.requires((channel,)),
        ensures
            final(self).wf(),
            final(container).wf(),
            final(self).agrees_with(final(container)),
            final(container).value_of(channel@) == Some(*r),
            old(container).value_of(channel@) matches Some(v) ==> *r == v,
            forall|k: Seq<char>| k != channel@ ==> final(container).value_of(k) == old(
                container,
            ).value_of(k),
    {
        match self.index.get(channel) {
            Some(i) => {
                assert(self.cached(channel@) is Some);
                share(&self.slots[i])
            },
            None => {
                let (value, _) = container.get_or_init(channel, init);
                let i = self.slots.len();
                self.slots.push(share(&value));
                self.index.insert(channel, i);
                proof {
                    assert forall|k: Seq<char>| #[trigger] self.cached(k) is Some implies self.cached(k)
                        == container.value_of(k) by {
                        if k != channel@ {
                            assert(old(self).cached(k) is Some);
                            assert(self.slots@[old(self).index.view()[k] as int] == old(
                                self,
                            ).slots@[old(self).index.view()[k] as int]);
                        }
                    }
                }
                value
            },
        }
    }
}

} // verus!
