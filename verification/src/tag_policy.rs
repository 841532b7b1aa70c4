//! Execution rules selected by flow step tags.

use vstd::prelude::*;

use crate::text_map::TextMap;
use crate::time::Duration;

verus! {

/// Immutable timeout, retry, and persistence rules selected by flow step tags.
#[derive(Debug)]
pub struct FlowTagPolicy {
    default_timeout: Duration,
    default_retries: usize,
    timeouts: TextMap<Duration>,
    retries: TextMap<usize>,
    persisted: TextMap<bool>,
}

/// Mathematical model of a [`FlowTagPolicy`].
pub struct TagPolicyView {
    pub default_timeout: int,
    pub default_retries: usize,
    pub timeouts: Map<Seq<char>, Duration>,
    pub retries: Map<Seq<char>, usize>,
    pub persisted: Set<Seq<char>>,
}

impl View for FlowTagPolicy {
    type V = TagPolicyView;

    closed spec fn view(&self) -> TagPolicyView {
        TagPolicyView {
            default_timeout: self.default_timeout@,
            default_retries: self.default_retries,
            timeouts: self.timeouts@,
            retries: self.retries@,
            persisted: self.persisted@.dom(),
        }
    }
}

impl TagPolicyView {
    /// The timeout of a tag: its override, or the default.
    pub open spec fn timeout_for(self, tag: Seq<char>) -> int {
        if self.timeouts.contains_key(tag) {
            self.timeouts[tag]@
        } else {
            self.default_timeout
        }
    }

    /// The retry count of a tag: its override, or the default.
    pub open spec fn retries_for(self, tag: Seq<char>) -> usize {
        if self.retries.contains_key(tag) {
            self.retries[tag]
        } else {
            self.default_retries
        }
    }

    /// The policy with a timeout of its own for a tag.
    pub open spec fn with_timeout(self, tag: Seq<char>, timeout: Duration) -> Self {
        TagPolicyView { timeouts: self.timeouts.insert(tag, timeout), ..self }
    }

    /// The policy with a number of retries of its own for a tag.
    pub open spec fn with_retries(self, tag: Seq<char>, retries: usize) -> Self {
        TagPolicyView { retries: self.retries.insert(tag, retries), ..self }
    }

    /// The policy with a tag whose steps are persisted.
    pub open spec fn with_persist(self, tag: Seq<char>) -> Self {
        TagPolicyView { persisted: self.persisted.insert(tag), ..self }
    }
}

impl FlowTagPolicy {
    /// Creates a policy whose defaults apply when a tag has no override.
    pub fn new(default_timeout: Duration, default_retries: usize) -> (result: Self)
        ensures
            result@ == (TagPolicyView {
                default_timeout: default_timeout@,
                default_retries,
                timeouts: Map::empty(),
                retries: Map::empty(),
                persisted: Set::empty(),
            }),
    {
        let result = FlowTagPolicy {
            default_timeout,
            default_retries,
            timeouts: TextMap::new(),
            retries: TextMap::new(),
            persisted: TextMap::new(),
        };
        assert(result@.persisted =~= Set::empty());
        result
    }

    /// Returns a copy with a timeout override for `tag`.
    pub fn with_timeout(self, tag: &str, timeout: Duration) -> (result: Self)
        ensures
            result@ == self@.with_timeout(tag@, timeout),
    {
        FlowTagPolicy { timeouts: self.timeouts.insert(tag, timeout), ..self }
    }

    /// Returns a copy with a retry override for `tag`.
    pub fn with_retries(self, tag: &str, retries: usize) -> (result: Self)
        ensures
            result@ == self@.with_retries(tag@, retries),
    {
        FlowTagPolicy { retries: self.retries.insert(tag, retries), ..self }
    }

    /// Marks a tag as requiring durable persistence in execution models that support optional
    /// checkpoints.
    pub fn with_persist(self, tag: &str) -> (result: Self)
        ensures
            result@ == self@.with_persist(tag@),
    {
        let result = FlowTagPolicy { persisted: self.persisted.insert(tag, true), ..self };
        assert(result@.persisted =~= self@.persisted.insert(tag@));
        result
    }

    /// Returns the effective timeout for `tag`.
    pub fn timeout_for(&self, tag: &str) -> (result: Duration)
        ensures
            result@ == self@.timeout_for(tag@),
    {
        match self.timeouts.get(tag) {
            Some(timeout) => *timeout,
            None => self.default_timeout,
        }
    }

    /// Returns the effective retry count for `tag`.
    pub fn retries_for(&self, tag: &str) -> (result: usize)
        ensures
            result == self@.retries_for(tag@),
    {
        match self.retries.get(tag) {
            Some(retries) => *retries,
            None => self.default_retries,
        }
    }

    /// Returns whether a step carrying `tag` must persist its state.
    pub fn should_persist(&self, tag: &str) -> (result: bool)
        ensures
            result == self@.persisted.contains(tag@),
    {
        self.persisted.contains(tag)
    }
}

/// An override of one tag leaves the rules of every other tag unchanged.
pub proof fn lemma_override_is_local(
    policy: TagPolicyView,
    tag: Seq<char>,
    other: Seq<char>,
    timeout: Duration,
    retries: usize,
)
    requires
        tag != other,
    ensures
        ({
            let changed = policy.with_timeout(tag, timeout).with_retries(tag, retries).with_persist(
                tag,
            );
            &&& changed.persisted.contains(tag)
            &&& changed.persisted.contains(other) == policy.persisted.contains(other)
            &&& changed.default_timeout == policy.default_timeout
            &&& changed.default_retries == policy.default_retries
            &&& changed.timeout_for(tag) == timeout@
            &&& changed.retries_for(tag) == retries
            &&& changed.timeout_for(other) == policy.timeout_for(other)
            &&& changed.retries_for(other) == policy.retries_for(other)
        }),
{
}

/// A tag without values of its own has the defaults.
pub proof fn lemma_defaults_hold_for_other_tags(policy: TagPolicyView, tag: Seq<char>)
    ensures
        !policy.timeouts.contains_key(tag) ==> policy.timeout_for(tag) == policy.default_timeout,
        !policy.retries.contains_key(tag) ==> policy.retries_for(tag) == policy.default_retries,
{
}

} // verus!
