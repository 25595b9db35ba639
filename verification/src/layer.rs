use vstd::prelude::*;
use vstd::string::*;

use crate::text::str_eq;

verus! {

/// The metadata record that keys a cache layer: here a single version
/// string. Two records that compare equal mark the directory contents they
/// describe as interchangeable; this equality is the sole cache-validity
/// contract, with no content hashing behind it.
pub struct Metadata {
    pub version: String,
}

impl View for Metadata {
    type V = Seq<char>;

    open spec fn view(&self) -> Seq<char> {
        self.version@
    }
}

/// What an invocation finds persisted beside a cache layer when it starts.
pub enum PersistedMetadata {
    /// No prior record: the layer was never populated.
    Absent,
    /// A prior record exists but does not read back as a metadata record
    /// (schema drift from an older release). Treated exactly like unequal
    /// metadata: always invalidate, never propagate a parse error.
    Invalid,
    /// A prior record was read back intact.
    Restored(Metadata),
}

/// Ghost image of `PersistedMetadata`.
pub enum PersistedMetadataModel {
    Absent,
    Invalid,
    Restored(Seq<char>),
}

impl View for PersistedMetadata {
    type V = PersistedMetadataModel;

    open spec fn view(&self) -> PersistedMetadataModel {
        match self {
            PersistedMetadata::Absent => PersistedMetadataModel::Absent,
            PersistedMetadata::Invalid => PersistedMetadataModel::Invalid,
            PersistedMetadata::Restored(m) => PersistedMetadataModel::Restored(m@),
        }
    }
}

/// The decision for one cache layer at the start of an invocation.
#[derive(Clone, Copy, Debug, PartialEq, Eq, Structural)]
pub enum LayerDecision {
    /// Prior contents are valid: reuse them as they stand; no population
    /// step runs.
    Keep,
    /// Prior contents are stale: discard them, then repopulate.
    Invalidate,
    /// Nothing is cached yet: populate from empty.
    Populate,
}

/// The transition rule of the cache-layer state machine: absent metadata
/// populates, an unreadable or unequal record invalidates, an equal record
/// keeps the layer.
pub open spec fn decision_of(persisted: PersistedMetadataModel, desired: Seq<char>) -> LayerDecision {
    match persisted {
        PersistedMetadataModel::Absent => LayerDecision::Populate,
        PersistedMetadataModel::Invalid => LayerDecision::Invalidate,
        PersistedMetadataModel::Restored(prev) => if prev == desired {
            LayerDecision::Keep
        } else {
            LayerDecision::Invalidate
        },
    }
}

/// Decide what happens to a layer, from what is persisted and what this
/// invocation wants.
pub fn decide(persisted: &PersistedMetadata, desired: &Metadata) -> (d: LayerDecision)
    ensures
        d == decision_of(persisted@, desired@),
{
    match persisted {
        PersistedMetadata::Absent => LayerDecision::Populate,
        PersistedMetadata::Invalid => LayerDecision::Invalidate,
        PersistedMetadata::Restored(prev) => {
            if str_eq(prev.version.as_str(), desired.version.as_str()) {
                LayerDecision::Keep
            } else {
                LayerDecision::Invalidate
            }
        },
    }
}

/// An in-memory model of one named cache layer: the persisted metadata slot
/// and the cached directory's contents, abstracted as the relative paths
/// written into it. The caller performs the real disk work and mirrors it
/// here; the model is what the state machine's guarantees are stated over.
pub struct CacheLayer {
    pub persisted: PersistedMetadata,
    pub contents: Vec<String>,
}

/// Ghost image of a `CacheLayer`.
pub struct CacheLayerModel {
    pub persisted: PersistedMetadataModel,
    pub contents: Seq<Seq<char>>,
}

impl View for CacheLayer {
    type V = CacheLayerModel;

    open spec fn view(&self) -> CacheLayerModel {
        CacheLayerModel {
            persisted: self.persisted@,
            contents: self.contents@.map_values(|s: String| s@),
        }
    }
}

impl CacheLayer {
    /// Start one invocation against this layer: decide from the persisted
    /// and the desired metadata. On anything but `Keep` the prior contents
    /// are discarded here, before the caller repopulates; on `Keep` they are
    /// untouched and no population step is owed. The metadata slot itself
    /// only changes at `commit`.
    pub fn begin(&mut self, desired: &Metadata) -> (d: LayerDecision)
        ensures
            d == decision_of(old(self)@.persisted, desired@),
            final(self)@.persisted == old(self)@.persisted,
            d == LayerDecision::Keep ==> final(self)@.contents == old(self)@.contents,
            d != LayerDecision::Keep ==> final(self)@.contents == Seq::<Seq<char>>::empty(),
    {
        let d = decide(&self.persisted, desired);
        match d {
            LayerDecision::Keep => {},
            _ => {
                self.contents = Vec::new();
                proof {
                    assert(self@.contents =~= Seq::<Seq<char>>::empty());
                }
            },
        }
        d
    }

    /// Record one relative path the caller has written into the layer while
    /// populating it.
    pub fn add_content(&mut self, path: String)
        ensures
            final(self)@.persisted == old(self)@.persisted,
            final(self)@.contents == old(self)@.contents.push(path@),
    {
        let ghost prev = self.contents@;
        self.contents.push(path);
        proof {
            assert(self@.contents =~= prev.map_values(|s: String| s@).push(path@));
        }
    }

    /// Finish the invocation: persist the desired metadata. This runs on
    /// every path, also after `Keep`, where it is an idempotent refresh of
    /// the record.
    pub fn commit(&mut self, desired: &Metadata)
        ensures
            final(self)@.persisted == PersistedMetadataModel::Restored(desired@),
            final(self)@.contents == old(self)@.contents,
    {
        self.persisted = PersistedMetadata::Restored(
            Metadata { version: String::from_str(desired.version.as_str()) },
        );
    }
}

/// The net effect of one whole invocation — `begin`, population on anything
/// but `Keep`, then `commit` — on a layer's state: the decision taken, and
/// the state left behind, where `fresh` stands for whatever the caller wrote
/// while populating.
pub open spec fn invocation_step(
    layer: CacheLayerModel,
    desired: Seq<char>,
    fresh: Seq<Seq<char>>,
) -> (LayerDecision, CacheLayerModel) {
    let d = decision_of(layer.persisted, desired);
    let contents = if d == LayerDecision::Keep {
        layer.contents
    } else {
        fresh
    };
    (d, CacheLayerModel { persisted: PersistedMetadataModel::Restored(desired), contents })
}

/// Idempotence of the cache layer manager: two invocations in a row with the
/// same desired metadata populate at most once. Whatever the first decided,
/// the second reaches `Keep`, performs no population, and leaves the layer
/// exactly as the first left it.
pub proof fn lemma_invocation_idempotent(
    layer: CacheLayerModel,
    desired: Seq<char>,
    fresh1: Seq<Seq<char>>,
    fresh2: Seq<Seq<char>>,
)
    ensures
        ({
            let (d1, s1) = invocation_step(layer, desired, fresh1);
            let (d2, s2) = invocation_step(s1, desired, fresh2);
            d2 == LayerDecision::Keep && s2 == s1
        }),
{
}

/// Invalidation: a persisted record unequal to the desired one has the prior
/// contents discarded and replaced by what repopulation writes, and after
/// the run the persisted metadata equals the desired record.
pub proof fn lemma_invocation_invalidates(
    layer: CacheLayerModel,
    desired: Seq<char>,
    fresh: Seq<Seq<char>>,
    prev: Seq<char>,
)
    requires
        layer.persisted == PersistedMetadataModel::Restored(prev),
        prev != desired,
    ensures
        ({
            let (d, s) = invocation_step(layer, desired, fresh);
            d == LayerDecision::Invalidate && s.contents == fresh && s.persisted
                == PersistedMetadataModel::Restored(desired)
        }),
{
}

} // verus!
