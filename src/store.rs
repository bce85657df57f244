//! The configuration store: the registry under the `timeular` key and the
//! endpoint configuration under the `timetagger` key. A missing record reads
//! as its default. Reading and writing the records' text is left to the
//! program that holds the store.
use vstd::prelude::*;
use crate::registry::{Side, RegistryView, TimeularConfig, default_sides};
use crate::timetagger::{TimetaggerConfig, TimetaggerConfigView};

verus! {

/// The two records of the configuration store, each possibly missing.
#[derive(Debug)]
pub struct ConfigStore {
    pub timeular: Option<TimeularConfig>,
    pub timetagger: Option<TimetaggerConfig>,
}

/// The registry that reading `timeular` from a store gives.
pub open spec fn stored_timeular(timeular: Option<RegistryView>) -> RegistryView {
    match timeular {
        Some(v) => v,
        None => RegistryView { sides: default_sides(), handler: Seq::empty() },
    }
}

/// The endpoint configuration that reading `timetagger` from a store gives.
pub open spec fn stored_timetagger(timetagger: Option<TimetaggerConfigView>) -> TimetaggerConfigView {
    match timetagger {
        Some(v) => v,
        None => TimetaggerConfigView { timetagger_url: Seq::empty(), api_key: Seq::empty() },
    }
}

impl ConfigStore {
    /// The registry record as a value, if present.
    pub open spec fn timeular_view(&self) -> Option<RegistryView> {
        match self.timeular {
            Some(c) => Some(c@),
            None => None,
        }
    }

    /// The endpoint record as a value, if present.
    pub open spec fn timetagger_view(&self) -> Option<TimetaggerConfigView> {
        match self.timetagger {
            Some(c) => Some(c@),
            None => None,
        }
    }

    /// A store with neither record.
    pub fn new() -> (r: ConfigStore)
        ensures
            r.timeular is None,
            r.timetagger is None,
    {
        ConfigStore { timeular: None, timetagger: None }
    }
}

impl TimeularConfig {
    /// A copy with the same sides, in the same order, and the same selector.
    pub fn duplicate(&self) -> (r: TimeularConfig)
        ensures
            r@ == self@,
    {
        let mut sides: Vec<Side> = Vec::new();
        let mut i: usize = 0;
        while i < self.sides.len()
            invariant
                i <= self.sides@.len(),
                sides@.len() == i,
                forall|j: int| 0 <= j < i ==> #[trigger] sides@[j]@ == self.sides@[j]@,
            decreases self.sides@.len() - i,
        {
            sides.push(self.sides[i].duplicate());
            i = i + 1;
        }
        let r = TimeularConfig { sides, handler: self.handler.clone() };
        assert(r@.sides =~= self@.sides);
        r
    }
}

/// Reads the registry record, or the default registry where it is missing.
pub fn get_timeular_config(store: &ConfigStore) -> (r: TimeularConfig)
    ensures
        r@ == stored_timeular(store.timeular_view()),
{
    match &store.timeular {
        Some(c) => c.duplicate(),
        None => TimeularConfig::default(),
    }
}

/// Writes the registry record.
pub fn update_timeular_config(store: &mut ConfigStore, config: &TimeularConfig)
    ensures
        final(store).timeular_view() == Some(config@),
        final(store).timetagger_view() == old(store).timetagger_view(),
{
    store.timeular = Some(config.duplicate());
}

/// Reads the endpoint record, or the unset configuration where it is missing.
pub fn create_config(store: &ConfigStore) -> (r: TimetaggerConfig)
    ensures
        r@ == stored_timetagger(store.timetagger_view()),
{
    match &store.timetagger {
        Some(c) => c.duplicate(),
        None => TimetaggerConfig::default(),
    }
}

/// Writes the endpoint record.
pub fn update_config(store: &mut ConfigStore, config: &TimetaggerConfig)
    ensures
        final(store).timetagger_view() == Some(config@),
        final(store).timeular_view() == old(store).timeular_view(),
{
    store.timetagger = Some(config.duplicate());
}

/// Reading a record gives back the value last written under its key: a
/// store that holds `registry` under `timeular` reads as `registry`, and one
/// that holds `endpoint` under `timetagger` reads as `endpoint`.
pub proof fn lemma_put_then_get(
    store: ConfigStore,
    registry: TimeularConfig,
    endpoint: TimetaggerConfig,
)
    ensures
        store.timeular_view() == Some(registry@) ==> stored_timeular(store.timeular_view())
            == registry@,
        store.timetagger_view() == Some(endpoint@) ==> stored_timetagger(store.timetagger_view())
            == endpoint@,
{
}

} // verus!
