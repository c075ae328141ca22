//! The cache of loaded models.
//!
//! A model is never freed once it is loaded, so each distinct GGUF path is
//! loaded at most once per process: two embedders for the same path share one
//! model. The cache is keyed by the bytes of the normalized path and generic
//! over the handle by which a loaded model is held.
use std::path::PathBuf;

use vstd::prelude::*;

use crate::error::GgufEmbedError;

verus! {

/// Handles of loaded models, by path.
#[derive(Debug)]
pub struct ModelCache<M> {
    entries: Vec<(Vec<u8>, M)>,
}

impl<M> View for ModelCache<M> {
    type V = Map<Seq<u8>, M>;

    closed spec fn view(&self) -> Map<Seq<u8>, M> {
        entries_map(self.entries@)
    }
}

/// The map that `entries` stand for; of two with the same key the later counts.
spec fn entries_map<M>(entries: Seq<(Vec<u8>, M)>) -> Map<Seq<u8>, M>
    decreases entries.len(),
{
    if entries.len() == 0 {
        Map::empty()
    } else {
        entries_map(entries.drop_last()).insert(entries.last().0@, entries.last().1)
    }
}

/// What has just happened on the way to a model.
#[derive(Debug)]
pub enum ModelEvent<M> {
    /// The lock on the cache is poisoned.
    LockPoisoned,
    /// The cache is locked, and the model is asked for.
    Requested,
    /// The backend is there.
    BackendReady,
    /// There is no backend.
    BackendFailed(GgufEmbedError),
    /// The model was loaded.
    Loaded(M),
    /// The model could not be loaded.
    LoadFailed { path: PathBuf, reason: String },
}

/// What to do next on the way to a model.
#[derive(Debug)]
pub enum ModelAction<M> {
    /// Get the backend.
    AcquireBackend,
    /// Load the model, with this many layers on the GPU if a number is given.
    Load { n_gpu_layers: Option<u32> },
    /// Use this model.
    Use(M),
    /// Give up.
    Fail(GgufEmbedError),
}

/// The action that follows `event`, for the model at `key`.
pub open spec fn model_action<M>(
    cache: Map<Seq<u8>, M>,
    key: Seq<u8>,
    gpu_layers: Option<u32>,
    event: ModelEvent<M>,
) -> ModelAction<M> {
    match event {
        ModelEvent::LockPoisoned => ModelAction::Fail(GgufEmbedError::LockPoisoned),
        ModelEvent::Requested => if cache.dom().contains(key) {
            ModelAction::Use(cache[key])
        } else {
            ModelAction::AcquireBackend
        },
        ModelEvent::BackendReady => ModelAction::Load { n_gpu_layers: gpu_layers },
        ModelEvent::BackendFailed(e) => ModelAction::Fail(e),
        ModelEvent::Loaded(model) => ModelAction::Use(model),
        ModelEvent::LoadFailed { path, reason } => ModelAction::Fail(
            GgufEmbedError::ModelLoad { path, reason },
        ),
    }
}

/// The cache after `event`: a model that was loaded is kept, and nothing else changes it.
pub open spec fn cache_after<M>(
    cache: Map<Seq<u8>, M>,
    key: Seq<u8>,
    event: ModelEvent<M>,
) -> Map<Seq<u8>, M> {
    match event {
        ModelEvent::Loaded(model) => cache.insert(key, model),
        _ => cache,
    }
}

fn same_bytes(a: &Vec<u8>, b: &Vec<u8>) -> (r: bool)
    ensures
        r == (a@ == b@),
{
    if a.len() != b.len() {
        return false;
    }
    let mut i: usize = 0;
    while i < a.len()
        invariant
            a@.len() == b@.len(),
            i <= a@.len(),
            forall|j: int| 0 <= j < i ==> a@[j] == b@[j],
        decreases a@.len() - i,
    {
        if a[i] != b[i] {
            return false;
        }
        i = i + 1;
    }
    assert(a@ =~= b@);
    true
}

impl<M: Copy> ModelCache<M> {
    /// An empty cache.
    pub fn new() -> (r: Self)
        ensures
            r@ == Map::<Seq<u8>, M>::empty(),
    {
        ModelCache { entries: Vec::new() }
    }

    /// The model that is kept for `key`, if there is one.
    pub fn get(&self, key: &Vec<u8>) -> (r: Option<M>)
        ensures
            match r {
                Some(model) => self@.dom().contains(key@) && self@[key@] == model,
                None => !self@.dom().contains(key@),
            },
    {
        let mut i: usize = self.entries.len();
        assert(self.entries@.take(i as int) =~= self.entries@);
        while i > 0
            invariant
                i <= self.entries@.len(),
                self@.dom().contains(key@) == entries_map(
                    self.entries@.take(i as int),
                ).dom().contains(key@),
                self@.dom().contains(key@) ==> self@[key@] == entries_map(
                    self.entries@.take(i as int),
                )[key@],
            decreases i,
        {
            let ghost upto = self.entries@.take(i as int);
            i = i - 1;
            assert(upto.drop_last() =~= self.entries@.take(i as int));
            assert(upto.last() == self.entries@[i as int]);
            if same_bytes(&self.entries[i].0, key) {
                return Some(self.entries[i].1);
            }
        }
        None
    }

    /// Decides the next step on the way to the model at `key`: one that is
    /// kept is used whatever `gpu_layers` says; any other is loaded with that
    /// many layers on the GPU, and kept.
    pub fn get_or_load_model(
        &mut self,
        key: &Vec<u8>,
        gpu_layers: Option<u32>,
        event: ModelEvent<M>,
    ) -> (r: ModelAction<M>)
        ensures
            r == model_action(old(self)@, key@, gpu_layers, event),
            final(self)@ == cache_after(old(self)@, key@, event),
    {
        match event {
            ModelEvent::LockPoisoned => ModelAction::Fail(GgufEmbedError::LockPoisoned),
            ModelEvent::Requested => match self.get(key) {
                Some(model) => ModelAction::Use(model),
                None => ModelAction::AcquireBackend,
            },
            ModelEvent::BackendReady => ModelAction::Load { n_gpu_layers: gpu_layers },
            ModelEvent::BackendFailed(e) => ModelAction::Fail(e),
            ModelEvent::Loaded(model) => {
                let copied: Vec<u8> = key.clone();
                assert(copied@ =~= key@);
                let ghost before = self.entries@;
                self.entries.push((copied, model));
                assert(self.entries@.drop_last() =~= before);
                ModelAction::Use(model)
            },
            ModelEvent::LoadFailed { path, reason } => ModelAction::Fail(
                GgufEmbedError::ModelLoad { path, reason },
            ),
        }
    }
}

/// A request for the model at a path.
pub struct Request<M> {
    /// The path.
    pub key: Seq<u8>,
    /// The GPU layer count that it is asked for with.
    pub gpu_layers: Option<u32>,
    /// What a load would give: a model, or nothing where there is no backend
    /// or the load fails.
    pub loads: Option<M>,
}

/// Whether `request` gets as far as loading a model, and that works: the
/// backend is asked for, with the backend a load is asked for, and what was
/// loaded is used.
pub open spec fn loads_model<M>(cache: Map<Seq<u8>, M>, request: Request<M>) -> bool {
    let action = |event: ModelEvent<M>|
        model_action(cache, request.key, request.gpu_layers, event);
    &&& action(ModelEvent::Requested) is AcquireBackend
    &&& action(ModelEvent::BackendReady) == ModelAction::<M>::Load {
        n_gpu_layers: request.gpu_layers,
    }
    &&& request.loads matches Some(model) && action(ModelEvent::Loaded(model))
        == ModelAction::Use(model)
}

/// The cache after `request`.
pub open spec fn after_request<M>(cache: Map<Seq<u8>, M>, request: Request<M>) -> Map<
    Seq<u8>,
    M,
> {
    if loads_model(cache, request) {
        cache_after(cache, request.key, ModelEvent::Loaded(request.loads->0))
    } else {
        cache
    }
}

/// The cache after all of `requests`, one after the other.
pub open spec fn after_requests<M>(cache: Map<Seq<u8>, M>, requests: Seq<Request<M>>) -> Map<
    Seq<u8>,
    M,
>
    decreases requests.len(),
{
    if requests.len() == 0 {
        cache
    } else {
        after_request(after_requests(cache, requests.drop_last()), requests.last())
    }
}

/// How often `requests` load the model at `key`.
pub open spec fn loads_of<M>(
    cache: Map<Seq<u8>, M>,
    requests: Seq<Request<M>>,
    key: Seq<u8>,
) -> nat
    decreases requests.len(),
{
    if requests.len() == 0 {
        0
    } else {
        let earlier = loads_of(cache, requests.drop_last(), key);
        if requests.last().key == key && loads_model(
            after_requests(cache, requests.drop_last()),
            requests.last(),
        ) {
            earlier + 1
        } else {
            earlier
        }
    }
}

/// However often models are asked for, each distinct path is loaded at most
/// once, and not at all where its model is kept already.
pub proof fn law_model_loaded_at_most_once<M>(
    cache: Map<Seq<u8>, M>,
    requests: Seq<Request<M>>,
    key: Seq<u8>,
)
    ensures
        loads_of(cache, requests, key) <= 1,
        cache.dom().contains(key) ==> loads_of(cache, requests, key) == 0,
        loads_of(cache, requests, key) == 1 ==> after_requests(cache, requests).dom().contains(
            key,
        ),
        cache.dom().contains(key) ==> after_requests(cache, requests).dom().contains(key),
    decreases requests.len(),
{
    if requests.len() > 0 {
        law_model_loaded_at_most_once(cache, requests.drop_last(), key);
    }
}

/// A request for a path whose model is not kept loads it, if a load works,
/// and from then on it is kept.
pub proof fn law_missing_model_is_loaded_and_kept<M>(
    cache: Map<Seq<u8>, M>,
    request: Request<M>,
)
    requires
        !cache.dom().contains(request.key),
        request.loads is Some,
    ensures
        loads_model(cache, request),
        after_request(cache, request) == cache.insert(request.key, request.loads->0),
{
}

/// A model that is kept stays the one that is used: no later request, for
/// this path or another, replaces or drops it.
pub proof fn law_requests_share_one_model<M>(
    cache: Map<Seq<u8>, M>,
    requests: Seq<Request<M>>,
    key: Seq<u8>,
    gpu_layers: Option<u32>,
)
    requires
        cache.dom().contains(key),
    ensures
        model_action(
            after_requests(cache, requests),
            key,
            gpu_layers,
            ModelEvent::Requested,
        ) == ModelAction::Use(cache[key]),
    decreases requests.len(),
{
    if requests.len() > 0 {
        law_requests_share_one_model(cache, requests.drop_last(), key, gpu_layers);
    }
}

/// A model that is kept is used, and nothing is done to get it; for any other
/// the backend is asked for, then the model with the layers that were asked
/// for, and what was loaded is used. Whatever goes wrong comes out as it is.
pub proof fn law_model_is_fetched_step_by_step<M>(
    cache: Map<Seq<u8>, M>,
    key: Seq<u8>,
    gpu_layers: Option<u32>,
    event: ModelEvent<M>,
)
    ensures
        ({
            let action = model_action(cache, key, gpu_layers, event);
            match event {
                ModelEvent::LockPoisoned => action == ModelAction::<M>::Fail(
                    GgufEmbedError::LockPoisoned,
                ),
                ModelEvent::Requested => {
                    &&& cache.dom().contains(key) ==> action == ModelAction::Use(cache[key])
                    &&& !cache.dom().contains(key) ==> action is AcquireBackend
                },
                ModelEvent::BackendReady => action is Load && action->n_gpu_layers == gpu_layers,
                ModelEvent::BackendFailed(e) => action == ModelAction::<M>::Fail(e),
                ModelEvent::Loaded(model) => action == ModelAction::Use(model),
                ModelEvent::LoadFailed { path, reason } => action == ModelAction::<M>::Fail(
                    GgufEmbedError::ModelLoad { path, reason },
                ),
            }
        }),
{
}

/// The cache changes only when a model was loaded, and then only for the path
/// that it was loaded for: that path has the model from then on, and every
/// other path has what it had.
pub proof fn law_loading_changes_one_path<M>(
    cache: Map<Seq<u8>, M>,
    key: Seq<u8>,
    event: ModelEvent<M>,
    other: Seq<u8>,
)
    ensures
        ({
            let after = cache_after(cache, key, event);
            &&& event matches ModelEvent::Loaded(model) ==> after.dom().contains(key)
                && after[key] == model
            &&& other != key || !(event is Loaded) ==> {
                &&& after.dom().contains(other) <==> cache.dom().contains(other)
                &&& cache.dom().contains(other) ==> after[other] == cache[other]
            }
        }),
{
}

/// Two requests for one path get one model, the first that was loaded, with
/// whatever layers the second asks for; a request for another path does not.
pub proof fn law_second_request_gets_the_first_model<M>(
    cache: Map<Seq<u8>, M>,
    key: Seq<u8>,
    model: M,
    other: Seq<u8>,
    gpu_layers: Option<u32>,
)
    requires
        !cache.dom().contains(other),
    ensures
        model_action(
            cache_after(cache, key, ModelEvent::Loaded(model)),
            key,
            gpu_layers,
            ModelEvent::Requested,
        ) == ModelAction::Use(model),
        other != key ==> model_action(
            cache_after(cache, key, ModelEvent::Loaded(model)),
            other,
            gpu_layers,
            ModelEvent::Requested,
        ) is AcquireBackend,
{
}

} // verus!
