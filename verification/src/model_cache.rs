//! The model cache and its loader: one slot for each registered style,
//! filled at most once.

use vstd::prelude::*;
use crate::error::StylizerError;
use crate::model_registry::{ModelInfo, ModelRegistry, has_name, names_distinct, position};

verus! {

/// The least number of bytes a model payload has.
pub const MIN_MODEL_BYTES: usize = 100;

/// Whether `bytes` passes for a model container: it is at least
/// [`MIN_MODEL_BYTES`] long and starts with the letters `ONNX`.
pub open spec fn valid_payload(bytes: Seq<u8>) -> bool {
    &&& bytes.len() >= MIN_MODEL_BYTES
    &&& bytes[0] == 0x4f
    &&& bytes[1] == 0x4e
    &&& bytes[2] == 0x4e
    &&& bytes[3] == 0x58
}

/// Checks a fetched payload: its length first, then its first four bytes.
pub fn validate_onnx_model(model_data: &[u8]) -> (ok: bool)
    ensures
        ok == valid_payload(model_data@),
{
    if model_data.len() < MIN_MODEL_BYTES {
        return false;
    }
    model_data[0] == 0x4f && model_data[1] == 0x4e && model_data[2] == 0x4e && model_data[3] == 0x58
}

/// Where inference runs.
#[derive(Clone, Copy, Debug, PartialEq, Eq, Structural)]
pub enum Backend {
    /// On the accelerator.
    Accelerated,
    /// On the processor.
    Fallback,
}

/// What a finished load reports besides success.
#[derive(Clone, Copy, Debug, PartialEq, Eq, Structural)]
pub struct LoadReport {
    /// The backend the model is bound to from now on.
    pub backend: Backend,
    /// `BackendUnavailable` where acceleration was preferred and could not
    /// be had, so that the fallback was taken.
    pub notice: Option<StylizerError>,
}

/// The backend for a model that is being loaded, and the notice that goes
/// with it.
pub open spec fn select_backend_spec(prefer_accelerated: bool, accelerator_available: bool) -> LoadReport {
    if prefer_accelerated && accelerator_available {
        LoadReport { backend: Backend::Accelerated, notice: None }
    } else if prefer_accelerated {
        LoadReport { backend: Backend::Fallback, notice: Some(StylizerError::BackendUnavailable) }
    } else {
        LoadReport { backend: Backend::Fallback, notice: None }
    }
}

/// Chooses the backend for a model that is being loaded. A preference
/// that cannot be met is no failure: the fallback is chosen and the
/// report says so.
pub fn select_backend(prefer_accelerated: bool, accelerator_available: bool) -> (r: LoadReport)
    ensures
        r == select_backend_spec(prefer_accelerated, accelerator_available),
{
    if prefer_accelerated && accelerator_available {
        LoadReport { backend: Backend::Accelerated, notice: None }
    } else if prefer_accelerated {
        LoadReport { backend: Backend::Fallback, notice: Some(StylizerError::BackendUnavailable) }
    } else {
        LoadReport { backend: Backend::Fallback, notice: None }
    }
}

/// How far the loading of one style has come.
#[derive(Clone, Copy, Debug, PartialEq, Eq, Structural)]
pub enum LoadState {
    /// Nothing is held and nothing is awaited.
    Unloaded,
    /// The payload has been asked for.
    Loading,
    /// The handle is held.
    Loaded,
}

/// A loaded model: the payload, the style it belongs to and the backend
/// chosen for it when it was loaded.
#[derive(Debug)]
pub struct ModelHandle {
    name: String,
    payload: Vec<u8>,
    backend: Backend,
}

impl ModelHandle {
    /// The name of the style.
    pub closed spec fn name_spec(self) -> Seq<char> {
        self.name@
    }

    /// The payload.
    pub closed spec fn payload_spec(self) -> Seq<u8> {
        self.payload@
    }

    /// The backend.
    pub closed spec fn backend_spec(self) -> Backend {
        self.backend
    }

    /// The name of the style.
    pub fn name(&self) -> (r: &str)
        ensures
            r@ == self.name_spec(),
    {
        self.name.as_str()
    }

    /// The payload.
    pub fn payload(&self) -> (r: &Vec<u8>)
        ensures
            r@ == self.payload_spec(),
    {
        &self.payload
    }

    /// The backend.
    pub fn backend(&self) -> (r: Backend)
        ensures
            r == self.backend_spec(),
    {
        self.backend
    }
}

/// What the cache holds for one style.
#[derive(Debug)]
enum Slot {
    /// Nothing.
    Unloaded,
    /// Nothing yet; the payload has been asked for.
    Loading,
    /// The handle.
    Loaded(ModelHandle),
}

/// What the cache holds for one style, as a value to reason about.
pub enum Entry {
    /// Nothing.
    Unloaded,
    /// Nothing yet; the payload has been asked for.
    Loading,
    /// A handle with this payload, bound to this backend.
    Loaded { payload: Seq<u8>, backend: Backend },
}

impl Slot {
    /// The slot as a value to reason about.
    spec fn entry(self) -> Entry {
        match self {
            Slot::Unloaded => Entry::Unloaded,
            Slot::Loading => Entry::Loading,
            Slot::Loaded(handle) => Entry::Loaded {
                payload: handle.payload_spec(),
                backend: handle.backend_spec(),
            },
        }
    }
}

impl Entry {
    /// The state this entry stands for.
    pub open spec fn state(self) -> LoadState {
        match self {
            Entry::Unloaded => LoadState::Unloaded,
            Entry::Loading => LoadState::Loading,
            Entry::Loaded { .. } => LoadState::Loaded,
        }
    }
}

/// Whether a load of `name` has to fetch: the style is registered and its
/// handle is not held.
pub open spec fn asks_fetch(styles: Seq<ModelInfo>, entries: Seq<Entry>, name: Seq<char>) -> bool {
    has_name(styles, name) && !(entries[position(styles, name)] is Loaded)
}

/// The entries after a load of `name` has begun.
pub open spec fn entries_after_begin(styles: Seq<ModelInfo>, entries: Seq<Entry>, name: Seq<char>) -> Seq<
    Entry,
> {
    if asks_fetch(styles, entries, name) {
        entries.update(position(styles, name), Entry::Loading)
    } else {
        entries
    }
}

/// The entries after the fetch for `name` has ended, with the payload in
/// `fetched` or, where it failed, with `None`.
pub open spec fn entries_after_finish(
    styles: Seq<ModelInfo>,
    entries: Seq<Entry>,
    name: Seq<char>,
    fetched: Option<Seq<u8>>,
    backend: Backend,
) -> Seq<Entry> {
    if !asks_fetch(styles, entries, name) {
        entries
    } else if fetched is Some && valid_payload(fetched->Some_0) {
        entries.update(position(styles, name), Entry::Loaded { payload: fetched->Some_0, backend })
    } else {
        entries.update(position(styles, name), Entry::Unloaded)
    }
}

/// What a fetch gave, as a value to reason about.
pub open spec fn fetched_view(fetched: Option<Vec<u8>>) -> Option<Seq<u8>> {
    match fetched {
        Some(bytes) => Some(bytes@),
        None => None,
    }
}

/// What the end of a fetch for `name` reports.
pub open spec fn finish_result(
    styles: Seq<ModelInfo>,
    entries: Seq<Entry>,
    name: Seq<char>,
    fetched: Option<Seq<u8>>,
    prefer_accelerated: bool,
    accelerator_available: bool,
) -> Result<LoadReport, StylizerError> {
    if !has_name(styles, name) {
        Err(StylizerError::StyleNotFound)
    } else if entries[position(styles, name)] is Loaded {
        Ok(LoadReport { backend: entries[position(styles, name)]->backend, notice: None })
    } else if fetched is None {
        Err(StylizerError::DownloadFailed)
    } else if !valid_payload(fetched->Some_0) {
        Err(StylizerError::InvalidModelFormat)
    } else {
        Ok(select_backend_spec(prefer_accelerated, accelerator_available))
    }
}

/// After a load has succeeded, a second load of the same name asks for no
/// fetch and changes nothing: the payload of a style is fetched at most
/// once.
pub proof fn lemma_loaded_once(
    styles: Seq<ModelInfo>,
    entries: Seq<Entry>,
    name: Seq<char>,
    payload: Seq<u8>,
    backend: Backend,
)
    requires
        names_distinct(styles),
        entries.len() == styles.len(),
        has_name(styles, name),
        valid_payload(payload),
    ensures
        ({
            let begun = entries_after_begin(styles, entries, name);
            let loaded = entries_after_finish(styles, begun, name, Some(payload), backend);
            &&& loaded[position(styles, name)] is Loaded
            &&& !asks_fetch(styles, loaded, name)
            &&& entries_after_begin(styles, loaded, name) == loaded
            &&& forall|later: Option<Seq<u8>>, other: Backend|
                entries_after_finish(styles, loaded, name, later, other) == loaded
        }),
{
    let p = position(styles, name);
    assert(0 <= p < styles.len());
}

/// A load that fails leaves the style unloaded, and a load of one style
/// leaves every other style as it was.
pub proof fn lemma_failed_load_unloads(
    styles: Seq<ModelInfo>,
    entries: Seq<Entry>,
    name: Seq<char>,
    fetched: Option<Seq<u8>>,
    backend: Backend,
)
    requires
        names_distinct(styles),
        entries.len() == styles.len(),
        asks_fetch(styles, entries, name),
        fetched is None || !valid_payload(fetched->Some_0),
    ensures
        entries_after_finish(styles, entries, name, fetched, backend)[position(styles, name)]
            is Unloaded,
        forall|i: int|
            0 <= i < styles.len() && i != position(styles, name) ==> entries_after_finish(
                styles,
                entries,
                name,
                fetched,
                backend,
            )[i] == entries[i],
{
    let p = position(styles, name);
    assert(0 <= p < styles.len());
}

/// What a load of a style has to do next.
#[derive(Debug)]
pub enum LoadStep {
    /// Nothing: the handle is held.
    Ready,
    /// Fetch the payload from this locator, then hand it to `finish_load`.
    Fetch(String),
}

/// The registry and, for each of its styles, what has been loaded.
pub struct ModelCache {
    registry: ModelRegistry,
    slots: Vec<Slot>,
    prefer_accelerated: bool,
}

impl ModelCache {
    /// The descriptors of the registry, in registration order.
    pub closed spec fn styles(self) -> Seq<ModelInfo> {
        self.registry.styles()
    }

    /// What is held for each style, in registration order.
    pub closed spec fn entries(self) -> Seq<Entry> {
        Seq::new(self.slots@.len(), |i: int| self.slots@[i].entry())
    }

    /// Whether acceleration is preferred for the models loaded here.
    pub closed spec fn prefers_accelerated(self) -> bool {
        self.prefer_accelerated
    }

    /// The invariant: one slot for each style, names distinct, each handle
    /// under its own name.
    pub closed spec fn wf(self) -> bool {
        &&& self.slots@.len() == self.registry.styles().len()
        &&& names_distinct(self.registry.styles())
        &&& forall|i: int|
            0 <= i < self.slots@.len() ==> (#[trigger] self.slots@[i] matches Slot::Loaded(handle)
                ==> handle.name_spec() == self.registry.styles()[i].name@)
    }

    /// The state of the style of that name; `Unloaded` where there is none.
    pub open spec fn state_spec(self, name: Seq<char>) -> LoadState {
        if has_name(self.styles(), name) {
            self.entries()[position(self.styles(), name)].state()
        } else {
            LoadState::Unloaded
        }
    }

    /// What holds of a well-formed cache.
    pub proof fn lemma_wf(self)
        requires
            self.wf(),
        ensures
            self.entries().len() == self.styles().len(),
            names_distinct(self.styles()),
    {
    }

    /// A cache over `registry` with nothing loaded.
    pub fn new(registry: ModelRegistry, prefer_accelerated: bool) -> (cache: ModelCache)
        ensures
            cache.wf(),
            cache.styles() == registry.styles(),
            cache.prefers_accelerated() == prefer_accelerated,
            cache.entries().len() == registry.styles().len(),
            forall|i: int| 0 <= i < cache.entries().len() ==> cache.entries()[i] is Unloaded,
    {
        let n: usize = registry.get_model_count();
        let listed = registry.get_styles();
        assert(names_distinct(registry.styles()));
        let mut slots: Vec<Slot> = Vec::with_capacity(n);
        let mut i: usize = 0;
        while i < n
            invariant
                0 <= i <= n,
                slots@.len() == i,
                forall|k: int| 0 <= k < i ==> slots@[k] is Unloaded,
            decreases n - i,
        {
            slots.push(Slot::Unloaded);
            i += 1;
        }
        ModelCache { registry, slots, prefer_accelerated }
    }

    /// The registry.
    pub fn registry(&self) -> (r: &ModelRegistry)
        ensures
            r.styles() == self.styles(),
    {
        &self.registry
    }

    /// The state of the style of that name; `Unloaded` where there is none.
    pub fn state_of(&self, name: &str) -> (s: LoadState)
        requires
            self.wf(),
        ensures
            s == self.state_spec(name@),
    {
        match self.registry.find(name) {
            Some(i) => match &self.slots[i] {
                Slot::Unloaded => LoadState::Unloaded,
                Slot::Loading => LoadState::Loading,
                Slot::Loaded(_) => LoadState::Loaded,
            },
            None => LoadState::Unloaded,
        }
    }

    /// Whether the handle of the style of that name is held.
    pub fn is_loaded(&self, name: &str) -> (b: bool)
        requires
            self.wf(),
        ensures
            b == (self.state_spec(name@) == LoadState::Loaded),
    {
        match self.state_of(name) {
            LoadState::Loaded => true,
            _ => false,
        }
    }

    /// The handle of the style of that name, lent for as long as the cache
    /// is not changed; `None` where it is not loaded.
    pub fn get(&self, name: &str) -> (r: Option<&ModelHandle>)
        requires
            self.wf(),
        ensures
            r is Some <==> self.state_spec(name@) == LoadState::Loaded,
            r matches Some(handle) ==> {
                &&& handle.name_spec() == name@
                &&& self.entries()[position(self.styles(), name@)] == (Entry::Loaded {
                    payload: handle.payload_spec(),
                    backend: handle.backend_spec(),
                })
            },
    {
        match self.registry.find(name) {
            Some(i) => match &self.slots[i] {
                Slot::Loaded(handle) => Some(handle),
                _ => None,
            },
            None => None,
        }
    }

    /// Begins a load of the style of that name.
    ///
    /// An unknown name is refused with `StyleNotFound` and a loaded style
    /// is `Ready`, both without a fetch and without a change. Any other
    /// style is marked as loading, and the step names the locator to fetch
    /// from.
    pub fn begin_load(&mut self, name: &str) -> (r: Result<LoadStep, StylizerError>)
        requires
            old(self).wf(),
        ensures
            final(self).wf(),
            final(self).styles() == old(self).styles(),
            final(self).prefers_accelerated() == old(self).prefers_accelerated(),
            final(self).entries() == entries_after_begin(old(self).styles(), old(self).entries(), name@),
            !has_name(old(self).styles(), name@) ==> r == Err::<LoadStep, StylizerError>(
                StylizerError::StyleNotFound,
            ),
            has_name(old(self).styles(), name@) && !asks_fetch(
                old(self).styles(),
                old(self).entries(),
                name@,
            ) ==> r matches Ok(LoadStep::Ready),
            asks_fetch(old(self).styles(), old(self).entries(), name@) ==> (r matches Ok(
                LoadStep::Fetch(url),
            ) && url@ == old(self).styles()[position(old(self).styles(), name@)].meta.model_url@),
    {
        match self.registry.find(name) {
            None => {
                assert(self.entries() =~= entries_after_begin(self.styles(), self.entries(), name@));
                Err(StylizerError::StyleNotFound)
            },
            Some(i) => {
                let loaded: bool = match &self.slots[i] {
                    Slot::Loaded(_) => true,
                    _ => false,
                };
                if loaded {
                    Ok(LoadStep::Ready)
                } else {
                    let url: String = self.registry.style_at(i).meta.model_url.clone();
                    self.slots.set(i, Slot::Loading);
                    assert(self.entries() =~= entries_after_begin(
                        old(self).styles(),
                        old(self).entries(),
                        name@,
                    ));
                    Ok(LoadStep::Fetch(url))
                }
            },
        }
    }

    /// Ends the load of the style of that name with what the fetch gave:
    /// the payload, or `None` where the fetch failed.
    ///
    /// A payload that passes [`validate_onnx_model`] is stored, bound to
    /// the backend that [`select_backend`] chooses, and the style is
    /// loaded. A failed fetch gives `DownloadFailed` and a payload that
    /// does not pass gives `InvalidModelFormat`; either way nothing is
    /// stored and the style is unloaded again. A handle that is already
    /// held is never replaced: the call then succeeds and changes nothing.
    pub fn finish_load(&mut self, name: &str, fetched: Option<Vec<u8>>, accelerator_available: bool) -> (r:
        Result<LoadReport, StylizerError>)
        requires
            old(self).wf(),
        ensures
            final(self).wf(),
            final(self).styles() == old(self).styles(),
            final(self).prefers_accelerated() == old(self).prefers_accelerated(),
            final(self).entries() == entries_after_finish(
                old(self).styles(),
                old(self).entries(),
                name@,
                fetched_view(fetched),
                select_backend_spec(old(self).prefers_accelerated(), accelerator_available).backend,
            ),
            r == finish_result(
                old(self).styles(),
                old(self).entries(),
                name@,
                fetched_view(fetched),
                old(self).prefers_accelerated(),
                accelerator_available,
            ),
    {
        let ghost view: Option<Seq<u8>> = fetched_view(fetched);
        let ghost chosen = select_backend_spec(self.prefer_accelerated, accelerator_available).backend;
        match self.registry.find(name) {
            None => {
                assert(self.entries() =~= entries_after_finish(
                    self.styles(),
                    self.entries(),
                    name@,
                    view,
                    chosen,
                ));
                Err(StylizerError::StyleNotFound)
            },
            Some(i) => {
                let held: Option<Backend> = match &self.slots[i] {
                    Slot::Loaded(handle) => Some(handle.backend()),
                    _ => None,
                };
                match held {
                    Some(backend) => Ok(LoadReport { backend, notice: None }),
                    None => {
                        match fetched {
                            None => {
                                self.slots.set(i, Slot::Unloaded);
                                assert(self.entries() =~= entries_after_finish(
                                    old(self).styles(),
                                    old(self).entries(),
                                    name@,
                                    view,
                                    chosen,
                                ));
                                Err(StylizerError::DownloadFailed)
                            },
                            Some(bytes) => {
                                if !validate_onnx_model(bytes.as_slice()) {
                                    self.slots.set(i, Slot::Unloaded);
                                    assert(self.entries() =~= entries_after_finish(
                                        old(self).styles(),
                                        old(self).entries(),
                                        name@,
                                        view,
                                        chosen,
                                    ));
                                    Err(StylizerError::InvalidModelFormat)
                                } else {
                                    let report = select_backend(
                                        self.prefer_accelerated,
                                        accelerator_available,
                                    );
                                    let handle = ModelHandle {
                                        name: name.to_owned(),
                                        payload: bytes,
                                        backend: report.backend,
                                    };
                                    self.slots.set(i, Slot::Loaded(handle));
                                    assert(self.entries() =~= entries_after_finish(
                                        old(self).styles(),
                                        old(self).entries(),
                                        name@,
                                        view,
                                        chosen,
                                    ));
                                    Ok(report)
                                }
                            },
                        }
                    },
                }
            },
        }
    }
}

} // verus!
