//! The pipeline orchestrator: a state machine that sequences model
//! loading, the image stages and inference for one request.
//!
//! The machine does no waiting of its own. It says what has to be done
//! next (fetch a payload, run inference), and is told how that went.

use vstd::prelude::*;
use crate::blend::blend_spec;
use crate::error::StylizerError;
use crate::image_utils::{ImageProcessor, postprocess_spec, preprocess_spec};
use crate::model_cache::{
    Entry,
    LoadStep,
    ModelCache,
    asks_fetch,
    entries_after_begin,
    entries_after_finish,
    fetched_view,
    finish_result,
    select_backend_spec,
};
use crate::model_registry::{ModelInfo, ModelMeta, has_name, position};

verus! {

/// Progress once the model is loaded.
pub const PROGRESS_MODEL_READY: u8 = 30;

/// Progress once inference has returned.
pub const PROGRESS_INFERRED: u8 = 70;

/// Progress once the image is blended.
pub const PROGRESS_DONE: u8 = 100;

/// One request: an image, its geometry, the style to apply and how
/// strongly, in millionths.
#[derive(Clone, Debug)]
pub struct PipelineRequest {
    /// The RGBA bytes, row by row.
    pub image: Vec<u8>,
    /// The width in pixels.
    pub width: u32,
    /// The height in pixels.
    pub height: u32,
    /// The name of the style.
    pub style: String,
    /// The blend strength in millionths; clamped to 0..=1 when used.
    pub strength: i64,
}

/// Where a request stands.
#[derive(Clone, Copy, Debug, PartialEq, Eq, Structural)]
pub enum PipelineState {
    /// Not started.
    Idle,
    /// Waiting for the model payload.
    Preparing,
    /// Waiting for inference.
    Invoking,
    /// Inference has returned; the output is held.
    Postprocessing,
    /// The image has been delivered.
    Done,
    /// The request has failed for this reason; nothing moves it on.
    Failed(StylizerError),
}

/// What the machine is told.
#[derive(Debug)]
pub enum PipelineEvent {
    /// Begin.
    Start,
    /// The fetch has ended, with the payload or, where it failed, without.
    /// The flag says whether an accelerator was found.
    ModelFetched { payload: Option<Vec<u8>>, accelerator_available: bool },
    /// Inference has produced the named output tensor.
    InferenceOutput(Vec<i128>),
    /// Inference ran and did not produce the named output tensor.
    OutputMissing,
    /// The backend reported an error.
    InferenceFailed,
    /// Go on with what is held.
    Continue,
}

/// What the machine asks for.
#[derive(Debug)]
pub enum PipelineAction {
    /// Fetch the model payload, then tell `ModelFetched`.
    Fetch { url: String },
    /// Run the model of the request's style on this input, then tell how
    /// it went.
    Infer { input: Vec<i128>, input_name: String, output_name: String },
    /// Tell `Continue`.
    Postprocess,
    /// The request is done; this is its image.
    Deliver { image: Vec<u8> },
    /// The request has failed.
    Abort(StylizerError),
    /// The event was not expected and has changed nothing.
    Ignore,
}

/// What a request gave, for the caller that asked: whether it succeeded,
/// the image or the text of the error, and the time it took.
#[derive(Clone, Debug)]
pub struct StyleTransferResult {
    /// Whether an image was made.
    pub success: bool,
    /// The image, where one was made.
    pub output_data: Option<Vec<u8>>,
    /// The text of the error, where none was made.
    pub error_message: Option<String>,
    /// The time taken, in milliseconds.
    pub processing_time_ms: u64,
}

impl StyleTransferResult {
    /// The result for the outcome of a request that took `elapsed_ms`.
    pub fn from_outcome(outcome: Result<Vec<u8>, StylizerError>, elapsed_ms: u64) -> (r:
        StyleTransferResult)
        ensures
            r.processing_time_ms == elapsed_ms,
            r.success == (outcome is Ok),
            outcome matches Ok(image) ==> r.output_data == Some(image) && r.error_message is None,
            outcome matches Err(e) ==> r.output_data is None && r.error_message is Some
                && r.error_message->Some_0@ == e.message_spec(),
    {
        match outcome {
            Ok(image) => StyleTransferResult {
                success: true,
                output_data: Some(image),
                error_message: None,
                processing_time_ms: elapsed_ms,
            },
            Err(e) => StyleTransferResult {
                success: false,
                output_data: None,
                error_message: Some(e.message().to_owned()),
                processing_time_ms: elapsed_ms,
            },
        }
    }
}

/// Whether one of the named tensors has this name.
pub open spec fn has_output(outputs: Seq<(String, Vec<i128>)>, name: Seq<char>) -> bool {
    exists|i: int| 0 <= i < outputs.len() && outputs[i].0@ == name
}

/// Whether place `i` holds the first tensor of this name.
pub open spec fn is_first_output(outputs: Seq<(String, Vec<i128>)>, name: Seq<char>, i: int) -> bool {
    &&& 0 <= i < outputs.len()
    &&& outputs[i].0@ == name
    &&& forall|k: int| 0 <= k < i ==> outputs[k].0@ != name
}

/// The first place of a tensor of this name.
pub open spec fn first_output(outputs: Seq<(String, Vec<i128>)>, name: Seq<char>) -> int {
    choose|i: int| is_first_output(outputs, name, i)
}

/// The event for what a backend gave: its named output tensors, or
/// nothing where it reported an error.
pub open spec fn inference_event_spec(outcome: Option<Vec<(String, Vec<i128>)>>, name: Seq<char>) -> EventView {
    match outcome {
        None => EventView::InferenceFailed,
        Some(outputs) => if has_output(outputs@, name) {
            EventView::InferenceOutput(outputs@[first_output(outputs@, name)].1@)
        } else {
            EventView::OutputMissing
        },
    }
}

/// Turns what a backend gave into the event for the machine: the first
/// tensor of the asked name, `OutputMissing` where no tensor has the
/// name, `InferenceFailed` where the backend reported an error.
pub fn inference_event(outcome: Option<Vec<(String, Vec<i128>)>>, output_name: &str) -> (event:
    PipelineEvent)
    ensures
        event@ == inference_event_spec(outcome, output_name@),
{
    match outcome {
        None => PipelineEvent::InferenceFailed,
        Some(outputs) => {
            let mut outputs = outputs;
            let ghost all_vec = outputs;
            let ghost all = outputs@;
            let key: String = output_name.to_owned();
            let n: usize = outputs.len();
            let mut i: usize = 0;
            while i < n
                invariant
                    outcome == Some(all_vec),
                    all == all_vec@,
                    outputs@ == all,
                    n == all.len(),
                    key@ == output_name@,
                    0 <= i <= n,
                    forall|k: int| 0 <= k < i ==> all[k].0@ != output_name@,
                decreases n - i,
            {
                if outputs[i].0 == key {
                    proof {
                        assert(is_first_output(all, output_name@, i as int));
                        let f = first_output(all, output_name@);
                        assert(is_first_output(all, output_name@, f));
                        if f < i {
                            assert(all[f].0@ != output_name@);
                        } else if i < f {
                            assert(all[i as int].0@ != output_name@);
                        }
                    }
                    let found = outputs.swap_remove(i);
                    return PipelineEvent::InferenceOutput(found.1);
                }
                i += 1;
            }
            PipelineEvent::OutputMissing
        },
    }
}

/// An event as a value to reason about.
pub enum EventView {
    Start,
    ModelFetched { payload: Option<Seq<u8>>, accelerator_available: bool },
    InferenceOutput(Seq<i128>),
    OutputMissing,
    InferenceFailed,
    Continue,
}

/// An action as a value to reason about.
pub enum ActionView {
    Fetch { url: Seq<char> },
    Infer { input: Seq<i128>, input_name: Seq<char>, output_name: Seq<char> },
    Postprocess,
    Deliver { image: Seq<u8> },
    Abort(StylizerError),
    Ignore,
}

impl View for PipelineEvent {
    type V = EventView;

    open spec fn view(&self) -> EventView {
        match *self {
            PipelineEvent::Start => EventView::Start,
            PipelineEvent::ModelFetched { payload, accelerator_available } => EventView::ModelFetched {
                payload: fetched_view(payload),
                accelerator_available,
            },
            PipelineEvent::InferenceOutput(tensor) => EventView::InferenceOutput(tensor@),
            PipelineEvent::OutputMissing => EventView::OutputMissing,
            PipelineEvent::InferenceFailed => EventView::InferenceFailed,
            PipelineEvent::Continue => EventView::Continue,
        }
    }
}

impl View for PipelineAction {
    type V = ActionView;

    open spec fn view(&self) -> ActionView {
        match *self {
            PipelineAction::Fetch { url } => ActionView::Fetch { url: url@ },
            PipelineAction::Infer { input, input_name, output_name } => ActionView::Infer {
                input: input@,
                input_name: input_name@,
                output_name: output_name@,
            },
            PipelineAction::Postprocess => ActionView::Postprocess,
            PipelineAction::Deliver { image } => ActionView::Deliver { image: image@ },
            PipelineAction::Abort(e) => ActionView::Abort(e),
            PipelineAction::Ignore => ActionView::Ignore,
        }
    }
}

/// The machine as a value to reason about.
pub struct EngineView {
    pub state: PipelineState,
    pub progress: u8,
    pub image: Seq<u8>,
    pub width: u32,
    pub height: u32,
    pub style: Seq<char>,
    pub strength: i64,
    pub output: Seq<i128>,
    pub notice: Option<StylizerError>,
}

/// What one step gives: the machine and the cache entries after it, and
/// the action asked for.
pub struct StepResult {
    pub engine: EngineView,
    pub entries: Seq<Entry>,
    pub action: ActionView,
}

impl EngineView {
    /// The machine in another state, at another progress.
    pub open spec fn at(self, state: PipelineState, progress: u8) -> EngineView {
        EngineView {
            state,
            progress,
            image: self.image,
            width: self.width,
            height: self.height,
            style: self.style,
            strength: self.strength,
            output: self.output,
            notice: self.notice,
        }
    }

    /// The machine with what a load reported besides success.
    pub open spec fn noting(self, notice: Option<StylizerError>) -> EngineView {
        EngineView {
            state: self.state,
            progress: self.progress,
            image: self.image,
            width: self.width,
            height: self.height,
            style: self.style,
            strength: self.strength,
            output: self.output,
            notice,
        }
    }

    /// The machine holding another output tensor.
    pub open spec fn holding(self, output: Seq<i128>) -> EngineView {
        EngineView {
            state: self.state,
            progress: self.progress,
            image: self.image,
            width: self.width,
            height: self.height,
            style: self.style,
            strength: self.strength,
            output,
            notice: self.notice,
        }
    }

    /// Whether the progress is the one that goes with the state.
    pub open spec fn consistent(self) -> bool {
        match self.state {
            PipelineState::Idle => self.progress == 0,
            PipelineState::Preparing => self.progress == 0,
            PipelineState::Invoking => self.progress == PROGRESS_MODEL_READY,
            PipelineState::Postprocessing => self.progress == PROGRESS_INFERRED,
            PipelineState::Done => self.progress == PROGRESS_DONE,
            PipelineState::Failed(_) => self.progress <= PROGRESS_INFERRED,
        }
    }
}

/// The request has failed: the machine keeps its progress, the cache is
/// as given.
pub open spec fn fail_spec(engine: EngineView, entries: Seq<Entry>, error: StylizerError) -> StepResult {
    StepResult {
        engine: engine.at(PipelineState::Failed(error), engine.progress),
        entries,
        action: ActionView::Abort(error),
    }
}

/// The model is loaded: the image is resized and encoded, and inference
/// is asked for.
pub open spec fn invoke_spec(engine: EngineView, styles: Seq<ModelInfo>, entries: Seq<Entry>) -> StepResult {
    if !has_name(styles, engine.style) {
        fail_spec(engine, entries, StylizerError::StyleNotFound)
    } else {
        let meta = styles[position(styles, engine.style)].meta;
        match preprocess_spec(engine.image, engine.width as int, engine.height as int, meta) {
            Ok(input) => StepResult {
                engine: engine.at(PipelineState::Invoking, PROGRESS_MODEL_READY),
                entries,
                action: ActionView::Infer {
                    input,
                    input_name: meta.input_name@,
                    output_name: meta.output_name@,
                },
            },
            Err(e) => fail_spec(engine, entries, e),
        }
    }
}

/// The image for an output tensor: decoded, resized to the request's
/// size and blended over the request's image.
pub open spec fn finished_image(engine: EngineView, meta: ModelMeta) -> Result<Seq<u8>, StylizerError> {
    match postprocess_spec(engine.output, meta, engine.width as int, engine.height as int) {
        Ok(stylized) => if engine.image.len() == stylized.len() {
            Ok(blend_spec(engine.image, stylized, engine.strength as int))
        } else {
            Err(StylizerError::InvalidDimensions)
        },
        Err(e) => Err(e),
    }
}

/// The output is held: the image is made and delivered.
pub open spec fn deliver_spec(engine: EngineView, styles: Seq<ModelInfo>, entries: Seq<Entry>) -> StepResult {
    if !has_name(styles, engine.style) {
        fail_spec(engine, entries, StylizerError::StyleNotFound)
    } else {
        match finished_image(engine, styles[position(styles, engine.style)].meta) {
            Ok(image) => StepResult {
                engine: engine.at(PipelineState::Done, PROGRESS_DONE),
                entries,
                action: ActionView::Deliver { image },
            },
            Err(e) => fail_spec(engine, entries, e),
        }
    }
}

/// One step of the machine: from the machine, the cache and an event to
/// the machine and the cache after it, and the action asked for.
pub open spec fn step_spec(
    engine: EngineView,
    styles: Seq<ModelInfo>,
    entries: Seq<Entry>,
    prefer_accelerated: bool,
    event: EventView,
) -> StepResult {
    match (engine.state, event) {
        (PipelineState::Idle, EventView::Start) => {
            if !has_name(styles, engine.style) {
                fail_spec(engine, entries, StylizerError::StyleNotFound)
            } else if asks_fetch(styles, entries, engine.style) {
                StepResult {
                    engine: engine.at(PipelineState::Preparing, 0),
                    entries: entries_after_begin(styles, entries, engine.style),
                    action: ActionView::Fetch {
                        url: styles[position(styles, engine.style)].meta.model_url@,
                    },
                }
            } else {
                invoke_spec(engine, styles, entries)
            }
        },
        (PipelineState::Preparing, EventView::ModelFetched { payload, accelerator_available }) => {
            let after = entries_after_finish(
                styles,
                entries,
                engine.style,
                payload,
                select_backend_spec(prefer_accelerated, accelerator_available).backend,
            );
            match finish_result(
                styles,
                entries,
                engine.style,
                payload,
                prefer_accelerated,
                accelerator_available,
            ) {
                Ok(report) => invoke_spec(engine.noting(report.notice), styles, after),
                Err(e) => fail_spec(engine, after, e),
            }
        },
        (PipelineState::Invoking, EventView::InferenceOutput(output)) => StepResult {
            engine: engine.holding(output).at(PipelineState::Postprocessing, PROGRESS_INFERRED),
            entries,
            action: ActionView::Postprocess,
        },
        (PipelineState::Invoking, EventView::OutputMissing) => fail_spec(
            engine,
            entries,
            StylizerError::OutputMissing,
        ),
        (PipelineState::Invoking, EventView::InferenceFailed) => fail_spec(
            engine,
            entries,
            StylizerError::InferenceFailed,
        ),
        (PipelineState::Postprocessing, EventView::Continue) => deliver_spec(engine, styles, entries),
        _ => StepResult { engine, entries, action: ActionView::Ignore },
    }
}

/// The place of a state in the order of the stages; a failed request
/// has none.
pub open spec fn stage_rank(state: PipelineState) -> int {
    match state {
        PipelineState::Idle => 0,
        PipelineState::Preparing => 1,
        PipelineState::Invoking => 2,
        PipelineState::Postprocessing => 3,
        PipelineState::Done => 4,
        PipelineState::Failed(_) => 5,
    }
}

/// A step never takes the progress back and never takes it above 100; it
/// keeps the progress in step with the state, and it leaves the request
/// as it was.
pub proof fn lemma_step_progress(
    engine: EngineView,
    styles: Seq<ModelInfo>,
    entries: Seq<Entry>,
    prefer_accelerated: bool,
    event: EventView,
)
    requires
        engine.consistent(),
    ensures
        ({
            let after = step_spec(engine, styles, entries, prefer_accelerated, event).engine;
            &&& after.consistent()
            &&& engine.progress <= after.progress <= PROGRESS_DONE
            &&& after.image == engine.image
            &&& after.width == engine.width
            &&& after.height == engine.height
            &&& after.style == engine.style
            &&& after.strength == engine.strength
        }),
{
}

/// The stages follow one another in their order: a step leaves the state
/// where it is, takes it to a later stage, or ends the request.
pub proof fn lemma_step_order(
    engine: EngineView,
    styles: Seq<ModelInfo>,
    entries: Seq<Entry>,
    prefer_accelerated: bool,
    event: EventView,
)
    ensures
        stage_rank(engine.state) <= stage_rank(
            step_spec(engine, styles, entries, prefer_accelerated, event).engine.state,
        ),
{
}

/// A request that is done or has failed stays so: no event changes the
/// machine or the cache, and nothing is asked for.
pub proof fn lemma_step_absorbing(
    engine: EngineView,
    styles: Seq<ModelInfo>,
    entries: Seq<Entry>,
    prefer_accelerated: bool,
    event: EventView,
)
    requires
        engine.state is Done || engine.state is Failed,
    ensures
        step_spec(engine, styles, entries, prefer_accelerated, event) == (StepResult {
            engine,
            entries,
            action: ActionView::Ignore,
        }),
{
}

/// An image is delivered only by the step that ends in `Done`, and an
/// error only by a step that ends in `Failed` with that error: a request
/// yields a whole image or one failure.
pub proof fn lemma_step_outcome(
    engine: EngineView,
    styles: Seq<ModelInfo>,
    entries: Seq<Entry>,
    prefer_accelerated: bool,
    event: EventView,
)
    ensures
        ({
            let after = step_spec(engine, styles, entries, prefer_accelerated, event);
            &&& after.action is Deliver ==> after.engine.state is Done && engine.state
                is Postprocessing
            &&& after.action matches ActionView::Abort(e) ==> after.engine.state
                == PipelineState::Failed(e)
            &&& after.action is Fetch ==> after.engine.state is Preparing
            &&& after.action is Infer ==> after.engine.state is Invoking
        }),
{
}

/// A request for a style whose model is loaded asks for no fetch and
/// leaves the cache as it is.
pub proof fn lemma_loaded_model_not_fetched(
    engine: EngineView,
    styles: Seq<ModelInfo>,
    entries: Seq<Entry>,
    prefer_accelerated: bool,
)
    requires
        engine.state is Idle,
        has_name(styles, engine.style),
        entries[position(styles, engine.style)] is Loaded,
    ensures
        !(step_spec(engine, styles, entries, prefer_accelerated, EventView::Start).action is Fetch),
        step_spec(engine, styles, entries, prefer_accelerated, EventView::Start).entries == entries,
{
}

/// An unknown style ends the request at its start with `StyleNotFound`;
/// no fetch is asked for and the cache is not changed.
pub proof fn lemma_unknown_style_fails(
    engine: EngineView,
    styles: Seq<ModelInfo>,
    entries: Seq<Entry>,
    prefer_accelerated: bool,
)
    requires
        engine.state is Idle,
        !has_name(styles, engine.style),
    ensures
        step_spec(engine, styles, entries, prefer_accelerated, EventView::Start) == fail_spec(
            engine,
            entries,
            StylizerError::StyleNotFound,
        ),
{
}

/// The state and the progress of a machine, which change together.
#[derive(Clone, Copy, Debug)]
struct Status {
    state: PipelineState,
    progress: u8,
}

/// The orchestrator for one request.
pub struct StyleTransferEngine {
    status: Status,
    request: PipelineRequest,
    output: Vec<i128>,
    notice: Option<StylizerError>,
    image_processor: ImageProcessor,
}

impl View for StyleTransferEngine {
    type V = EngineView;

    closed spec fn view(&self) -> EngineView {
        EngineView {
            state: self.status.state,
            progress: self.status.progress,
            image: self.request.image@,
            width: self.request.width,
            height: self.request.height,
            style: self.request.style@,
            strength: self.request.strength,
            output: self.output@,
            notice: self.notice,
        }
    }
}

impl StyleTransferEngine {
    #[verifier::type_invariant]
    spec fn consistent(self) -> bool {
        self@.consistent()
    }

    /// A machine for `request`, not started.
    pub fn new(request: PipelineRequest) -> (engine: StyleTransferEngine)
        ensures
            engine@ == (EngineView {
                state: PipelineState::Idle,
                progress: 0,
                image: request.image@,
                width: request.width,
                height: request.height,
                style: request.style@,
                strength: request.strength,
                output: Seq::<i128>::empty(),
                notice: None,
            }),
    {
        StyleTransferEngine {
            status: Status { state: PipelineState::Idle, progress: 0 },
            request,
            output: Vec::new(),
            notice: None,
            image_processor: ImageProcessor::new(),
        }
    }

    /// Where the request stands.
    pub fn state(&self) -> (s: PipelineState)
        ensures
            s == self@.state,
    {
        self.status.state
    }

    /// How far the request has come, from 0 to 100.
    pub fn progress(&self) -> (p: u8)
        ensures
            p == self@.progress,
            p <= 100,
            self@.consistent(),
    {
        proof {
            use_type_invariant(self);
        }
        self.status.progress
    }

    /// What the load of the model reported besides success:
    /// `BackendUnavailable` where acceleration was preferred and the
    /// fallback had to be taken. The request goes on all the same.
    pub fn notice(&self) -> (n: Option<StylizerError>)
        ensures
            n == self@.notice,
    {
        self.notice
    }

    /// The request.
    pub fn request(&self) -> (r: &PipelineRequest)
        ensures
            r.image@ == self@.image,
            r.width == self@.width,
            r.height == self@.height,
            r.style@ == self@.style,
            r.strength == self@.strength,
    {
        &self.request
    }

    fn fail(&mut self, error: StylizerError, Ghost(entries): Ghost<Seq<Entry>>) -> (action: PipelineAction)
        requires
            !(old(self)@.state is Done),
        ensures
            (StepResult { engine: final(self)@, entries, action: action@ }) == fail_spec(
                old(self)@,
                entries,
                error,
            ),
    {
        proof {
            use_type_invariant(&*self);
        }
        let progress: u8 = self.status.progress;
        self.status = Status { state: PipelineState::Failed(error), progress };
        PipelineAction::Abort(error)
    }

    fn invoke(&mut self, cache: &ModelCache) -> (action: PipelineAction)
        requires
            old(self)@.state is Idle || old(self)@.state is Preparing,
        ensures
            (StepResult { engine: final(self)@, entries: cache.entries(), action: action@ })
                == invoke_spec(old(self)@, cache.styles(), cache.entries()),
    {
        match cache.registry().get_model_info(self.request.style.as_str()) {
            Err(e) => self.fail(e, Ghost(cache.entries())),
            Ok(info) => {
                match self.image_processor.preprocess_image(
                    self.request.image.as_slice(),
                    self.request.width,
                    self.request.height,
                    &info.meta,
                ) {
                    Err(e) => self.fail(e, Ghost(cache.entries())),
                    Ok(input) => {
                        let input_name: String = info.meta.input_name.clone();
                        let output_name: String = info.meta.output_name.clone();
                        self.status = Status {
                            state: PipelineState::Invoking,
                            progress: PROGRESS_MODEL_READY,
                        };
                        PipelineAction::Infer { input, input_name, output_name }
                    },
                }
            },
        }
    }

    fn deliver(&mut self, cache: &ModelCache) -> (action: PipelineAction)
        requires
            old(self)@.state is Postprocessing,
        ensures
            (StepResult { engine: final(self)@, entries: cache.entries(), action: action@ })
                == deliver_spec(old(self)@, cache.styles(), cache.entries()),
    {
        match cache.registry().get_model_info(self.request.style.as_str()) {
            Err(e) => self.fail(e, Ghost(cache.entries())),
            Ok(info) => {
                match self.image_processor.postprocess_image(
                    self.output.as_slice(),
                    &info.meta,
                    self.request.width,
                    self.request.height,
                ) {
                    Err(e) => self.fail(e, Ghost(cache.entries())),
                    Ok(stylized) => {
                        match self.image_processor.blend_images(
                            self.request.image.as_slice(),
                            stylized.as_slice(),
                            self.request.strength,
                        ) {
                            Err(e) => self.fail(e, Ghost(cache.entries())),
                            Ok(image) => {
                                self.status = Status {
                                    state: PipelineState::Done,
                                    progress: PROGRESS_DONE,
                                };
                                PipelineAction::Deliver { image }
                            },
                        }
                    },
                }
            },
        }
    }

    /// Takes the machine one step on.
    ///
    /// `Start` resolves the style and begins the load of its model; with
    /// the model loaded, the image is resized and encoded and inference is
    /// asked for. The inference output is held until `Continue`, on which
    /// it is decoded, resized to the request's size and blended over the
    /// request's image. Each failure ends the request with its error; an
    /// event that the state does not expect changes nothing.
    pub fn step(&mut self, cache: &mut ModelCache, event: PipelineEvent) -> (action: PipelineAction)
        requires
            old(cache).wf(),
        ensures
            final(cache).wf(),
            final(cache).styles() == old(cache).styles(),
            final(cache).prefers_accelerated() == old(cache).prefers_accelerated(),
            (StepResult { engine: final(self)@, entries: final(cache).entries(), action: action@ })
                == step_spec(
                old(self)@,
                old(cache).styles(),
                old(cache).entries(),
                old(cache).prefers_accelerated(),
                event@,
            ),
    {
        proof {
            use_type_invariant(&*self);
        }
        let state: PipelineState = self.status.state;
        match (state, event) {
            (PipelineState::Idle, PipelineEvent::Start) => {
                match cache.begin_load(self.request.style.as_str()) {
                    Err(e) => self.fail(e, Ghost(cache.entries())),
                    Ok(LoadStep::Ready) => self.invoke(cache),
                    Ok(LoadStep::Fetch(url)) => {
                        self.status = Status { state: PipelineState::Preparing, progress: 0 };
                        PipelineAction::Fetch { url }
                    },
                }
            },
            (PipelineState::Preparing, PipelineEvent::ModelFetched { payload, accelerator_available }) => {
                match cache.finish_load(self.request.style.as_str(), payload, accelerator_available) {
                    Err(e) => self.fail(e, Ghost(cache.entries())),
                    Ok(report) => {
                        self.notice = report.notice;
                        self.invoke(cache)
                    },
                }
            },
            (PipelineState::Invoking, PipelineEvent::InferenceOutput(output)) => {
                self.output = output;
                self.status = Status {
                    state: PipelineState::Postprocessing,
                    progress: PROGRESS_INFERRED,
                };
                PipelineAction::Postprocess
            },
            (PipelineState::Invoking, PipelineEvent::OutputMissing) => self.fail(
                StylizerError::OutputMissing,
                Ghost(cache.entries()),
            ),
            (PipelineState::Invoking, PipelineEvent::InferenceFailed) => self.fail(
                StylizerError::InferenceFailed,
                Ghost(cache.entries()),
            ),
            (PipelineState::Postprocessing, PipelineEvent::Continue) => self.deliver(cache),
            _ => PipelineAction::Ignore,
        }
    }
}

} // verus!
