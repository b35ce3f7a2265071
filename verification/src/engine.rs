//! The engine: at most one loaded model, and what may be done with it.

use crate::catalog::ModelCatalog;
use crate::chunks::{num_chunks, validate_input};
use crate::error::{DemucsError, FfiDemucsError};
use crate::model::{FfiDemucsModel, ModelOptions, ModelView};
use crate::progress::ProgressBridge;
use crate::stem::{FfiStem, Stem};
use vstd::prelude::*;

verus! {

/// Holds at most one loaded model, of type `M`, together with which variant
/// it is.
///
/// Loads, warmups and separations run for long and happen one at a time; the
/// engine is only consulted where each of them begins and ends, so status
/// queries never wait on a separation.
pub struct FfiDemucsEngine<M> {
    state: Option<M>,
    current: Option<FfiDemucsModel>,
}

impl<M> View for FfiDemucsEngine<M> {
    type V = Option<(M, ModelView)>;

    /// The loaded model and its variant.
    closed spec fn view(&self) -> Option<(M, ModelView)> {
        match (self.state, self.current) {
            (Some(model), Some(variant)) => Some((model, variant@)),
            _ => None,
        }
    }
}

/// What it takes to load a model.
#[derive(Debug)]
pub struct LoadPlan {
    pub model: FfiDemucsModel,
    pub options: ModelOptions,
    pub model_id: String,
}

impl LoadPlan {
    /// Plans to load `model`, unless it is a selection that cannot be loaded.
    pub fn new(model: FfiDemucsModel, catalog: &ModelCatalog) -> (r: Result<
        LoadPlan,
        FfiDemucsError,
    >)
        ensures
            r is Ok <==> model@.loadable(*catalog),
            r matches Ok(plan) ==> {
                &&& plan.model == model
                &&& plan.options@ == model@.options()
                &&& plan.model_id@ == model@.info(*catalog).id@
            },
            r matches Err(error) ==> {
                &&& error matches FfiDemucsError::InvalidInput { reason }
                &&& model@.rejection(*catalog, reason@)
            },
    {
        match model.options(catalog) {
            Ok(options) => {
                let model_id = model.info(catalog).id.clone();
                Ok(LoadPlan { model, options, model_id })
            },
            Err(error) => Err(error),
        }
    }
}

/// Why weights that are in the cache could not be loaded.
#[derive(Debug)]
pub enum LoadFailure {
    /// The file could not be read.
    Read { reason: String },
    /// The core could not build a model from it.
    Build { error: DemucsError },
}

/// What a load that fails is answered.
pub open spec fn load_error(failure: LoadFailure) -> FfiDemucsError {
    match failure {
        LoadFailure::Read { reason } => FfiDemucsError::Io { reason },
        LoadFailure::Build { error } => crate::error::answer_to(error),
    }
}

/// What an engine holds once the cache has been searched for the weights of
/// a model that is to replace the one it holds.
pub open spec fn after_lookup<M>(
    held: Option<(M, ModelView)>,
    lookup: Result<bool, FfiDemucsError>,
) -> Option<(M, ModelView)> {
    if lookup == Ok::<bool, FfiDemucsError>(true) {
        None
    } else {
        held
    }
}

/// What an engine holds once building a model has come out as `outcome`.
pub open spec fn after_build<M>(
    held: Option<(M, ModelView)>,
    variant: ModelView,
    outcome: Result<M, LoadFailure>,
) -> Option<(M, ModelView)> {
    match outcome {
        Ok(model) => Some((model, variant)),
        Err(_) => held,
    }
}

/// A separation that may begin: the model to run, and the bridge that follows
/// its progress.
pub struct Separation<'a, M, L> {
    pub model: &'a M,
    pub bridge: ProgressBridge<L>,
}

impl<M> FfiDemucsEngine<M> {
    /// A model is held exactly if its variant is known.
    #[verifier::type_invariant]
    spec fn consistent(self) -> bool {
        self.state is Some <==> self.current is Some
    }

    /// An engine with no model.
    pub fn new() -> (r: FfiDemucsEngine<M>)
        ensures
            r@ is None,
    {
        FfiDemucsEngine { state: None, current: None }
    }

    /// Goes on with a planned load once the cache has been searched for the
    /// weights. Where they are there, any model already loaded is let go
    /// before the new weights are read, so that peak memory is one model, not
    /// two. Fails with `NotCached` if the weights have not been downloaded
    /// yet.
    pub fn load_model(&mut self, plan: &LoadPlan, lookup: Result<bool, FfiDemucsError>) -> (r: Result<
        (),
        FfiDemucsError,
    >)
        ensures
            final(self)@ == after_lookup(old(self)@, lookup),
            match lookup {
                Ok(true) => r is Ok,
                Ok(false) => {
                    &&& r matches Err(FfiDemucsError::NotCached { model_id })
                    &&& model_id@ == plan.model_id@
                },
                Err(error) => r == Err::<(), FfiDemucsError>(error),
            },
    {
        match lookup {
            Ok(cached) => {
                if !cached {
                    return Err(FfiDemucsError::NotCached { model_id: plan.model_id.clone() });
                }
                *self = FfiDemucsEngine { state: None, current: None };
                Ok(())
            },
            Err(error) => Err(error),
        }
    }

    /// Ends a planned load with the model that was built, or with why there
    /// is none.
    pub fn finish_load(&mut self, plan: LoadPlan, outcome: Result<M, LoadFailure>) -> (r: Result<
        (),
        FfiDemucsError,
    >)
        ensures
            final(self)@ == after_build(old(self)@, plan.model@, outcome),
            match outcome {
                Ok(_) => r is Ok,
                Err(failure) => r == Err::<(), FfiDemucsError>(load_error(failure)),
            },
    {
        match outcome {
            Ok(model) => {
                *self = FfiDemucsEngine { state: Some(model), current: Some(plan.model) };
                Ok(())
            },
            Err(LoadFailure::Read { reason }) => Err(FfiDemucsError::Io { reason }),
            Err(LoadFailure::Build { error }) => Err(FfiDemucsError::from(error)),
        }
    }

    /// The model to run a dummy separation on, so that the first real one
    /// does not pay for shader compilation.
    pub fn warmup(&self) -> (r: Result<&M, FfiDemucsError>)
        ensures
            match self@ {
                Some((model, _)) => r matches Ok(found) && *found == model,
                None => r == Err::<&M, FfiDemucsError>(FfiDemucsError::NotLoaded),
            },
    {
        proof {
            use_type_invariant(self);
        }
        match &self.state {
            Some(model) => Ok(model),
            None => Err(FfiDemucsError::NotLoaded),
        }
    }

    /// Begins a separation of stereo PCM at any sample rate. Both channels
    /// must have the same, non-zero length; pass the same buffer twice for
    /// mono. `core_chunks` is the core's count of chunks for a length at its
    /// own rate.
    pub fn separate<'a, S, L, F: Fn(usize) -> usize>(
        &'a self,
        left: &[S],
        right: &[S],
        sample_rate: u32,
        listener: L,
        core_chunks: F,
    ) -> (r: Result<Separation<'a, M, L>, FfiDemucsError>)
        requires
            call_requires(
                core_chunks,
                (crate::chunks::core_length(left@.len() as u64, sample_rate),),
            ),
        ensures
            match (crate::chunks::input_fault(left@.len(), right@.len(), sample_rate), self@) {
                (Some(fault), _) => {
                    &&& r matches Err(FfiDemucsError::InvalidInput { reason })
                    &&& reason@ == fault
                },
                (None, None) => r matches Err(FfiDemucsError::NotLoaded),
                (None, Some((model, _))) => {
                    &&& r matches Ok(separation)
                    &&& *separation.model == model
                    &&& separation.bridge.listener == listener
                    &&& separation.bridge.chunk == 0
                    &&& !separation.bridge.cancelled
                    &&& call_ensures(
                        core_chunks,
                        (crate::chunks::core_length(left@.len() as u64, sample_rate),),
                        separation.bridge.total_chunks,
                    )
                },
            },
    {
        proof {
            use_type_invariant(self);
        }
        match validate_input(left, right, sample_rate) {
            Ok(()) => {},
            Err(error) => return Err(error),
        }
        match &self.state {
            Some(model) => {
                let total_chunks: usize = num_chunks(
                    left.len() as u64,
                    sample_rate,
                    core_chunks,
                ) as usize;
                Ok(
                    Separation {
                        model,
                        bridge: ProgressBridge {
                            listener,
                            chunk: 0,
                            total_chunks,
                            cancelled: false,
                        },
                    },
                )
            },
            None => Err(FfiDemucsError::NotLoaded),
        }
    }

    /// Frees the loaded model. Returns `false` if nothing was loaded.
    pub fn unload_model(&mut self) -> (r: bool)
        ensures
            r == (old(self)@ is Some),
            final(self)@ is None,
    {
        proof {
            use_type_invariant(&*self);
        }
        let loaded = self.state.is_some();
        *self = FfiDemucsEngine { state: None, current: None };
        loaded
    }

    /// Whether a model is loaded.
    pub fn is_loaded(&self) -> (r: bool)
        ensures
            r == (self@ is Some),
    {
        proof {
            use_type_invariant(self);
        }
        self.current.is_some()
    }

    /// Which variant is loaded.
    pub fn loaded_model(&self) -> (r: Option<FfiDemucsModel>)
        ensures
            match self@ {
                Some((_, variant)) => r matches Some(model) && model@ == variant,
                None => r is None,
            },
    {
        proof {
            use_type_invariant(self);
        }
        match &self.current {
            Some(model) => Some(model.clone()),
            None => None,
        }
    }
}

impl<M> Default for FfiDemucsEngine<M> {
    fn default() -> (r: FfiDemucsEngine<M>)
        ensures
            r@ is None,
    {
        FfiDemucsEngine::new()
    }
}

/// The stems of a separation as they cross the language boundary, in the
/// core's order, or why there are none.
pub fn finish_separation<S>(outcome: Result<Vec<Stem<S>>, DemucsError>) -> (r: Result<
    Vec<FfiStem<S>>,
    FfiDemucsError,
>)
    ensures
        match outcome {
            Ok(stems) => {
                &&& r matches Ok(separated)
                &&& separated@.len() == stems@.len()
                &&& forall|i: int|
                    0 <= i < stems@.len() ==> #[trigger] separated@[i] == (FfiStem {
                        kind: crate::stem::kind_of(stems@[i].id),
                        left: stems@[i].left,
                        right: stems@[i].right,
                    })
            },
            Err(error) => r == Err::<Vec<FfiStem<S>>, FfiDemucsError>(
                crate::error::answer_to(error),
            ),
        },
{
    match outcome {
        Ok(stems) => {
            let mut separated: Vec<FfiStem<S>> = Vec::with_capacity(stems.len());
            for stem in it: stems
                invariant
                    separated@.len() == it.index(),
                    it.seq() == stems@,
                    forall|i: int|
                        0 <= i < it.index() ==> #[trigger] separated@[i] == (FfiStem {
                            kind: crate::stem::kind_of(stems@[i].id),
                            left: stems@[i].left,
                            right: stems@[i].right,
                        }),
            {
                separated.push(FfiStem::from(stem));
            }
            Ok(separated)
        },
        Err(error) => Err(FfiDemucsError::from(error)),
    }
}

/// What became of work on the background thread `name`: the thread sends what
/// the work returned, unless the work panicked.
pub fn worker_result<T>(name: &str, sent: Option<T>) -> (r: Result<T, FfiDemucsError>)
    ensures
        match sent {
            Some(value) => r == Ok::<T, FfiDemucsError>(value),
            None => {
                &&& r matches Err(FfiDemucsError::Inference { reason })
                &&& reason@ == name@ + " worker panicked"@
            },
        },
{
    match sent {
        Some(value) => Ok(value),
        None => Err(
            FfiDemucsError::Inference { reason: name.to_owned().concat(" worker panicked") },
        ),
    }
}

/// An operation that changes what an engine holds.
pub enum Operation<M> {
    /// A load of `variant` that found `lookup` in the cache and, where the
    /// weights were there, came out as `outcome`.
    Load {
        variant: ModelView,
        lookup: Result<bool, FfiDemucsError>,
        outcome: Result<M, LoadFailure>,
    },
    /// An unload.
    Unload,
}

impl<M> Operation<M> {
    /// The operation lets go of the model held before it.
    pub open spec fn releases(self) -> bool {
        match self {
            Operation::Load { lookup, .. } => lookup == Ok::<bool, FfiDemucsError>(true),
            Operation::Unload => true,
        }
    }

    /// The operation loads `model` as `variant`.
    pub open spec fn loads(self, model: M, variant: ModelView) -> bool {
        self matches Operation::Load { variant: v, lookup, outcome } && v == variant && lookup
            == Ok::<bool, FfiDemucsError>(true) && outcome == Ok::<M, LoadFailure>(model)
    }

    /// What an engine that held `held` holds after the operation.
    pub open spec fn after(self, held: Option<(M, ModelView)>) -> Option<(M, ModelView)> {
        match self {
            Operation::Load { variant, lookup, outcome } => if lookup == Ok::<bool, FfiDemucsError>(
                true,
            ) {
                after_build(after_lookup(held, lookup), variant, outcome)
            } else {
                after_lookup(held, lookup)
            },
            Operation::Unload => None,
        }
    }
}

/// What an engine that begins empty holds after `operations`.
pub open spec fn held_after<M>(operations: Seq<Operation<M>>) -> Option<(M, ModelView)>
    decreases operations.len(),
{
    if operations.len() == 0 {
        None
    } else {
        operations.last().after(held_after(operations.drop_last()))
    }
}

/// A load that gets as far as the weights leaves the engine with the new
/// model or with none, never with the old one; a load that does not get so
/// far leaves the engine as it was.
pub proof fn loading_replaces_the_model<M>(
    held: Option<(M, ModelView)>,
    variant: ModelView,
    lookup: Result<bool, FfiDemucsError>,
    outcome: Result<M, LoadFailure>,
)
    ensures
        ({
            let now = (Operation::Load { variant, lookup, outcome }).after(held);
            match (lookup, outcome) {
                (Ok(true), Ok(model)) => now == Some((model, variant)),
                (Ok(true), Err(_)) => now is None,
                _ => now == held,
            }
        }),
{
}

/// What an engine holds is the model of the last load that succeeded, and
/// nothing has let go of it since.
pub proof fn held_model_is_the_last_loaded<M>(operations: Seq<Operation<M>>)
    ensures
        held_after(operations) matches Some((model, variant)) ==> exists|n: int|
            #![trigger operations[n]]
            0 <= n < operations.len() && operations[n].loads(model, variant) && forall|k: int|
                n < k < operations.len() ==> !(#[trigger] operations[k]).releases(),
    decreases operations.len(),
{
    if operations.len() > 0 {
        let init = operations.drop_last();
        let last = operations.last();
        held_model_is_the_last_loaded(init);
        if let Some((model, variant)) = held_after(operations) {
            if last.loads(model, variant) {
                assert(operations[operations.len() - 1].loads(model, variant));
            } else {
                assert(held_after(init) == Some((model, variant)));
                let n = choose|n: int|
                    #![trigger init[n]]
                    0 <= n < init.len() && init[n].loads(model, variant) && forall|k: int|
                        n < k < init.len() ==> !(#[trigger] init[k]).releases();
                assert(operations[n] == init[n]);
                assert forall|k: int| n < k < operations.len() implies !(
                #[trigger] operations[k]).releases() by {
                    if k < init.len() {
                        assert(operations[k] == init[k]);
                    }
                }
            }
        }
    }
}

/// After an unload nothing is held, so a second one finds nothing to free.
pub proof fn unloading_twice_frees_nothing<M>(operations: Seq<Operation<M>>)
    ensures
        held_after(operations.push(Operation::Unload)) is None,
        held_after(operations.push(Operation::Unload).push(Operation::Unload)) is None,
{
    let once = operations.push(Operation::<M>::Unload);
    assert(once.last() == Operation::<M>::Unload);
    assert(once.push(Operation::<M>::Unload).last() == Operation::<M>::Unload);
}

/// Searching the cache lets go of the held model only where the weights of
/// the next one are there.
pub proof fn found_weights_release_the_model<M>(
    held: Option<(M, ModelView)>,
    lookup: Result<bool, FfiDemucsError>,
)
    ensures
        lookup matches Ok(true) ==> after_lookup(held, lookup) is None,
        !(lookup matches Ok(true)) ==> after_lookup(held, lookup) == held,
{
}

/// A model that was built is held as the variant it was planned as; one that
/// was not changes nothing.
pub proof fn built_models_are_held<M>(
    held: Option<(M, ModelView)>,
    variant: ModelView,
    outcome: Result<M, LoadFailure>,
)
    ensures
        outcome matches Ok(model) ==> after_build(held, variant, outcome) == Some((model, variant)),
        outcome is Err ==> after_build(held, variant, outcome) == held,
{
}

/// A load fails for the reason that reading or building failed: as an i/o
/// error, as cancelled, or as an inference error.
pub proof fn load_failures_keep_their_reason(failure: LoadFailure)
    ensures
        match failure {
            LoadFailure::Read { reason } => load_error(failure) == (FfiDemucsError::Io { reason }),
            LoadFailure::Build { error: DemucsError::Cancelled } => load_error(failure)
                == FfiDemucsError::Cancelled,
            LoadFailure::Build { error: DemucsError::Failed { message } } => load_error(failure)
                == (FfiDemucsError::Inference { reason: message }),
        },
{
}

/// A plan is made for every variant that can be loaded, with that variant's
/// own options and identifier.
pub proof fn plans_are_for_the_variant_asked(
    model: FfiDemucsModel,
    catalog: &ModelCatalog,
    r: Result<LoadPlan, FfiDemucsError>,
)
    requires
        call_ensures(LoadPlan::new, (model, catalog), r),
    ensures
        r is Ok <==> match model {
            FfiDemucsModel::FineTuned { stems } => stems@.len() > 0 && forall|i: int|
                0 <= i < stems@.len() ==> catalog.htdemucs_ft.stems@.contains(
                    crate::stem::id_of(#[trigger] stems@[i]),
                ),
            _ => true,
        },
        r matches Ok(plan) ==> {
            &&& plan.model == model
            &&& model is FourStem ==> plan.options is FourStem && plan.model_id@
                == catalog.htdemucs.id@
            &&& model is SixStem ==> plan.options is SixStem && plan.model_id@
                == catalog.htdemucs_6s.id@
            &&& model is FineTuned ==> plan.options is FineTuned && plan.model_id@
                == catalog.htdemucs_ft.id@
        },
{
    if let FfiDemucsModel::FineTuned { stems } = model {
        let ids = crate::stem::ids_of(stems@);
        let supported = catalog.htdemucs_ft.stems@;
        if model@.loadable(*catalog) {
            assert forall|i: int| 0 <= i < stems@.len() implies supported.contains(
                crate::stem::id_of(#[trigger] stems@[i]),
            ) by {
                assert(supported.contains(ids[i]));
            }
        } else if stems@.len() > 0 {
            let i = choose|i: int| 0 <= i < ids.len() && !supported.contains(#[trigger] ids[i]);
            assert(!supported.contains(crate::stem::id_of(stems@[i])));
        }
    }
}

/// With a model loaded, a separation begins for any channels that hold
/// samples, as many on the left as on the right, at any rate above zero; it
/// runs the loaded model and begins before its first chunk, uncancelled.
/// Without a model it does not begin.
pub proof fn separations_begin_at_every_rate<M, S, L, F: Fn(usize) -> usize>(
    engine: &FfiDemucsEngine<M>,
    left: &[S],
    right: &[S],
    sample_rate: u32,
    listener: L,
    core_chunks: F,
    r: Result<Separation<M, L>, FfiDemucsError>,
)
    requires
        call_ensures(
            FfiDemucsEngine::<M>::separate::<S, L, F>,
            (engine, left, right, sample_rate, listener, core_chunks),
            r,
        ),
    ensures
        r is Ok <==> engine@ is Some && left@.len() > 0 && left@.len() == right@.len()
            && sample_rate > 0,
        r matches Err(error) ==> if left@.len() > 0 && left@.len() == right@.len() && sample_rate
            > 0 {
            error is NotLoaded
        } else {
            error is InvalidInput
        },
        r matches Ok(separation) ==> {
            &&& engine@ matches Some((model, _)) && *separation.model == model
            &&& separation.bridge.listener == listener
            &&& separation.bridge.chunk == 0
            &&& !separation.bridge.cancelled
        },
{
    crate::chunks::input_is_separable_at_every_rate(left@.len(), right@.len(), sample_rate);
}

/// A separation follows as many chunks as the core counts for the length that
/// covers the input's duration at the models' rate.
pub proof fn separations_follow_the_cores_chunks<M, S, L, F: Fn(usize) -> usize>(
    engine: &FfiDemucsEngine<M>,
    left: &[S],
    right: &[S],
    sample_rate: u32,
    listener: L,
    core_chunks: F,
    separation: Separation<M, L>,
    length: usize,
)
    requires
        call_ensures(
            FfiDemucsEngine::<M>::separate::<S, L, F>,
            (engine, left, right, sample_rate, listener, core_chunks),
            Ok::<Separation<M, L>, FfiDemucsError>(separation),
        ),
        left@.len() <= usize::MAX,
        left@.len() * 44_100 <= length * sample_rate < left@.len() * 44_100 + sample_rate,
    ensures
        call_ensures(core_chunks, (length,), separation.bridge.total_chunks),
{
    crate::chunks::input_is_separable_at_every_rate(left@.len(), right@.len(), sample_rate);
    crate::chunks::length_is_the_covering_one(left@.len() as u64, sample_rate, length);
}

/// Every stem that the core separated is handed on, in the core's order, with
/// its own samples and name.
pub proof fn every_stem_is_handed_on<S>(stems: Vec<Stem<S>>, r: Result<Vec<FfiStem<S>>, FfiDemucsError>)
    requires
        call_ensures(finish_separation::<S>, (Ok::<Vec<Stem<S>>, DemucsError>(stems),), r),
    ensures
        r matches Ok(separated) && separated@.len() == stems@.len() && forall|i: int|
            0 <= i < stems@.len() ==> {
                &&& (#[trigger] separated@[i]).left == stems@[i].left
                &&& separated@[i].right == stems@[i].right
                &&& crate::stem::id_of(separated@[i].kind) == stems@[i].id
            },
{
}

/// A separation that the core could not do fails as the core says.
pub proof fn failed_separations_say_why<S>(
    error: DemucsError,
    r: Result<Vec<FfiStem<S>>, FfiDemucsError>,
)
    requires
        call_ensures(finish_separation::<S>, (Err::<Vec<Stem<S>>, DemucsError>(error),), r),
    ensures
        error is Cancelled ==> r matches Err(FfiDemucsError::Cancelled),
        error matches DemucsError::Failed { message } ==> r
            == Err::<Vec<FfiStem<S>>, FfiDemucsError>(
            FfiDemucsError::Inference { reason: message },
        ),
{
}

/// The questions about what an engine holds agree: a model can be run exactly
/// if one is said to be loaded, and exactly then its variant is known.
pub proof fn status_queries_agree<M>(
    engine: &FfiDemucsEngine<M>,
    loaded: bool,
    variant: Option<FfiDemucsModel>,
    model: Result<&M, FfiDemucsError>,
)
    requires
        call_ensures(FfiDemucsEngine::<M>::is_loaded, (engine,), loaded),
        call_ensures(FfiDemucsEngine::<M>::loaded_model, (engine,), variant),
        call_ensures(FfiDemucsEngine::<M>::warmup, (engine,), model),
    ensures
        loaded <==> variant is Some,
        loaded <==> model is Ok,
        model matches Err(error) ==> error is NotLoaded,
        loaded ==> engine@ == Some((*model->Ok_0, variant->0@)),
{
}

/// A worker's result is what it sent; a worker that sent nothing has panicked,
/// and is named.
pub proof fn worker_results_are_what_was_sent<T>(
    name: &str,
    sent: Option<T>,
    r: Result<T, FfiDemucsError>,
)
    requires
        call_ensures(worker_result::<T>, (name, sent), r),
    ensures
        r is Ok <==> sent is Some,
        r matches Ok(value) ==> sent == Some(value),
        r matches Err(error) ==> {
            &&& error matches FfiDemucsError::Inference { reason }
            &&& reason@.len() == name@.len() + " worker panicked"@.len()
            &&& reason@.take(name@.len() as int) == name@
            &&& reason@.skip(name@.len() as int) == " worker panicked"@
        },
{
    if let Err(FfiDemucsError::Inference { reason }) = r {
        assert(reason@.take(name@.len() as int) =~= name@);
        assert(reason@.skip(name@.len() as int) =~= " worker panicked"@);
    }
}

} // verus!
