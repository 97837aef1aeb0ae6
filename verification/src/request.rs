//! A request to calibrate the camera, from its start to its response.

use vstd::prelude::*;

use crate::api::{calibrate, calibrated, Response};
use crate::calibration::{
    collected_after, collected_after_all, found_in, image_bytes, image_is_rgb8, image_size,
    law_attempts_go_on_until_solved, law_first_features_are_kept, searches,
    step_after, Action, Calibrator, Detection, Event, SolverParams, Step,
    MAX_ATTEMPTS, REQUIRED_FRAMES,
};

verus! {

/// What to do next to serve a request.
pub enum Task {
    /// Look for a new frame.
    AwaitFrame,
    /// Search a frame for the board.
    Search(Detection),
    /// Try to solve for the camera model, on the frames that were collected.
    Attempt(SolverParams),
    /// Answer the request. Whether a model was found is not part of the answer.
    Respond { response: Response, solved: bool },
}

/// What happens to a request.
pub enum Happening<F> {
    /// Something happened to the collection of frames.
    Collected(Event<F>),
    /// An attempt to solve for the camera model ended, with a model or without.
    Attempted(bool),
}

/// The model of a [`CalibrateRequest`].
#[verifier::ext_equal]
pub struct RequestState<F> {
    /// The features that were collected for this request.
    pub features: Seq<F>,
    /// The outcomes of the attempts that were made for it.
    pub outcomes: Seq<bool>,
}

impl<F> RequestState<F> {
    /// A request that has just come in: nothing is left of earlier ones.
    pub open spec fn start() -> RequestState<F> {
        RequestState { features: Seq::empty(), outcomes: Seq::empty() }
    }

    /// Enough features were collected.
    pub open spec fn is_collected(self) -> bool {
        self.features.len() == REQUIRED_FRAMES
    }

    /// An attempt is to be made: enough features were collected, no attempt found a model yet, and
    /// there were not too many.
    pub open spec fn is_solving(self) -> bool {
        self.is_collected() && step_after(self.outcomes) is Attempt
    }

    /// The request is to be answered.
    pub open spec fn is_over(self) -> bool {
        self.is_collected() && !(step_after(self.outcomes) is Attempt)
    }

    /// No more features are kept than are required, no attempt was made before there were that
    /// many, and none after one that found a model or after the last.
    pub open spec fn well_formed(self) -> bool {
        &&& self.features.len() <= REQUIRED_FRAMES
        &&& self.outcomes.len() > 0 ==> self.is_collected()
        &&& self.outcomes.len() <= MAX_ATTEMPTS
        &&& forall|i: int| 0 <= i < self.outcomes.len() - 1 ==> !#[trigger] self.outcomes[i]
    }

    /// What may happen: a frame that comes while frames are collected can be searched, and an
    /// attempt ends only where one was to be made.
    pub open spec fn allows(self, happening: Happening<F>) -> bool {
        match happening {
            Happening::Collected(event) => self.is_collected() || event.valid(),
            Happening::Attempted(_) => self.is_solving(),
        }
    }

    /// The state after something happened.
    pub open spec fn after(self, happening: Happening<F>) -> RequestState<F> {
        match happening {
            Happening::Collected(event) => RequestState {
                features: collected_after(self.features, event),
                ..self
            },
            Happening::Attempted(solved) => RequestState {
                outcomes: self.outcomes.push(solved),
                ..self
            },
        }
    }

    /// What is to be done once enough features were collected: an attempt, or the answer, which is
    /// the same whether the attempts found a model or not.
    pub open spec fn calls_for(self, task: Task) -> bool {
        match step_after(self.outcomes) {
            Step::Attempt(params) => task == Task::Attempt(params),
            Step::Solved => task matches Task::Respond { response, solved } && response@
                == calibrated() && solved,
            Step::Failed => task matches Task::Respond { response, solved } && response@
                == calibrated() && !solved,
        }
    }

    /// What is to be done after an event that led to this state: while features are missing, a
    /// frame is searched, and after anything else another is looked for.
    pub open spec fn calls_for_after(self, event: Event<F>, task: Task) -> bool {
        if self.is_collected() {
            self.calls_for(task)
        } else {
            match event {
                Event::Frame(bytes, elapsed_ns) => task matches Task::Search(detection) && searches(
                    Action::Search(detection),
                    bytes@,
                    elapsed_ns,
                ),
                _ => task == Task::AwaitFrame,
            }
        }
    }
}

/// A request to calibrate the camera that is being served.
pub struct CalibrateRequest<F> {
    calibrator: Calibrator<F>,
    outcomes: Vec<bool>,
}

impl<F> View for CalibrateRequest<F> {
    type V = RequestState<F>;

    closed spec fn view(&self) -> RequestState<F> {
        RequestState { features: self.calibrator@, outcomes: self.outcomes@ }
    }
}

impl<F> CalibrateRequest<F> {
    #[verifier::type_invariant]
    spec fn consistent(self) -> bool {
        self@.well_formed()
    }

    /// Begin to serve a request, with a new calibrator.
    pub fn new() -> (request: Self)
        ensures
            request@ == RequestState::<F>::start(),
            request@.well_formed(),
    {
        CalibrateRequest { calibrator: Calibrator::new(), outcomes: Vec::new() }
    }

    /// What to do after the attempts that were made, once enough features were collected.
    fn next_step(calibrator: &Calibrator<F>, outcomes: &Vec<bool>) -> (task: Task)
        ensures
            (RequestState { features: calibrator@, outcomes: outcomes@ }).calls_for(task),
    {
        match calibrator.calibrate(outcomes) {
            Step::Attempt(params) => Task::Attempt(params),
            Step::Solved => Task::Respond { response: calibrate(), solved: true },
            Step::Failed => Task::Respond { response: calibrate(), solved: false },
        }
    }

    /// Take note of what happened to the collection of frames and say what to do next. Once enough
    /// features were collected that is to calibrate.
    pub fn collected(&mut self, event: Event<F>) -> (task: Task)
        requires
            old(self)@.allows(Happening::Collected(event)),
        ensures
            final(self)@ == old(self)@.after(Happening::Collected(event)),
            final(self)@.calls_for_after(event, task),
            final(self)@.well_formed(),
            final(self)@.outcomes == old(self)@.outcomes,
            event matches Event::Searched(Some(found)) ==> (old(self)@.features.len() < 200
                ==> final(self)@.features == old(self)@.features.push(found)),
            !(event matches Event::Searched(Some(_)) && old(self)@.features.len() < 200)
                ==> final(self)@.features == old(self)@.features,
            event matches Event::Frame(bytes, elapsed_ns) ==> (old(self)@.features.len() < 200 ==> (
            task matches Task::Search(detection) && {
                &&& image_bytes(detection.image) == bytes@
                &&& image_size(detection.image) == (1280u32, 720u32)
                &&& image_is_rgb8(detection.image)
                &&& detection.min_corners == 24
                &&& detection.time_ns == elapsed_ns
            })),
            !(event is Frame) && final(self)@.features.len() < 200 ==> task is AwaitFrame,
            final(self)@.features.len() == 200 <==> task is Attempt || task is Respond,
            final(self)@.features.len() == 200 && final(self)@.outcomes.len() == 0
                ==> task is Attempt,
    {
        proof {
            use_type_invariant(&*self);
        }
        let mut taken = CalibrateRequest::new();
        std::mem::swap(self, &mut taken);
        let CalibrateRequest { mut calibrator, outcomes } = taken;
        let task = match calibrator.collect_data(event) {
            Action::AwaitFrame => Task::AwaitFrame,
            Action::Search(detection) => Task::Search(detection),
            Action::Finish => Self::next_step(&calibrator, &outcomes),
        };
        *self = CalibrateRequest { calibrator, outcomes };
        task
    }

    /// Take note of how an attempt ended and say what to do next: make another, or answer.
    pub fn attempted(&mut self, solved: bool) -> (task: Task)
        requires
            old(self)@.is_solving(),
        ensures
            final(self)@ == old(self)@.after(Happening::Attempted(solved)),
            final(self)@.calls_for(task),
            final(self)@.well_formed(),
            final(self)@.features == old(self)@.features,
            final(self)@.outcomes == old(self)@.outcomes.push(solved),
            task is Attempt <==> !solved && old(self)@.outcomes.len() < 4,
            !(task is Attempt) ==> (task matches Task::Respond { response, solved: found } && {
                &&& response.status == 200
                &&& response.content_type is None
                &&& response.location is None
                &&& response.body is Empty
                &&& found == solved
            }),
    {
        proof {
            use_type_invariant(&*self);
            lemma_well_formed_after(self@, Happening::Attempted(solved));
            law_one_success_or_five_failures_end_it(self@, solved);
        }
        let mut taken = CalibrateRequest::new();
        std::mem::swap(self, &mut taken);
        let CalibrateRequest { calibrator, mut outcomes } = taken;
        outcomes.push(solved);
        let task = Self::next_step(&calibrator, &outcomes);
        *self = CalibrateRequest { calibrator, outcomes };
        task
    }
}

impl<F: Clone> CalibrateRequest<F> {
    /// The observations of the camera that an attempt works on: the features of every frame that
    /// was collected for this request, in the order in which they were collected.
    pub fn observations(&self) -> (observations: Vec<Option<F>>)
        ensures
            observations@.len() == self@.features.len(),
            forall|i: int|
                0 <= i < self@.features.len() ==> (#[trigger] observations@[i] matches Some(
                    features,
                ) && cloned::<F>(self@.features[i], features)),
    {
        self.calibrator.observations()
    }
}

/// What may happen to a well-formed request leaves it so.
proof fn lemma_well_formed_after<F>(state: RequestState<F>, happening: Happening<F>)
    requires
        state.well_formed(),
        state.allows(happening),
    ensures
        state.after(happening).well_formed(),
{
    if let Happening::Attempted(_) = happening {
        assert forall|i: int| 0 <= i < state.outcomes.len() implies !#[trigger] state.outcomes[i] by {
            if state.outcomes[i] {
                assert(state.outcomes.contains(true));
            }
        }
    }
}

/// The state of a request after all that happened to it.
pub open spec fn reached<F>(history: Seq<Happening<F>>) -> RequestState<F>
    decreases history.len(),
{
    if history.len() == 0 {
        RequestState::start()
    } else {
        reached(history.drop_last()).after(history.last())
    }
}

/// Everything that happened to a request could happen when it did.
pub open spec fn possible<F>(history: Seq<Happening<F>>) -> bool {
    forall|i: int|
        0 <= i < history.len() ==> reached(history.take(i)).allows(#[trigger] history[i])
}

/// The events of the collection of frames among what happened.
pub open spec fn events_in<F>(history: Seq<Happening<F>>) -> Seq<Event<F>>
    decreases history.len(),
{
    if history.len() == 0 {
        Seq::empty()
    } else {
        match history.last() {
            Happening::Collected(event) => events_in(history.drop_last()).push(event),
            Happening::Attempted(_) => events_in(history.drop_last()),
        }
    }
}

/// The outcomes of the attempts among what happened.
pub open spec fn outcomes_in<F>(history: Seq<Happening<F>>) -> Seq<bool>
    decreases history.len(),
{
    if history.len() == 0 {
        Seq::empty()
    } else {
        match history.last() {
            Happening::Collected(_) => outcomes_in(history.drop_last()),
            Happening::Attempted(solved) => outcomes_in(history.drop_last()).push(solved),
        }
    }
}

/// What a request holds comes from what happened to it since it began.
proof fn lemma_reached<F>(history: Seq<Happening<F>>)
    ensures
        reached(history).features == collected_after_all(Seq::<F>::empty(), events_in(history)),
        reached(history).outcomes == outcomes_in(history),
    decreases history.len(),
{
    if history.len() > 0 {
        let before = history.drop_last();
        lemma_reached(before);
        if let Happening::Collected(event) = history.last() {
            assert(events_in(history).drop_last() =~= events_in(before));
        }
    }
}

/// A request can only come into a well-formed state.
proof fn lemma_reached_is_well_formed<F>(history: Seq<Happening<F>>)
    requires
        possible(history),
    ensures
        reached(history).well_formed(),
    decreases history.len(),
{
    if history.len() > 0 {
        let before = history.drop_last();
        let last = history.len() - 1;
        assert(history.take(last) =~= before);
        assert(possible(before)) by {
            assert forall|i: int| 0 <= i < before.len() implies reached(before.take(i)).allows(
                #[trigger] before[i],
            ) by {
                assert(before.take(i) =~= history.take(i));
                assert(before[i] == history[i]);
            }
        }
        lemma_reached_is_well_formed(before);
        assert(reached(history.take(last)).allows(history[last]));
        lemma_well_formed_after(reached(before), history.last());
    }
}

/// Attempts are due once 200 features are there, while fewer than five were made and none found a
/// model.
pub proof fn law_when_attempts_are_due<F>(state: RequestState<F>)
    ensures
        state.is_solving() <==> state.features.len() == 200 && state.outcomes.len() < 5 && forall|
            i: int,
        |
            0 <= i < state.outcomes.len() ==> !#[trigger] state.outcomes[i],
        state.allows(Happening::Attempted(true)) <==> state.is_solving(),
        state.allows(Happening::Attempted(false)) <==> state.is_solving(),
{
    law_attempts_go_on_until_solved(state.outcomes);
}

/// For a request, too, every new frame is searched while fewer than 200 features are there, however
/// many there are: all of it and from its first byte on. Every frame that is large enough may come.
pub proof fn law_request_searches_every_new_frame<F>(
    state: RequestState<F>,
    bytes: Vec<u8>,
    elapsed_ns: u128,
    task: Task,
)
    requires
        state.features.len() < 200,
        bytes@.len() >= 3 * 1280 * 720,
        elapsed_ns <= i64::MAX,
        state.after(Happening::Collected(Event::Frame(bytes, elapsed_ns))).calls_for_after(
            Event::Frame(bytes, elapsed_ns),
            task,
        ),
    ensures
        state.allows(Happening::Collected(Event::Frame(bytes, elapsed_ns))),
        state.after(Happening::Collected(Event::Frame(bytes, elapsed_ns))) == state,
        task is Search,
        task matches Task::Search(detection) ==> {
            &&& image_bytes(detection.image).len() == bytes@.len()
            &&& forall|i: int|
                0 <= i < bytes@.len() ==> #[trigger] image_bytes(detection.image)[i] == bytes@[i]
            &&& image_size(detection.image).0 == 1280
            &&& image_size(detection.image).1 == 720
            &&& image_is_rgb8(detection.image)
            &&& detection.min_corners == 24
            &&& detection.time_ns == elapsed_ns
        },
{
}

/// The result of a search adds to a request the features that it found, if any and if they are
/// still needed; with that a new frame is looked for, or the first attempt is made when the 200th
/// feature came.
pub proof fn law_request_takes_search_results<F>(
    state: RequestState<F>,
    found: Option<F>,
    task: Task,
)
    requires
        state.features.len() < 200,
        state.outcomes.len() == 0,
        state.after(Happening::Collected(Event::Searched(found))).calls_for_after(
            Event::Searched(found),
            task,
        ),
    ensures
        state.allows(Happening::Collected(Event::Searched(found))),
        state.after(Happening::Collected(Event::Searched(found))).outcomes == state.outcomes,
        found matches Some(features) ==> state.after(
            Happening::Collected(Event::Searched(found)),
        ).features == state.features + seq![features],
        found is None ==> state.after(Happening::Collected(Event::Searched(found))).features
            == state.features,
        task is AwaitFrame <==> state.features.len() < 199 || found is None,
        task is Attempt <==> state.features.len() == 199 && found is Some,
{
    law_attempts_go_on_until_solved(state.outcomes);
    if let Some(features) = found {
        assert(state.features.push(features) =~= state.features + seq![features]);
    }
}

/// Where there is no frame, a request stays as it is and looks for one, until it has its features.
pub proof fn law_request_waits_for_frames<F>(state: RequestState<F>, task: Task)
    requires
        state.features.len() < 200,
        state.after(Happening::Collected(Event::NoFrame)).calls_for_after(Event::NoFrame, task),
    ensures
        state.allows(Happening::Collected(Event::NoFrame)),
        state.after(Happening::Collected(Event::NoFrame)) == state,
        task is AwaitFrame,
{
}

/// Once a request has its 200 features, nothing that happens to the collection of frames changes it.
pub proof fn law_collected_request_stays<F>(state: RequestState<F>, event: Event<F>)
    requires
        state.features.len() == 200,
    ensures
        state.allows(Happening::Collected(event)),
        state.after(Happening::Collected(event)) == state,
{
}

/// An attempt that finds a model is the last, and so is the fifth; any other failure is followed by
/// another attempt. The features stay, the outcome is remembered, and the answer is successful and
/// empty either way.
pub proof fn law_one_success_or_five_failures_end_it<F>(state: RequestState<F>, solved: bool)
    requires
        state.is_solving(),
    ensures
        state.after(Happening::Attempted(solved)).features == state.features,
        state.after(Happening::Attempted(solved)).outcomes == state.outcomes + seq![solved],
        forall|task: Task|
            #[trigger] state.after(Happening::Attempted(solved)).calls_for(task) ==> {
                &&& task is Attempt <==> !solved && state.outcomes.len() < 4
                &&& !(task is Attempt) ==> (task matches Task::Respond { response, solved: found }
                    && {
                    &&& response.status == 200
                    &&& response.content_type is None
                    &&& response.location is None
                    &&& response.body is Empty
                    &&& found == solved
                })
                &&& task matches Task::Attempt(params) ==> {
                    &&& params.camera == 0
                    &&& !params.one_focal
                    &&& params.fixed_focal is None
                    &&& params.disabled_distortion_num == 0
                    &&& !params.solver_switch
                }
            },
{
    let next = state.after(Happening::Attempted(solved));
    assert(next.outcomes =~= state.outcomes + seq![solved]);
    assert(next.outcomes[state.outcomes.len() as int] == solved);
    law_attempts_go_on_until_solved(state.outcomes);
    law_attempts_go_on_until_solved(next.outcomes);
    assert forall|i: int| 0 <= i < state.outcomes.len() implies next.outcomes[i]
        == state.outcomes[i] by {}
    assert(forall|i: int| 0 <= i < state.outcomes.len() ==> !#[trigger] next.outcomes[i]);
}

/// A request works on features that were found while it was served and on no others: the first
/// ones, up to the number that is required. Its attempts, too, are its own.
pub proof fn law_request_starts_afresh<F>(history: Seq<Happening<F>>)
    ensures
        reached(history).features == (if found_in(events_in(history)).len() <= REQUIRED_FRAMES {
            found_in(events_in(history))
        } else {
            found_in(events_in(history)).take(REQUIRED_FRAMES as int)
        }),
        reached(history).outcomes == outcomes_in(history),
{
    lemma_reached(history);
    law_first_features_are_kept(events_in(history));
}

/// The camera is calibrated only after enough features were found while the request was served:
/// every attempt comes after that many, and works on exactly that many.
pub proof fn law_collecting_comes_first<F>(history: Seq<Happening<F>>, i: int)
    requires
        possible(history),
        0 <= i < history.len(),
        history[i] is Attempted,
    ensures
        found_in(events_in(history.take(i))).len() >= REQUIRED_FRAMES,
        reached(history.take(i)).features == found_in(events_in(history.take(i))).take(
            REQUIRED_FRAMES as int,
        ),
{
    let before = history.take(i);
    assert(reached(before).allows(history[i]));
    law_request_starts_afresh(before);
    let found = found_in(events_in(before));
    assert(found.len() == REQUIRED_FRAMES ==> found.take(REQUIRED_FRAMES as int) =~= found);
}

/// A request is answered only after enough features were found and one to five attempts were made
/// while it was served, of which the last found a model or none did. The answer is always the
/// same.
pub proof fn law_answer_comes_last<F>(history: Seq<Happening<F>>, event: Event<F>, task: Task)
    requires
        possible(history),
        reached(history).calls_for_after(event, task),
        task is Respond,
    ensures
        reached(history).is_over(),
        found_in(events_in(history)).len() >= REQUIRED_FRAMES,
        1 <= outcomes_in(history).len() <= MAX_ATTEMPTS,
        task->response@ == calibrated(),
        task->solved == outcomes_in(history).last(),
        task->solved || (outcomes_in(history).len() == MAX_ATTEMPTS && !outcomes_in(
            history,
        ).contains(true)),
        forall|i: int|
            0 <= i < outcomes_in(history).len() - 1 ==> !#[trigger] outcomes_in(history)[i],
{
    law_request_starts_afresh(history);
    lemma_reached_is_well_formed(history);
    let outcomes = outcomes_in(history);
    if outcomes.contains(true) {
        let i = choose|i: int| 0 <= i < outcomes.len() && outcomes[i];
        assert(i == outcomes.len() - 1);
    } else {
        assert(!outcomes.last()) by {
            if outcomes[outcomes.len() - 1] {
                assert(outcomes.contains(true));
            }
        }
    }
}

} // verus!
