//! Camera calibration: which frames to look at, how many to collect, how often to try.

use vstd::prelude::*;

use crate::frame::shows;

verus! {

/// Corners of the board that a frame has to show to be of use.
pub const MIN_CORNERS: usize = 24;

/// Frames to collect before the camera is calibrated.
pub const REQUIRED_FRAMES: usize = 200;

/// Width of a calibration image in pixels.
pub const IMAGE_WIDTH: u32 = 1280;

/// Height of a calibration image in pixels.
pub const IMAGE_HEIGHT: u32 = 720;

/// Bytes that a calibration image has at least.
pub const IMAGE_LEN: usize = 2_764_800;

/// How often to try to calibrate a camera.
pub const MAX_ATTEMPTS: usize = 5;

/// An image of the image crate.
#[verifier::external_type_specification]
#[verifier::external_body]
pub struct ExDynamicImage(image::DynamicImage);

/// The bytes that an image keeps.
pub uninterp spec fn image_bytes(image: image::DynamicImage) -> Seq<u8>;

/// The width and the height of an image in pixels.
pub uninterp spec fn image_size(image: image::DynamicImage) -> (u32, u32);

/// Whether the bytes of an image are the red, green and blue channels of its pixels, eight bits
/// each.
pub uninterp spec fn image_is_rgb8(image: image::DynamicImage) -> bool;

/// Calls `image::RgbImage::from_vec`, which keeps the given buffer as the pixels of an image of
/// the given size if it has three bytes or more for each pixel, and refuses it otherwise; it also
/// refuses a width whose rows no buffer can hold. The image becomes the kind of
/// `image::DynamicImage` that has red, green and blue channels of eight bits.
#[verifier::external_body]
fn rgb_image(width: u32, height: u32, bytes: Vec<u8>) -> (made: Option<image::DynamicImage>)
    ensures
        made is Some <==> (3 * width <= usize::MAX && 3 * width * height <= bytes@.len()),
        made matches Some(image) ==> image_bytes(image) == bytes@,
        made matches Some(image) ==> image_size(image) == (width, height),
        made matches Some(image) ==> image_is_rgb8(image),
{
    image::RgbImage::from_vec(width, height, bytes).map(image::DynamicImage::ImageRgb8)
}

/// Where the camera model is read from: the system's configuration, or else the working directory.
pub fn model_path(in_etc: bool) -> (path: &'static str)
    ensures
        path@ == if in_etc {
            "/etc/cam0.json"@
        } else {
            "./cam0.json"@
        },
{
    if in_etc {
        "/etc/cam0.json"
    } else {
        "./cam0.json"
    }
}

/// A camera model that was measured before, as the calibration crate represents it.
pub struct CalibratedModel<M> {
    model: M,
}

impl<M> View for CalibratedModel<M> {
    type V = M;

    closed spec fn view(&self) -> M {
        self.model
    }
}

impl<M: Copy> CalibratedModel<M> {
    /// Keep a model that was loaded.
    pub fn new(model: M) -> (calibrated: Self)
        ensures
            calibrated@ == model,
    {
        CalibratedModel { model }
    }

    /// The model that was loaded.
    pub fn inner_model(&self) -> (model: M)
        ensures
            model == self@,
    {
        self.model
    }
}

/// A search for the corners of the board in one image.
pub struct Detection {
    /// Where to search.
    pub image: image::DynamicImage,
    /// How many corners must be found.
    pub min_corners: usize,
    /// When the image was taken, in nanoseconds since collecting began.
    pub time_ns: i64,
}

/// What happened to the collection of frames.
pub enum Event<F> {
    /// There is no frame that was not looked at yet, or the camera is gone.
    NoFrame,
    /// A new frame came, this many nanoseconds after collecting began.
    Frame(Vec<u8>, u128),
    /// A search ended: with the features of the frame, or without enough of them.
    Searched(Option<F>),
}

impl<F> Event<F> {
    /// A frame has a byte for each channel of each pixel of a calibration image, and its time fits
    /// the clock.
    pub open spec fn valid(self) -> bool {
        self matches Event::Frame(bytes, elapsed_ns) ==> bytes@.len() >= IMAGE_LEN && elapsed_ns
            <= i64::MAX
    }
}

/// What to do next in the collection of frames.
pub enum Action {
    /// Look for a new frame.
    AwaitFrame,
    /// Search a frame for the board.
    Search(Detection),
    /// Enough frames were collected.
    Finish,
}

/// What to do when no search is due: stop once enough frames were collected.
pub open spec fn idle_action(collected: nat) -> Action {
    if collected < REQUIRED_FRAMES {
        Action::AwaitFrame
    } else {
        Action::Finish
    }
}

/// The features that are kept after an event.
pub open spec fn collected_after<F>(features: Seq<F>, event: Event<F>) -> Seq<F> {
    match event {
        Event::Searched(Some(found)) if features.len() < REQUIRED_FRAMES => features.push(found),
        _ => features,
    }
}

/// The action for a frame is to search it, all of it, at its own time.
pub open spec fn searches(action: Action, bytes: Seq<u8>, elapsed_ns: u128) -> bool {
    action matches Action::Search(detection) && {
        &&& image_bytes(detection.image) == bytes
        &&& image_size(detection.image) == (IMAGE_WIDTH, IMAGE_HEIGHT)
        &&& image_is_rgb8(detection.image)
        &&& detection.min_corners == MIN_CORNERS
        &&& detection.time_ns == elapsed_ns
    }
}

/// What is to be done after an event that left these features.
pub open spec fn action_after<F>(features: Seq<F>, event: Event<F>, action: Action) -> bool {
    match event {
        Event::Frame(bytes, elapsed_ns) if features.len() < REQUIRED_FRAMES => searches(
            action,
            bytes@,
            elapsed_ns,
        ),
        _ => action == idle_action(features.len()),
    }
}

/// What to do next in a calibration.
#[derive(Clone, Copy, Debug, PartialEq, Eq, Structural)]
pub enum Step {
    /// Try to solve for the camera model.
    Attempt(SolverParams),
    /// A model was found.
    Solved,
    /// No attempt found a model.
    Failed,
}

/// The parameters of an attempt to solve for the camera model.
#[derive(Clone, Copy, Debug, PartialEq, Eq, Structural)]
pub struct SolverParams {
    /// The index of the camera.
    pub camera: usize,
    /// Whether both focal lengths are the same.
    pub one_focal: bool,
    /// The focal length, in pixels, where it is not to be solved for.
    pub fixed_focal: Option<u32>,
    /// How many distortion coefficients are left at zero.
    pub disabled_distortion_num: usize,
    /// The switch that the solver takes after the calibration parameters.
    pub solver_switch: bool,
}

/// The parameters of every attempt.
pub open spec fn solver_params() -> SolverParams {
    SolverParams {
        camera: 0,
        one_focal: false,
        fixed_focal: None,
        disabled_distortion_num: 0,
        solver_switch: false,
    }
}

/// What to do after attempts with the given outcomes, true where a model was found.
pub open spec fn step_after(outcomes: Seq<bool>) -> Step {
    if outcomes.contains(true) {
        Step::Solved
    } else if outcomes.len() < MAX_ATTEMPTS {
        Step::Attempt(solver_params())
    } else {
        Step::Failed
    }
}

/// A camera calibrator, with the features of the frames that it collected.
pub struct Calibrator<F> {
    frame_feats: Vec<F>,
}

impl<F> View for Calibrator<F> {
    type V = Seq<F>;

    closed spec fn view(&self) -> Seq<F> {
        self.frame_feats@
    }
}

impl<F> Calibrator<F> {
    /// Initialize a new calibrator.
    pub fn new() -> (calibrator: Self)
        ensures
            calibrator@ == Seq::<F>::empty(),
    {
        Calibrator { frame_feats: Vec::new() }
    }

    /// Process a frame: the search that it calls for.
    fn step(&self, bytes: Vec<u8>, elapsed_ns: u128) -> (action: Action)
        requires
            bytes@.len() >= IMAGE_LEN,
            elapsed_ns <= i64::MAX,
        ensures
            searches(action, bytes@, elapsed_ns),
            action matches Action::Search(detection) && {
                &&& image_bytes(detection.image) == bytes@
                &&& image_size(detection.image) == (1280u32, 720u32)
                &&& image_is_rgb8(detection.image)
                &&& detection.min_corners == 24
                &&& detection.time_ns == elapsed_ns
            },
    {
        let time_ns: i64 = elapsed_ns as i64;
        match rgb_image(IMAGE_WIDTH, IMAGE_HEIGHT, bytes) {
            Some(image) => Action::Search(
                Detection { image, min_corners: MIN_CORNERS, time_ns },
            ),
            None => {
                assert(false);
                Action::AwaitFrame
            },
        }
    }

    /// Collect data on some frames: take note of what happened and say what to do next, until
    /// enough frames were collected.
    pub fn collect_data(&mut self, event: Event<F>) -> (action: Action)
        requires
            old(self)@.len() < REQUIRED_FRAMES ==> event.valid(),
        ensures
            final(self)@ == collected_after(old(self)@, event),
            action_after(final(self)@, event, action),
            event matches Event::Searched(Some(found)) ==> (old(self)@.len() < 200 ==> final(self)@
                == old(self)@.push(found)),
            !(event matches Event::Searched(Some(_)) && old(self)@.len() < 200) ==> final(self)@
                == old(self)@,
            event matches Event::Frame(bytes, elapsed_ns) ==> (old(self)@.len() < 200 ==> (
            action matches Action::Search(detection) && {
                &&& image_bytes(detection.image) == bytes@
                &&& image_size(detection.image) == (1280u32, 720u32)
                &&& image_is_rgb8(detection.image)
                &&& detection.min_corners == 24
                &&& detection.time_ns == elapsed_ns
            })),
            !(event is Frame) && final(self)@.len() < 200 ==> action is AwaitFrame,
            action is Finish <==> final(self)@.len() >= 200,
    {
        match event {
            Event::NoFrame => {},
            Event::Frame(bytes, elapsed_ns) => {
                if self.frame_feats.len() < REQUIRED_FRAMES {
                    return self.step(bytes, elapsed_ns);
                }
            },
            Event::Searched(found) => {
                if let Some(features) = found {
                    if self.frame_feats.len() < REQUIRED_FRAMES {
                        self.frame_feats.push(features);
                    }
                }
            },
        }
        if self.frame_feats.len() < REQUIRED_FRAMES {
            Action::AwaitFrame
        } else {
            Action::Finish
        }
    }

    /// Calibrate: what to do after attempts with the given outcomes.
    pub fn calibrate(&self, outcomes: &Vec<bool>) -> (step: Step)
        ensures
            step == step_after(outcomes@),
            step is Solved <==> outcomes@.contains(true),
            step is Failed <==> !outcomes@.contains(true) && outcomes@.len() >= 5,
            step matches Step::Attempt(params) ==> {
                &&& params.camera == 0
                &&& !params.one_focal
                &&& params.fixed_focal is None
                &&& params.disabled_distortion_num == 0
                &&& !params.solver_switch
            },
    {
        let mut i: usize = 0;
        while i < outcomes.len()
            invariant
                i <= outcomes@.len(),
                forall|j: int| 0 <= j < i ==> !outcomes@[j],
            decreases outcomes@.len() - i,
        {
            if outcomes[i] {
                assert(outcomes@[i as int]);
                return Step::Solved;
            }
            i += 1;
        }
        if outcomes.len() < MAX_ATTEMPTS {
            Step::Attempt(
                SolverParams {
                    camera: 0,
                    one_focal: false,
                    fixed_focal: None,
                    disabled_distortion_num: 0,
                    solver_switch: false,
                },
            )
        } else {
            Step::Failed
        }
    }
}

impl<F: Clone> Calibrator<F> {
    /// The observations of the camera that an attempt works on: the features of every collected
    /// frame, in the order in which they were collected.
    pub fn observations(&self) -> (observations: Vec<Option<F>>)
        ensures
            observations@.len() == self@.len(),
            forall|i: int|
                0 <= i < self@.len() ==> (#[trigger] observations@[i] matches Some(features)
                    && cloned::<F>(self@[i], features)),
    {
        let mut observations: Vec<Option<F>> = Vec::new();
        let mut i: usize = 0;
        while i < self.frame_feats.len()
            invariant
                i <= self.frame_feats@.len(),
                observations@.len() == i,
                forall|k: int|
                    0 <= k < i ==> (#[trigger] observations@[k] matches Some(features)
                        && cloned::<F>(self.frame_feats@[k], features)),
            decreases self.frame_feats@.len() - i,
        {
            let features = self.frame_feats[i].clone();
            observations.push(Some(features));
            i += 1;
        }
        observations
    }
}

/// The features that are kept after some events.
pub open spec fn collected_after_all<F>(features: Seq<F>, events: Seq<Event<F>>) -> Seq<F>
    decreases events.len(),
{
    if events.len() == 0 {
        features
    } else {
        collected_after(collected_after_all(features, events.drop_last()), events.last())
    }
}

/// The features that the searches among some events found.
pub open spec fn found_in<F>(events: Seq<Event<F>>) -> Seq<F>
    decreases events.len(),
{
    if events.len() == 0 {
        Seq::empty()
    } else {
        match events.last() {
            Event::Searched(Some(found)) => found_in(events.drop_last()).push(found),
            _ => found_in(events.drop_last()),
        }
    }
}

/// Whatever happens, a calibrator keeps the features that were found first, in the order in which
/// they were found, up to the number that is required.
pub proof fn law_first_features_are_kept<F>(events: Seq<Event<F>>)
    ensures
        collected_after_all(Seq::<F>::empty(), events) == (if found_in(events).len()
            <= REQUIRED_FRAMES {
            found_in(events)
        } else {
            found_in(events).take(REQUIRED_FRAMES as int)
        }),
    decreases events.len(),
{
    if events.len() > 0 {
        let before = events.drop_last();
        law_first_features_are_kept(before);
        if let Event::Searched(Some(found)) = events.last() {
            let all = found_in(before).push(found);
            assert(found_in(events) == all);
            if found_in(before).len() == REQUIRED_FRAMES {
                assert(all.take(REQUIRED_FRAMES as int) =~= found_in(before));
            } else if found_in(before).len() > REQUIRED_FRAMES {
                assert(all.take(REQUIRED_FRAMES as int) =~= found_in(before).take(
                    REQUIRED_FRAMES as int,
                ));
            }
        }
    }
}

/// A frame can be searched if and only if it has three bytes or more for each pixel of 1280 by 720
/// and its time fits the clock; anything else that happens is in order.
pub proof fn law_large_frames_can_be_searched<F>(event: Event<F>)
    ensures
        event.valid() <==> match event {
            Event::Frame(bytes, elapsed_ns) => bytes@.len() >= 3 * 1280 * 720 && elapsed_ns
                <= i64::MAX,
            _ => true,
        },
{
}

/// While fewer than 200 features are there, however many there are, every new frame is searched:
/// as an image of 1280 by 720 pixels that has the frame's own bytes, all of them and from the first
/// one on, for 24 corners or more, at the frame's own time. The frame itself adds no feature.
pub proof fn law_every_new_frame_is_searched<F>(
    features: Seq<F>,
    bytes: Vec<u8>,
    elapsed_ns: u128,
    action: Action,
)
    requires
        features.len() < 200,
        action_after(
            collected_after(features, Event::Frame(bytes, elapsed_ns)),
            Event::<F>::Frame(bytes, elapsed_ns),
            action,
        ),
    ensures
        action is Search,
        collected_after(features, Event::Frame(bytes, elapsed_ns)) == features,
        action matches Action::Search(detection) ==> {
            &&& image_bytes(detection.image).len() == bytes@.len()
            &&& forall|i: int|
                0 <= i < bytes@.len() ==> #[trigger] image_bytes(detection.image)[i] == bytes@[i]
            &&& image_size(detection.image).0 == 1280
            &&& image_size(detection.image).1 == 720
            &&& image_is_rgb8(detection.image)
            &&& detection.min_corners == 24
            &&& detection.time_ns == elapsed_ns
        },
{
}

/// The image that is searched in a published frame of 1920 by 1080 pixels keeps all of the frame's
/// bytes, and its own pixels, row after row of 1280, are the first ones of the frame.
pub proof fn law_published_frame_is_searched_from_its_start<F>(
    features: Seq<F>,
    rgb: Vec<u8>,
    elapsed_ns: u128,
    action: Action,
    row: int,
    col: int,
    channel: int,
)
    requires
        features.len() < 200,
        rgb@.len() == 3 * 1920 * 1080,
        action_after(
            collected_after(features, Event::Frame(rgb, elapsed_ns)),
            Event::<F>::Frame(rgb, elapsed_ns),
            action,
        ),
        0 <= row < 720,
        0 <= col < 1280,
        0 <= channel < 3,
    ensures
        action matches Action::Search(detection) && {
            &&& image_bytes(detection.image).len() == 6_220_800
            &&& image_bytes(detection.image)[3 * (1280 * row + col) + channel] == rgb@[3 * (1280
                * row + col) + channel]
        },
{
    law_every_new_frame_is_searched(features, rgb, elapsed_ns, action);
}

/// While fewer than 200 features are there, those that a search found come behind them, and
/// nothing else that happens adds any; none is ever lost or changed.
pub proof fn law_found_features_are_added<F>(features: Seq<F>, event: Event<F>)
    ensures
        event matches Event::Searched(Some(found)) ==> (features.len() < 200 ==> collected_after(
            features,
            event,
        ) == features + seq![found]),
        event matches Event::Searched(Some(_)) ==> (features.len() >= 200 ==> collected_after(
            features,
            event,
        ) == features),
        !(event matches Event::Searched(Some(_))) ==> collected_after(features, event) == features,
{
    if let Event::Searched(Some(found)) = event {
        assert(features.push(found) =~= features + seq![found]);
    }
}

/// After anything but a new frame, another frame is looked for until 200 features are there; then,
/// whatever happened, collecting is over.
pub proof fn law_collecting_goes_on_until_finished<F>(
    features: Seq<F>,
    event: Event<F>,
    action: Action,
)
    requires
        action_after(collected_after(features, event), event, action),
    ensures
        collected_after(features, event).len() >= 200 <==> action is Finish,
        collected_after(features, event).len() < 200 && !(event is Frame) <==> action is AwaitFrame,
{
}

/// What to do after the attempts that were made, whatever their outcomes: one success is enough,
/// five failures are the end, and until then there is another attempt. All attempts are alike: on
/// the first camera, with two focal lengths that are both solved for and all distortion
/// coefficients.
pub proof fn law_attempts_go_on_until_solved(outcomes: Seq<bool>)
    ensures
        step_after(outcomes) is Solved <==> exists|i: int|
            0 <= i < outcomes.len() && #[trigger] outcomes[i],
        step_after(outcomes) is Attempt <==> outcomes.len() < 5 && forall|i: int|
            0 <= i < outcomes.len() ==> !#[trigger] outcomes[i],
        step_after(outcomes) matches Step::Attempt(params) ==> {
            &&& params.camera == 0
            &&& !params.one_focal
            &&& params.fixed_focal is None
            &&& params.disabled_distortion_num == 0
            &&& !params.solver_switch
        },
{
    if exists|i: int| 0 <= i < outcomes.len() && #[trigger] outcomes[i] {
        let i = choose|i: int| 0 <= i < outcomes.len() && #[trigger] outcomes[i];
        assert(outcomes.contains(outcomes[i]));
    }
}

/// Collecting is finished exactly when the required number of features is there, and then nothing
/// changes any more.
pub proof fn law_collecting_finishes<F>(features: Seq<F>, event: Event<F>, action: Action)
    requires
        features.len() <= REQUIRED_FRAMES,
        action_after(collected_after(features, event), event, action),
    ensures
        collected_after(features, event).len() <= REQUIRED_FRAMES,
        features.len() <= collected_after(features, event).len() <= features.len() + 1,
        features == collected_after(features, event).take(features.len() as int),
        action is Finish <==> collected_after(features, event).len() == REQUIRED_FRAMES,
        features.len() == REQUIRED_FRAMES ==> collected_after(features, event) == features,
{
    assert(features =~= collected_after(features, event).take(features.len() as int));
}

/// A calibration stops after at most five attempts: right after the first one that finds a model,
/// or after all of them if none does. `results` are the outcomes that the attempts would have.
pub proof fn law_calibration_stops(results: Seq<bool>) -> (attempts: nat)
    requires
        results.len() == MAX_ATTEMPTS,
    ensures
        1 <= attempts <= MAX_ATTEMPTS,
        forall|made: int|
            0 <= made < attempts ==> #[trigger] step_after(results.take(made)) is Attempt,
        results.contains(true) ==> step_after(results.take(attempts as int)) is Solved
            && results[attempts - 1],
        !results.contains(true) ==> attempts == MAX_ATTEMPTS && step_after(
            results.take(attempts as int),
        ) is Failed,
{
    let attempts: nat = if results[0] {
        1
    } else if results[1] {
        2
    } else if results[2] {
        3
    } else if results[3] {
        4
    } else {
        5
    };
    assert forall|made: int| 0 <= made < attempts implies #[trigger] step_after(
        results.take(made),
    ) is Attempt by {
        assert(!results.take(made).contains(true));
    }
    let tried = results.take(attempts as int);
    if results.contains(true) {
        assert(results[attempts - 1]);
        assert(tried[attempts - 1]);
    }
    attempts
}

/// Every frame that a camera publishes is large enough to calibrate with.
pub proof fn law_published_frames_are_accepted<F>(
    planes: Seq<&[u8]>,
    rgb: Vec<u8>,
    elapsed_ns: u128,
)
    requires
        shows(planes, rgb@),
        elapsed_ns <= i64::MAX,
    ensures
        Event::<F>::Frame(rgb, elapsed_ns).valid(),
{
}

} // verus!
