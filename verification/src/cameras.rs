//! Which camera to use, what to ask of it, and how its requests circulate.

use vstd::prelude::*;

use crate::frame::{frame_to_rgb, shows, whole_frame};

verus! {

/// How long to wait for a completed request, in milliseconds.
pub const FRAME_TIMEOUT_MS: u64 = 2000;

/// Frames that a camera delivers in a second.
pub const FRAMES_PER_SECOND: i64 = 60;

/// No camera is attached.
#[derive(Clone, Copy, Debug, PartialEq, Eq, Structural)]
pub struct NoCamera;

impl NoCamera {
    /// What to tell the user.
    pub fn message(&self) -> (text: &'static str)
        ensures
            text@ == "connect a camera"@,
    {
        "connect a camera"
    }
}

/// What the frames of a camera are for.
#[derive(Clone, Copy, Debug, PartialEq, Eq, Structural)]
pub enum StreamRole {
    /// A video that is recorded.
    VideoRecording,
}

/// The camera to use and what to use it for.
#[derive(Clone, Copy, Debug, PartialEq, Eq, Structural)]
pub struct CameraChoice {
    /// The index of the camera among the attached ones.
    pub index: usize,
    /// The purpose that it is configured for.
    pub role: StreamRole,
}

/// The camera to use among the attached ones: the first, to record a video.
pub fn load_cameras(ids: &Vec<String>) -> (chosen: Result<CameraChoice, NoCamera>)
    ensures
        ids@.len() > 0 ==> chosen == Ok::<CameraChoice, NoCamera>(
            CameraChoice { index: 0, role: StreamRole::VideoRecording },
        ),
        ids@.len() == 0 ==> chosen == Err::<CameraChoice, NoCamera>(NoCamera),
{
    if ids.len() > 0 {
        Ok(CameraChoice { index: 0, role: StreamRole::VideoRecording })
    } else {
        Err(NoCamera)
    }
}

/// A setting that a request carries to the camera.
#[derive(Clone, Copy, Debug, PartialEq, Eq, Structural)]
pub enum Control {
    /// Focus automatically.
    AutoFocus,
    /// Prefer fast focusing over smooth focusing.
    FastFocus,
    /// Search the full range of focus.
    FullFocusRange,
    /// Switch automatic exposure on or off.
    AutoExposure(bool),
    /// Keep detail in the shadows.
    ExposeForShadows,
    /// Give the centre of the image more weight in metering.
    MeterCentreWeighted,
    /// The time that one frame may take.
    FrameDuration(i64),
}

/// The settings of every request.
pub open spec fn standard_controls() -> Seq<Control> {
    seq![
        Control::AutoFocus,
        Control::FastFocus,
        Control::FullFocusRange,
        Control::AutoExposure(true),
        Control::ExposeForShadows,
        Control::MeterCentreWeighted,
        Control::FrameDuration(16),
    ]
}

/// A request to be made at start: the cookie that names it and its buffer, and its settings.
#[derive(Debug)]
pub struct RequestPlan {
    pub cookie: u64,
    pub controls: Vec<Control>,
}

/// The model of a [`RequestPlan`].
#[verifier::ext_equal]
pub struct RequestPlanView {
    pub cookie: u64,
    pub controls: Seq<Control>,
}

impl View for RequestPlan {
    type V = RequestPlanView;

    open spec fn view(&self) -> RequestPlanView {
        RequestPlanView { cookie: self.cookie, controls: self.controls@ }
    }
}

/// The settings of every request, in the order in which they are applied.
fn request_controls() -> (controls: Vec<Control>)
    ensures
        controls@ == standard_controls(),
{
    let duration: i64 = 1000 / FRAMES_PER_SECOND;
    let controls = vec![
        Control::AutoFocus,
        Control::FastFocus,
        Control::FullFocusRange,
        Control::AutoExposure(true),
        Control::ExposeForShadows,
        Control::MeterCentreWeighted,
        Control::FrameDuration(duration),
    ];
    assert(controls@ =~= standard_controls());
    controls
}

/// The model of a [`CamWrapper`].
#[verifier::ext_equal]
pub struct CamState {
    /// Whether the camera was started.
    pub streaming: bool,
    /// The cookies of the requests that the camera has to fulfil, the one that was handed in first
    /// at the front.
    pub pending: Seq<u64>,
    /// The cookies of the completed requests whose frame was not fetched yet, the one that was
    /// completed first at the front.
    pub completed: Seq<u64>,
}

impl CamState {
    /// The cookies of all requests, wherever they are.
    pub open spec fn requests(self) -> Seq<u64> {
        self.pending + self.completed
    }

    /// A camera that was not started has no requests; one that was has one for each of its
    /// buffers, named by the numbers from zero on, and none of them is in two places.
    pub open spec fn well_formed(self) -> bool {
        &&& !self.streaming ==> self.requests().len() == 0
        &&& self.requests().no_duplicates()
        &&& forall|cookie: u64|
            #[trigger] self.requests().contains(cookie) <==> cookie < self.requests().len()
    }

    /// The camera completes the request with this cookie.
    pub open spec fn after_completion(self, cookie: u64) -> CamState {
        CamState {
            pending: self.pending.remove(self.pending.index_of(cookie)),
            completed: self.completed.push(cookie),
            ..self
        }
    }

    /// The frame of the request that was completed first is fetched, and the request is handed to
    /// the camera again.
    pub open spec fn after_frame(self) -> CamState {
        CamState {
            pending: self.pending.push(self.completed[0]),
            completed: self.completed.drop_first(),
            ..self
        }
    }
}

/// The camera as a source of frames.
pub struct CamWrapper {
    streaming: bool,
    pending: Vec<u64>,
    completed: Vec<u64>,
}

impl View for CamWrapper {
    type V = CamState;

    closed spec fn view(&self) -> CamState {
        CamState {
            streaming: self.streaming,
            pending: self.pending@,
            completed: self.completed@,
        }
    }
}

/// Where in a queue the request with this cookie stands.
fn position(queue: &Vec<u64>, cookie: u64) -> (found: Option<usize>)
    ensures
        found is Some <==> queue@.contains(cookie),
        found matches Some(i) ==> i < queue@.len() && queue@[i as int] == cookie,
{
    let mut i: usize = 0;
    while i < queue.len()
        invariant
            i <= queue@.len(),
            forall|j: int| 0 <= j < i ==> queue@[j] != cookie,
        decreases queue@.len() - i,
    {
        if queue[i] == cookie {
            assert(queue@[i as int] == cookie);
            return Some(i);
        }
        i += 1;
    }
    None
}

impl CamWrapper {
    #[verifier::type_invariant]
    spec fn consistent(self) -> bool {
        self@.well_formed()
    }

    /// Wrap a configured camera.
    pub fn new() -> (cam: Self)
        ensures
            cam@ == (CamState {
                streaming: false,
                pending: Seq::empty(),
                completed: Seq::empty(),
            }),
            cam@.well_formed(),
    {
        CamWrapper { streaming: false, pending: Vec::new(), completed: Vec::new() }
    }

    /// Whether the camera was started.
    pub fn is_streaming(&self) -> (streaming: bool)
        ensures
            streaming == self@.streaming,
    {
        self.streaming
    }

    /// Whether the camera has the request with this cookie to fulfil.
    pub fn is_pending(&self, cookie: u64) -> (pending: bool)
        ensures
            pending == self@.pending.contains(cookie),
    {
        position(&self.pending, cookie).is_some()
    }

    /// The request whose frame is fetched next: the one that was completed first.
    pub fn next_completed(&self) -> (next: Option<u64>)
        ensures
            next == (if self@.completed.len() > 0 {
                Some(self@.completed[0])
            } else {
                None
            }),
    {
        if self.completed.len() > 0 {
            Some(self.completed[0])
        } else {
            None
        }
    }

    /// Set up the camera and request the first frames: the requests to make, one for each
    /// allocated buffer, in the order in which they are handed to the camera.
    pub fn setup(&mut self, buffers: usize) -> (plans: Vec<RequestPlan>)
        requires
            !old(self)@.streaming,
        ensures
            plans@.len() == buffers,
            forall|i: int|
                0 <= i < buffers ==> #[trigger] plans@[i]@ == (RequestPlanView {
                    cookie: i as u64,
                    controls: standard_controls(),
                }),
            forall|i: int|
                0 <= i < buffers ==> (#[trigger] plans@[i]).cookie == i && plans@[i].controls@
                    == seq![
                    Control::AutoFocus,
                    Control::FastFocus,
                    Control::FullFocusRange,
                    Control::AutoExposure(true),
                    Control::ExposeForShadows,
                    Control::MeterCentreWeighted,
                    Control::FrameDuration(16),
                ],
            final(self)@ == (CamState {
                streaming: true,
                pending: Seq::new(buffers as nat, |i: int| i as u64),
                completed: Seq::empty(),
            }),
            final(self)@.well_formed(),
    {
        let mut plans: Vec<RequestPlan> = Vec::new();
        let mut pending: Vec<u64> = Vec::new();
        let mut i: usize = 0;
        while i < buffers
            invariant
                i <= buffers,
                pending@ =~= Seq::new(i as nat, |k: int| k as u64),
                plans@.len() == i,
                forall|k: int|
                    0 <= k < i ==> #[trigger] plans@[k]@ == (RequestPlanView {
                        cookie: k as u64,
                        controls: standard_controls(),
                    }),
            decreases buffers - i,
        {
            let cookie: u64 = i as u64;
            plans.push(RequestPlan { cookie, controls: request_controls() });
            pending.push(cookie);
            i += 1;
        }
        proof {
            assert forall|i: int| 0 <= i < buffers implies (#[trigger] plans@[i]).cookie == i
                && plans@[i].controls@ == standard_controls() by {
                assert(plans@[i]@.cookie == i as u64);
            }
            let all = pending@ + Seq::<u64>::empty();
            assert forall|cookie: u64| #[trigger] all.contains(cookie) <==> cookie
                < all.len() by {
                if cookie < all.len() {
                    assert(all[cookie as int] == cookie);
                }
            }
        }
        *self = CamWrapper { streaming: true, pending, completed: Vec::new() };
        plans
    }

    /// The camera completed a request: its frame waits to be fetched.
    pub fn complete(&mut self, cookie: u64)
        requires
            old(self)@.pending.contains(cookie),
        ensures
            final(self)@ == old(self)@.after_completion(cookie),
            final(self)@.well_formed(),
            !final(self)@.pending.contains(cookie),
            final(self)@.completed == old(self)@.completed.push(cookie),
            final(self)@.streaming == old(self)@.streaming,
            exists|i: int|
                0 <= i < old(self)@.pending.len() && #[trigger] old(self)@.pending[i] == cookie
                    && final(self)@.pending == old(self)@.pending.take(i)
                    + old(self)@.pending.skip(i + 1),
    {
        proof {
            use_type_invariant(&*self);
            lemma_completion(self@, cookie);
            let i = self@.pending.index_of(cookie);
            law_completion_moves_a_request(self@, i);
            assert(self@.pending[i] == cookie);
        }
        let ghost before = self@;
        let mut taken = CamWrapper::new();
        std::mem::swap(self, &mut taken);
        let CamWrapper { streaming, mut pending, mut completed } = taken;
        if let Some(i) = position(&pending, cookie) {
            assert(i == before.pending.index_of(cookie)) by {
                lemma_places(before);
            }
            pending.remove(i);
        }
        completed.push(cookie);
        *self = CamWrapper { streaming, pending, completed };
    }

    /// Get a frame and request another: the frame in the planes of the request that was completed
    /// first, which is handed to the camera again with its buffer.
    pub fn get_frame(&mut self, planes: &Vec<&[u8]>) -> (rgb: Vec<u8>)
        requires
            old(self)@.completed.len() > 0,
            whole_frame(planes@),
        ensures
            shows(planes@, rgb@),
            final(self)@ == old(self)@.after_frame(),
            final(self)@.well_formed(),
            final(self)@.pending == old(self)@.pending.push(old(self)@.completed[0]),
            final(self)@.pending.contains(old(self)@.completed[0]),
            final(self)@.completed == old(self)@.completed.skip(1),
            final(self)@.streaming == old(self)@.streaming,
    {
        proof {
            use_type_invariant(&*self);
            lemma_frame(self@);
            law_frame_hands_its_request_back(self@);
        }
        let rgb = frame_to_rgb(planes);
        let mut taken = CamWrapper::new();
        std::mem::swap(self, &mut taken);
        let CamWrapper { streaming, mut pending, mut completed } = taken;
        let cookie: u64 = completed.remove(0);
        pending.push(cookie);
        assert(completed@ =~= old(self)@.completed.drop_first());
        *self = CamWrapper { streaming, pending, completed };
        rgb
    }
}

/// No request occurs twice in a queue, and none in both.
proof fn lemma_places(state: CamState)
    requires
        state.well_formed(),
    ensures
        state.pending.no_duplicates(),
        state.completed.no_duplicates(),
        forall|cookie: u64|
            state.requests().contains(cookie) <==> (#[trigger] state.pending.contains(cookie)
                || state.completed.contains(cookie)),
        forall|cookie: u64|
            !(#[trigger] state.pending.contains(cookie) && state.completed.contains(cookie)),
{
    let all = state.requests();
    let n = state.pending.len() as int;
    assert(forall|i: int| 0 <= i < n ==> all[i] == state.pending[i]);
    assert(forall|i: int|
        0 <= i < state.completed.len() ==> all[n + i] == #[trigger] state.completed[i]);
    assert forall|cookie: u64|
        state.requests().contains(cookie) <==> (#[trigger] state.pending.contains(cookie)
            || state.completed.contains(cookie)) by {
        if all.contains(cookie) {
            let k = choose|k: int| 0 <= k < all.len() && all[k] == cookie;
            if k < n {
                assert(state.pending[k] == cookie);
            } else {
                assert(state.completed[k - n] == cookie);
            }
        }
        if state.pending.contains(cookie) {
            let k = choose|k: int| 0 <= k < n && state.pending[k] == cookie;
            assert(all[k] == cookie);
        }
        if state.completed.contains(cookie) {
            let k = choose|k: int| 0 <= k < state.completed.len() && state.completed[k] == cookie;
            assert(all[n + k] == cookie);
        }
    }
    assert forall|i: int, j: int|
        0 <= i < n && 0 <= j < n && i != j implies state.pending[i] != state.pending[j] by {
        assert(all[i] != all[j]);
    }
    assert forall|i: int, j: int|
        0 <= i < state.completed.len() && 0 <= j < state.completed.len() && i
            != j implies state.completed[i] != state.completed[j] by {
        assert(all[n + i] != all[n + j]);
    }
    assert forall|cookie: u64|
        !(#[trigger] state.pending.contains(cookie) && state.completed.contains(cookie)) by {
        if state.pending.contains(cookie) && state.completed.contains(cookie) {
            let i = choose|i: int| 0 <= i < n && state.pending[i] == cookie;
            let j = choose|j: int| 0 <= j < state.completed.len() && state.completed[j] == cookie;
            assert(all[i] == all[n + j]);
        }
    }
}

/// Moving one request to the end of the line of all requests changes neither which requests there
/// are nor how often each occurs.
proof fn lemma_moved_to_end(all: Seq<u64>, i: int)
    requires
        0 <= i < all.len(),
    ensures
        all.remove(i).push(all[i]).len() == all.len(),
        all.remove(i).push(all[i]).to_multiset() =~= all.to_multiset(),
        forall|c: u64| #[trigger] all.remove(i).push(all[i]).contains(c) <==> all.contains(c),
        all.no_duplicates() ==> all.remove(i).push(all[i]).no_duplicates(),
{
    let next = all.remove(i).push(all[i]);
    all.to_multiset_ensures();
    all.remove(i).to_multiset_ensures();
    assert(all.to_multiset().count(all[i]) > 0) by {
        assert(all.contains(all[i]));
    }
    assert forall|c: u64| #[trigger] next.contains(c) <==> all.contains(c) by {
        if all.contains(c) {
            let k = choose|k: int| 0 <= k < all.len() && all[k] == c;
            if k < i {
                assert(next[k] == c);
            } else if k > i {
                assert(next[k - 1] == c);
            } else {
                assert(next[all.len() - 1] == c);
            }
        }
        if next.contains(c) {
            let k = choose|k: int| 0 <= k < next.len() && next[k] == c;
            if k < i {
                assert(all[k] == c);
            } else if k < all.len() - 1 {
                assert(all[k + 1] == c);
            } else {
                assert(all[i] == c);
            }
        }
    }
}

/// A completion keeps the camera well-formed and its requests the same.
proof fn lemma_completion(state: CamState, cookie: u64)
    requires
        state.well_formed(),
        state.pending.contains(cookie),
    ensures
        state.after_completion(cookie).well_formed(),
        state.after_completion(cookie).requests().to_multiset() =~= state.requests().to_multiset(),
{
    let all = state.requests();
    let i = state.pending.index_of(cookie);
    assert(0 <= i < state.pending.len() && state.pending[i] == cookie);
    assert(state.after_completion(cookie).requests() =~= all.remove(i).push(all[i]));
    lemma_moved_to_end(all, i);
}

/// Fetching a frame keeps the camera well-formed and its requests the same.
proof fn lemma_frame(state: CamState)
    requires
        state.well_formed(),
        state.completed.len() > 0,
    ensures
        state.after_frame().well_formed(),
        state.after_frame().requests().to_multiset() =~= state.requests().to_multiset(),
{
    assert(state.after_frame().requests() =~= state.requests());
}

/// Getting a frame hands the request that was completed first to the camera again, behind all that
/// the camera still has, and the other completed requests move up by one, however many there are.
pub proof fn law_frame_hands_its_request_back(state: CamState)
    requires
        state.completed.len() > 0,
    ensures
        state.after_frame().pending.contains(state.completed[0]),
        state.after_frame().pending == state.pending + seq![state.completed[0]],
        state.after_frame().completed == state.completed.skip(1),
        state.after_frame().completed.len() == state.completed.len() - 1,
        state.after_frame().streaming == state.streaming,
{
    let next = state.after_frame();
    assert(next.pending[state.pending.len() as int] == state.completed[0]);
    assert(next.pending =~= state.pending + seq![state.completed[0]]);
    assert(next.completed =~= state.completed.skip(1));
}

/// When the camera completes the request at place `i`, the request is no longer with the camera and
/// waits behind those that were completed before; the camera keeps the others, in their order.
pub proof fn law_completion_moves_a_request(state: CamState, i: int)
    requires
        state.well_formed(),
        0 <= i < state.pending.len(),
    ensures
        !state.after_completion(state.pending[i]).pending.contains(state.pending[i]),
        state.after_completion(state.pending[i]).pending == state.pending.take(i)
            + state.pending.skip(i + 1),
        state.after_completion(state.pending[i]).completed == state.completed + seq![
            state.pending[i],
        ],
        state.after_completion(state.pending[i]).streaming == state.streaming,
{
    let cookie = state.pending[i];
    lemma_places(state);
    assert(state.pending.contains(cookie));
    let k = state.pending.index_of(cookie);
    assert(0 <= k < state.pending.len() && state.pending[k] == cookie);
    assert(k == i);
    let next = state.after_completion(cookie);
    assert(next.pending =~= state.pending.take(i) + state.pending.skip(i + 1));
    assert(next.completed =~= state.completed + seq![cookie]);
    if next.pending.contains(cookie) {
        let j = choose|j: int| 0 <= j < next.pending.len() && next.pending[j] == cookie;
        let was = if j < i {
            j
        } else {
            j + 1
        };
        assert(state.pending[was] == cookie);
    }
}

/// With one request fetched after each that is completed, the camera never runs dry: after the two
/// steps it has as many requests as before, the same ones, and none waits that did not wait before.
pub proof fn law_camera_does_not_run_dry(state: CamState, cookie: u64)
    requires
        state.well_formed(),
        state.pending.contains(cookie),
    ensures
        state.after_completion(cookie).after_frame().pending.len() == state.pending.len(),
        state.after_completion(cookie).after_frame().completed.len() == state.completed.len(),
        state.completed.len() == 0 ==> forall|c: u64|
            #[trigger] state.after_completion(cookie).after_frame().pending.contains(c)
                <==> state.pending.contains(c),
{
    let i = state.pending.index_of(cookie);
    assert(state.pending[i] == cookie);
    law_completion_moves_a_request(state, i);
    let middle = state.after_completion(cookie);
    law_frame_hands_its_request_back(middle);
    if state.completed.len() == 0 {
        lemma_moved_to_end(state.pending, i);
        assert(middle.completed[0] == cookie);
        assert(middle.after_frame().pending =~= state.pending.remove(i).push(cookie));
    }
}

/// Every request at start carries the same seven settings: focus is automatic, fast and over the
/// full range, exposure is automatic, for the shadows and weighted to the centre, and a frame takes
/// the most whole milliseconds with which sixty frames still fit into a second.
pub proof fn law_every_request_is_set_alike(plan: RequestPlan, cookie: u64)
    requires
        plan@ == (RequestPlanView { cookie, controls: standard_controls() }),
    ensures
        plan.cookie == cookie,
        plan.controls@.len() == 7,
        plan.controls@.contains(Control::AutoFocus),
        plan.controls@.contains(Control::FastFocus),
        plan.controls@.contains(Control::FullFocusRange),
        plan.controls@.contains(Control::AutoExposure(true)),
        plan.controls@.contains(Control::ExposeForShadows),
        plan.controls@.contains(Control::MeterCentreWeighted),
        plan.controls@.last() matches Control::FrameDuration(time) && 60 * time <= 1000 < 60 * (time
            + 1),
{
    let controls = plan.controls@;
    assert(controls[0] == Control::AutoFocus);
    assert(controls[1] == Control::FastFocus);
    assert(controls[2] == Control::FullFocusRange);
    assert(controls[3] == Control::AutoExposure(true));
    assert(controls[4] == Control::ExposeForShadows);
    assert(controls[5] == Control::MeterCentreWeighted);
}

/// Each request that was made at start is at every time either with the camera or waiting for its
/// frame to be fetched, and never both; there are no other requests.
pub proof fn law_requests_are_in_one_place(state: CamState, cookie: u64)
    requires
        state.well_formed(),
    ensures
        cookie < state.pending.len() + state.completed.len() <==> (state.pending.contains(cookie)
            || state.completed.contains(cookie)),
        !(state.pending.contains(cookie) && state.completed.contains(cookie)),
        state.pending.no_duplicates(),
        state.completed.no_duplicates(),
{
    lemma_places(state);
    assert(state.requests().contains(cookie) <==> cookie < state.requests().len());
}

/// Neither completing a request nor getting a frame loses a request or makes one, so every buffer
/// stays in circulation.
pub proof fn law_frames_keep_every_request(state: CamState, cookie: u64)
    requires
        state.well_formed(),
    ensures
        state.pending.contains(cookie) ==> {
            let next = state.after_completion(cookie);
            &&& next.well_formed()
            &&& next.streaming == state.streaming
            &&& next.requests().to_multiset() =~= state.requests().to_multiset()
        },
        state.completed.len() > 0 ==> {
            let next = state.after_frame();
            &&& next.well_formed()
            &&& next.streaming == state.streaming
            &&& next.requests().to_multiset() =~= state.requests().to_multiset()
        },
{
    if state.pending.contains(cookie) {
        lemma_completion(state, cookie);
    }
    if state.completed.len() > 0 {
        lemma_frame(state);
    }
}

/// Frames are fetched in the order in which their requests were completed: a completion while
/// others wait does not change whose turn it is, and one while none waits is next.
pub proof fn law_frames_come_in_order(state: CamState, cookie: u64)
    requires
        state.well_formed(),
        state.pending.contains(cookie),
    ensures
        state.after_completion(cookie).completed[0] == (if state.completed.len() > 0 {
            state.completed[0]
        } else {
            cookie
        }),
        state.completed.len() > 0 ==> state.after_completion(cookie).after_frame()
            == state.after_frame().after_completion(cookie),
{
    lemma_places(state);
    if state.completed.len() > 0 {
        let done = state.completed[0];
        assert(state.completed.contains(done));
        let i = state.pending.index_of(cookie);
        let longer = state.pending.push(done);
        assert(longer[i] == cookie);
        assert(longer.index_of(cookie) == i) by {
            let j = longer.index_of(cookie);
            assert(longer.contains(cookie));
            assert(0 <= j < longer.len() && longer[j] == cookie);
            assert(cookie != done);
        }
        let one = state.after_completion(cookie).after_frame();
        let other = state.after_frame().after_completion(cookie);
        assert(one.pending =~= other.pending);
        assert(one.completed =~= other.completed);
    }
}

} // verus!
