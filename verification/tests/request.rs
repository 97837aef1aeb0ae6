use chalkydri::api::{Body, Response};
use chalkydri::calibration::{Event, SolverParams, IMAGE_LEN, REQUIRED_FRAMES};
use chalkydri::request::{CalibrateRequest, Task};

/// A request for which all features but one were collected.
fn nearly_collected() -> CalibrateRequest<u32> {
    let mut request = CalibrateRequest::new();
    for i in 1..REQUIRED_FRAMES as u32 {
        assert!(matches!(request.collected(Event::Searched(Some(i))), Task::AwaitFrame));
    }
    request
}

/// Whether the task is an attempt with the parameters that every attempt has.
fn is_attempt(task: &Task) -> bool {
    let expected = SolverParams {
        camera: 0,
        one_focal: false,
        fixed_focal: None,
        disabled_distortion_num: 0,
        solver_switch: false,
    };
    matches!(task, Task::Attempt(params) if *params == expected)
}

/// The response of the last task, and whether a model was found.
fn answer(task: Task) -> (Response, bool) {
    match task {
        Task::Respond { response, solved } => (response, solved),
        _ => panic!("no answer"),
    }
}

fn assert_served(response: &Response) {
    assert_eq!(response.status, 200);
    assert_eq!(response.content_type, None);
    assert_eq!(response.location, None);
    assert!(matches!(response.body, Body::Empty));
}

#[test]
fn request_begins_with_a_frame() {
    let mut request = CalibrateRequest::<u32>::new();
    assert!(request.observations().is_empty());
    assert!(matches!(request.collected(Event::NoFrame), Task::AwaitFrame));
    let bytes: Vec<u8> = (0..IMAGE_LEN).map(|i| (i % 241) as u8).collect();
    match request.collected(Event::Frame(bytes.clone(), 12)) {
        Task::Search(detection) => {
            assert_eq!(detection.image.as_bytes(), &bytes[..]);
            assert_eq!(detection.min_corners, 24);
            assert_eq!(detection.time_ns, 12);
        }
        _ => panic!("no search"),
    }
    assert!(matches!(request.collected(Event::Searched(None)), Task::AwaitFrame));
    assert!(request.observations().is_empty());
}

#[test]
fn collecting_comes_first() {
    let mut request = nearly_collected();
    assert!(matches!(request.collected(Event::NoFrame), Task::AwaitFrame));
    assert!(matches!(request.collected(Event::Searched(None)), Task::AwaitFrame));
    assert!(is_attempt(&request.collected(Event::Searched(Some(200)))));
    assert!(is_attempt(&request.collected(Event::Searched(Some(201)))));
    let expected: Vec<Option<u32>> = (1..=200).map(Some).collect();
    assert_eq!(request.observations(), expected);
}

#[test]
fn answer_comes_with_the_first_model() {
    let mut request = nearly_collected();
    assert!(is_attempt(&request.collected(Event::Searched(Some(200)))));
    assert!(is_attempt(&request.attempted(false)));
    let (response, solved) = answer(request.attempted(true));
    assert!(solved);
    assert_served(&response);
}

#[test]
fn failure_is_answered_alike() {
    let mut request = nearly_collected();
    assert!(is_attempt(&request.collected(Event::Searched(Some(200)))));
    for _ in 0..4 {
        assert!(is_attempt(&request.attempted(false)));
    }
    let (response, solved) = answer(request.attempted(false));
    assert!(!solved);
    assert_served(&response);
    assert_served(&answer(request.collected(Event::NoFrame)).0);
}

#[test]
fn last_attempt_counts() {
    let mut request = nearly_collected();
    assert!(is_attempt(&request.collected(Event::Searched(Some(200)))));
    for _ in 0..4 {
        assert!(is_attempt(&request.attempted(false)));
    }
    let (response, solved) = answer(request.attempted(true));
    assert!(solved);
    assert_served(&response);
}

#[test]
fn next_request_starts_afresh() {
    let mut first = nearly_collected();
    assert!(is_attempt(&first.collected(Event::Searched(Some(200)))));
    answer(first.attempted(true));
    let mut second = CalibrateRequest::<u32>::new();
    assert!(second.observations().is_empty());
    assert!(matches!(second.collected(Event::Searched(Some(7))), Task::AwaitFrame));
    assert_eq!(second.observations(), [Some(7)]);
}
