use chalkydri::calibration::{
    model_path, Action, CalibratedModel, Calibrator, Event, SolverParams, Step, IMAGE_HEIGHT,
    IMAGE_LEN, IMAGE_WIDTH, MAX_ATTEMPTS, MIN_CORNERS, REQUIRED_FRAMES,
};

const ATTEMPT: Step = Step::Attempt(SolverParams {
    camera: 0,
    one_focal: false,
    fixed_focal: None,
    disabled_distortion_num: 0,
    solver_switch: false,
});

#[test]
fn model_is_kept() {
    let model = CalibratedModel::new((3u8, 4u16));
    assert_eq!(model.inner_model(), (3, 4));
}

#[test]
fn model_is_read_from_the_system_first() {
    assert_eq!(model_path(true), "/etc/cam0.json");
    assert_eq!(model_path(false), "./cam0.json");
}

#[test]
fn numbers_belong_together() {
    assert_eq!((IMAGE_WIDTH, IMAGE_HEIGHT), (1280, 720));
    assert_eq!(IMAGE_LEN, 1280 * 720 * 3);
    assert_eq!(MIN_CORNERS, 24);
    assert_eq!(REQUIRED_FRAMES, 200);
    assert_eq!(MAX_ATTEMPTS, 5);
    assert!(chalkydri::frame::RGB_LEN >= IMAGE_LEN);
}

#[test]
fn frame_is_searched() {
    let mut calibrator = Calibrator::<u32>::new();
    let bytes: Vec<u8> = (0..IMAGE_LEN).map(|i| (i % 251) as u8).collect();
    match calibrator.collect_data(Event::Frame(bytes.clone(), 1_000_000_007)) {
        Action::Search(detection) => {
            assert_eq!(detection.image.width(), 1280);
            assert_eq!(detection.image.height(), 720);
            assert_eq!(detection.image.as_bytes(), &bytes[..]);
            assert!(detection.image.as_rgb8().is_some());
            assert_eq!(detection.min_corners, 24);
            assert_eq!(detection.time_ns, 1_000_000_007);
        }
        _ => panic!("no search"),
    }
    assert!(calibrator.observations().is_empty());
}

#[test]
fn larger_frame_is_searched_too() {
    let mut calibrator = Calibrator::<u32>::new();
    let bytes = vec![5u8; chalkydri::frame::RGB_LEN];
    match calibrator.collect_data(Event::Frame(bytes, i64::MAX as u128)) {
        Action::Search(detection) => {
            assert_eq!((detection.image.width(), detection.image.height()), (1280, 720));
            assert_eq!(detection.time_ns, i64::MAX);
        }
        _ => panic!("no search"),
    }
}

#[test]
fn frames_without_features_do_not_count() {
    let mut calibrator = Calibrator::<u32>::new();
    assert!(matches!(calibrator.collect_data(Event::NoFrame), Action::AwaitFrame));
    assert!(matches!(calibrator.collect_data(Event::Searched(None)), Action::AwaitFrame));
    assert!(calibrator.observations().is_empty());
    assert!(matches!(calibrator.collect_data(Event::Searched(Some(8))), Action::AwaitFrame));
    assert_eq!(calibrator.observations(), [Some(8)]);
}

#[test]
fn first_features_are_kept() {
    let mut calibrator = Calibrator::<u32>::new();
    for i in 0..199 {
        assert!(matches!(calibrator.collect_data(Event::Searched(Some(i))), Action::AwaitFrame));
    }
    assert!(matches!(calibrator.collect_data(Event::Searched(Some(199))), Action::Finish));
    assert!(matches!(calibrator.collect_data(Event::Searched(Some(200))), Action::Finish));
    assert!(matches!(calibrator.collect_data(Event::NoFrame), Action::Finish));
    assert!(matches!(calibrator.collect_data(Event::Frame(vec![], 0)), Action::Finish));
    let expected: Vec<Option<u32>> = (0..200).map(Some).collect();
    assert_eq!(calibrator.observations(), expected);
}

#[test]
fn calibration_stops_at_the_first_success() {
    let calibrator = Calibrator::<u32>::new();
    assert_eq!(calibrator.calibrate(&vec![]), ATTEMPT);
    assert_eq!(calibrator.calibrate(&vec![false, false]), ATTEMPT);
    assert_eq!(calibrator.calibrate(&vec![false, false, true]), Step::Solved);
    assert_eq!(calibrator.calibrate(&vec![true]), Step::Solved);
}

#[test]
fn calibration_gives_up_after_five_attempts() {
    let calibrator = Calibrator::<u32>::new();
    assert_eq!(calibrator.calibrate(&vec![false; 4]), ATTEMPT);
    assert_eq!(calibrator.calibrate(&vec![false; 5]), Step::Failed);
    assert_eq!(calibrator.calibrate(&vec![false, false, false, false, true]), Step::Solved);
}
