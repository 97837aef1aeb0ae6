use chalkydri::cameras::{
    load_cameras, CamWrapper, CameraChoice, Control, NoCamera, StreamRole, FRAMES_PER_SECOND,
    FRAME_TIMEOUT_MS,
};
use chalkydri::frame::{
    frame_to_rgb, is_whole_frame, CHROMA_STRIDE, FRAME_HEIGHT, FRAME_WIDTH, RGB_LEN, RGB_STRIDE,
};

const LUMA: usize = 1920 * 1080;
const CHROMA: usize = 960 * 540;

/// The frame of three evenly filled planes, whose pixels are all alike.
fn flat(y: u8, u: u8, v: u8) -> [u8; 3] {
    let (y, u, v) = (vec![y; LUMA], vec![u; CHROMA], vec![v; CHROMA]);
    let rgb = frame_to_rgb(&vec![&y[..], &u[..], &v[..]]);
    assert_eq!(rgb.len(), RGB_LEN);
    let pixel = [rgb[0], rgb[1], rgb[2]];
    assert!(rgb.chunks(3).all(|p| p == &pixel[..]));
    pixel
}

/// Whether a channel is within four steps of what limited range BT.601 asks for.
fn close(weights: (i32, i32, i32), y: u8, u: u8, v: u8, c: u8) -> bool {
    let mix = |luma: i32| {
        let exact =
            weights.0 * luma + weights.1 * (u as i32 - 128) + weights.2 * (v as i32 - 128);
        exact.clamp(0, 255 * 8192)
    };
    let luma = y as i32 - 16;
    let c = c as i32 * 8192;
    mix(luma) - 4 * 8192 <= c && c <= mix(luma.max(0)) + 4 * 8192
}

#[test]
fn first_camera_is_chosen() {
    assert_eq!(
        load_cameras(&vec!["front".to_string(), "back".to_string()]),
        Ok(CameraChoice { index: 0, role: StreamRole::VideoRecording })
    );
}

#[test]
fn no_camera_is_an_error() {
    assert_eq!(load_cameras(&vec![]), Err(NoCamera));
    assert_eq!(NoCamera.message(), "connect a camera");
}

#[test]
fn every_buffer_gets_a_request() {
    let mut cam = CamWrapper::new();
    assert!(!cam.is_streaming());
    assert!(!cam.is_pending(0));
    assert_eq!(cam.next_completed(), None);
    let plans = cam.setup(4);
    assert!(cam.is_streaming());
    assert_eq!(plans.iter().map(|p| p.cookie).collect::<Vec<_>>(), [0, 1, 2, 3]);
    for plan in &plans {
        assert_eq!(
            plan.controls,
            [
                Control::AutoFocus,
                Control::FastFocus,
                Control::FullFocusRange,
                Control::AutoExposure(true),
                Control::ExposeForShadows,
                Control::MeterCentreWeighted,
                Control::FrameDuration(16),
            ]
        );
    }
    assert!(cam.is_pending(3));
    assert!(!cam.is_pending(4));
    assert_eq!(cam.next_completed(), None);
}

#[test]
fn camera_without_buffers_has_no_requests() {
    let mut cam = CamWrapper::new();
    assert!(cam.setup(0).is_empty());
    assert!(cam.is_streaming());
    assert!(!cam.is_pending(0));
}

#[test]
fn request_is_with_the_camera_or_completed() {
    let mut cam = CamWrapper::new();
    cam.setup(2);
    cam.complete(1);
    assert!(cam.is_pending(0));
    assert!(!cam.is_pending(1));
    assert_eq!(cam.next_completed(), Some(1));
    cam.complete(0);
    assert!(!cam.is_pending(0));
    assert_eq!(cam.next_completed(), Some(1));
}

#[test]
fn frames_keep_every_request() {
    let (y, u, v) = (vec![16u8; LUMA], vec![128u8; CHROMA], vec![128u8; CHROMA]);
    let planes = vec![&y[..], &u[..], &v[..]];
    let mut cam = CamWrapper::new();
    cam.setup(3);
    for cookie in [1, 0, 1, 2] {
        cam.complete(cookie);
        assert_eq!((0..4).filter(|c| cam.is_pending(*c)).count(), 2);
        assert_eq!(cam.get_frame(&planes), vec![0u8; RGB_LEN]);
        assert!((0..3).all(|c| cam.is_pending(c)));
        assert!(!cam.is_pending(3));
        assert_eq!(cam.next_completed(), None);
    }
}

#[test]
fn frames_come_in_order() {
    let (y, u, v) = (vec![235u8; LUMA], vec![128u8; CHROMA], vec![128u8; CHROMA]);
    let planes = vec![&y[..], &u[..], &v[..]];
    let mut cam = CamWrapper::new();
    cam.setup(3);
    for cookie in [2, 0, 1] {
        cam.complete(cookie);
    }
    for cookie in [2, 0, 1] {
        assert_eq!(cam.next_completed(), Some(cookie));
        assert_eq!(cam.get_frame(&planes), vec![255u8; RGB_LEN]);
        assert!(cam.is_pending(cookie));
    }
    assert_eq!(cam.next_completed(), None);
}

#[test]
fn frame_sizes_belong_together() {
    assert_eq!((FRAME_WIDTH, FRAME_HEIGHT), (1920, 1080));
    assert_eq!(CHROMA_STRIDE, 960);
    assert_eq!(RGB_STRIDE, 5760);
    assert_eq!(RGB_LEN, 6_220_800);
    assert_eq!(FRAME_TIMEOUT_MS, 2000);
    assert_eq!(FRAMES_PER_SECOND, 60);
}

#[test]
fn frame_needs_all_its_planes() {
    let (y, c) = (vec![0u8; LUMA], vec![0u8; CHROMA]);
    assert!(is_whole_frame(&vec![&y[..], &c[..], &c[..]]));
    assert!(is_whole_frame(&vec![&y[..], &c[..], &c[..], &c[..0]]));
    assert!(is_whole_frame(&vec![&y[..], &y[..], &y[..]]));
    assert!(!is_whole_frame(&vec![&y[..], &c[..]]));
    assert!(!is_whole_frame(&vec![&y[1..], &c[..], &c[..]]));
    assert!(!is_whole_frame(&vec![&y[..], &c[1..], &c[..]]));
    assert!(!is_whole_frame(&vec![&y[..], &c[..], &c[1..]]));
}

#[test]
fn neutral_chroma_is_grey() {
    assert_eq!(flat(0, 128, 128), [0, 0, 0]);
    assert_eq!(flat(16, 128, 128), [0, 0, 0]);
    assert_eq!(flat(235, 128, 128), [255, 255, 255]);
    assert_eq!(flat(255, 128, 128), [255, 255, 255]);
    let [r, g, b] = flat(126, 128, 128);
    assert!(r == g && g == b && r.abs_diff(128) <= 4);
}

#[test]
fn chroma_pulls_the_colour() {
    let [r, g, b] = flat(81, 90, 240);
    assert!(r >= 250 && g <= 4 && b <= 4);
    let [r, g, b] = flat(145, 54, 34);
    assert!(r <= 4 && g >= 250 && b <= 4);
    let [r, g, b] = flat(41, 240, 110);
    assert!(r <= 4 && g <= 4 && b >= 250);
}

#[test]
fn every_pixel_is_mixed_from_its_samples() {
    let y: Vec<u8> = (0..LUMA).map(|i| (i * 7 + i / 1920 * 13) as u8).collect();
    let u: Vec<u8> = (0..CHROMA).map(|i| (i * 5 + i / 960 * 3) as u8).collect();
    let v: Vec<u8> = (0..CHROMA).map(|i| (i * 11 + i / 960 * 29) as u8).collect();
    let rgb = frame_to_rgb(&vec![&y[..], &u[..], &v[..]]);
    for row in 0..1080 {
        for col in 0..1920 {
            let at = row * 1920 + col;
            let chroma = row / 2 * 960 + col / 2;
            let (y, u, v) = (y[at], u[chroma], v[chroma]);
            assert!(close((9539, 0, 13075), y, u, v, rgb[3 * at]));
            assert!(close((9539, -3209, -6660), y, u, v, rgb[3 * at + 1]));
            assert!(close((9539, 16525, 0), y, u, v, rgb[3 * at + 2]));
        }
    }
}
