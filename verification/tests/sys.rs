use std::collections::VecDeque;

use nano9::sys::{
    capture_file_name, exit_code, extcmd, pump_ready_queue, queue_startup_headless, queue_startup_window,
    screenshot_rgb, CaptureKind, CartArgs, ExtcmdAction, ExtcmdRequest, PumpAction, PumpWorld, ReadyQueue,
    ScreenshotError,
};

fn world() -> PumpWorld {
    PumpWorld {
        run_ready: false,
        canvas_size: Some((2, 2)),
        headless: false,
        has_image_target: false,
        windows: vec![(7, false)],
        written: vec![],
    }
}

#[test]
fn load_stores_arguments_and_names_the_cart() {
    let mut args = CartArgs::default();
    assert_eq!(args.load(Some("next.p8"), Some("crumb"), None), Some("next.p8".to_string()));
    assert_eq!(args.breadcrumb, "crumb");
    assert_eq!(args.param, "");
    assert_eq!(args.load(Some(""), None, Some("p")), None);
    assert_eq!(args.breadcrumb, "");
    assert_eq!(args.param, "p");
    assert_eq!(args.load(None, None, None), None);
}

#[test]
fn startup_requests() {
    let w = queue_startup_window(3);
    assert!(matches!(w[0], ExtcmdRequest::WaitTilReady));
    assert!(matches!(w[1], ExtcmdRequest::RevealWindow(3)));
    let h = queue_startup_headless();
    assert_eq!(h.len(), 1);
    assert!(matches!(h[0], ExtcmdRequest::WaitTilReady));
}

#[test]
fn pump_waits_until_ready_then_reveals_the_window() {
    let mut rq = ReadyQueue::default();
    let mut incoming: VecDeque<ExtcmdRequest> = queue_startup_window(7).into_iter().collect();
    let mut w = world();
    let actions = pump_ready_queue(&mut rq, &mut incoming, &w);
    assert!(actions.is_empty());
    assert!(incoming.is_empty());
    assert!(matches!(rq.current, Some(ExtcmdRequest::WaitTilReady)));

    w.run_ready = true;
    let actions = pump_ready_queue(&mut rq, &mut incoming, &w);
    assert_eq!(actions.len(), 1);
    assert!(matches!(actions[0], PumpAction::ShowWindow(7)));
    assert!(matches!(rq.current, Some(ExtcmdRequest::RevealWindow(7))));

    w.windows = vec![(7, true)];
    let actions = pump_ready_queue(&mut rq, &mut incoming, &w);
    assert!(actions.is_empty());
    assert!(rq.current.is_none());
    assert!(rq.queue.is_empty());
}

#[test]
fn pump_takes_a_screenshot_then_waits_for_it() {
    let mut rq = ReadyQueue::default();
    let mut incoming = VecDeque::new();
    incoming.push_back(ExtcmdRequest::StartScreenshot("shot.png".to_string()));
    incoming.push_back(ExtcmdRequest::Shutdown);
    let mut w = world();
    w.windows = vec![(7, true)];
    let actions = pump_ready_queue(&mut rq, &mut incoming, &w);
    assert_eq!(actions.len(), 1);
    match &actions[0] {
        PumpAction::Screenshot { path, canvas_size, ticket, to_image } => {
            assert_eq!(path, "shot.png");
            assert_eq!(*canvas_size, (2, 2));
            assert_eq!(*ticket, 0);
            assert!(!to_image);
        }
        other => panic!("unexpected {:?}", other),
    }
    assert!(matches!(rq.current, Some(ExtcmdRequest::WaitForScreenshot(0))));
    assert_eq!(rq.next_ticket, 1);

    w.written = vec![0];
    let actions = pump_ready_queue(&mut rq, &mut incoming, &w);
    assert_eq!(actions.len(), 1);
    assert!(matches!(actions[0], PumpAction::Exit));
    assert!(rq.current.is_none());
}

#[test]
fn headless_screenshot_needs_an_image_target() {
    let mut rq = ReadyQueue::default();
    let mut incoming = VecDeque::new();
    incoming.push_back(ExtcmdRequest::StartScreenshot("a.png".to_string()));
    let mut w = world();
    w.headless = true;
    assert!(pump_ready_queue(&mut rq, &mut incoming, &w).is_empty());
    w.has_image_target = true;
    let actions = pump_ready_queue(&mut rq, &mut incoming, &w);
    assert!(matches!(actions[0], PumpAction::Screenshot { to_image: true, .. }));
}

#[test]
fn missing_window_is_skipped() {
    let mut rq = ReadyQueue::default();
    let mut incoming = VecDeque::new();
    incoming.push_back(ExtcmdRequest::RevealWindow(99));
    incoming.push_back(ExtcmdRequest::Shutdown);
    let actions = pump_ready_queue(&mut rq, &mut incoming, &world());
    assert_eq!(actions.len(), 1);
    assert!(matches!(actions[0], PumpAction::Exit));
}

#[test]
fn extcmd_commands() {
    let mut name = None;
    match extcmd(&mut name, "screen", None) {
        ExtcmdAction::Screen(f) => assert_eq!(f, "nano9.png"),
        other => panic!("unexpected {:?}", other),
    }
    assert!(matches!(extcmd(&mut name, "set_filename", Some("cart")), ExtcmdAction::Nothing));
    assert_eq!(name.as_deref(), Some("cart"));
    match extcmd(&mut name, "audio_end", None) {
        ExtcmdAction::AudioEnd(f) => assert_eq!(f, "cart.wav"),
        other => panic!("unexpected {:?}", other),
    }
    assert!(matches!(extcmd(&mut name, "audio_rec", None), ExtcmdAction::AudioRecord));
    assert!(matches!(extcmd(&mut name, "shutdown", None), ExtcmdAction::Shutdown));
    assert!(matches!(extcmd(&mut name, "rec", None), ExtcmdAction::NotImplemented));
    assert_eq!(capture_file_name(&None, CaptureKind::Wav), "nano9.wav");
}

#[test]
fn exit_codes() {
    assert_eq!(exit_code(None), 0);
    assert_eq!(exit_code(Some(0)), 0);
    assert_eq!(exit_code(Some(3)), 3);
}

#[test]
fn screenshot_crops_and_scales() {
    // A 2x2 RGBA capture scaled to a 1x1 canvas keeps the top-left pixel.
    let data: [u8; 16] = [1, 2, 3, 4, 5, 6, 7, 8, 9, 10, 11, 12, 13, 14, 15, 16];
    assert_eq!(screenshot_rgb(Some(&data[..]), 2, 2, false, None, (1, 1)).unwrap(), vec![1, 2, 3]);
    // BGRA swaps red and blue.
    assert_eq!(screenshot_rgb(Some(&data[..]), 2, 2, true, None, (1, 1)).unwrap(), vec![3, 2, 1]);
    // A viewport of the bottom-right pixel.
    assert_eq!(
        screenshot_rgb(Some(&data[..]), 2, 2, false, Some((1, 1, 1, 1)), (1, 1)).unwrap(),
        vec![13, 14, 15]
    );
    // Scaling up repeats pixels.
    assert_eq!(
        screenshot_rgb(Some(&data[..]), 2, 2, false, Some((0, 0, 1, 1)), (2, 1)).unwrap(),
        vec![1, 2, 3, 1, 2, 3]
    );
}

#[test]
fn screenshot_errors() {
    assert_eq!(screenshot_rgb(None, 1, 1, false, None, (1, 1)), Err(ScreenshotError::NoData));
    assert_eq!(
        screenshot_rgb(Some(&[0u8, 0, 0][..]), 1, 1, false, None, (1, 1)),
        Err(ScreenshotError::TooSmall { len: 3, width: 1, height: 1 })
    );
}
