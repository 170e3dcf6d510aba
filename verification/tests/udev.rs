use steamos_manager::error::Failure;
use steamos_manager::udev::{
    process_usb_event, run_udev, single_poll, ListenEvent, MonitorEvent, MonitorStep, PollEvent,
    UdevEvent, UdevMonitor,
};

#[test]
fn usb_over_current() {
    let event = process_usb_event(true, Some("usb1-port2"), Some("3"), "/devices/usb1").unwrap();
    match event {
        Some(UdevEvent::OverCurrent {
            devpath,
            port,
            count,
        }) => {
            assert_eq!(devpath, "/devices/usb1");
            assert_eq!(port, "usb1-port2");
            assert_eq!(count, 3);
        }
        None => panic!("no event"),
    }
    assert!(process_usb_event(false, Some("p"), Some("3"), "d").unwrap().is_none());
    assert!(process_usb_event(true, None, Some("x"), "d").unwrap().is_none());
    assert!(process_usb_event(true, Some("p"), None, "d").unwrap().is_none());
    assert_eq!(
        process_usb_event(true, Some("p"), Some("x"), "d").unwrap_err().to_string(),
        "invalid digit found in string"
    );
}

#[test]
fn monitor_runs_once() {
    let mut monitor = UdevMonitor::init(true).unwrap();
    assert!(monitor.begin().is_ok());
    assert_eq!(
        monitor.begin().unwrap_err().to_string(),
        "UdevMonitor cannot be run twice"
    );
    assert_eq!(
        UdevMonitor::init(false).unwrap_err().to_string(),
        "Could not register UdevEvents1"
    );
}

#[test]
fn monitor_events() {
    match UdevMonitor::run(MonitorEvent::Event(None)) {
        MonitorStep::Stop(Err(e)) => assert_eq!(e.to_string(), "udev event pipe broke"),
        step => panic!("{step:?}"),
    }
    assert!(matches!(
        UdevMonitor::run(MonitorEvent::Finished(Ok(()))),
        MonitorStep::Stop(Ok(()))
    ));
    let event = process_usb_event(true, Some("p"), Some("1"), "d").unwrap();
    assert!(matches!(
        UdevMonitor::run(MonitorEvent::Event(event)),
        MonitorStep::Emit(UdevEvent::OverCurrent { count: 1, .. })
    ));
}

#[test]
fn poll_for_one_device() {
    let devices = |events: &[(bool, &str)]| {
        PollEvent::Readable(events.iter().map(|(hit, path)| (*hit, String::from(*path))).collect())
    };
    assert!(single_poll(devices(&[])).is_none());
    assert!(single_poll(devices(&[(false, "/a")])).is_none());
    assert_eq!(
        single_poll(devices(&[(false, "/a"), (true, "/b"), (true, "/c")])).unwrap().unwrap(),
        "/b"
    );
    assert_eq!(
        single_poll(PollEvent::TimedOut).unwrap().unwrap_err().to_string(),
        "Udev poller timed out"
    );
    assert_eq!(
        single_poll(PollEvent::UnknownFlags).unwrap().unwrap_err().to_string(),
        "Udev poller encountered unknown flags"
    );
}

#[test]
fn listener_events() {
    assert!(run_udev(ListenEvent::Readable(Ok(()))).is_none());
    assert_eq!(
        run_udev(ListenEvent::Readable(Err(Failure::new("oops!"))))
            .unwrap()
            .unwrap_err()
            .to_string(),
        "oops!"
    );
    assert!(run_udev(ListenEvent::Shutdown).unwrap().is_ok());
    assert_eq!(
        run_udev(ListenEvent::UnknownFlags).unwrap().unwrap_err().to_string(),
        "Event poller encountered unknown flags"
    );
}
