use steamos_manager::ds_inhibit::{
    CanInhibit, CheckStep, HidNode, Inhibitor, InputDir, NodeWrite, Nodes, ProcessInfo, WatchMask, WatchStep,
};
use steamos_manager::error::{Failure, LastFailure};

fn input(name: &str, children: &[&str]) -> InputDir {
    InputDir {
        name: String::from(name),
        children: children.iter().map(|child| String::from(*child)).collect(),
    }
}

fn process(name: &str, link: Option<&str>, comm: &str) -> ProcessInfo {
    ProcessInfo {
        name: Some(String::from(name)),
        fds: Some(vec![None, link.map(String::from)]),
        comm: Some(String::from(comm)),
    }
}

/// What is written to the nodes of the device, given the processes.
fn check(hid: &HidNode, processes: &[ProcessInfo]) -> &'static str {
    for process in processes {
        match hid.check(Some(process)) {
            CheckStep::Next => (),
            CheckStep::Inhibit => return written(&hid.inhibit(&mice())),
            CheckStep::Uninhibit => panic!("too early"),
        }
    }
    assert_eq!(hid.check(None), CheckStep::Uninhibit);
    written(&hid.uninhibit(&mice()))
}

/// Inputs with one mouse.
fn mice() -> Vec<InputDir> {
    vec![input("input0", &["mouse0"])]
}

/// What the only write holds.
fn written(writes: &[NodeWrite]) -> &'static str {
    assert_eq!(writes.len(), 1);
    writes[0].data
}

#[test]
fn hid_nodes() {
    let hid = HidNode::new(0);
    assert_eq!(hid.sys_base(), "/sys/class/hidraw/hidraw0/device");
    assert_eq!(hid.hidraw(), "/dev/hidraw0");
    assert_eq!(
        hid.get_nodes(&vec![
            input("input0", &["foo0"]),
            input("input1", &["bar0"]),
            input("input2", &["mouse0"]),
        ]),
        [format!("{}/input/input2/inhibited", hid.sys_base())]
    );
    assert_eq!(
        hid.get_nodes(&vec![input("input7", &["mouse0", "event3", "mouse1"])]),
        [
            "/sys/class/hidraw/hidraw0/device/input/input7/inhibited",
            "/sys/class/hidraw/hidraw0/device/input/input7/inhibited",
        ]
    );
    assert_eq!(hid.input_dir(), "/sys/class/hidraw/hidraw0/device/input");
}

#[test]
fn hid_can_inhibit() {
    let can_inhibit = |driver: Option<&str>, inputs: Vec<InputDir>| {
        if HidNode::can_inhibit(driver, Nodes::NotListed) == CanInhibit::No {
            return false;
        }
        let nodes = HidNode::new(0).get_nodes(&inputs);
        HidNode::can_inhibit(driver, Nodes::Count(nodes.len())) == CanInhibit::Yes
    };
    assert!(!can_inhibit(Some("foo"), vec![input("input0", &["foo0"])]));
    assert!(!can_inhibit(Some("foo"), vec![input("input1", &["mouse0"])]));
    assert!(!can_inhibit(Some("sony"), vec![input("input2", &["foo1"])]));
    assert!(can_inhibit(Some("sony"), vec![input("input3", &["mouse1"])]));
    assert!(!can_inhibit(Some("playstation"), vec![input("input4", &["foo2"])]));
    assert!(can_inhibit(Some("playstation"), vec![input("input5", &["mouse2"])]));
    assert!(!can_inhibit(None, vec![input("input6", &["mouse3"])]));
    assert_eq!(
        HidNode::can_inhibit(Some("sony"), Nodes::NotListed),
        CanInhibit::ListNodes
    );
    assert_eq!(
        HidNode::can_inhibit(Some("sony"), Nodes::Failed),
        CanInhibit::No
    );
}

#[test]
fn hid_inhibit() {
    let hid = HidNode::new(0);
    let inputs = mice();
    assert_eq!(
        HidNode::can_inhibit(Some("sony"), Nodes::Count(hid.get_nodes(&inputs).len())),
        CanInhibit::Yes
    );
    let node = "/sys/class/hidraw/hidraw0/device/input/input0/inhibited";
    for (writes, data) in [(hid.inhibit(&inputs), "1\n"), (hid.uninhibit(&inputs), "0\n")] {
        assert_eq!(writes.len(), 1);
        assert_eq!((writes[0].file.as_str(), writes[0].data), (node, data));
    }
    assert!(hid.inhibit(&vec![input("input0", &["event0"])]).is_empty());
}

#[test]
fn hid_inhibit_error_continue() {
    let hid = HidNode::new(0);
    let inputs = vec![input("input0", &["mouse0"]), input("input1", &["mouse1"])];
    for (writes, data) in [(hid.inhibit(&inputs), "1\n"), (hid.uninhibit(&inputs), "0\n")] {
        let mut res = LastFailure::new(Ok(()));
        let mut written = Vec::new();
        for write in writes {
            if write.file.contains("input0") {
                res.record(Err(Failure::new("Is a directory")));
            } else {
                written.push((write.file, write.data));
                res.record(Ok(()));
            }
        }
        assert!(res.res.is_err());
        assert_eq!(
            written,
            [(
                String::from("/sys/class/hidraw/hidraw0/device/input/input1/inhibited"),
                data
            )]
        );
    }
}

#[test]
fn hid_check() {
    let hid = HidNode::new(0);
    assert_eq!(check(&hid, &[process("1", Some("/dev/hidraw0"), "steam\n")]), "1\n");
    assert_eq!(check(&hid, &[process("1", Some("/dev/hidraw0"), "epic\n")]), "0\n");
    assert_eq!(check(&hid, &[process("1", None, "steam\n")]), "0\n");
}

#[test]
fn hid_check_processes() {
    let hid = HidNode::new(12);
    assert_eq!(check(&hid, &[]), "0\n");
    assert_eq!(
        check(
            &hid,
            &[
                process("1", Some("/dev/hidraw1"), "steam\n"),
                process("self", Some("/dev/hidraw12"), "steam\n"),
                process("2", Some("/dev/hidraw12"), "steam"),
            ]
        ),
        "0\n"
    );
    assert_eq!(
        check(
            &hid,
            &[
                process("1", None, "steam\n"),
                process("2", Some("/dev//./hidraw12/"), "steam\n"),
            ]
        ),
        "1\n"
    );
    let mut odd = process("3", Some("/dev/hidraw12"), "steam\n");
    odd.name = None;
    assert_eq!(check(&hid, &[odd]), "0\n");
    let mut odd = process("3", Some("/dev/hidraw12"), "steam\n");
    odd.comm = None;
    assert_eq!(check(&hid, &[odd]), "0\n");
    let mut odd = process("3", Some("dev/hidraw12"), "steam\n");
    assert_eq!(hid.check(Some(&odd)), CheckStep::Next);
    odd.fds = None;
    assert_eq!(hid.check(Some(&odd)), CheckStep::Next);
}

#[test]
fn watched_devices() {
    assert_eq!(Inhibitor::watch(false, Some("hidraw3")), Some(HidNode::new(3)));
    assert_eq!(Inhibitor::watch(true, Some("hidraw3")), None);
    assert_eq!(Inhibitor::watch(false, Some("hidraw")), None);
    assert_eq!(Inhibitor::watch(false, Some("hidrawX")), None);
    assert_eq!(Inhibitor::watch(false, Some("sda1")), None);
    assert_eq!(Inhibitor::watch(false, None), None);
}

#[test]
fn watched_if_inhibitable() {
    let node = HidNode::new(3);
    assert_eq!(Inhibitor::watch_found(Some(node), CanInhibit::Yes), Some(node));
    assert_eq!(Inhibitor::watch_found(Some(node), CanInhibit::No), None);
    assert_eq!(Inhibitor::watch_found(Some(node), CanInhibit::ListNodes), None);
    assert_eq!(Inhibitor::watch_found(None, CanInhibit::Yes), None);
}

#[test]
fn inhibitor_events() {
    let mut inhibitor = Inhibitor::new(1);
    match inhibitor.process_event(1, WatchMask::Other, Some("hidraw0")) {
        WatchStep::WatchDevice(name) => assert_eq!(name, "hidraw0"),
        step => panic!("{step:?}"),
    }
    match inhibitor.process_event(1, WatchMask::Other, None) {
        WatchStep::Failed(e) => {
            assert_eq!(e.to_string(), "Got an event without an associated filename")
        }
        step => panic!("{step:?}"),
    }
    inhibitor.watched(2, HidNode::new(0));
    inhibitor.watched(3, HidNode::new(7));
    match inhibitor.process_event(2, WatchMask::Other, None) {
        WatchStep::Check(node) => assert_eq!(node, HidNode::new(0)),
        step => panic!("{step:?}"),
    }
    assert!(matches!(
        inhibitor.process_event(2, WatchMask::DeleteSelf, None),
        WatchStep::RemoveWatch
    ));
    assert!(matches!(
        inhibitor.process_event(2, WatchMask::Ignored, None),
        WatchStep::Nothing(false)
    ));
    assert!(matches!(
        inhibitor.process_event(2, WatchMask::Other, None),
        WatchStep::Nothing(true)
    ));
    inhibitor.watched(3, HidNode::new(8));
    let watches = inhibitor.shutdown();
    assert_eq!(watches.len(), 1);
    assert_eq!((watches[0].wd, watches[0].node), (3, HidNode::new(8)));
    assert!(inhibitor.shutdown().is_empty());
}

#[test]
fn inhibitor_start() {
    let mut inhibitor = Inhibitor::new(1);
    let node = Inhibitor::watch(false, Some("hidraw0")).expect("node");
    let steam = process("1", Some("/dev/hidraw0"), "steam\n");
    assert_eq!(check(&node, &[steam]), "1\n");
    inhibitor.watched(2, node);
    let watches = inhibitor.shutdown();
    assert_eq!(watches.len(), 1);
    assert_eq!(watches[0].node, node);
    assert_eq!(written(&watches[0].node.uninhibit(&mice())), "0\n");
}

#[test]
fn inhibitor_open_close() {
    let mut inhibitor = Inhibitor::new(1);
    let node = HidNode::new(0);
    assert_eq!(check(&node, &[process("1", None, "steam\n")]), "0\n");
    inhibitor.watched(2, node);
    let open = process("1", Some("/dev/hidraw0"), "steam\n");
    match inhibitor.process_event(2, WatchMask::Other, None) {
        WatchStep::Check(node) => assert_eq!(check(&node, &[open]), "1\n"),
        step => panic!("{step:?}"),
    }
    match inhibitor.process_event(2, WatchMask::Other, None) {
        WatchStep::Check(node) => {
            assert_eq!(check(&node, &[process("1", None, "steam\n")]), "0\n")
        }
        step => panic!("{step:?}"),
    }
}

/// A device appears, is watched and then opened by the client.
fn create_and_open(open_at_once: bool) -> &'static str {
    let mut inhibitor = Inhibitor::new(1);
    let name = match inhibitor.process_event(1, WatchMask::Other, Some("hidraw0")) {
        WatchStep::WatchDevice(name) => name,
        step => panic!("{step:?}"),
    };
    let node = Inhibitor::watch(false, Some(name)).expect("node");
    let nodes = node.get_nodes(&vec![input("input0", &["mouse0"])]);
    assert_eq!(
        HidNode::can_inhibit(Some("sony"), Nodes::Count(nodes.len())),
        CanInhibit::Yes
    );
    let link = if open_at_once { Some("/dev/hidraw0") } else { None };
    let mut written = check(&node, &[process("1", link, "steam\n")]);
    inhibitor.watched(2, node);
    if !open_at_once {
        assert_eq!(written, "0\n");
        written = match inhibitor.process_event(2, WatchMask::Other, None) {
            WatchStep::Check(node) => {
                check(&node, &[process("1", Some("/dev/hidraw0"), "steam\n")])
            }
            step => panic!("{step:?}"),
        };
    }
    written
}

#[test]
fn inhibitor_fast_create() {
    assert_eq!(create_and_open(true), "1\n");
}

#[test]
fn inhibitor_create() {
    assert_eq!(create_and_open(false), "1\n");
}

#[test]
fn devices_recognised() {
    for id in [0, 7, 10, 4294967295] {
        let node = HidNode::new(id);
        assert_eq!(Inhibitor::watch(false, Some(&format!("hidraw{id}"))), Some(node));
        let path = node.hidraw();
        assert_eq!(check(&node, &[process("1", Some(&path), "steam\n")]), "1\n");
    }
}
