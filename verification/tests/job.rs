use steamos_manager::error::{BusError, Failure};
use steamos_manager::job::{
    Job, JobManager, JobManagerAction, JobManagerCommand, JobManagerEvent, JobManagerOutcome,
    JobManagerService, JobSignal, MirrorStep, ProcessEnd, JOB_PREFIX,
};

fn exited(code: i32) -> ProcessEnd {
    ProcessEnd {
        code: Some(code),
        signal: None,
    }
}

fn killed(signal: i32) -> ProcessEnd {
    ProcessEnd {
        code: None,
        signal: Some(signal),
    }
}

fn words(error: BusError) -> String {
    match error {
        BusError::Failed(words) => words,
        error => panic!("{error:?}"),
    }
}

#[test]
fn test_job_emitted() {
    let mut pm = JobManager::new();
    assert!(pm.can_add_job());
    assert_eq!(pm.add_job(), "/com/steampowered/SteamOSManager1/Jobs/0");
    assert_eq!(pm.add_job(), "/com/steampowered/SteamOSManager1/Jobs/1");
}

#[test]
fn test_job_manager() {
    let mut false_process = Job::spawn();
    let mut true_process = Job::spawn();

    let mut pause_process = Job::spawn();
    assert_eq!(pause_process.pause().expect("pause"), JobSignal::Stop);
    assert_eq!(words(pause_process.pause().unwrap_err()), "Already paused");

    assert_eq!(pause_process.resume().expect("resume"), JobSignal::Cont);
    assert_eq!(words(pause_process.resume().unwrap_err()), "Not paused");

    assert_eq!(pause_process.wait(), None);
    assert_eq!(pause_process.wait_internal(), None);
    assert_eq!(pause_process.waited(Ok(exited(0))).unwrap(), 0);
    assert_eq!(pause_process.wait_internal(), Some(0));

    assert_eq!(false_process.waited(Ok(exited(1))).unwrap(), 1);
    assert_eq!(true_process.waited(Ok(exited(0))).unwrap(), 0);
}

#[test]
fn test_multikill() {
    let mut sleep_process = Job::spawn();
    assert_eq!(
        sleep_process.cancel(true, None).expect("kill"),
        Some(JobSignal::Kill)
    );
    assert_eq!(sleep_process.cancel_sent(), None);

    // Killing a process should be idempotent
    assert_eq!(sleep_process.cancel(true, Some(killed(9))).expect("kill"), None);
    assert_eq!(sleep_process.cancel(true, None).expect("kill"), None);

    assert_eq!(sleep_process.waited(Ok(exited(3))).unwrap(), -9);
}

#[test]
fn test_terminate_unpause() {
    let mut pause_process = Job::spawn();
    assert_eq!(pause_process.pause().expect("pause"), JobSignal::Stop);
    assert_eq!(pause_process.try_wait(None).expect("try_wait"), None);

    // Canceling a process should unpause it
    assert_eq!(
        pause_process.cancel(false, None).expect("cancel"),
        Some(JobSignal::Term)
    );
    assert_eq!(pause_process.cancel_sent(), Some(JobSignal::Cont));
    assert!(!pause_process.paused);
    assert_eq!(pause_process.waited(Ok(killed(15))).unwrap(), -15);
}

#[test]
fn wait_unpauses() {
    let mut job = Job::spawn();
    job.pause().expect("pause");
    assert_eq!(job.wait(), Some(JobSignal::Cont));
    assert_eq!(job.wait(), None);
}

#[test]
fn job_without_end() {
    let nothing = ProcessEnd {
        code: None,
        signal: None,
    };
    let mut job = Job::spawn();
    assert_eq!(
        job.update_exit_code(nothing).unwrap_err().to_string(),
        "Process exited without return code or signal"
    );
    assert_eq!(
        words(job.cancel(false, Some(nothing)).unwrap_err()),
        "Process exited without return code or signal"
    );
    assert_eq!(
        words(job.waited(Ok(nothing)).unwrap_err()),
        "Unable to get exit code"
    );
    assert_eq!(
        words(job.waited(Err(Failure::new("oops!"))).unwrap_err()),
        "Unable to get exit code"
    );
    assert_eq!(job.exit_code, None);
}

#[test]
fn signal_targets() {
    assert_eq!(Job::send_signal(Some(1234)).unwrap(), 1234);
    assert_eq!(
        Job::send_signal(None).unwrap_err().to_string(),
        "Unable to get pid from command, it likely finished running"
    );
    assert_eq!(
        Job::send_signal(Some(0x8000_0000)).unwrap_err().to_string(),
        "Unable to get pid_t from command out of range integral type conversion attempted"
    );
}

#[test]
fn job_mirrored_once() {
    let mut jm = JobManager::new();
    let remote = format!("{JOB_PREFIX}/0");
    let name = match jm.mirror_job("guid", &remote).expect("mirror_job") {
        MirrorStep::New(name) => name,
        MirrorStep::Known(path) => panic!("{path}"),
    };
    assert_eq!(name, "guid:/com/steampowered/SteamOSManager1/Jobs/0");
    jm.add_job();
    let path = jm.add_job();
    jm.mirrored_job(name.clone(), path.clone());
    match jm.mirror_job("guid", &remote).expect("mirror_job") {
        MirrorStep::Known(known) => assert_eq!(known, path),
        MirrorStep::New(name) => panic!("{name}"),
    }
    assert!(matches!(jm.mirror_job("other", &remote), Ok(MirrorStep::New(_))));
    jm.mirrored_job(name, String::from("/moved"));
    match jm.mirror_job("guid", &remote).expect("mirror_job") {
        MirrorStep::Known(known) => assert_eq!(known, "/moved"),
        MirrorStep::New(name) => panic!("{name}"),
    }
}

#[test]
fn mirror_needs_object_path() {
    let jm = JobManager::new();
    for path in ["", "jobs/0", "/jobs//0", "/jobs/", "/jobs/a-b", "/jobs/\u{e9}"] {
        assert!(jm.mirror_job("guid", path).is_err(), "{path}");
    }
    for path in ["/", "/jobs", "/jobs/0_a/Z9"] {
        assert!(jm.mirror_job("guid", path).is_ok(), "{path}");
    }
}

#[test]
fn jobs_of_connection() {
    let document = "<!DOCTYPE node PUBLIC
 \"-//freedesktop//DTD D-BUS Object Introspection 1.0//EN\"
 \"http://www.freedesktop.org/standards/dbus/1.0/introspect.dtd\">
<node>
  <interface name=\"org.freedesktop.DBus.Peer\"></interface>
  <node name=\"0\"/>
  <node/>
  <node name=\"12\"><node name=\"inner\"/></node>
</node>";
    assert_eq!(
        JobManager::mirror_connection(document).unwrap(),
        [
            "/com/steampowered/SteamOSManager1/Jobs/0",
            "/com/steampowered/SteamOSManager1/Jobs/12",
        ]
    );
    assert!(JobManager::mirror_connection("<node>").is_err());
    assert_eq!(
        JobManager::jobs_of(&vec![None, Some(String::from("7"))]),
        ["/com/steampowered/SteamOSManager1/Jobs/7"]
    );
}

#[test]
fn job_service_events() {
    let started = JobManagerEvent::JobStarted(String::from("/a"));
    match JobManagerService::run(started) {
        JobManagerAction::MirrorJob(path, reply) => assert_eq!((path.as_str(), reply), ("/a", false)),
        action => panic!("{action:?}"),
    }
    let mirror = JobManagerEvent::Message(Some(JobManagerCommand::MirrorJob(String::from("/b"))));
    match JobManagerService::run(mirror) {
        JobManagerAction::MirrorJob(path, reply) => assert_eq!((path.as_str(), reply), ("/b", true)),
        action => panic!("{action:?}"),
    }
    match JobManagerService::run(JobManagerEvent::Message(None)) {
        JobManagerAction::Stop(e) => assert_eq!(e.to_string(), "Job manager service channel broke"),
        action => panic!("{action:?}"),
    }
    let command = JobManagerEvent::Message(Some(JobManagerCommand::MirrorConnection));
    assert!(matches!(
        JobManagerService::run(command),
        JobManagerAction::MirrorConnection
    ));
}

#[test]
fn job_service_outcomes() {
    let handle = JobManagerService::handle_command;
    assert!(handle(JobManagerOutcome::Replied).is_ok());
    assert!(handle(JobManagerOutcome::Done(Ok(()))).is_ok());
    assert_eq!(
        handle(JobManagerOutcome::Done(Err(Failure::new("oops!"))))
            .unwrap_err()
            .to_string(),
        "oops!"
    );
    assert_eq!(
        handle(JobManagerOutcome::NotReplied(String::from("Ok(/a)")))
            .unwrap_err()
            .to_string(),
        "Failed to send reply Ok(/a)"
    );
}

#[test]
fn introspection_words() {
    let words = zbus_xml::Node::from_reader("<node>".as_bytes()).unwrap_err().to_string();
    assert_eq!(
        JobManager::mirror_connection("<node>").unwrap_err().to_string(),
        words
    );
}
