use steamos_manager::appid::{get_appid, read_comm, AppIdStep};
use steamos_manager::error::Failure;
use steamos_manager::sls::ftrace::Ftrace;
use steamos_manager::sls::{Level, LogLayer};

fn appid(environ: Option<&str>) -> Result<Option<u64>, Failure> {
    match environ {
        Some(environ) => match get_appid(environ, None) {
            AppIdStep::Known(appid) => Ok(appid),
            step => panic!("{step:?}"),
        },
        None => Err(Failure::new("No such file or directory")),
    }
}

fn comm(comm: Option<&str>) -> Result<String, Failure> {
    match comm {
        Some(comm) => Ok(read_comm(comm)),
        None => Err(Failure::new("No such file or directory")),
    }
}

#[test]
fn handle_pid() {
    let data = Ftrace::handle_pid(comm(Some("ftrace\n")), appid(Some("SteamGameId=5678")));
    assert_eq!(data.comm.as_deref(), Some("ftrace"));
    assert_eq!(data.appid, Some(5678));

    let data = Ftrace::handle_pid(comm(Some("ftrace\n")), appid(None));
    assert_eq!(data.comm.as_deref(), Some("ftrace"));
    assert_eq!(data.appid, None);

    let data = Ftrace::handle_pid(comm(None), appid(Some("SteamGameId=5678")));
    assert_eq!(data.comm, None);
    assert_eq!(data.appid, Some(5678));
}

#[test]
fn ftrace_init() {
    assert_eq!(
        Ftrace::setup_traces(),
        [
            ("events/oom/mark_victim/enable", "1"),
            ("set_ftrace_filter", "split_lock_warn"),
            ("current_tracer", "function"),
        ]
    );
}

#[test]
fn ftrace_relay() {
    let pid = Ftrace::handle_event(
        " GamepadUI Input-4886    [003] .N.1. 23828.572941: mark_victim: pid=14351",
    )
    .expect("event");
    assert_eq!(pid, Some(14351));
    let data = Ftrace::handle_pid(comm(Some("ftrace\n")), appid(Some("SteamGameId=5678")));
    assert_eq!(data.appid, Some(5678));
    assert_eq!(data.comm.as_deref(), Some("ftrace"));

    let pid = Ftrace::handle_event(
        " GamepadUI Input-4886    [003] .N.1. 23828.572941: split_lock_warn <-",
    )
    .expect("event");
    assert_eq!(pid, None);
    let data = Ftrace::no_data();
    assert!(data.comm.is_none() && data.appid.is_none());
}

#[test]
fn ftrace_odd_events() {
    assert_eq!(Ftrace::handle_event("").unwrap(), None);
    assert_eq!(Ftrace::handle_event("pid=7 ").unwrap(), None);
    assert_eq!(Ftrace::handle_event("x tpid=7").unwrap(), None);
    assert_eq!(Ftrace::handle_event("pid=7").unwrap(), Some(7));
    assert_eq!(
        Ftrace::handle_event("pid=-7").unwrap_err().to_string(),
        "invalid digit found in string"
    );
    assert_eq!(
        Ftrace::handle_event("pid=").unwrap_err().to_string(),
        "cannot parse integer from empty string"
    );
}

#[test]
fn forwarded_modules() {
    let module = |target: &str| LogLayer::on_event(target);
    assert_eq!(module("steamos_workerd::sls").as_deref(), Some("steamos_workerd"));
    assert_eq!(
        module("steamos_workerd::sls::ftrace").as_deref(),
        Some("steamos_workerd.ftrace")
    );
    assert_eq!(
        module("steamos_workerd::sls::a:::b::").as_deref(),
        Some("steamos_workerd.a.:b.")
    );
    assert_eq!(module("steamos_workerd::slsx").as_deref(), Some("steamos_workerd"));
    assert_eq!(module("steamos_workerd::job"), None);
    assert_eq!(module(""), None);
}

#[test]
fn forwarded_levels() {
    assert_eq!(LogLayer::level(Level::Trace), 10);
    assert_eq!(LogLayer::level(Level::Debug), 10);
    assert_eq!(LogLayer::level(Level::Info), 20);
    assert_eq!(LogLayer::level(Level::Warn), 30);
    assert_eq!(LogLayer::level(Level::Error), 40);
}
