use std::collections::HashMap;

use steamos_manager::daemon::config::{
    config_fragments, fragment_dir, join_path, optional, read_config, read_config_directory,
    read_state, state_path, write_state, ConfigSource, Reading,
};
use steamos_manager::daemon::root::{
    InhibitStep, RootCommand, RootContext, RootState, RootStep,
};
use steamos_manager::daemon::{
    Daemon, DaemonCommand, DaemonEvent, DaemonStep, StartEvent, StartStep,
};
use steamos_manager::error::{Failure, LastFailure};
use steamos_manager::service::{ServiceEnd, Stopped};

const FULL: &str = "value = 1\n\n[substate]\nsubvalue = 2\n";

/// A file system of texts by path.
struct Files {
    files: HashMap<String, String>,
}

impl Files {
    fn new(files: &[(&str, &str)]) -> Files {
        Files {
            files: files
                .iter()
                .map(|(path, text)| (String::from(*path), String::from(*text)))
                .collect(),
        }
    }

    fn read(&self, path: &str) -> Reading<String> {
        match self.files.get(path) {
            Some(text) => Reading::Contents(text.clone()),
            None => Reading::NotFound,
        }
    }

    fn list(&self, dir: &str) -> Reading<Vec<Vec<u8>>> {
        let prefix = format!("{dir}/");
        let names: Vec<Vec<u8>> = self
            .files
            .keys()
            .filter_map(|path| path.strip_prefix(&prefix))
            .map(|name| name.as_bytes().to_vec())
            .collect();
        if names.is_empty() {
            Reading::NotFound
        } else {
            Reading::Contents(names)
        }
    }

    /// The configuration that the sources come to, as `(value, subvalue)`.
    fn config(&self) -> (i64, i64) {
        let system = config_fragments(self.list(&fragment_dir("system"))).unwrap();
        let user = config_fragments(self.list(&fragment_dir("user"))).unwrap();
        let mut builder = config::Config::builder();
        for source in read_config("system", system, "user", user) {
            let path = match source {
                ConfigSource::File(path) => path,
                ConfigSource::Fragment(dir, name) => {
                    join_path(&dir, &String::from_utf8(name).unwrap())
                }
            };
            if let Some(text) = optional(self.read(&path)).unwrap() {
                builder = builder.add_source(config::File::from_str(
                    &text,
                    config::FileFormat::Toml,
                ));
            }
        }
        let config = builder.build().unwrap();
        (
            config.get_int("value").unwrap_or(0),
            config.get_int("substate.subvalue").unwrap_or(0),
        )
    }

    /// The state, as `(value, subvalue)`.
    fn state(&self) -> (i64, i64) {
        match read_state(self.read(&state_path("user"))).unwrap() {
            Some(text) => {
                let table: toml::Table = text.parse().unwrap();
                let number = |value: Option<&toml::Value>| {
                    value.and_then(|value| value.as_integer()).unwrap_or(0)
                };
                (
                    number(table.get("value")),
                    number(table.get("substate").and_then(|sub| sub.get("subvalue"))),
                )
            }
            None => (0, 0),
        }
    }
}

#[test]
fn test_read_state() {
    assert_eq!(Files::new(&[]).state(), (0, 0));
    assert_eq!(Files::new(&[("user/state.toml", FULL)]).state(), (1, 2));
}

#[test]
fn test_read_extra_state() {
    let text = "value = 1\nvalue2 = 3\n\n[substate]\nsubvalue = 2\n";
    assert_eq!(Files::new(&[("user/state.toml", text)]).state(), (1, 2));
}

#[test]
fn test_read_missing_state() {
    let text = "[substate]\nsubvalue = 2\n";
    assert_eq!(Files::new(&[("user/state.toml", text)]).state(), (0, 2));
}

#[test]
fn test_read_system_config() {
    assert_eq!(Files::new(&[]).config(), (0, 0));
    assert_eq!(Files::new(&[("system/config.toml", FULL)]).config(), (1, 2));
}

#[test]
fn test_read_user_config() {
    assert_eq!(Files::new(&[]).config(), (0, 0));
    assert_eq!(Files::new(&[("user/config.toml", FULL)]).config(), (1, 2));
}

#[test]
fn test_config_ordering() {
    let files = Files::new(&[
        ("system/config.toml", FULL),
        ("user/config.toml", "value = 3\n\n[substate]\nsubvalue = 4\n"),
    ]);
    assert_eq!(files.config(), (3, 4));
}

#[test]
fn test_config_partial_ordering() {
    assert_eq!(Files::new(&[("system/config.toml", FULL)]).config(), (1, 2));
    let files = Files::new(&[
        ("system/config.toml", FULL),
        ("user/config.toml", "value = 3\n"),
    ]);
    assert_eq!(files.config(), (3, 2));
}

#[test]
fn test_read_user_config_fragments() {
    assert_eq!(Files::new(&[("user/config.toml", FULL)]).config(), (1, 2));
    let files = Files::new(&[
        ("user/config.toml", FULL),
        ("user/config.toml.d/frag.toml", "[substate]\nsubvalue = 3\n"),
    ]);
    assert_eq!(files.config(), (1, 3));
}

#[test]
fn test_read_system_config_fragments() {
    assert_eq!(Files::new(&[("system/config.toml", FULL)]).config(), (1, 2));
    let files = Files::new(&[
        ("system/config.toml", FULL),
        ("system/config.toml.d/frag.toml", "[substate]\nsubvalue = 3\n"),
    ]);
    assert_eq!(files.config(), (1, 3));
}

#[test]
fn later_fragments_go_first() {
    let files = Files::new(&[
        ("system/config.toml.d/20.toml", "value = 20\n"),
        ("system/config.toml.d/10.toml", "value = 10\n"),
        ("system/config.toml.d/30.bak", "value = 30\n"),
    ]);
    assert_eq!(files.config(), (20, 0));
}

#[test]
fn fragments_by_extension_in_order() {
    let names = |names: &[&str]| -> Vec<Vec<u8>> {
        names.iter().map(|name| name.as_bytes().to_vec()).collect()
    };
    let toml = vec![String::from("toml")];
    assert_eq!(
        read_config_directory(
            names(&["b.toml", "a.toml", ".toml", "toml", "c.yaml", "B.toml", "a.toml.x", "..toml"]),
            &toml
        ),
        names(&["..toml", "B.toml", "a.toml", "b.toml"])
    );
    assert_eq!(
        read_config_directory(names(&["x.yml", "y.yaml", "z."]), &vec![
            String::from("yaml"),
            String::from("yml")
        ]),
        names(&["x.yml", "y.yaml"])
    );
    // Names need not be text.
    let odd = vec![vec![0xff, b'.', b't', b'o', b'm', b'l'], vec![b'a', b'.', 0xff]];
    assert_eq!(
        config_fragments(Reading::Contents(odd)).unwrap(),
        vec![vec![0xff, b'.', b't', b'o', b'm', b'l']]
    );
    assert!(config_fragments(Reading::NotFound).unwrap().is_empty());
    assert_eq!(
        config_fragments(Reading::Failed(Failure::new("oops!")))
            .unwrap_err()
            .to_string(),
        "oops!"
    );
}

#[test]
fn state_place() {
    let place = write_state("/etc/steamos-manager");
    assert_eq!(place.dir, "/etc/steamos-manager");
    assert_eq!(place.file, "/etc/steamos-manager/state.toml");
    assert_eq!(join_path("", "a"), "a");
    assert_eq!(join_path("/", "a"), "/a");
    assert_eq!(
        read_state(Reading::Failed(Failure::new("oops!")))
            .unwrap_err()
            .to_string(),
        "oops!"
    );
}

fn stopped<C: std::fmt::Debug>(step: DaemonStep<C>) -> Result<(), String> {
    match step {
        DaemonStep::Stop(result) => result.map_err(|e| e.to_string()),
        step => panic!("{step:?}"),
    }
}

#[test]
fn daemon_events() {
    let run = Daemon::run::<u8>;
    assert!(matches!(run(DaemonEvent::ServiceEnded(Ok(()))), DaemonStep::Continue));
    assert_eq!(
        stopped(run(DaemonEvent::ServiceEnded(Err(Failure::new("oops!"))))),
        Err(String::from("oops!"))
    );
    assert_eq!(stopped(run(DaemonEvent::CtrlC)), Ok(()));
    assert!(matches!(run(DaemonEvent::Sigterm(true)), DaemonStep::Continue));
    assert_eq!(
        stopped(run(DaemonEvent::Sigterm(false))),
        Err(String::from("SIGTERM machine broke"))
    );
    assert!(matches!(run(DaemonEvent::Sighup(true)), DaemonStep::ReadConfig));
    assert_eq!(
        stopped(run(DaemonEvent::Sighup(false))),
        Err(String::from("SIGHUP machine broke"))
    );
    assert_eq!(
        stopped(run(DaemonEvent::Message(None))),
        Err(String::from("All senders have been closed"))
    );
    assert_eq!(
        stopped(run(DaemonEvent::Sigquit)),
        Err(String::from("Got SIGQUIT"))
    );
    assert!(matches!(
        run(DaemonEvent::Message(Some(DaemonCommand::ContextCommand(7)))),
        DaemonStep::Command(7)
    ));
    assert!(matches!(
        run(DaemonEvent::Message(Some(DaemonCommand::ReadConfig))),
        DaemonStep::ReadConfig
    ));
    assert!(matches!(
        run(DaemonEvent::Message(Some(DaemonCommand::WriteState))),
        DaemonStep::WriteState
    ));
}

#[test]
fn daemon_after_steps() {
    assert!(matches!(Daemon::config_read::<u8>(true), DaemonStep::Reload));
    assert!(matches!(Daemon::config_read::<u8>(false), DaemonStep::Continue));
    assert!(matches!(Daemon::done::<u8>(Ok(())), DaemonStep::Continue));
    assert_eq!(
        stopped(Daemon::done::<u8>(Err(Failure::new("oops!")))),
        Err(String::from("oops!"))
    );
    assert!(Daemon::check_services(1).is_ok());
    assert_eq!(
        Daemon::check_services(0).unwrap_err().to_string(),
        "Can't run a daemon with no services attached."
    );
}

#[test]
fn daemon_last_failure_counts() {
    let mut end = LastFailure::new(Ok(()));
    end.record(Ok(()));
    assert!(end.res.is_ok());
    end.record(Err(Failure::new("first")));
    end.record(Err(Failure::new("second")));
    end.record(Ok(()));
    assert_eq!(end.res.unwrap_err().to_string(), "second");
    let mut end = LastFailure::new(Err(Failure::new("before")));
    end.record(Ok(()));
    assert_eq!(end.res.unwrap_err().to_string(), "before");
}

#[test]
fn service_ends() {
    let cancelled = Stopped::new(ServiceEnd::Cancelled);
    assert!(!cancelled.cancel);
    assert!(cancelled.start(Ok(())).is_ok());
    let failed = Stopped::new(ServiceEnd::Ran(Err(Failure::new("run"))));
    assert!(failed.cancel);
    assert_eq!(failed.start(Ok(())).unwrap_err().to_string(), "run");
    let failed = Stopped::new(ServiceEnd::Ran(Err(Failure::new("run"))));
    assert_eq!(
        failed
            .start(Err(Failure::new("shutdown")))
            .unwrap_err()
            .to_string(),
        "shutdown"
    );
}

#[test]
fn ds_inhibit_set_and_read_back() {
    let mut context = RootContext::new();
    assert!(context.state().services.ds_inhibit.enabled);
    assert_eq!(context.start(RootState::default()), InhibitStep::Start);
    assert_eq!(
        context.handle_command(RootCommand::GetDsInhibit),
        RootStep::Answer(false)
    );
    context.ds_inhibit_started();
    assert_eq!(
        context.handle_command(RootCommand::GetDsInhibit),
        RootStep::Answer(true)
    );
    assert_eq!(
        context.handle_command(RootCommand::SetDsInhibit(true)),
        RootStep::Inhibit(InhibitStep::Nothing)
    );
    assert_eq!(
        context.handle_command(RootCommand::SetDsInhibit(false)),
        RootStep::Inhibit(InhibitStep::Cancel)
    );
    assert_eq!(
        context.handle_command(RootCommand::GetDsInhibit),
        RootStep::Answer(false)
    );
    assert!(!context.state().services.ds_inhibit.enabled);
    assert_eq!(
        context.handle_command(RootCommand::SetDsInhibit(false)),
        RootStep::Inhibit(InhibitStep::Nothing)
    );
    assert_eq!(
        context.handle_command(RootCommand::SetDsInhibit(true)),
        RootStep::Inhibit(InhibitStep::Start)
    );
}

#[test]
fn fragments_whatever_the_listing() {
    let names = ["10.toml", "9.toml", "x.bak", "a.toml"];
    let toml = vec![String::from("toml")];
    let listing = |order: [usize; 4]| -> Vec<Vec<u8>> {
        order.iter().map(|i| names[*i].as_bytes().to_vec()).collect()
    };
    let expected = read_config_directory(listing([0, 1, 2, 3]), &toml);
    assert_eq!(expected, vec![b"10.toml".to_vec(), b"9.toml".to_vec(), b"a.toml".to_vec()]);
    for order in [[3, 2, 1, 0], [1, 0, 3, 2], [2, 3, 0, 1]] {
        assert_eq!(read_config_directory(listing(order), &toml), expected);
    }
}

/// How the start of a daemon goes, and whether its context was started.
fn start(
    services: usize,
    state: Result<u8, Failure>,
    config: Result<u16, Failure>,
    started: Result<(), Failure>,
) -> (Result<(), String>, Option<(u8, u16)>) {
    let (mut state, mut config, mut started) = (Some(state), Some(config), Some(started));
    let mut context = None;
    let mut event = StartEvent::Begin(services);
    loop {
        event = match Daemon::start(event) {
            StartStep::ReadState => StartEvent::StateRead(state.take().unwrap()),
            StartStep::ReadConfig(state) => {
                StartEvent::ConfigRead(state, config.take().unwrap())
            }
            StartStep::Start(state, config) => {
                context = Some((state, config));
                StartEvent::Started(started.take().unwrap())
            }
            StartStep::Run => return (Ok(()), context),
            StartStep::Fail(e) => return (Err(e.to_string()), context),
        };
    }
}

#[test]
fn daemon_starts_with_what_was_read() {
    let oops = |words: &str| Failure::new(words);
    assert_eq!(start(1, Ok(2), Ok(3), Ok(())), (Ok(()), Some((2, 3))));
    assert_eq!(
        start(0, Ok(2), Ok(3), Ok(())),
        (
            Err(String::from("Can't run a daemon with no services attached.")),
            None
        )
    );
    assert_eq!(
        start(1, Err(oops("state")), Err(oops("config")), Ok(())),
        (Err(String::from("state")), None)
    );
    assert_eq!(
        start(1, Ok(2), Err(oops("config")), Ok(())),
        (Err(String::from("config")), None)
    );
    assert_eq!(
        start(1, Ok(2), Ok(3), Err(oops("start"))),
        (Err(String::from("start")), Some((2, 3)))
    );
}

#[test]
fn last_fragment_with_setting_decides() {
    for dir in ["system", "user"] {
        let file = |name: &str| format!("{dir}/{name}");
        let files = Files::new(&[
            (&file("config.toml"), "value = 1\n\n[substate]\nsubvalue = 1\n"),
            (&file("config.toml.d/10.toml"), "value = 10\n"),
            (&file("config.toml.d/20.toml"), "value = 20\n"),
            (&file("config.toml.d/30.toml"), "other = 30\n"),
        ]);
        assert_eq!(files.config(), (20, 1));
    }
}
