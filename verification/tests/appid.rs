use std::collections::HashMap;

use steamos_manager::appid::{get_appid, read_comm, AppIdStep};
use steamos_manager::path;

/// Follows the processes of a table, as a daemon follows those of the system.
fn appid_in(table: &HashMap<u32, (&str, Option<&str>)>, pid: u32) -> Result<Option<u64>, String> {
    let mut pid = pid;
    loop {
        let (environ, stat) = table.get(&pid).ok_or(String::from("no process"))?;
        let mut step = get_appid(environ, None);
        if matches!(step, AppIdStep::ReadStat) {
            step = get_appid(environ, Some(stat.ok_or(String::from("no stat"))?));
        }
        match step {
            AppIdStep::Known(appid) => return Ok(appid),
            AppIdStep::Parent(parent) => pid = parent,
            AppIdStep::Failed(e) => return Err(e.to_string()),
            AppIdStep::ReadStat => unreachable!(),
        }
    }
}

#[test]
fn lib_read_comm() {
    assert_eq!(read_comm("test\n"), "test");
}

#[test]
fn main_read_comm() {
    assert_eq!(read_comm("test\n"), "test");
    assert_eq!(read_comm(" a b \r\n"), " a b");
}

#[test]
fn lib_appid_environ() {
    let table = HashMap::from([(123456, ("A=B\0SteamGameId=98765\0C=D", None))]);
    assert_eq!(appid_in(&table, 123456), Ok(Some(98765)));
    assert!(appid_in(&table, 123457).is_err());
}

#[test]
fn main_appid_environ() {
    let table = HashMap::from([(123456, ("A=B\0SteamGameId=98765\0C=D", None))]);
    assert_eq!(appid_in(&table, 123456), Ok(Some(98765)));
    assert!(appid_in(&table, 123457).is_err());
}

#[test]
fn lib_appid_parent_environ() {
    let table = HashMap::from([
        (123456, ("A=B\0SteamGameId=98765\0C=D", None)),
        (123457, ("A=B\0C=D", Some("0 (comm) S 123456 ..."))),
    ]);
    assert_eq!(appid_in(&table, 123457), Ok(Some(98765)));
}

#[test]
fn main_appid_parent_environ() {
    let table = HashMap::from([
        (123456, ("A=B\0SteamGameId=98765\0C=D", None)),
        (123457, ("A=B\0C=D", Some("0 (comm) S 123456 ..."))),
        (123458, ("A=B", Some("0 (co) mm) S 123457 ..."))),
    ]);
    assert_eq!(appid_in(&table, 123457), Ok(Some(98765)));
    assert_eq!(appid_in(&table, 123458), Ok(Some(98765)));
}

#[test]
fn lib_appid_missing() {
    let table = HashMap::from([(123457, ("A=B\0C=D", Some("0 (comm) S 1 ...")))]);
    assert_eq!(appid_in(&table, 123457), Ok(None));
}

#[test]
fn main_appid_missing() {
    let table = HashMap::from([(123457, ("A=B\0C=D", Some("0 (comm) S 1 ...")))]);
    assert_eq!(appid_in(&table, 123457), Ok(None));
}

#[test]
fn appid_odd_data() {
    let table = HashMap::from([
        (2, ("SteamGameId=none\0SteamGameId=7", Some("2 (x) S 3 4"))),
        (3, ("SteamGameId", Some("3 x S 2"))),
        (4, ("", Some("4 (x) S"))),
        (5, ("", Some("5 (x) S parent"))),
        (6, ("SteamGameId=18446744073709551615", None)),
    ]);
    assert_eq!(appid_in(&table, 2), Ok(None));
    assert_eq!(appid_in(&table, 3), Ok(None));
    assert_eq!(appid_in(&table, 4), Err(String::from("stat data invalid")));
    assert_eq!(
        appid_in(&table, 5),
        Err(String::from("invalid digit found in string"))
    );
    assert_eq!(appid_in(&table, 6), Ok(Some(u64::MAX)));
}

#[test]
fn parent_whatever_the_name() {
    let step = get_appid("", Some("7 (a) S 9 ) b) S 8 0"));
    assert!(matches!(step, AppIdStep::Parent(8)));
}

#[test]
fn path_of_system() {
    assert_eq!(path("/dev"), "/dev");
}
