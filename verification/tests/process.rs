use steamos_manager::error::Failure;
use steamos_manager::process::{run_script, script_exit_code};

#[test]
fn test_run_script() {
    assert!(run_script(Ok(0)).is_ok());
    assert_eq!(run_script(Ok(1)).unwrap_err().to_string(), "Exited 1");
    assert_eq!(
        run_script(Err(Failure::new("oops!"))).unwrap_err().to_string(),
        "oops!"
    );
}

#[test]
fn exit_codes() {
    assert_eq!(script_exit_code(Some(0)).unwrap(), 0);
    assert_eq!(script_exit_code(Some(255)).unwrap(), 255);
    assert_eq!(
        script_exit_code(None).unwrap_err().to_string(),
        "Killed by signal"
    );
    assert_eq!(
        run_script(script_exit_code(None)).unwrap_err().to_string(),
        "Killed by signal"
    );
    assert_eq!(run_script(Ok(-1)).unwrap_err().to_string(), "Exited -1");
    assert_eq!(
        run_script(Ok(i32::MIN)).unwrap_err().to_string(),
        "Exited -2147483648"
    );
}
