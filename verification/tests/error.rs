use mgba::{call_status, Error};

#[test]
fn call_status_success_is_ok() {
    assert_eq!(call_status(true, "mCore.loadROM"), Ok(()));
}

#[test]
fn call_status_failure_names_call() {
    assert_eq!(call_status(false, "mCore.loadROM"), Err(Error::CallFailed("mCore.loadROM")));
    assert_eq!(call_status(false, "GBACoreCreate"), Err(Error::CallFailed("GBACoreCreate")));
}

#[test]
fn error_message_names_call() {
    assert_eq!(Error::CallFailed("mCore.saveState").message(), "call to mCore.saveState failed");
}
