use nostr_sync::error::Error;
use nostr_sync::router::error::{RouterError, INTERNAL_SERVER_ERROR};
use nostr_sync::router::util::DASHBOARD_PATH;

#[test]
fn internal_error_page() {
    let error = RouterError::internal("disk on fire");
    assert_eq!(error.status(), 500);
    assert_eq!(INTERNAL_SERVER_ERROR, 500);
    let template = error.into_template();
    assert_eq!(template.title, "Something went wrong");
    assert_eq!(template.message, "An internal error occurred.");
}

#[test]
fn library_errors_become_internal_errors() {
    let error: RouterError = RouterError::from(Error::NotADirectory);
    assert_eq!(error.status(), 500);
    assert_eq!(error.into_template().title, "Something went wrong");
}

#[test]
fn dashboard_is_the_root() {
    assert_eq!(DASHBOARD_PATH, "/");
}
