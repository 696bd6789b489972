use uniman::error::UmanError;
use uniman::fzf::{browse_args, browse_outcome, require_fzf};

#[test]
fn fzf_is_required_for_browsing() {
    assert!(require_fzf(true).is_ok());
    assert!(matches!(require_fzf(false), Err(UmanError::FzfNotFound)));
}

#[test]
fn browse_arguments() {
    let args = browse_args("HEAD", "/bin/u {1} {2}", Some("3,4"));
    assert_eq!(
        args,
        vec![
            "--header", "HEAD", "--delimiter", "\t", "--layout", "reverse", "--bind",
            "enter:execute(/bin/u {1} {2})", "--with-nth", "3,4",
        ]
    );
    assert_eq!(browse_args("H", "t", None).len(), 8);
}

#[test]
fn browse_exit_codes() {
    assert!(browse_outcome(Some(0)).is_ok());
    assert!(browse_outcome(Some(1)).is_ok());
    assert!(browse_outcome(Some(130)).is_ok());
    assert_eq!(browse_outcome(Some(2)).unwrap_err(), "fzf exited with unexpected code 2");
    assert_eq!(browse_outcome(Some(-3)).unwrap_err(), "fzf exited with unexpected code -3");
    assert_eq!(browse_outcome(None).unwrap_err(), "fzf was terminated by a signal");
}
