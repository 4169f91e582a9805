//! The deadline of a request.
use wvm::guest::deadline::{overrun_reply, request_deadline, DEFAULT_REQUEST_DEADLINE};
use wvm::ipc::Response;

#[test]
fn a_malformed_override_cannot_remove_the_backstop() {
    // The failure mode of "no deadline" is the wedge this exists to prevent, so a bad value has
    // to fall back rather than disable. Zero is the dangerous one.
    for bad in ["", "0", "not-a-number", "-5", "  "] {
        assert_eq!(
            request_deadline(Some(bad)),
            DEFAULT_REQUEST_DEADLINE,
            "override {bad:?} must fall back to the default, not disable the deadline"
        );
    }
    assert_eq!(request_deadline(None), DEFAULT_REQUEST_DEADLINE);

    // And a sane value is honoured, or the test above would pass with the override ignored.
    assert_eq!(request_deadline(Some("2")), 2);
    assert_eq!(request_deadline(Some(" 45 ")), 45);
}

#[test]
fn the_deadline_clears_every_bounded_operation_in_the_protocol() {
    // A backstop that fires during normal work is worse than no backstop: it would sever
    // legitimate transfers. The longest bounded operation is `exec` at its maximum, so the
    // request deadline has to sit above it.
    const EXEC_MAX: u64 = 10 * 60;
    assert!(
        DEFAULT_REQUEST_DEADLINE > EXEC_MAX,
        "the request deadline must exceed the longest per-verb timeout, or it would cut off \
         work that is proceeding correctly"
    );
}

#[test]
fn an_overrun_is_not_called_a_cancellation() {
    assert_eq!(
        overrun_reply(2),
        Response::Error {
            message: "the request did not finish within 2s; the work may still be running".into()
        }
    );
}
