use deet::gather::place_indexed;
use deet::proxy::{classify_read_failure, error_status, pick_upstream, ReadFailureAction,
    RequestError, HTTP_BAD_REQUEST, HTTP_PAYLOAD_TOO_LARGE, HTTP_SERVICE_UNAVAILABLE};

#[test]
fn every_request_error_has_its_status() {
    assert_eq!(error_status(&RequestError::IncompleteRequest(10)), HTTP_BAD_REQUEST);
    assert_eq!(error_status(&RequestError::MalformedRequest), HTTP_BAD_REQUEST);
    assert_eq!(error_status(&RequestError::InvalidContentLength), HTTP_BAD_REQUEST);
    assert_eq!(error_status(&RequestError::ContentLengthMismatch), HTTP_BAD_REQUEST);
    assert_eq!(error_status(&RequestError::RequestBodyTooLarge), HTTP_PAYLOAD_TOO_LARGE);
    assert_eq!(error_status(&RequestError::ConnectionError), HTTP_SERVICE_UNAVAILABLE);
}

#[test]
fn clean_hangup_closes_quietly() {
    assert_eq!(
        classify_read_failure(&RequestError::IncompleteRequest(0)),
        ReadFailureAction::CloseQuietly
    );
    assert_eq!(
        classify_read_failure(&RequestError::IncompleteRequest(12)),
        ReadFailureAction::Respond(HTTP_BAD_REQUEST)
    );
    assert_eq!(
        classify_read_failure(&RequestError::ConnectionError),
        ReadFailureAction::CloseOnIoError
    );
    assert_eq!(
        classify_read_failure(&RequestError::RequestBodyTooLarge),
        ReadFailureAction::Respond(HTTP_PAYLOAD_TOO_LARGE)
    );
}

#[test]
fn upstream_pick_stays_on_the_list() {
    assert_eq!(pick_upstream(3, 0), 0);
    assert_eq!(pick_upstream(3, 4), 1);
    assert_eq!(pick_upstream(1, 999), 0);
    for draw in 0..20 {
        assert!(pick_upstream(7, draw) < 7);
    }
}

#[test]
fn indexed_results_come_back_in_input_order() {
    let pairs = vec![(2usize, 9u64), (0, 36), (1, 49)];
    let placed = place_indexed(3, pairs);
    assert_eq!(placed, vec![Some(36), Some(49), Some(9)]);
}

#[test]
fn missing_and_duplicate_indices() {
    let placed: Vec<Option<u32>> = place_indexed(3, vec![(1usize, 5u32)]);
    assert_eq!(placed, vec![None, Some(5), None]);
    // when two pairs name one index, the earlier pair wins
    let placed = place_indexed(2, vec![(0usize, 'x'), (0, 'y'), (1, 'z')]);
    assert_eq!(placed, vec![Some('x'), Some('z')]);
    let empty: Vec<Option<u8>> = place_indexed(0, vec![]);
    assert!(empty.is_empty());
}
