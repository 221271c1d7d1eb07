use piper_rs::errors::PhonemizationError;
use piper_rs::espeak::ESpeakError;
use piper_rs::espeak_adapter::{
    backend_failure, queue_capacity, send_failure, worker_outcome, SendFailure,
    DEFAULT_QUEUE_CAPACITY,
};
use piper_rs::ports::Sentence;

#[test]
fn worker_pool_phonemize_returns_the_processors_result_on_success() {
    let result = worker_outcome(Some(Ok(vec![format!("processed: {}", "hello")]))).unwrap();
    assert_eq!(result, vec![Sentence("processed: hello".to_string())]);
}

#[test]
fn worker_pool_phonemize_wraps_a_processor_failure_as_backend_failure() {
    let result = worker_outcome(Some(Err(ESpeakError::Failure("boom".to_string()))));
    assert!(matches!(result, Err(PhonemizationError::BackendFailure(msg)) if msg.contains("boom")));
}

#[test]
fn worker_pool_phonemize_maps_a_processor_timeout_to_phonemization_timeout() {
    let result = worker_outcome(Some(Err(ESpeakError::Timeout("timed out".to_string()))));
    assert!(matches!(result, Err(PhonemizationError::Timeout)));
}

#[test]
fn worker_phonemize_returns_the_processors_result_on_success() {
    let result = worker_outcome(Some(Ok(vec!["a".to_string(), "b".to_string()]))).unwrap();
    assert_eq!(result, vec![Sentence("a".to_string()), Sentence("b".to_string())]);
}

#[test]
fn worker_phonemize_wraps_a_processor_failure_as_backend_failure() {
    assert_eq!(
        worker_outcome(Some(Err(ESpeakError::Failure("boom".to_string())))),
        Err(PhonemizationError::BackendFailure("eSpeak-ng error: boom".to_string()))
    );
}

#[test]
fn worker_phonemize_maps_a_processor_timeout_to_phonemization_timeout() {
    assert_eq!(
        backend_failure(&ESpeakError::Timeout("t".to_string())),
        PhonemizationError::Timeout
    );
}

#[test]
fn a_full_queue_is_queue_full_and_a_gone_worker_a_backend_failure() {
    assert_eq!(send_failure(SendFailure::Full), PhonemizationError::QueueFull);
    assert_eq!(
        send_failure(SendFailure::Disconnected),
        PhonemizationError::BackendFailure("worker thread disconnected".to_string())
    );
    assert_eq!(
        worker_outcome(None),
        Err(PhonemizationError::BackendFailure("worker thread disconnected".to_string()))
    );
}

#[test]
fn a_capacity_of_zero_is_clamped_to_one() {
    assert_eq!(queue_capacity(0), 1);
    assert_eq!(queue_capacity(1), 1);
    assert_eq!(queue_capacity(7), 7);
    assert_eq!(DEFAULT_QUEUE_CAPACITY, 16);
}

#[test]
fn an_empty_reply_is_no_sentences() {
    assert_eq!(worker_outcome(Some(Ok(vec![]))), Ok(vec![]));
}
