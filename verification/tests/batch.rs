use deeplx_pro::error::TranslateError;
use deeplx_pro::job::{concat_strings, plan_chunks, BatchJob, Step};

fn send_text(s: Step) -> String {
    match s {
        Step::Send(t) => t,
        _ => panic!("expected a send step"),
    }
}

#[test]
fn short_texts_are_sent_whole_in_order() {
    let texts = vec!["one".to_string(), "two".to_string()];
    let mut job = BatchJob::new(&texts);
    assert_eq!(send_text(job.next_step()), "one");
    job.on_reply(Ok(("eins".to_string(), Some("EN".to_string()))));
    assert_eq!(send_text(job.next_step()), "two");
    job.on_reply(Ok(("zwei".to_string(), None)));
    assert!(matches!(job.next_step(), Step::Finished));
    let results = job.finish().ok().unwrap();
    assert_eq!(
        results,
        vec![("eins".to_string(), Some("EN".to_string())), ("zwei".to_string(), None)]
    );
}

#[test]
fn long_text_is_translated_piece_by_piece_and_joined() {
    let text = format!("{}\n{}\n{}", "a".repeat(1400), "b".repeat(1400), "c".repeat(100));
    let pieces = plan_chunks(&text);
    assert_eq!(
        pieces,
        vec![format!("{}\n", "a".repeat(1400)), format!("{}\n", "b".repeat(1400)), "c".repeat(100)]
    );
    let mut job = BatchJob::new_single(&text);
    assert_eq!(send_text(job.next_step()), pieces[0]);
    job.on_reply(Ok(("A".to_string(), None)));
    assert_eq!(send_text(job.next_step()), pieces[1]);
    job.on_reply(Ok(("B".to_string(), Some("FR".to_string()))));
    assert_eq!(send_text(job.next_step()), pieces[2]);
    job.on_reply(Ok(("C".to_string(), Some("IT".to_string()))));
    assert!(matches!(job.next_step(), Step::Finished));
    assert_eq!(job.finish_single().ok().unwrap(), ("ABC".to_string(), None));
}

#[test]
fn first_piece_decides_detected_language() {
    let text = "x".repeat(3001);
    let mut job = BatchJob::new_single(&text);
    job.on_reply(Ok(("1".to_string(), Some("DE".to_string()))));
    job.on_reply(Ok(("2".to_string(), Some("FR".to_string()))));
    job.on_reply(Ok(("3".to_string(), None)));
    assert_eq!(job.finish_single().ok().unwrap(), ("123".to_string(), Some("DE".to_string())));
    let mut job = BatchJob::new_single(&text);
    job.on_reply(Ok(("1".to_string(), None)));
    job.on_reply(Ok(("2".to_string(), Some("FR".to_string()))));
    job.on_reply(Ok(("3".to_string(), Some("IT".to_string()))));
    assert_eq!(job.finish_single().ok().unwrap(), ("123".to_string(), None));
}

#[test]
fn retryable_error_is_retried_once_after_a_pause() {
    let texts = vec!["hello".to_string()];
    let mut job = BatchJob::new(&texts);
    job.on_reply(Err(TranslateError::RateLimit));
    match job.next_step() {
        Step::Retry { text, delay_secs } => {
            assert_eq!(text, "hello");
            assert_eq!(delay_secs, 1);
        }
        _ => panic!("expected a retry"),
    }
    job.on_reply(Ok(("hallo".to_string(), None)));
    assert_eq!(job.finish().ok().unwrap(), vec![("hallo".to_string(), None)]);
}

#[test]
fn second_retryable_error_ends_the_batch() {
    let texts = vec!["hello".to_string(), "world".to_string()];
    let mut job = BatchJob::new(&texts);
    job.on_reply(Err(TranslateError::Network));
    job.on_reply(Err(TranslateError::RateLimit));
    assert!(matches!(job.next_step(), Step::Finished));
    assert!(matches!(job.finish(), Err(TranslateError::RateLimit)));
}

#[test]
fn non_retryable_error_ends_the_batch_at_once() {
    let texts = vec!["hello".to_string(), "world".to_string()];
    let mut job = BatchJob::new(&texts);
    job.on_reply(Ok(("hallo".to_string(), None)));
    job.on_reply(Err(TranslateError::Upstream("HTTP 500 Internal Server Error: x".to_string())));
    assert!(matches!(job.next_step(), Step::Finished));
    match job.finish() {
        Err(TranslateError::Upstream(m)) => assert_eq!(m, "HTTP 500 Internal Server Error: x"),
        _ => panic!(),
    }
}

#[test]
fn retry_flag_resets_for_the_next_piece() {
    let texts = vec!["a".to_string(), "b".to_string()];
    let mut job = BatchJob::new(&texts);
    job.on_reply(Err(TranslateError::Network));
    job.on_reply(Ok(("A".to_string(), None)));
    assert_eq!(send_text(job.next_step()), "b");
    job.on_reply(Err(TranslateError::Network));
    assert!(matches!(job.next_step(), Step::Retry { .. }));
}

#[test]
fn empty_batch_is_finished_at_once() {
    let job = BatchJob::new(&Vec::new());
    assert!(matches!(job.next_step(), Step::Finished));
    assert_eq!(job.finish().ok().unwrap(), vec![]);
}

#[test]
fn plan_keeps_short_and_empty_texts_whole() {
    assert_eq!(plan_chunks(""), vec!["".to_string()]);
    assert_eq!(plan_chunks(&"z".repeat(1500)), vec!["z".repeat(1500)]);
    assert_eq!(plan_chunks(&"z".repeat(1501)).len(), 2);
}

#[test]
fn concat_joins_in_order() {
    assert_eq!(concat_strings(&vec!["ab".to_string(), "".to_string(), "c".to_string()]), "abc");
    assert_eq!(concat_strings(&vec![]), "");
}
