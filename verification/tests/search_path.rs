use gub_wire::retry::{next_retry_wait, BASE_RETRY_NANOS};
use gub_wire::search_path::{dirs_to_scan, split_search_path};

#[test]
fn search_path_directories() {
    assert_eq!(
        split_search_path(b"/usr/bin::/bin:"),
        vec![b"/usr/bin".to_vec(), b"/bin".to_vec()]
    );
    assert!(split_search_path(b"").is_empty());
    assert!(split_search_path(b":::").is_empty());
    assert_eq!(split_search_path(b"a"), vec![b"a".to_vec()]);
    assert_eq!(
        split_search_path(b":x:y:"),
        vec![b"x".to_vec(), b"y".to_vec()]
    );
}

#[test]
fn repeated_directories_are_skipped() {
    assert_eq!(
        dirs_to_scan(&vec![Some(1), None, Some(1), Some(2), None, Some(2)]),
        vec![true, true, false, true, true, false]
    );
    assert!(dirs_to_scan(&vec![]).is_empty());
}

#[test]
fn retry_waits_double_until_an_attempt_lasts() {
    assert_eq!(BASE_RETRY_NANOS, 3_000_000_000);
    let w1 = next_retry_wait(BASE_RETRY_NANOS, 10);
    assert_eq!(w1, 6_000_000_000);
    let w2 = next_retry_wait(w1, w1);
    assert_eq!(w2, 12_000_000_000);
    assert_eq!(next_retry_wait(w2, w2 + 1), BASE_RETRY_NANOS);
}
