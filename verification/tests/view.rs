use kraken::viakraken::java::backend::view::{chunks_in_view, session_view_distance};

#[test]
fn moving_one_chunk_only_requests_the_new_edge() {
    let old_view = chunks_in_view(0, 0, 3);
    let new_view = chunks_in_view(1, 0, 3);

    assert_eq!(old_view.len(), 49);
    assert_eq!(new_view.difference(&old_view).len(), 7);
    assert_eq!(old_view.difference(&new_view).len(), 7);
}

#[test]
fn client_view_distance_controls_streaming_radius() {
    assert_eq!(chunks_in_view(0, 0, 12).len(), 625);
}

#[test]
fn clients_see_up_to_the_limit() {
    assert_eq!(session_view_distance(8, 16), 8);
    assert_eq!(session_view_distance(32, 16), 16);
    assert_eq!(session_view_distance(-4, 16), 0);
}

#[test]
fn views_are_squares() {
    let view = chunks_in_view(5, -5, 1);
    assert_eq!(view.len(), 9);
    assert!(view.contains((4, -6)));
    assert!(view.contains((6, -4)));
    assert!(!view.contains((7, -5)));
    assert_eq!(view.positions().len(), 9);
}
