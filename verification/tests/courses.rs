use apex_road::courses::{next_course, resolve_track, LocalEntry, TrackSource, BUNDLED_PATHS, COURSE_COUNT};
use std::collections::HashSet;

#[test]
fn switcher_visits_every_course_and_wraps() {
    let mut current = 0;
    let mut visited = HashSet::new();
    for _ in BUNDLED_PATHS {
        assert!(visited.insert(current), "course appeared twice before completing the cycle");
        current = next_course(Some(current));
    }
    assert_eq!(current, 0);
    assert_eq!(visited.len(), COURSE_COUNT);
    assert_eq!(BUNDLED_PATHS[next_course(Some(0))], "tracks/club.track");
    assert_eq!(BUNDLED_PATHS[next_course(Some(6))], "tracks/alpine.track");
}

#[test]
fn custom_course_returns_to_the_first_bundled_course() {
    assert_eq!(BUNDLED_PATHS[next_course(None)], BUNDLED_PATHS[0]);
}

#[test]
fn existing_entries_win_and_errors_are_reported() {
    assert_eq!(resolve_track("tracks/my.track", LocalEntry::Present), Ok(TrackSource::Local));
    assert_eq!(resolve_track("tracks/club.track", LocalEntry::Missing), Ok(TrackSource::Bundled));
    assert_eq!(
        resolve_track("locked.track", LocalEntry::Unreadable("Permission denied".into())),
        Err("Cannot inspect track 'locked.track': Permission denied".to_string())
    );
}
