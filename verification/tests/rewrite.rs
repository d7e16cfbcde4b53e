use tabify::rewrite::{
    fresh_temp_name, next_action, step, RewriteAction, RewriteError, RewriteEvent, RewriteState,
};

#[test]
fn rename_path_stops_without_copy() {
    let s0 = RewriteState::Validating;
    assert_eq!(RewriteAction::CheckSource, next_action(&s0));
    let s1 = step(
        &s0,
        &RewriteEvent::Checked {
            exists: true,
            is_file: true,
        },
    );
    assert_eq!(RewriteState::Writing, s1);
    assert_eq!(RewriteAction::WriteTemp, next_action(&s1));
    let s2 = step(&s1, &RewriteEvent::Wrote { ok: true });
    assert_eq!(RewriteState::Swapping, s2);
    assert_eq!(RewriteAction::RenameTempOverSource, next_action(&s2));
    let s3 = step(&s2, &RewriteEvent::Renamed { ok: true });
    assert_eq!(
        RewriteState::Done {
            cleanup_warning: false
        },
        s3
    );
    assert_eq!(RewriteAction::Stop, next_action(&s3));
}

#[test]
fn fallback_copy_path_removes_temp() {
    let s = RewriteState::Swapping;
    let s = step(&s, &RewriteEvent::Renamed { ok: false });
    assert_eq!(RewriteState::FallbackCopying, s);
    assert_eq!(RewriteAction::CopyTempToSource, next_action(&s));
    let s = step(&s, &RewriteEvent::Copied { ok: true });
    assert_eq!(RewriteState::Cleanup, s);
    assert_eq!(RewriteAction::RemoveTemp, next_action(&s));
    let s = step(&s, &RewriteEvent::Removed { ok: true });
    assert_eq!(
        RewriteState::Done {
            cleanup_warning: false
        },
        s
    );
}

#[test]
fn failed_temp_removal_is_only_a_warning() {
    let s = RewriteState::Cleanup;
    let s = step(&s, &RewriteEvent::Removed { ok: false });
    assert_eq!(
        RewriteState::Done {
            cleanup_warning: true
        },
        s
    );
    assert_eq!(RewriteAction::Stop, next_action(&s));
}

#[test]
fn missing_path_fails_with_not_found() {
    let s = step(
        &RewriteState::Validating,
        &RewriteEvent::Checked {
            exists: false,
            is_file: false,
        },
    );
    assert_eq!(
        RewriteState::Failed {
            error: RewriteError::NotFound
        },
        s
    );
    assert_eq!(RewriteAction::Stop, next_action(&s));
}

#[test]
fn directory_fails_with_not_a_file() {
    let s = step(
        &RewriteState::Validating,
        &RewriteEvent::Checked {
            exists: true,
            is_file: false,
        },
    );
    assert_eq!(
        RewriteState::Failed {
            error: RewriteError::NotAFile
        },
        s
    );
}

#[test]
fn write_failure_aborts_before_touching_the_source() {
    let s = step(&RewriteState::Writing, &RewriteEvent::Wrote { ok: false });
    assert_eq!(
        RewriteState::Failed {
            error: RewriteError::Io
        },
        s
    );
    assert_eq!(RewriteAction::Stop, next_action(&s));
}

#[test]
fn copy_failure_stops_without_removing_the_temp_file() {
    let s = step(
        &RewriteState::FallbackCopying,
        &RewriteEvent::Copied { ok: false },
    );
    assert_eq!(
        RewriteState::Failed {
            error: RewriteError::Io
        },
        s
    );
    assert_eq!(RewriteAction::Stop, next_action(&s));
}

#[test]
fn mismatched_event_changes_nothing() {
    let s = step(&RewriteState::Validating, &RewriteEvent::Renamed { ok: true });
    assert_eq!(RewriteState::Validating, s);
    let s = step(
        &RewriteState::Failed {
            error: RewriteError::Io,
        },
        &RewriteEvent::Wrote { ok: true },
    );
    assert_eq!(
        RewriteState::Failed {
            error: RewriteError::Io
        },
        s
    );
}

#[test]
fn temp_names_are_hidden_and_fresh() {
    let a = fresh_temp_name();
    let b = fresh_temp_name();
    assert_eq!(37, a.chars().count());
    assert!(a.starts_with('.'));
    assert!(a
        .chars()
        .skip(1)
        .all(|c| c == '-' || c.is_ascii_digit() || ('a'..='f').contains(&c)));
    assert_ne!(a, b);
}
