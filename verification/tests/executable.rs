//! The binary the daemon started from.

use moji::clock::SECOND;
use moji::executable::{Executable, Identity, POLL};

const BUILD: Identity = Identity {
    device: 1,
    inode: 42,
};

fn watched() -> Executable {
    let Some(executable) = Executable::current(Some("/opt/moji".to_string()), Some(BUILD)) else {
        panic!("the binary is not located");
    };
    executable
}

#[test]
fn a_binary_that_cannot_be_located_is_not_watched() {
    assert_eq!(Executable::current(None, Some(BUILD)), None);
    assert_eq!(Executable::current(Some("/opt/moji".to_string()), None), None);
}

#[test]
fn an_untouched_binary_is_the_one_the_daemon_started_from() {
    assert!(!watched().swapped(Some(BUILD)));
}

#[test]
fn the_watch_reports_a_binary_swapped_at_the_same_path() {
    let upgraded = Identity { inode: 43, ..BUILD };
    let moved = Identity { device: 2, ..BUILD };

    assert!(watched().swapped(Some(upgraded)));
    assert!(watched().swapped(Some(moved)));
}

#[test]
fn a_removed_binary_counts_as_swapped() {
    assert!(watched().swapped(None));
}

#[test]
fn rewriting_the_same_file_in_place_is_not_a_swap() {
    let rewritten = Identity {
        device: BUILD.device,
        inode: BUILD.inode,
    };

    assert!(!watched().swapped(Some(rewritten)));
}

#[test]
fn the_watched_binary_answers_with_its_path() {
    assert_eq!(watched().path(), "/opt/moji");
    assert_eq!(POLL, 2 * SECOND);
}

#[test]
fn a_copy_of_the_binary_watches_the_same_file() {
    assert_eq!(watched().clone(), watched());
}
