//! Launchable-session descriptors: environment lines, lookup, deduplication.

use greetd_client::sessions::{
    dedup_by_slug, find_by_slug, get_sessions_mock, Session, SessionType,
};

fn session(slug: &str, names: &[&str]) -> Session {
    Session {
        slug: slug.to_owned(),
        name: slug.to_owned(),
        command: vec![slug.to_owned()],
        session_type: SessionType::Wayland,
        desktop_names: names.iter().map(|n| (*n).to_owned()).collect(),
    }
}

#[test]
fn session_type_names() {
    assert_eq!(SessionType::Wayland.name(), "wayland");
    assert_eq!(SessionType::X11.name(), "x11");
}

#[test]
fn environment_lines_exact() {
    let s = Session {
        slug: "plasma".to_owned(),
        name: "Plasma".to_owned(),
        command: vec!["startplasma-wayland".to_owned()],
        session_type: SessionType::Wayland,
        desktop_names: vec!["KDE".to_owned(), "Plasma".to_owned()],
    };
    assert_eq!(
        s.to_environment(),
        vec![
            "XDG_SESSION_TYPE=wayland".to_owned(),
            "XDG_SESSION_DESKTOP=plasma".to_owned(),
            "XDG_CURRENT_DESKTOP=KDE:Plasma".to_owned(),
        ]
    );
}

#[test]
fn environment_lines_empty_desktop_names() {
    let s = session("cage", &[]);
    assert_eq!(s.to_environment()[2], "XDG_CURRENT_DESKTOP=");
}

#[test]
fn environment_lines_single_desktop_name() {
    let s = session("sway", &["Sway"]);
    assert_eq!(s.to_environment()[2], "XDG_CURRENT_DESKTOP=Sway");
}

#[test]
fn mock_sessions_are_the_two_examples() {
    let sessions = get_sessions_mock();
    assert_eq!(sessions.len(), 2);
    assert_eq!(sessions[0].slug, "test-wayland");
    assert_eq!(sessions[0].name, "Test (Wayland)");
    assert!(matches!(sessions[0].session_type, SessionType::Wayland));
    assert!(sessions[0].command.is_empty());
    assert_eq!(sessions[1].slug, "test-xorg");
    assert_eq!(sessions[1].name, "Test (Xorg)");
    assert!(matches!(sessions[1].session_type, SessionType::X11));
}

#[test]
fn find_by_slug_returns_first_match() {
    let sessions = vec![session("a", &[]), session("b", &["B1"]), session("b", &["B2"])];
    let found = find_by_slug(&sessions, "b").expect("the slug is present");
    assert_eq!(found.desktop_names, vec!["B1".to_owned()]);
    assert!(find_by_slug(&sessions, "c").is_none());
}

#[test]
fn dedup_keeps_first_occurrence_in_order() {
    let sessions = vec![
        session("sway", &["one"]),
        session("plasma", &[]),
        session("sway", &["two"]),
        session("gnome", &[]),
        session("plasma", &["again"]),
    ];
    let unique = dedup_by_slug(&sessions);
    let slugs: Vec<&str> = unique.iter().map(|s| s.slug.as_str()).collect();
    assert_eq!(slugs, vec!["sway", "plasma", "gnome"]);
    assert_eq!(unique[0].desktop_names, vec!["one".to_owned()]);
}

#[test]
fn dedup_of_unique_list_changes_nothing() {
    let sessions = vec![session("a", &[]), session("b", &[])];
    let unique = dedup_by_slug(&sessions);
    assert_eq!(unique.len(), 2);
    assert_eq!(unique[0].slug, "a");
    assert_eq!(unique[1].slug, "b");
}
