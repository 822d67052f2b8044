use honey_shell::workspace::{
    conclude, decide, workspace_directories, Decision, Outcome, Presence, INNER_NAME,
    PATH_SEPARATOR, WORKSPACE_INNER, WORKSPACE_ROOT,
};

/// One bootstrap over a pretended host on which every creation succeeds.
fn bootstrap(host: &mut Vec<(String, Presence)>) -> Vec<Outcome> {
    let mut outcomes = Vec::new();
    for path in workspace_directories() {
        let found = host.iter().position(|(known, _)| *known == path);
        let presence = found.map(|i| host[i].1).unwrap_or(Presence::Absent);
        if decide(presence) == Decision::Create {
            host.push((path, Presence::Directory));
        }
        outcomes.push(conclude(presence, true));
    }
    outcomes
}

#[test]
fn workspace_paths_are_fixed() {
    assert_eq!(WORKSPACE_ROOT, "C:\\honey");
    assert_eq!(WORKSPACE_INNER, "C:\\honey\\root");
    assert_eq!(format!("{}{}{}", WORKSPACE_ROOT, PATH_SEPARATOR, INNER_NAME), WORKSPACE_INNER);
    assert_eq!(workspace_directories(), vec!["C:\\honey", "C:\\honey\\root"]);
}

#[test]
fn missing_directory_is_created() {
    assert_eq!(decide(Presence::Absent), Decision::Create);
    assert_eq!(conclude(Presence::Absent, true), Outcome::Created);
    assert_eq!(conclude(Presence::Absent, false), Outcome::CreateFailed);
}

#[test]
fn present_directory_is_kept() {
    assert_eq!(decide(Presence::Directory), Decision::Keep);
    assert_eq!(conclude(Presence::Directory, true), Outcome::Present);
    assert_eq!(conclude(Presence::Directory, false), Outcome::Present);
}

#[test]
fn file_in_the_way_is_reported_and_not_replaced() {
    assert_eq!(decide(Presence::Other), Decision::Report);
    assert_eq!(conclude(Presence::Other, true), Outcome::Obstructed);
    assert_eq!(conclude(Presence::Other, false), Outcome::Obstructed);
}

#[test]
fn fresh_host_gets_both_directories() {
    let mut host = Vec::new();
    assert_eq!(bootstrap(&mut host), vec![Outcome::Created, Outcome::Created]);
    assert_eq!(
        host,
        vec![
            ("C:\\honey".to_string(), Presence::Directory),
            ("C:\\honey\\root".to_string(), Presence::Directory),
        ]
    );
}

#[test]
fn second_bootstrap_changes_nothing_and_reports_no_error() {
    let mut host = Vec::new();
    bootstrap(&mut host);
    let after_first = host.clone();
    assert_eq!(bootstrap(&mut host), vec![Outcome::Present, Outcome::Present]);
    assert_eq!(host, after_first);
}

#[test]
fn only_the_missing_directory_is_created() {
    let mut host = vec![("C:\\honey".to_string(), Presence::Directory)];
    assert_eq!(bootstrap(&mut host), vec![Outcome::Present, Outcome::Created]);
    assert_eq!(host.len(), 2);
}
