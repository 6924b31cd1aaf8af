use psr::collector::Query;
use psr::commands::{query_command, termination_command, Platform};

fn words(list: &[&str]) -> Option<Vec<String>> {
    Some(list.iter().map(|w| w.to_string()).collect())
}

#[test]
fn termination_on_unix() {
    assert_eq!(termination_command(4242, Platform::Unix), words(&["kill", "-9", "4242"]));
}

#[test]
fn termination_on_windows() {
    assert_eq!(
        termination_command(7, Platform::Windows),
        words(&["taskkill", "/F", "/PID", "7"])
    );
}

#[test]
fn termination_elsewhere() {
    assert_eq!(termination_command(7, Platform::Other), None);
}

#[test]
fn owner_query() {
    assert_eq!(
        query_command(Query::User(31), Platform::Unix),
        words(&["ps", "-o", "user=", "-p", "31"])
    );
    assert_eq!(query_command(Query::User(31), Platform::Windows), None);
    assert_eq!(query_command(Query::User(31), Platform::Other), None);
}

#[test]
fn thread_query() {
    assert_eq!(
        query_command(Query::Threads(0), Platform::Unix),
        words(&["ps", "-o", "nlwp=", "-p", "0"])
    );
    assert_eq!(query_command(Query::Threads(1), Platform::Windows), None);
}
