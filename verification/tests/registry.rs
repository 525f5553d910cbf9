use termlink_core::error::CoreError;
use termlink_core::registry::{Registry, SessionEntry};
use termlink_core::session::{Phase, Session, SessionAction, SessionKind, StartupStep};

fn entry(id: &str, handle: u32) -> SessionEntry<u32> {
    SessionEntry { id: id.to_string(), serial: handle as u64, kind: SessionKind::Interactive, handle }
}

#[test]
fn new_registry_is_empty() {
    let registry: Registry<u32> = Registry::new();
    assert_eq!(registry.len(), 0);
    assert!(!registry.contains("a"));
}

#[test]
fn lookup_of_unknown_id_is_not_found() {
    let mut registry: Registry<u32> = Registry::new();
    assert!(registry.insert(entry("known", 1)).is_ok());
    assert_eq!(registry.lookup("unknown").err(), Some(CoreError::NotFound));
    assert_eq!(registry.len(), 1);
    assert!(registry.contains("known"));
}

#[test]
fn remove_of_unknown_id_is_not_found_and_changes_nothing() {
    let mut registry: Registry<u32> = Registry::new();
    assert!(registry.insert(entry("known", 1)).is_ok());
    assert_eq!(registry.remove("unknown").err(), Some(CoreError::NotFound));
    assert_eq!(registry.len(), 1);
    assert_eq!(registry.lookup("known").map(|e| e.handle).ok(), Some(1));
}

#[test]
fn remove_on_empty_registry_is_not_found() {
    let mut registry: Registry<u32> = Registry::new();
    assert_eq!(registry.remove("").err(), Some(CoreError::NotFound));
    assert_eq!(registry.len(), 0);
}

#[test]
fn insert_then_lookup_finds_the_entry() {
    let mut registry: Registry<u32> = Registry::new();
    assert!(registry.insert(entry("a", 7)).is_ok());
    let found = registry.lookup("a").ok().expect("entry");
    assert_eq!(found.id, "a");
    assert_eq!(found.kind, SessionKind::Interactive);
    assert_eq!(found.handle, 7);
}

#[test]
fn live_entry_is_never_replaced_by_insert() {
    let mut registry: Registry<u32> = Registry::new();
    assert!(registry.insert(entry("a", 1)).is_ok());
    let back = registry.insert(entry("a", 2)).err().expect("the new entry comes back");
    assert_eq!(back.handle, 2);
    assert_eq!(registry.len(), 1);
    assert_eq!(registry.lookup("a").map(|e| e.handle).ok(), Some(1));
}

#[test]
fn second_session_on_one_id_takes_over_before_it_is_filed() {
    let mut registry: Registry<u32> = Registry::new();
    assert!(registry.insert(entry("a", 1)).is_ok());
    let earlier = registry.take_over("a").expect("the first entry comes back");
    assert_eq!(earlier.handle, 1);
    assert_eq!(registry.len(), 0);
    assert_eq!(registry.lookup("a").err(), Some(CoreError::NotFound));
    assert!(registry.insert(entry("a", 2)).is_ok());
    assert_eq!(registry.len(), 1);
    assert_eq!(registry.lookup("a").map(|e| e.handle).ok(), Some(2));
}

#[test]
fn take_over_of_a_free_id_finds_nothing() {
    let mut registry: Registry<u32> = Registry::new();
    assert!(registry.insert(entry("b", 1)).is_ok());
    assert!(registry.take_over("a").is_none());
    assert_eq!(registry.len(), 1);
}

#[test]
fn session_on_a_free_id_begins_by_opening_its_transport() {
    let mut registry: Registry<u32> = Registry::new();
    let mut session = Session::new(SessionKind::Interactive, 80, 24, true);
    let (earlier, actions) = registry.begin::<u32>(&mut session, "a");
    assert!(earlier.is_none());
    assert_eq!(actions, vec![SessionAction::OpenTransport]);
    assert_eq!(session.phase, Phase::Starting(StartupStep::OpenTransport));
}

#[test]
fn session_on_a_taken_id_begins_by_retiring_the_earlier_one() {
    let mut registry: Registry<u32> = Registry::new();
    assert!(registry.insert(entry("a", 1)).is_ok());
    assert!(registry.insert(entry("b", 2)).is_ok());
    let mut session = Session::new(SessionKind::Interactive, 80, 24, true);
    let (earlier, actions) = registry.begin::<u32>(&mut session, "a");
    assert_eq!(earlier.map(|e| e.handle), Some(1));
    assert_eq!(actions, vec![SessionAction::RetirePredecessor]);
    assert_eq!(session.phase, Phase::Replacing);
    assert!(!registry.contains("a"));
    assert!(registry.contains("b"));
}

#[test]
fn release_takes_out_only_the_entry_with_its_own_serial() {
    let mut registry: Registry<u32> = Registry::new();
    assert!(registry.insert(entry("a", 1)).is_ok());
    assert!(registry.release("a", 2).is_none());
    assert!(registry.release("b", 1).is_none());
    assert_eq!(registry.len(), 1);
    assert_eq!(registry.release("a", 1).map(|e| e.handle), Some(1));
    assert_eq!(registry.len(), 0);
    assert!(registry.release("a", 1).is_none());
}

#[test]
fn session_that_ends_late_does_not_remove_its_successor() {
    let mut registry: Registry<u32> = Registry::new();
    assert!(registry.insert(entry("a", 1)).is_ok());
    assert_eq!(registry.remove("a").map(|e| e.handle).ok(), Some(1));
    assert!(registry.insert(entry("a", 2)).is_ok());
    assert!(registry.release("a", 1).is_none());
    assert_eq!(registry.lookup("a").map(|e| e.handle).ok(), Some(2));
}

#[test]
fn entries_of_other_ids_are_untouched_by_insert_and_remove() {
    let mut registry: Registry<u32> = Registry::new();
    assert!(registry.insert(entry("a", 1)).is_ok());
    assert!(registry.insert(entry("b", 2)).is_ok());
    assert!(registry.insert(entry("c", 3)).is_ok());
    assert!(registry.take_over("b").is_some());
    assert!(registry.insert(entry("b", 20)).is_ok());
    assert_eq!(registry.remove("a").map(|e| e.handle).ok(), Some(1));
    assert_eq!(registry.len(), 2);
    assert_eq!(registry.lookup("b").map(|e| e.handle).ok(), Some(20));
    assert_eq!(registry.lookup("c").map(|e| e.handle).ok(), Some(3));
}

#[test]
fn write_after_close_is_not_found() {
    let mut registry: Registry<u32> = Registry::new();
    assert!(registry.insert(entry("term-1", 5)).is_ok());
    assert_eq!(registry.remove("term-1").map(|e| e.handle).ok(), Some(5));
    assert_eq!(registry.lookup("term-1").err(), Some(CoreError::NotFound));
    assert_eq!(registry.remove("term-1").err(), Some(CoreError::NotFound));
}

#[test]
fn ids_differ_by_case_and_by_length() {
    let mut registry: Registry<u32> = Registry::new();
    assert!(registry.insert(entry("abc", 1)).is_ok());
    assert!(!registry.contains("ABC"));
    assert!(!registry.contains("ab"));
    assert!(!registry.contains("abcd"));
    assert!(registry.contains("abc"));
}
