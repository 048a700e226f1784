use protolaunch::registrar::{log_key, registration_plan, KeyDisposition, RegistryAction};
use protolaunch::registry::Registry;

const EXE: &str = r"C:\Program Files\protolaunch\protolaunch.exe";
const COMMAND_KEY: &str = r"viewsvn\shell\open\command";

fn create(path: &str) -> RegistryAction {
    RegistryAction::CreateKey { path: path.to_string() }
}

fn set(path: &str, name: &str, data: &str) -> RegistryAction {
    RegistryAction::SetValue {
        path: path.to_string(),
        name: name.to_string(),
        data: data.to_string(),
    }
}

#[test]
fn log_lines_tell_created_from_opened() {
    assert_eq!(log_key(&KeyDisposition::CreatedNewKey), "A new key has been created");
    assert_eq!(log_key(&KeyDisposition::OpenedExistingKey), "An existing key has been opened");
}

#[test]
fn plan_lists_the_writes_in_order() {
    assert_eq!(
        registration_plan(EXE),
        vec![
            create("viewsvn"),
            set("viewsvn", "", "URL:viewsvn Protocol"),
            set("viewsvn", "URL Protocol", ""),
            create(r"viewsvn\shell"),
            create(r"viewsvn\shell\open"),
            create(r"viewsvn\shell\open\command"),
            set(
                r"viewsvn\shell\open\command",
                "",
                "\"C:\\Program Files\\protolaunch\\protolaunch.exe\" --url \"%1\"",
            ),
        ]
    );
}

#[test]
fn plan_quotes_any_path() {
    let plan = registration_plan("");
    assert_eq!(plan.len(), 7);
    assert_eq!(plan[6], set(COMMAND_KEY, "", "\"\" --url \"%1\""));
    let plan = registration_plan("/usr/local/bin/proto launch");
    assert_eq!(plan[6], set(COMMAND_KEY, "", "\"/usr/local/bin/proto launch\" --url \"%1\""));
}

#[test]
fn new_store_is_empty() {
    let store = Registry::new();
    assert!(!store.has_key("viewsvn"));
    assert!(!store.has_key(""));
    assert_eq!(store.get_value("viewsvn", ""), None);
}

#[test]
fn keys_are_created_once() {
    let mut store = Registry::new();
    assert_eq!(store.create_or_open_key("viewsvn"), KeyDisposition::CreatedNewKey);
    assert!(store.has_key("viewsvn"));
    assert!(!store.has_key("Viewsvn"));
    assert_eq!(store.create_or_open_key("viewsvn"), KeyDisposition::OpenedExistingKey);
    assert_eq!(store.create_or_open_key(r"viewsvn\shell"), KeyDisposition::CreatedNewKey);
    assert_eq!(store.get_value("viewsvn", ""), None);
}

#[test]
fn opening_a_key_keeps_its_values() {
    let mut store = Registry::new();
    store.create_or_open_key("k");
    assert!(store.set_value("k", "n", "d"));
    assert_eq!(store.create_or_open_key("k"), KeyDisposition::OpenedExistingKey);
    assert_eq!(store.get_value("k", "n"), Some(&"d".to_string()));
}

#[test]
fn values_are_overwritten() {
    let mut store = Registry::new();
    store.create_or_open_key("a");
    store.create_or_open_key("b");
    assert!(store.set_value("a", "", "first"));
    assert!(store.set_value("b", "", "other"));
    assert!(store.set_value("a", "", "second"));
    assert!(store.set_value("a", "named", "third"));
    assert_eq!(store.get_value("a", ""), Some(&"second".to_string()));
    assert_eq!(store.get_value("a", "named"), Some(&"third".to_string()));
    assert_eq!(store.get_value("b", ""), Some(&"other".to_string()));
    assert_eq!(store.get_value("b", "named"), None);
}

#[test]
fn missing_key_takes_no_value() {
    let mut store = Registry::new();
    assert!(!store.set_value("viewsvn", "", "label"));
    assert!(!store.has_key("viewsvn"));
    assert_eq!(store.get_value("viewsvn", ""), None);
    assert_eq!(store, Registry::new());
}

#[test]
fn run_stops_at_a_value_without_key() {
    let mut store = Registry::new();
    let plan =
        vec![create("a"), set("a", "x", "1"), set("b", "y", "2"), create("b"), set("a", "x", "3")];
    assert_eq!(store.run(&plan), Err(2));
    assert_eq!(store.get_value("a", "x"), Some(&"1".to_string()));
    assert!(!store.has_key("b"));
}

#[test]
fn run_reports_each_key() {
    let mut store = Registry::new();
    store.create_or_open_key("b");
    let plan = vec![
        create("a"),
        set("a", "x", "1"),
        create("b"),
        create("a"),
        set("b", "y", "2"),
        create("c"),
    ];
    assert_eq!(
        store.run(&plan),
        Ok(vec![
            KeyDisposition::CreatedNewKey,
            KeyDisposition::OpenedExistingKey,
            KeyDisposition::OpenedExistingKey,
            KeyDisposition::CreatedNewKey,
        ])
    );
    assert_eq!(store.get_value("a", "x"), Some(&"1".to_string()));
    assert_eq!(store.get_value("b", "y"), Some(&"2".to_string()));
    assert!(store.has_key("c"));
    assert_eq!(store.run(&Vec::new()), Ok(Vec::new()));
}

#[test]
fn registration_writes_the_handler() {
    let mut store = Registry::new();
    let found = store.register(EXE);
    assert_eq!(found, vec![KeyDisposition::CreatedNewKey; 4]);
    for path in ["viewsvn", r"viewsvn\shell", r"viewsvn\shell\open", COMMAND_KEY] {
        assert!(store.has_key(path));
    }
    assert_eq!(store.get_value("viewsvn", ""), Some(&"URL:viewsvn Protocol".to_string()));
    assert_eq!(store.get_value("viewsvn", "URL Protocol"), Some(&String::new()));
    assert_eq!(
        store.get_value(COMMAND_KEY, ""),
        Some(&"\"C:\\Program Files\\protolaunch\\protolaunch.exe\" --url \"%1\"".to_string())
    );
    assert_eq!(store.get_value(r"viewsvn\shell", ""), None);
    assert_eq!(store.get_value(r"viewsvn\shell\open", ""), None);
}

#[test]
fn registration_is_the_run_of_its_plan() {
    let mut by_register = Registry::new();
    let found = by_register.register(EXE);
    let mut by_run = Registry::new();
    assert_eq!(by_run.run(&registration_plan(EXE)), Ok(found));
    assert_eq!(by_register, by_run);
}

#[test]
fn registering_twice_is_registering_once() {
    let mut once = Registry::new();
    once.register(EXE);
    let mut twice = Registry::new();
    twice.register(EXE);
    let found = twice.register(EXE);
    assert_eq!(found, vec![KeyDisposition::OpenedExistingKey; 4]);
    assert_eq!(once, twice);
}

#[test]
fn registration_overwrites_an_older_one() {
    let mut store = Registry::new();
    store.register(r"D:\old\protolaunch.exe");
    store.register(EXE);
    let mut fresh = Registry::new();
    fresh.register(EXE);
    assert_eq!(store, fresh);
    assert_eq!(
        store.get_value(COMMAND_KEY, ""),
        Some(&"\"C:\\Program Files\\protolaunch\\protolaunch.exe\" --url \"%1\"".to_string())
    );
}

#[test]
fn registration_leaves_other_entries_alone() {
    let mut store = Registry::new();
    store.create_or_open_key("http");
    store.set_value("http", "", "URL:HyperText Transfer Protocol");
    store.create_or_open_key("viewsvn");
    store.set_value("viewsvn", "", "stale label");
    store.set_value("viewsvn", "FriendlyTypeName", "Subversion log");
    let found = store.register(EXE);
    assert_eq!(
        found,
        vec![
            KeyDisposition::OpenedExistingKey,
            KeyDisposition::CreatedNewKey,
            KeyDisposition::CreatedNewKey,
            KeyDisposition::CreatedNewKey,
        ]
    );
    assert_eq!(store.get_value("http", ""), Some(&"URL:HyperText Transfer Protocol".to_string()));
    assert_eq!(store.get_value("viewsvn", ""), Some(&"URL:viewsvn Protocol".to_string()));
    assert_eq!(store.get_value("viewsvn", "FriendlyTypeName"), Some(&"Subversion log".to_string()));
    assert_eq!(store.get_value("viewsvn", "URL Protocol"), Some(&String::new()));
}
