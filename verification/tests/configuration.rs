use control::configuration::{Configuration, Error};
use control::keys::{KeyError, KeybindAction, KeybindTrigger, Keybinds, Modifiers};

fn entries_of(document: &str) -> Vec<(String, String)> {
    let table: toml::Table = toml::from_str(document).unwrap();
    table["keys"]
        .as_table()
        .unwrap()
        .iter()
        .map(|(trigger, action)| (trigger.clone(), action.as_str().unwrap().to_string()))
        .collect()
}

fn configuration_of(document: &str) -> Configuration {
    Configuration::from_entries(&entries_of(document)).unwrap()
}

fn trigger(key: char, alt: bool, ctrl: bool, shift: bool) -> KeybindTrigger {
    KeybindTrigger { key, modifiers: Modifiers { alt, ctrl, shift } }
}

#[test]
fn merge_configs() {
    let mut config_1: Configuration = configuration_of(
        r#"
                [keys]
                C-a = "focus_left"
                C-S-a = "reconnect"
            "#,
    );

    let config_2: Configuration = configuration_of(
        r#"
                [keys]
                C-c = "focus_left"
                C-A = "focus_right"
            "#,
    );

    config_1.merge(config_2);

    assert!(config_1.same_bindings(&configuration_of(
        r#"
                [keys]
                C-a = "focus_left"
                C-A = "focus_right"
                C-c = "focus_left"
            "#
    )));
    assert_eq!(config_1.keys.len(), 3);
    assert_eq!(config_1.keys.get(trigger('a', false, true, true)), Some(KeybindAction::FocusRight));
}

#[test]
fn triggers_are_read() {
    assert_eq!(KeybindTrigger::parse("x"), Ok(trigger('x', false, false, false)));
    assert_eq!(KeybindTrigger::parse("7"), Ok(trigger('7', false, false, false)));
    assert_eq!(KeybindTrigger::parse("C-a"), Ok(trigger('a', false, true, false)));
    assert_eq!(KeybindTrigger::parse("A-S-q"), Ok(trigger('q', true, false, true)));
    assert_eq!(KeybindTrigger::parse("C-A-S-0"), Ok(trigger('0', true, true, true)));
    assert_eq!(KeybindTrigger::parse("C-C-z"), Ok(trigger('z', false, true, false)));
}

#[test]
fn upper_case_key_means_shift() {
    assert_eq!(KeybindTrigger::parse("C-A"), KeybindTrigger::parse("C-S-a"));
    assert_eq!(KeybindTrigger::parse("Z"), Ok(trigger('z', false, false, true)));
    assert_eq!(KeybindTrigger::parse("S-Q"), Ok(trigger('q', false, false, true)));
    assert_ne!(KeybindTrigger::parse("C-a"), KeybindTrigger::parse("C-A"));
}

#[test]
fn malformed_triggers_are_refused() {
    for text in ["", "-", "C-", "C", "X-a", "c-a", "C+a", "Ca", "C-ab", "C--a", "C-ä", "C-#", " a"] {
        let parsed = KeybindTrigger::parse(text);
        if text == "C" {
            assert_eq!(parsed, Ok(trigger('c', false, false, true)));
        } else {
            assert_eq!(parsed, Err(KeyError::InvalidTrigger), "{text:?}");
        }
    }
}

#[test]
fn actions_are_named() {
    let names = [
        ("close_tab", KeybindAction::CloseTab),
        ("duplicate_tab", KeybindAction::DuplicateTab),
        ("focus_above", KeybindAction::FocusAbove),
        ("focus_address", KeybindAction::FocusAddress),
        ("focus_below", KeybindAction::FocusBelow),
        ("focus_left", KeybindAction::FocusLeft),
        ("focus_panel", KeybindAction::FocusPanel),
        ("focus_right", KeybindAction::FocusRight),
        ("no_op", KeybindAction::NoOp),
        ("open_split", KeybindAction::OpenSplit),
        ("open_tab", KeybindAction::OpenTab),
        ("reconnect", KeybindAction::Reconnect),
    ];
    for (name, action) in names {
        assert_eq!(KeybindAction::from_name(name), Some(action));
    }
    assert_eq!(KeybindAction::from_name("focus"), None);
    assert_eq!(KeybindAction::from_name("Focus_left"), None);
    assert_eq!(KeybindAction::from_name(""), None);
}

#[test]
fn bindings_replace_and_merge() {
    let mut keys = Keybinds::new();
    assert_eq!(keys.len(), 0);
    let a = trigger('a', false, false, false);
    let b = trigger('b', false, true, false);
    keys.insert(a, KeybindAction::OpenTab);
    keys.insert(b, KeybindAction::CloseTab);
    keys.insert(a, KeybindAction::NoOp);
    assert_eq!(keys.len(), 2);
    assert_eq!(keys.get(a), Some(KeybindAction::NoOp));
    assert_eq!(keys.get(b), Some(KeybindAction::CloseTab));
    assert_eq!(keys.get(trigger('b', false, false, false)), None);

    let mut other = Keybinds::new();
    other.insert(b, KeybindAction::Reconnect);
    other.insert(trigger('c', true, false, false), KeybindAction::FocusPanel);
    assert!(!keys.same_bindings(&other));
    keys.merge(other);
    assert_eq!(keys.len(), 3);
    assert_eq!(keys.get(a), Some(KeybindAction::NoOp));
    assert_eq!(keys.get(b), Some(KeybindAction::Reconnect));
    assert_eq!(keys.get(trigger('c', true, false, false)), Some(KeybindAction::FocusPanel));
}

#[test]
fn first_faulty_entry_is_reported() {
    let entry = |trigger: &str, action: &str| (trigger.to_string(), action.to_string());
    let entries = vec![entry("C-a", "open_tab"), entry("C-", "open_tab"), entry("b", "nothing")];
    assert_eq!(
        Configuration::from_entries(&entries).err(),
        Some(Error { entry: 1, reason: KeyError::InvalidTrigger })
    );
    let entries = vec![entry("C-a", "open_tab"), entry("b", "nothing"), entry("C-", "open_tab")];
    assert_eq!(
        Configuration::from_entries(&entries).err(),
        Some(Error { entry: 1, reason: KeyError::UnknownAction })
    );
    let entries = vec![entry("?", "nothing")];
    assert_eq!(
        Configuration::from_entries(&entries).err(),
        Some(Error { entry: 0, reason: KeyError::InvalidTrigger })
    );
}

#[test]
fn later_entry_wins_within_one_list() {
    let entry = |trigger: &str, action: &str| (trigger.to_string(), action.to_string());
    let entries = vec![entry("C-S-a", "open_tab"), entry("x", "no_op"), entry("C-A", "close_tab")];
    let configuration = Configuration::from_entries(&entries).unwrap();
    assert_eq!(configuration.keys.len(), 2);
    assert_eq!(
        configuration.keys.get(trigger('a', false, true, true)),
        Some(KeybindAction::CloseTab)
    );
}

#[test]
fn load_without_user_file_gives_the_default() {
    let default = configuration_of("[keys]\nC-t = \"open_tab\"\n");
    let loaded = Configuration::load(None, default).unwrap();
    assert!(loaded.same_bindings(&configuration_of("[keys]\nC-t = \"open_tab\"\n")));
}

#[test]
fn load_merges_the_default_into_the_user_file() {
    let default = configuration_of("[keys]\nC-t = \"open_tab\"\nC-w = \"close_tab\"\n");
    let user = entries_of("[keys]\nC-t = \"duplicate_tab\"\nC-r = \"reconnect\"\n");
    let loaded = Configuration::load(Some(&user), default).unwrap();
    assert!(loaded.same_bindings(&configuration_of(
        "[keys]\nC-t = \"open_tab\"\nC-w = \"close_tab\"\nC-r = \"reconnect\"\n"
    )));
}

#[test]
fn load_reports_a_faulty_user_file() {
    let default = configuration_of("[keys]\nC-t = \"open_tab\"\n");
    let user = entries_of("[keys]\nC-t = \"jump\"\n");
    assert_eq!(
        Configuration::load(Some(&user), default).err(),
        Some(Error { entry: 0, reason: KeyError::UnknownAction })
    );
}
