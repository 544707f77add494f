use dswm::config::{Action, ConfigError, RawBinding, Settings};

fn entry(action: &str, key: &str) -> RawBinding {
    RawBinding { action: action.to_owned(), key: key.to_owned(), args: None }
}

#[test]
fn known_actions_are_parsed() {
    let entries = vec![entry("quit", "q"), entry("focus", "f")];
    let settings = Settings::new(entries).unwrap();
    assert_eq!(settings.keymap.len(), 2);
    assert_eq!(settings.keymap[0].key, "q");
    assert_eq!(settings.keymap[0].action, Action::Quit);
    assert_eq!(settings.keymap[1].key, "f");
    assert_eq!(settings.keymap[1].action, Action::Focus);
}

#[test]
fn unknown_action_is_rejected() {
    let entries = vec![entry("quit", "q"), entry("maximize", "m")];
    let r = Settings::new(entries);
    assert!(matches!(r, Err(ConfigError::UnknownAction)));
}

#[test]
fn arguments_are_kept_with_their_binding() {
    let entries = vec![RawBinding {
        action: "focus".to_owned(),
        key: "j".to_owned(),
        args: Some(vec!["next".to_owned()]),
    }];
    let settings = Settings::new(entries).unwrap();
    assert_eq!(settings.keymap[0].args, Some(vec!["next".to_owned()]));
}

#[test]
fn later_binding_for_same_key_shadows_earlier() {
    let entries = vec![entry("quit", "q"), entry("focus", "q")];
    let settings = Settings::new(entries).unwrap();
    let found = settings.lookup(&"q".to_owned()).unwrap();
    assert_eq!(found.action, Action::Focus);
}

#[test]
fn lookup_of_unbound_key_finds_nothing() {
    let entries = vec![entry("quit", "q")];
    let settings = Settings::new(entries).unwrap();
    assert!(settings.lookup(&"x".to_owned()).is_none());
}
