use cosmic_altswitcher::args::{AltTabAction, Args, NotAnAction};

#[test]
fn actions_are_written_as_json_strings() {
    assert_eq!(AltTabAction::AltTab.to_string(), "\"AltTab\"");
    assert_eq!(AltTabAction::ShiftAltTab.to_string(), "\"ShiftAltTab\"");
    assert_eq!(AltTabAction::AltTab.name(), "AltTab");
    assert_eq!(AltTabAction::ShiftAltTab.name(), "ShiftAltTab");
}

#[test]
fn written_actions_read_back() {
    for action in [AltTabAction::AltTab, AltTabAction::ShiftAltTab] {
        assert_eq!(AltTabAction::from_str(&action.to_string()), Ok(action));
    }
}

#[test]
fn spaces_and_escapes_are_read() {
    assert_eq!(AltTabAction::from_str(" \"AltTab\"\n"), Ok(AltTabAction::AltTab));
    assert_eq!(AltTabAction::from_str("\"\\u0041ltTab\""), Ok(AltTabAction::AltTab));
}

#[test]
fn objects_with_one_entry_are_read() {
    assert_eq!(AltTabAction::from_str("{\"AltTab\":null}"), Ok(AltTabAction::AltTab));
    assert_eq!(AltTabAction::from_str(" { \"ShiftAltTab\" : null } "), Ok(AltTabAction::ShiftAltTab));
}

#[test]
fn other_objects_are_no_action() {
    for text in [
        "{}",
        "{\"AltTab\":1}",
        "{\"AltTab\":null,\"AltTab\":null}",
        "{\"AltTab\":null,\"ShiftAltTab\":null}",
        "{\"AltTab\":null} x",
        "{\"Other\":null}",
    ] {
        assert_eq!(AltTabAction::from_str(text), Err(NotAnAction));
    }
}

#[test]
fn other_texts_are_no_action() {
    for text in ["", "AltTab", "alt-tab", "\"alt-tab\"", "\"AltTab", "null", "[\"AltTab\"]", "7"] {
        assert_eq!(AltTabAction::from_str(text), Err(NotAnAction));
    }
}

#[test]
fn what_was_read_picks_the_action() {
    let name = |text: &str| Some(text.to_string());
    let keys = |list: &[&str]| Some(list.iter().map(|key| key.to_string()).collect::<Vec<_>>());
    assert_eq!(AltTabAction::from_json(name("AltTab"), None, false), Ok(AltTabAction::AltTab));
    assert_eq!(AltTabAction::from_json(name("Tab"), keys(&["AltTab"]), true), Err(NotAnAction));
    assert_eq!(AltTabAction::from_json(None, keys(&["ShiftAltTab"]), true), Ok(AltTabAction::ShiftAltTab));
    assert_eq!(AltTabAction::from_json(None, keys(&["ShiftAltTab"]), false), Err(NotAnAction));
    assert_eq!(AltTabAction::from_json(None, keys(&["AltTab", "B"]), true), Err(NotAnAction));
    assert_eq!(AltTabAction::from_json(None, None, true), Err(NotAnAction));
}

#[test]
fn the_command_line_holds_the_action() {
    assert_eq!(Args { subcommand: None }.action(), None);
    let args = Args { subcommand: Some(AltTabAction::ShiftAltTab) };
    assert_eq!(args.action(), Some(&AltTabAction::ShiftAltTab));
}
