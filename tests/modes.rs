use magic_modbus::enums::{AppMode, ModeEvent, PopupType, SaveMacroMode};

#[test]
fn help_toggles_from_main_only() {
    assert_eq!(AppMode::Main.next(ModeEvent::ToggleHelp), AppMode::Help);
    assert_eq!(AppMode::Help.next(ModeEvent::ToggleHelp), AppMode::Main);
    let goto = AppMode::Popup(PopupType::Goto);
    assert_eq!(goto.clone().next(ModeEvent::ToggleHelp), goto);
}

#[test]
fn popups_open_from_main_and_close() {
    let edit = AppMode::Main.next(ModeEvent::Open(PopupType::Edit));
    assert_eq!(edit, AppMode::Popup(PopupType::Edit));
    assert_eq!(AppMode::Help.next(ModeEvent::Open(PopupType::Edit)), AppMode::Help);
    assert_eq!(edit.clone().next(ModeEvent::Submitted), AppMode::Main);
    assert_eq!(edit.clone().next(ModeEvent::Cancel), AppMode::Main);
    assert_eq!(edit.clone().next(ModeEvent::Dismiss), edit);
}

#[test]
fn errors_show_over_anything_and_are_dismissed() {
    let err = AppMode::Popup(PopupType::Connection).next(ModeEvent::Fail("lost".to_string()));
    assert_eq!(err, AppMode::Popup(PopupType::Error("lost".to_string())));
    assert_eq!(err.clone().next(ModeEvent::Cancel), err);
    assert_eq!(err.next(ModeEvent::Dismiss), AppMode::Main);
}

#[test]
fn saving_a_macro_walks_through_overwrite() {
    let main = AppMode::Popup(PopupType::SaveMacro(SaveMacroMode::Main));
    let warn = main.clone().next(ModeEvent::FileExists);
    assert_eq!(warn, AppMode::Popup(PopupType::SaveMacro(SaveMacroMode::OverwriteWarning)));
    assert_eq!(warn.clone().next(ModeEvent::DeclineOverwrite), main);
    let saved = warn.next(ModeEvent::Saved);
    assert_eq!(saved, AppMode::Popup(PopupType::SaveMacro(SaveMacroMode::FileSaved)));
    assert_eq!(saved.next(ModeEvent::Dismiss), AppMode::Main);
    assert_eq!(main.next(ModeEvent::Saved), AppMode::Popup(PopupType::SaveMacro(SaveMacroMode::FileSaved)));
}
