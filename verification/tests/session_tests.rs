use sudokube::{Mode, ModeSwitchEffect, Sudokube};

#[test]
fn a_fresh_session_is_in_normal_mode() {
    let session = Sudokube::new();
    assert_eq!(session.mode, Mode::Normal);
    assert_eq!(session.command_input, "");
}

#[test]
fn entering_command_mode_opens_the_prompt() {
    let mut session = Sudokube::new();
    let effect = session.switch_mode(Mode::Command);
    assert_eq!(effect, ModeSwitchEffect::OpenCommandPrompt);
    assert_eq!(session.mode, Mode::Command);
}

#[test]
fn leaving_command_mode_discards_the_typed_command() {
    let mut session = Sudokube::new();
    session.switch_mode(Mode::Command);
    session.command_input('w');
    session.command_input('q');
    assert_eq!(session.command_input, "wq");
    let effect = session.switch_mode(Mode::Normal);
    assert_eq!(effect, ModeSwitchEffect::ClearCommandLine);
    assert_eq!(session.mode, Mode::Normal);
    assert_eq!(session.command_input, "");
}

#[test]
fn switching_to_the_same_mode_changes_nothing_on_screen() {
    let mut session = Sudokube::new();
    let effect = session.switch_mode(Mode::Normal);
    assert_eq!(effect, ModeSwitchEffect::NoScreenChange);
    session.switch_mode(Mode::Command);
    session.command_input('q');
    let effect = session.switch_mode(Mode::Command);
    assert_eq!(effect, ModeSwitchEffect::NoScreenChange);
    assert_eq!(session.command_input, "q");
}

#[test]
fn backspace_deletes_the_last_character_only_when_there_is_one() {
    let mut session = Sudokube::new();
    assert!(!session.command_backspace());
    session.command_input('a');
    session.command_input('b');
    assert!(session.command_backspace());
    assert_eq!(session.command_input, "a");
    assert!(session.command_backspace());
    assert_eq!(session.command_input, "");
    assert!(!session.command_backspace());
}
