use reshader::{next_session_state, should_persist_config, MenuChoice, SessionState};

#[test]
fn quit_is_the_only_way_out() {
    assert_eq!(
        next_session_state(MenuChoice::Quit, false),
        SessionState::Terminated
    );
    for choice in [
        MenuChoice::ReShade,
        MenuChoice::ReShadeVanilla,
        MenuChoice::ReShadeShaders,
        MenuChoice::GShadePresets,
        MenuChoice::Uninstall,
    ] {
        assert_eq!(next_session_state(choice, false), SessionState::MainMenu);
    }
}

#[test]
fn an_error_returns_to_the_menu() {
    assert_eq!(
        next_session_state(MenuChoice::Uninstall, true),
        SessionState::MainMenu
    );
    assert_eq!(
        next_session_state(MenuChoice::ReShade, true),
        SessionState::MainMenu
    );
}

#[test]
fn a_one_shot_invocation_is_plain_data() {
    let args = reshader::CliArgs {
        subcommand: Some(reshader::SubCommand::Uninstall {
            game: String::from("/games/one"),
        }),
        use_installer: None,
    };
    assert!(args.use_installer.is_none());
    match args.subcommand {
        Some(reshader::SubCommand::Uninstall { game }) => assert_eq!(game, "/games/one"),
        _ => panic!("expected the uninstall command"),
    }
}

#[test]
fn the_list_is_persisted_after_every_action_but_quitting() {
    assert!(should_persist_config(MenuChoice::Uninstall));
    assert!(should_persist_config(MenuChoice::ReShade));
    assert!(should_persist_config(MenuChoice::GShadePresets));
    assert!(!should_persist_config(MenuChoice::Quit));
}
