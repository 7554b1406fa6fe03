use reshader::{
    plan_install_preset_for_game, plan_install_reshade, plan_install_reshade_shaders,
    plan_uninstall, AssetName, EntryState, FsOp, GameDirState, LinkTarget, ReShaderError,
};

fn empty_dir() -> GameDirState {
    GameDirState {
        loader: EntryState::Absent,
        compiler: EntryState::Absent,
        config_ini: EntryState::Absent,
        reshade_shaders: EntryState::Absent,
        reshade_presets: EntryState::Absent,
        gshade_shaders: EntryState::Absent,
        gshade_presets: EntryState::Absent,
    }
}

/// Executes a plan against an in-memory directory state, as the surrounding
/// program does against the disk.
fn run(mut state: GameDirState, ops: &[FsOp]) -> GameDirState {
    for op in ops {
        let (name, entry) = match op {
            FsOp::RemoveFile(n) => (*n, EntryState::Absent),
            FsOp::RemoveTree(n) => (*n, EntryState::Absent),
            FsOp::MakeLink(n, t) => (*n, EntryState::Link(*t)),
            FsOp::WriteDefaultIni => (AssetName::ConfigIni, EntryState::PlainFile),
        };
        match name {
            AssetName::Loader => state.loader = entry,
            AssetName::Compiler => state.compiler = entry,
            AssetName::ConfigIni => state.config_ini = entry,
            AssetName::ReshadeShaders => state.reshade_shaders = entry,
            AssetName::ReshadePresets => state.reshade_presets = entry,
            AssetName::GshadeShaders => state.gshade_shaders = entry,
            AssetName::GshadePresets => state.gshade_presets = entry,
        }
    }
    state
}

#[test]
fn install_reshade_on_clean_directory() {
    let state = empty_dir();
    let ops = plan_install_reshade(&state, false);
    let after = run(state, &ops);
    assert_eq!(after.loader, EntryState::Link(LinkTarget::InjectorAddon));
    assert_eq!(after.compiler, EntryState::Link(LinkTarget::CompilerLib));
    assert_eq!(after.config_ini, EntryState::PlainFile);
}

#[test]
fn install_reshade_vanilla_links_the_vanilla_build() {
    let state = empty_dir();
    let ops = plan_install_reshade(&state, true);
    let after = run(state, &ops);
    assert_eq!(after.loader, EntryState::Link(LinkTarget::InjectorVanilla));
}

#[test]
fn install_reshade_twice_is_idempotent() {
    let state = empty_dir();
    let once = run(state, &plan_install_reshade(&state, false));
    let second_plan = plan_install_reshade(&once, false);
    let twice = run(once, &second_plan);
    assert_eq!(twice, once);
    assert_eq!(twice.loader, EntryState::Link(LinkTarget::InjectorAddon));
    assert_eq!(twice.compiler, EntryState::Link(LinkTarget::CompilerLib));
}

#[test]
fn install_reshade_keeps_an_existing_config_ini() {
    let mut state = empty_dir();
    state.config_ini = EntryState::PlainFile;
    let ops = plan_install_reshade(&state, false);
    assert!(!ops.contains(&FsOp::WriteDefaultIni));
}

#[test]
fn install_shaders_conflicts_with_a_plain_file() {
    let mut state = empty_dir();
    state.reshade_shaders = EntryState::PlainFile;
    let data = String::from("/data/Merged");
    let game = String::from("/games/one");
    let err = plan_install_reshade_shaders(&state, &data, &game).unwrap_err();
    match err {
        ReShaderError::Symlink(src, target, reason) => {
            assert_eq!(src, "/data/Merged");
            assert_eq!(target, "/games/one/reshade-shaders");
            assert_eq!(reason, "Directory already exists");
        },
        other => panic!("expected a symlink conflict, got {:?}", other),
    }
    // nothing was planned, so the plain file is untouched
    assert_eq!(state.reshade_shaders, EntryState::PlainFile);
}

#[test]
fn install_shaders_conflicts_with_a_real_directory() {
    let mut state = empty_dir();
    state.reshade_shaders = EntryState::Directory;
    let data = String::from("/data/Merged");
    let game = String::from("/games/one");
    assert!(plan_install_reshade_shaders(&state, &data, &game).is_err());
}

#[test]
fn install_shaders_is_a_no_op_on_an_existing_link() {
    let mut state = empty_dir();
    state.reshade_shaders = EntryState::Link(LinkTarget::MergedTree);
    let data = String::from("/data/Merged");
    let game = String::from("/games/one");
    let ops = plan_install_reshade_shaders(&state, &data, &game).unwrap();
    assert!(ops.is_empty());
}

#[test]
fn install_shaders_links_a_free_slot() {
    let state = empty_dir();
    let data = String::from("/data/Merged");
    let game = String::from("/games/one");
    let ops = plan_install_reshade_shaders(&state, &data, &game).unwrap();
    assert_eq!(
        ops,
        vec![FsOp::MakeLink(AssetName::ReshadeShaders, LinkTarget::MergedTree)]
    );
}

#[test]
fn install_presets_links_both_slots() {
    let state = empty_dir();
    let data = String::from("/data");
    let game = String::from("/games/one");
    let ops = plan_install_preset_for_game(&state, &data, &game).unwrap();
    let after = run(state, &ops);
    assert_eq!(after.gshade_presets, EntryState::Link(LinkTarget::PresetTree));
    assert_eq!(after.gshade_shaders, EntryState::Link(LinkTarget::ShaderTree));
}

#[test]
fn install_presets_is_a_no_op_when_already_linked() {
    let mut state = empty_dir();
    state.gshade_presets = EntryState::Link(LinkTarget::PresetTree);
    let data = String::from("/data");
    let game = String::from("/games/one");
    let ops = plan_install_preset_for_game(&state, &data, &game).unwrap();
    assert!(ops.is_empty());
}

#[test]
fn install_presets_conflicts_with_a_plain_entry() {
    let mut state = empty_dir();
    state.gshade_shaders = EntryState::Directory;
    let data = String::from("/data");
    let game = String::from("/games/one");
    let err = plan_install_preset_for_game(&state, &data, &game).unwrap_err();
    assert!(matches!(err, ReShaderError::Symlink(_, _, _)));
}

#[test]
fn uninstall_with_nothing_installed_plans_nothing() {
    let state = empty_dir();
    let ops = plan_uninstall(&state);
    assert!(ops.is_empty());
    let after = run(state, &ops);
    assert_eq!(after, state);
}

#[test]
fn uninstall_removes_every_asset_and_keeps_the_config() {
    let state = GameDirState {
        loader: EntryState::Link(LinkTarget::InjectorAddon),
        compiler: EntryState::Link(LinkTarget::CompilerLib),
        config_ini: EntryState::PlainFile,
        reshade_shaders: EntryState::Link(LinkTarget::MergedTree),
        reshade_presets: EntryState::Directory,
        gshade_shaders: EntryState::Link(LinkTarget::ShaderTree),
        gshade_presets: EntryState::Link(LinkTarget::PresetTree),
    };
    let after = run(state, &plan_uninstall(&state));
    assert_eq!(after.loader, EntryState::Absent);
    assert_eq!(after.compiler, EntryState::Absent);
    assert_eq!(after.reshade_shaders, EntryState::Absent);
    assert_eq!(after.reshade_presets, EntryState::Absent);
    assert_eq!(after.gshade_shaders, EntryState::Absent);
    assert_eq!(after.gshade_presets, EntryState::Absent);
    assert_eq!(after.config_ini, EntryState::PlainFile);
}
