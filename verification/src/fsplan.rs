//! Planning the filesystem steps of an install or uninstall.
//!
//! A game directory is observed as the state of the seven entry names the
//! installer touches; each action is planned as a sequence of filesystem
//! operations against those names. The planners are pure: the surrounding
//! program observes the directory, asks for a plan, and executes it, so that
//! every decision — what to remove, what to link where, when to refuse —
//! is made here.
//!
//! Removing a tree whose entry is a symlink removes the link entry only; it
//! never follows the link into the shared content it names.

use vstd::prelude::*;
use vstd::string::*;

use crate::errors::ReShaderError;
use crate::errors::ReShaderResult;

verus! {

/// The entry names inside a game directory that the installer touches.
#[derive(Debug, Clone, Copy, PartialEq, Eq, Structural)]
pub enum AssetName {
    /// The platform loader slot the game probes (`dxgi.dll`).
    Loader,
    /// The codec-compiler dependency (`d3dcompiler_47.dll`).
    Compiler,
    /// The injector's configuration file (`ReShade.ini`).
    ConfigIni,
    /// The shader tree slot (`reshade-shaders`).
    ReshadeShaders,
    /// The preset tree slot (`reshade-presets`).
    ReshadePresets,
    /// The GShade-named shader tree slot (`gshade-shaders`).
    GshadeShaders,
    /// The GShade-named preset tree slot (`gshade-presets`).
    GshadePresets,
}

/// What a symlink placed by the installer points at, inside the program's
/// data directory; `Other` stands for any link the installer did not place.
#[derive(Debug, Clone, Copy, PartialEq, Eq, Structural)]
pub enum LinkTarget {
    /// The vanilla build of the injector library.
    InjectorVanilla,
    /// The addon-enabled build of the injector library.
    InjectorAddon,
    /// The shared codec-compiler library.
    CompilerLib,
    /// The merged shader tree (`Merged`).
    MergedTree,
    /// The preset tree (`reshade-presets`).
    PresetTree,
    /// The shader tree (`reshade-shaders`).
    ShaderTree,
    /// A link to anywhere else.
    Other,
}

/// What stands at one entry name of a game directory.
#[derive(Debug, Clone, Copy, PartialEq, Eq, Structural)]
pub enum EntryState {
    /// Nothing exists under the name.
    Absent,
    /// A plain file.
    PlainFile,
    /// A real directory.
    Directory,
    /// A symlink, with what it points at.
    Link(LinkTarget),
}

/// The observed state of the entry names the installer touches in one game
/// directory.
#[derive(Debug, Clone, Copy, PartialEq, Eq, Structural)]
pub struct GameDirState {
    /// State of the loader slot.
    pub loader: EntryState,
    /// State of the codec-compiler dependency slot.
    pub compiler: EntryState,
    /// State of the configuration file.
    pub config_ini: EntryState,
    /// State of the `reshade-shaders` slot.
    pub reshade_shaders: EntryState,
    /// State of the `reshade-presets` slot.
    pub reshade_presets: EntryState,
    /// State of the `gshade-shaders` slot.
    pub gshade_shaders: EntryState,
    /// State of the `gshade-presets` slot.
    pub gshade_presets: EntryState,
}

/// One filesystem operation of a plan.
#[derive(Debug, Clone, Copy, PartialEq, Eq, Structural)]
pub enum FsOp {
    /// Remove the plain file or symlink at the name.
    RemoveFile(AssetName),
    /// Remove the tree at the name; a symlink entry is removed, not
    /// followed.
    RemoveTree(AssetName),
    /// Create a symlink at the name pointing at the target.
    MakeLink(AssetName, LinkTarget),
    /// Write the bundled default configuration file.
    WriteDefaultIni,
}

/// The state of one entry name.
pub open spec fn entry_of(s: GameDirState, n: AssetName) -> EntryState {
    match n {
        AssetName::Loader => s.loader,
        AssetName::Compiler => s.compiler,
        AssetName::ConfigIni => s.config_ini,
        AssetName::ReshadeShaders => s.reshade_shaders,
        AssetName::ReshadePresets => s.reshade_presets,
        AssetName::GshadeShaders => s.gshade_shaders,
        AssetName::GshadePresets => s.gshade_presets,
    }
}

/// The state with one entry name set.
pub open spec fn set_entry(s: GameDirState, n: AssetName, e: EntryState) -> GameDirState {
    match n {
        AssetName::Loader => GameDirState { loader: e, ..s },
        AssetName::Compiler => GameDirState { compiler: e, ..s },
        AssetName::ConfigIni => GameDirState { config_ini: e, ..s },
        AssetName::ReshadeShaders => GameDirState { reshade_shaders: e, ..s },
        AssetName::ReshadePresets => GameDirState { reshade_presets: e, ..s },
        AssetName::GshadeShaders => GameDirState { gshade_shaders: e, ..s },
        AssetName::GshadePresets => GameDirState { gshade_presets: e, ..s },
    }
}

/// The state after one operation executes successfully.
pub open spec fn apply_op(s: GameDirState, op: FsOp) -> GameDirState {
    match op {
        FsOp::RemoveFile(n) => set_entry(s, n, EntryState::Absent),
        FsOp::RemoveTree(n) => set_entry(s, n, EntryState::Absent),
        FsOp::MakeLink(n, t) => set_entry(s, n, EntryState::Link(t)),
        FsOp::WriteDefaultIni => set_entry(s, AssetName::ConfigIni, EntryState::PlainFile),
    }
}

/// The state after a plan executes successfully, first operation first.
pub open spec fn apply_ops(s: GameDirState, ops: Seq<FsOp>) -> GameDirState
    decreases ops.len(),
{
    if ops.len() == 0 {
        s
    } else {
        apply_ops(apply_op(s, ops[0]), ops.skip(1))
    }
}

/// Applying a concatenation applies the parts in order.
pub proof fn lemma_apply_ops_concat(s: GameDirState, a: Seq<FsOp>, b: Seq<FsOp>)
    ensures
        apply_ops(s, a + b) == apply_ops(apply_ops(s, a), b),
    decreases a.len(),
{
    if a.len() == 0 {
        assert(a + b =~= b);
    } else {
        assert((a + b)[0] == a[0]);
        assert((a + b).skip(1) =~= a.skip(1) + b);
        lemma_apply_ops_concat(apply_op(s, a[0]), a.skip(1), b);
    }
}

/// Applying a single operation is one step.
pub proof fn lemma_apply_one(s: GameDirState, op: FsOp)
    ensures
        apply_ops(s, seq![op]) == apply_op(s, op),
{
    let s1 = seq![op];
    assert(s1.len() == 1);
    assert(s1[0] == op);
    assert(s1.skip(1) =~= Seq::<FsOp>::empty());
    assert(s1.skip(1).len() == 0);
    assert(apply_ops(apply_op(s, op), s1.skip(1)) == apply_op(s, op));
}

/// The variant-specific link target of the injector library.
pub open spec fn injector_target(vanilla: bool) -> LinkTarget {
    if vanilla {
        LinkTarget::InjectorVanilla
    } else {
        LinkTarget::InjectorAddon
    }
}

/// The plan that installs the injector: any pre-existing loader and
/// dependency entries are removed (a hard reset of prior installs of either
/// variant), the two symlinks are created, and the bundled default
/// configuration is written when none exists yet.
pub open spec fn spec_plan_install_reshade(s: GameDirState, vanilla: bool) -> Seq<FsOp> {
    (if s.loader is Absent {
        Seq::<FsOp>::empty()
    } else {
        seq![FsOp::RemoveFile(AssetName::Loader)]
    }) + (if s.compiler is Absent {
        Seq::<FsOp>::empty()
    } else {
        seq![FsOp::RemoveFile(AssetName::Compiler)]
    }) + seq![
        FsOp::MakeLink(AssetName::Loader, injector_target(vanilla)),
        FsOp::MakeLink(AssetName::Compiler, LinkTarget::CompilerLib),
    ] + (if s.config_ini is Absent {
        seq![FsOp::WriteDefaultIni]
    } else {
        Seq::<FsOp>::empty()
    })
}

/// The state an injector install leaves behind: both symlinks placed, the
/// configuration written if it was absent, everything else untouched.
pub open spec fn installed_reshade_state(s: GameDirState, vanilla: bool) -> GameDirState {
    GameDirState {
        loader: EntryState::Link(injector_target(vanilla)),
        compiler: EntryState::Link(LinkTarget::CompilerLib),
        config_ini: if s.config_ini is Absent {
            EntryState::PlainFile
        } else {
            s.config_ini
        },
        ..s
    }
}

/// Executing the injector install plan yields exactly the installed state.
pub proof fn lemma_install_reshade_effect(s: GameDirState, vanilla: bool)
    ensures
        apply_ops(s, spec_plan_install_reshade(s, vanilla)) == installed_reshade_state(s, vanilla),
{
    let a = if s.loader is Absent {
        Seq::<FsOp>::empty()
    } else {
        seq![FsOp::RemoveFile(AssetName::Loader)]
    };
    let b = if s.compiler is Absent {
        Seq::<FsOp>::empty()
    } else {
        seq![FsOp::RemoveFile(AssetName::Compiler)]
    };
    let c = seq![
        FsOp::MakeLink(AssetName::Loader, injector_target(vanilla)),
        FsOp::MakeLink(AssetName::Compiler, LinkTarget::CompilerLib),
    ];
    let d = if s.config_ini is Absent {
        seq![FsOp::WriteDefaultIni]
    } else {
        Seq::<FsOp>::empty()
    };
    lemma_apply_ops_concat(s, a + b + c, d);
    lemma_apply_ops_concat(s, a + b, c);
    lemma_apply_ops_concat(s, a, b);
    let s1 = apply_ops(s, a);
    if !(s.loader is Absent) {
        lemma_apply_one(s, FsOp::RemoveFile(AssetName::Loader));
    }
    let s2 = apply_ops(s1, b);
    if !(s.compiler is Absent) {
        lemma_apply_one(s1, FsOp::RemoveFile(AssetName::Compiler));
    }
    assert(c =~= seq![FsOp::MakeLink(AssetName::Loader, injector_target(vanilla))] + seq![
        FsOp::MakeLink(AssetName::Compiler, LinkTarget::CompilerLib),
    ]);
    lemma_apply_ops_concat(s2, seq![FsOp::MakeLink(AssetName::Loader, injector_target(vanilla))],
        seq![FsOp::MakeLink(AssetName::Compiler, LinkTarget::CompilerLib)]);
    lemma_apply_one(s2, FsOp::MakeLink(AssetName::Loader, injector_target(vanilla)));
    lemma_apply_one(apply_op(s2, FsOp::MakeLink(AssetName::Loader, injector_target(vanilla))),
        FsOp::MakeLink(AssetName::Compiler, LinkTarget::CompilerLib));
    let s3 = apply_ops(s2, c);
    if s.config_ini is Absent {
        lemma_apply_one(s3, FsOp::WriteDefaultIni);
    }
}

/// Installing the injector twice with the same variant is idempotent: the
/// second run needs no plan the first did not already establish — executing
/// it changes nothing, and in particular the symlink targets are unchanged.
/// (Planning itself never fails.)
pub proof fn lemma_install_reshade_idempotent(s: GameDirState, vanilla: bool)
    ensures
        ({
            let s1 = apply_ops(s, spec_plan_install_reshade(s, vanilla));
            let s2 = apply_ops(s1, spec_plan_install_reshade(s1, vanilla));
            s2 == s1
        }),
{
    lemma_install_reshade_effect(s, vanilla);
    let s1 = installed_reshade_state(s, vanilla);
    lemma_install_reshade_effect(s1, vanilla);
}

/// Plans the injector install for an observed game directory state.
pub fn plan_install_reshade(state: &GameDirState, vanilla: bool) -> (r: Vec<FsOp>)
    ensures
        r@ == spec_plan_install_reshade(*state, vanilla),
        apply_ops(*state, r@) == installed_reshade_state(*state, vanilla),
{
    let ghost a = if state.loader is Absent {
        Seq::<FsOp>::empty()
    } else {
        seq![FsOp::RemoveFile(AssetName::Loader)]
    };
    let ghost b = if state.compiler is Absent {
        Seq::<FsOp>::empty()
    } else {
        seq![FsOp::RemoveFile(AssetName::Compiler)]
    };
    let ghost c = seq![
        FsOp::MakeLink(AssetName::Loader, injector_target(vanilla)),
        FsOp::MakeLink(AssetName::Compiler, LinkTarget::CompilerLib),
    ];
    let ghost d = if state.config_ini is Absent {
        seq![FsOp::WriteDefaultIni]
    } else {
        Seq::<FsOp>::empty()
    };
    let mut ops: Vec<FsOp> = Vec::new();
    if !matches!(state.loader, EntryState::Absent) {
        ops.push(FsOp::RemoveFile(AssetName::Loader));
    }
    proof {
        assert(ops@ =~= a);
    }
    if !matches!(state.compiler, EntryState::Absent) {
        ops.push(FsOp::RemoveFile(AssetName::Compiler));
    }
    proof {
        assert(ops@ =~= a + b);
    }
    ops.push(FsOp::MakeLink(AssetName::Loader, if vanilla {
        LinkTarget::InjectorVanilla
    } else {
        LinkTarget::InjectorAddon
    }));
    ops.push(FsOp::MakeLink(AssetName::Compiler, LinkTarget::CompilerLib));
    proof {
        assert(ops@ =~= a + b + c);
    }
    if matches!(state.config_ini, EntryState::Absent) {
        ops.push(FsOp::WriteDefaultIni);
    }
    proof {
        assert(ops@ =~= a + b + c + d);
        assert(ops@ =~= spec_plan_install_reshade(*state, vanilla));
        lemma_install_reshade_effect(*state, vanilla);
    }
    ops
}

/// The plan that attaches the merged shader tree to a game directory: a
/// single symlink when the slot is free, nothing when a symlink already
/// stands there.
pub open spec fn spec_plan_install_reshade_shaders(s: GameDirState) -> Seq<FsOp> {
    if s.reshade_shaders is Absent {
        seq![FsOp::MakeLink(AssetName::ReshadeShaders, LinkTarget::MergedTree)]
    } else {
        Seq::<FsOp>::empty()
    }
}

/// Plans attaching the merged shader tree to a game directory.
///
/// When the `reshade-shaders` name is already taken by a plain file or a
/// real directory the plan refuses with a symlink-conflict error and plans
/// nothing, so the existing entry is left untouched; when a symlink already
/// stands there the plan is empty (installing is idempotent); otherwise one
/// symlink is planned.
pub fn plan_install_reshade_shaders(state: &GameDirState, directory: &String, game_path: &String)
    -> (r: ReShaderResult<Vec<FsOp>>)
    ensures
        (r is Ok) <==> (state.reshade_shaders is Absent || state.reshade_shaders is Link),
        r matches Ok(ops) ==> ops@ == spec_plan_install_reshade_shaders(*state),
        r matches Ok(ops) ==> apply_ops(*state, ops@) == (GameDirState {
            reshade_shaders: if state.reshade_shaders is Absent {
                EntryState::Link(LinkTarget::MergedTree)
            } else {
                state.reshade_shaders
            },
            ..*state
        }),
        r matches Err(e) ==> e matches ReShaderError::Symlink(a, b, c) && a@ == directory@ && b@
            == game_path@ + "/reshade-shaders"@ && c@ == "Directory already exists"@,
{
    match state.reshade_shaders {
        EntryState::PlainFile | EntryState::Directory => {
            let mut target = game_path.clone();
            target.append("/reshade-shaders");
            Err(
                ReShaderError::Symlink(
                    directory.clone(),
                    target,
                    String::from_str("Directory already exists"),
                ),
            )
        },
        EntryState::Link(_) => {
            let ops: Vec<FsOp> = Vec::new();
            proof {
                assert(ops@ =~= spec_plan_install_reshade_shaders(*state));
                assert(apply_ops(*state, ops@) == *state);
            }
            Ok(ops)
        },
        EntryState::Absent => {
            let mut ops: Vec<FsOp> = Vec::new();
            ops.push(FsOp::MakeLink(AssetName::ReshadeShaders, LinkTarget::MergedTree));
            proof {
                assert(ops@ =~= spec_plan_install_reshade_shaders(*state));
                lemma_apply_one(
                    *state,
                    FsOp::MakeLink(AssetName::ReshadeShaders, LinkTarget::MergedTree),
                );
                assert(ops@ =~= seq![
                    FsOp::MakeLink(AssetName::ReshadeShaders, LinkTarget::MergedTree),
                ]);
            }
            Ok(ops)
        },
    }
}

/// The plan that attaches the GShade-named preset and shader trees: both
/// symlinks when neither slot is taken, nothing when either is already a
/// symlink.
pub open spec fn spec_plan_install_preset_for_game(s: GameDirState) -> Seq<FsOp> {
    if s.gshade_presets is Link || s.gshade_shaders is Link {
        Seq::<FsOp>::empty()
    } else {
        seq![
            FsOp::MakeLink(AssetName::GshadePresets, LinkTarget::PresetTree),
            FsOp::MakeLink(AssetName::GshadeShaders, LinkTarget::ShaderTree),
        ]
    }
}

/// Plans attaching the GShade-named preset and shader trees to a game
/// directory.
///
/// When either slot is already a symlink the install is a no-op; when either
/// is taken by a plain file or a real directory the plan refuses with a
/// symlink-conflict error and plans nothing; otherwise both symlinks are
/// planned.
pub fn plan_install_preset_for_game(state: &GameDirState, data_dir: &String, game_path: &String)
    -> (r: ReShaderResult<Vec<FsOp>>)
    ensures
        (r is Ok) <==> ((state.gshade_presets is Link || state.gshade_shaders is Link) || (
        state.gshade_presets is Absent && state.gshade_shaders is Absent)),
        r matches Ok(ops) ==> ops@ == spec_plan_install_preset_for_game(*state),
        r matches Ok(ops) ==> apply_ops(*state, ops@) == (if state.gshade_presets is Link
            || state.gshade_shaders is Link {
            *state
        } else {
            GameDirState {
                gshade_presets: EntryState::Link(LinkTarget::PresetTree),
                gshade_shaders: EntryState::Link(LinkTarget::ShaderTree),
                ..*state
            }
        }),
        r matches Err(e) ==> e matches ReShaderError::Symlink(a, b, c) && a@ == data_dir@ && b@
            == game_path@ && c@ == "Directory already exists"@,
{
    let presets_linked = matches!(state.gshade_presets, EntryState::Link(_));
    let shaders_linked = matches!(state.gshade_shaders, EntryState::Link(_));
    if presets_linked || shaders_linked {
        let ops: Vec<FsOp> = Vec::new();
        proof {
            assert(ops@ =~= spec_plan_install_preset_for_game(*state));
        }
        Ok(ops)
    } else if matches!(state.gshade_presets, EntryState::Absent) && matches!(
        state.gshade_shaders,
        EntryState::Absent,
    ) {
        let mut ops: Vec<FsOp> = Vec::new();
        ops.push(FsOp::MakeLink(AssetName::GshadePresets, LinkTarget::PresetTree));
        ops.push(FsOp::MakeLink(AssetName::GshadeShaders, LinkTarget::ShaderTree));
        proof {
            let x = FsOp::MakeLink(AssetName::GshadePresets, LinkTarget::PresetTree);
            let y = FsOp::MakeLink(AssetName::GshadeShaders, LinkTarget::ShaderTree);
            assert(ops@ =~= spec_plan_install_preset_for_game(*state));
            assert(ops@ =~= seq![x] + seq![y]);
            lemma_apply_ops_concat(*state, seq![x], seq![y]);
            lemma_apply_one(*state, x);
            lemma_apply_one(apply_op(*state, x), y);
        }
        Ok(ops)
    } else {
        Err(
            ReShaderError::Symlink(
                data_dir.clone(),
                game_path.clone(),
                String::from_str("Directory already exists"),
            ),
        )
    }
}

/// The plan that uninstalls from a game directory: the loader and dependency
/// entries are removed when present, and the four preset and shader tree
/// slots are removed when present; the configuration file is kept. A symlink
/// in a tree slot is removed as a link entry only, never followed.
pub open spec fn spec_plan_uninstall(s: GameDirState) -> Seq<FsOp> {
    (if s.loader is Absent {
        Seq::<FsOp>::empty()
    } else {
        seq![FsOp::RemoveFile(AssetName::Loader)]
    }) + (if s.compiler is Absent {
        Seq::<FsOp>::empty()
    } else {
        seq![FsOp::RemoveFile(AssetName::Compiler)]
    }) + (if s.reshade_presets is Absent {
        Seq::<FsOp>::empty()
    } else {
        seq![FsOp::RemoveTree(AssetName::ReshadePresets)]
    }) + (if s.reshade_shaders is Absent {
        Seq::<FsOp>::empty()
    } else {
        seq![FsOp::RemoveTree(AssetName::ReshadeShaders)]
    }) + (if s.gshade_presets is Absent {
        Seq::<FsOp>::empty()
    } else {
        seq![FsOp::RemoveTree(AssetName::GshadePresets)]
    }) + (if s.gshade_shaders is Absent {
        Seq::<FsOp>::empty()
    } else {
        seq![FsOp::RemoveTree(AssetName::GshadeShaders)]
    })
}

/// The state an uninstall leaves behind: every installed asset gone, the
/// configuration file untouched.
pub open spec fn uninstalled_state(s: GameDirState) -> GameDirState {
    GameDirState {
        loader: EntryState::Absent,
        compiler: EntryState::Absent,
        reshade_shaders: EntryState::Absent,
        reshade_presets: EntryState::Absent,
        gshade_shaders: EntryState::Absent,
        gshade_presets: EntryState::Absent,
        config_ini: s.config_ini,
    }
}

/// Executing the uninstall plan yields exactly the uninstalled state; on a
/// directory with no installed assets the plan is empty, so uninstalling has
/// no side effect there.
pub proof fn lemma_uninstall_effect(s: GameDirState)
    ensures
        apply_ops(s, spec_plan_uninstall(s)) == uninstalled_state(s),
        (s.loader is Absent && s.compiler is Absent && s.reshade_presets is Absent
            && s.reshade_shaders is Absent && s.gshade_presets is Absent
            && s.gshade_shaders is Absent) ==> spec_plan_uninstall(s)
            == Seq::<FsOp>::empty() && uninstalled_state(s) == s,
{
    let a = if s.loader is Absent {
        Seq::<FsOp>::empty()
    } else {
        seq![FsOp::RemoveFile(AssetName::Loader)]
    };
    let b = if s.compiler is Absent {
        Seq::<FsOp>::empty()
    } else {
        seq![FsOp::RemoveFile(AssetName::Compiler)]
    };
    let c = if s.reshade_presets is Absent {
        Seq::<FsOp>::empty()
    } else {
        seq![FsOp::RemoveTree(AssetName::ReshadePresets)]
    };
    let d = if s.reshade_shaders is Absent {
        Seq::<FsOp>::empty()
    } else {
        seq![FsOp::RemoveTree(AssetName::ReshadeShaders)]
    };
    let e = if s.gshade_presets is Absent {
        Seq::<FsOp>::empty()
    } else {
        seq![FsOp::RemoveTree(AssetName::GshadePresets)]
    };
    let f = if s.gshade_shaders is Absent {
        Seq::<FsOp>::empty()
    } else {
        seq![FsOp::RemoveTree(AssetName::GshadeShaders)]
    };
    lemma_apply_ops_concat(s, a + b + c + d + e, f);
    lemma_apply_ops_concat(s, a + b + c + d, e);
    lemma_apply_ops_concat(s, a + b + c, d);
    lemma_apply_ops_concat(s, a + b, c);
    lemma_apply_ops_concat(s, a, b);
    let s1 = apply_ops(s, a);
    if !(s.loader is Absent) {
        lemma_apply_one(s, FsOp::RemoveFile(AssetName::Loader));
    }
    let s2 = apply_ops(s1, b);
    if !(s.compiler is Absent) {
        lemma_apply_one(s1, FsOp::RemoveFile(AssetName::Compiler));
    }
    let s3 = apply_ops(s2, c);
    if !(s.reshade_presets is Absent) {
        lemma_apply_one(s2, FsOp::RemoveTree(AssetName::ReshadePresets));
    }
    let s4 = apply_ops(s3, d);
    if !(s.reshade_shaders is Absent) {
        lemma_apply_one(s3, FsOp::RemoveTree(AssetName::ReshadeShaders));
    }
    let s5 = apply_ops(s4, e);
    if !(s.gshade_presets is Absent) {
        lemma_apply_one(s4, FsOp::RemoveTree(AssetName::GshadePresets));
    }
    if !(s.gshade_shaders is Absent) {
        lemma_apply_one(s5, FsOp::RemoveTree(AssetName::GshadeShaders));
    }
    if s.loader is Absent && s.compiler is Absent && s.reshade_presets is Absent
        && s.reshade_shaders is Absent && s.gshade_presets is Absent
        && s.gshade_shaders is Absent {
        assert(spec_plan_uninstall(s) =~= Seq::<FsOp>::empty());
    }
}

/// Plans the uninstall for an observed game directory state. Succeeds
/// whatever is present: a directory with nothing installed gets the empty
/// plan.
pub fn plan_uninstall(state: &GameDirState) -> (r: Vec<FsOp>)
    ensures
        r@ == spec_plan_uninstall(*state),
        apply_ops(*state, r@) == uninstalled_state(*state),
{
    let ghost a = if state.loader is Absent {
        Seq::<FsOp>::empty()
    } else {
        seq![FsOp::RemoveFile(AssetName::Loader)]
    };
    let ghost b = if state.compiler is Absent {
        Seq::<FsOp>::empty()
    } else {
        seq![FsOp::RemoveFile(AssetName::Compiler)]
    };
    let ghost c = if state.reshade_presets is Absent {
        Seq::<FsOp>::empty()
    } else {
        seq![FsOp::RemoveTree(AssetName::ReshadePresets)]
    };
    let ghost d = if state.reshade_shaders is Absent {
        Seq::<FsOp>::empty()
    } else {
        seq![FsOp::RemoveTree(AssetName::ReshadeShaders)]
    };
    let ghost e = if state.gshade_presets is Absent {
        Seq::<FsOp>::empty()
    } else {
        seq![FsOp::RemoveTree(AssetName::GshadePresets)]
    };
    let ghost f = if state.gshade_shaders is Absent {
        Seq::<FsOp>::empty()
    } else {
        seq![FsOp::RemoveTree(AssetName::GshadeShaders)]
    };
    let mut ops: Vec<FsOp> = Vec::new();
    if !matches!(state.loader, EntryState::Absent) {
        ops.push(FsOp::RemoveFile(AssetName::Loader));
    }
    proof {
        assert(ops@ =~= a);
    }
    if !matches!(state.compiler, EntryState::Absent) {
        ops.push(FsOp::RemoveFile(AssetName::Compiler));
    }
    proof {
        assert(ops@ =~= a + b);
    }
    if !matches!(state.reshade_presets, EntryState::Absent) {
        ops.push(FsOp::RemoveTree(AssetName::ReshadePresets));
    }
    proof {
        assert(ops@ =~= a + b + c);
    }
    if !matches!(state.reshade_shaders, EntryState::Absent) {
        ops.push(FsOp::RemoveTree(AssetName::ReshadeShaders));
    }
    proof {
        assert(ops@ =~= a + b + c + d);
    }
    if !matches!(state.gshade_presets, EntryState::Absent) {
        ops.push(FsOp::RemoveTree(AssetName::GshadePresets));
    }
    proof {
        assert(ops@ =~= a + b + c + d + e);
    }
    if !matches!(state.gshade_shaders, EntryState::Absent) {
        ops.push(FsOp::RemoveTree(AssetName::GshadeShaders));
    }
    proof {
        assert(ops@ =~= a + b + c + d + e + f);
        assert(ops@ =~= spec_plan_uninstall(*state));
        lemma_uninstall_effect(*state);
    }
    ops
}

/// The on-disk name of an entry inside a game directory.
pub open spec fn spec_asset_file_name(n: AssetName) -> Seq<char> {
    match n {
        AssetName::Loader => "dxgi.dll"@,
        AssetName::Compiler => "d3dcompiler_47.dll"@,
        AssetName::ConfigIni => "ReShade.ini"@,
        AssetName::ReshadeShaders => "reshade-shaders"@,
        AssetName::ReshadePresets => "reshade-presets"@,
        AssetName::GshadeShaders => "gshade-shaders"@,
        AssetName::GshadePresets => "gshade-presets"@,
    }
}

impl AssetName {
    /// The on-disk name of the entry inside a game directory.
    pub fn file_name(&self) -> (r: String)
        ensures
            r@ == spec_asset_file_name(*self),
    {
        match self {
            AssetName::Loader => String::from_str("dxgi.dll"),
            AssetName::Compiler => String::from_str("d3dcompiler_47.dll"),
            AssetName::ConfigIni => String::from_str("ReShade.ini"),
            AssetName::ReshadeShaders => String::from_str("reshade-shaders"),
            AssetName::ReshadePresets => String::from_str("reshade-presets"),
            AssetName::GshadeShaders => String::from_str("gshade-shaders"),
            AssetName::GshadePresets => String::from_str("gshade-presets"),
        }
    }
}

} // verus!
