use reshader::{
    branch_ref_name, check_repository_exists, decide_pull, resolve_refspec, AssetName,
    MergeAnalysis, PullAction, ReShaderError,
};

#[test]
fn refspec_prefers_the_configured_branch() {
    let r = resolve_refspec(Some(String::from("develop")), "main");
    assert_eq!(r, "develop");
}

#[test]
fn refspec_falls_back_to_head() {
    let r = resolve_refspec(None, "main");
    assert_eq!(r, "main");
}

#[test]
fn branch_ref_name_is_fully_qualified() {
    assert_eq!(branch_ref_name("main"), "refs/heads/main");
}

#[test]
fn a_missing_repository_stops_the_pull() {
    let err = check_repository_exists(false, &String::from("shaders")).unwrap_err();
    match err {
        ReShaderError::RepositoryNotFound(name) => assert_eq!(name, "shaders"),
        other => panic!("expected RepositoryNotFound, got {:?}", other),
    }
    assert!(check_repository_exists(true, &String::from("shaders")).is_ok());
}

#[test]
fn fast_forward_moves_the_branch() {
    let r = decide_pull(
        MergeAnalysis::FastForward,
        true,
        false,
        &String::from("main"),
        &String::from("repo"),
    );
    assert_eq!(r.unwrap(), PullAction::FastForward);
}

#[test]
fn fast_forward_without_the_branch_ref_fails() {
    let err = decide_pull(
        MergeAnalysis::FastForward,
        false,
        false,
        &String::from("main"),
        &String::from("repo"),
    )
    .unwrap_err();
    match err {
        ReShaderError::BranchNotFound(branch, repo) => {
            assert_eq!(branch, "main");
            assert_eq!(repo, "repo");
        },
        other => panic!("expected BranchNotFound, got {:?}", other),
    }
}

#[test]
fn a_clean_merge_is_committed() {
    let r = decide_pull(
        MergeAnalysis::Normal,
        false,
        false,
        &String::from("main"),
        &String::from("repo"),
    );
    assert_eq!(r.unwrap(), PullAction::Merge);
}

#[test]
fn a_conflicted_merge_is_refused() {
    let err = decide_pull(
        MergeAnalysis::Normal,
        false,
        true,
        &String::from("main"),
        &String::from("repo"),
    )
    .unwrap_err();
    match err {
        ReShaderError::MergeConflict(branch, repo) => {
            assert_eq!(branch, "main");
            assert_eq!(repo, "repo");
        },
        other => panic!("expected MergeConflict, got {:?}", other),
    }
}

#[test]
fn up_to_date_leaves_the_tree_alone() {
    let r = decide_pull(
        MergeAnalysis::UpToDate,
        false,
        false,
        &String::from("main"),
        &String::from("repo"),
    );
    assert_eq!(r.unwrap(), PullAction::Nothing);
}

#[test]
fn asset_names_match_the_on_disk_names() {
    assert_eq!(AssetName::Loader.file_name(), "dxgi.dll");
    assert_eq!(AssetName::Compiler.file_name(), "d3dcompiler_47.dll");
    assert_eq!(AssetName::ConfigIni.file_name(), "ReShade.ini");
    assert_eq!(AssetName::ReshadeShaders.file_name(), "reshade-shaders");
    assert_eq!(AssetName::ReshadePresets.file_name(), "reshade-presets");
    assert_eq!(AssetName::GshadeShaders.file_name(), "gshade-shaders");
    assert_eq!(AssetName::GshadePresets.file_name(), "gshade-presets");
}
