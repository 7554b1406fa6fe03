use reshader::{
    reshade_download_url, resolve_installer_url, resolve_latest_version, trim_v, ReShaderError,
};

#[test]
fn resolution_picks_the_highest_release() {
    let tags = vec![
        String::from("v1.0.0"),
        String::from("v1.2.0"),
        String::from("v1.1.0"),
    ];
    assert_eq!(resolve_latest_version(&tags).unwrap(), "1.2.0");
}

#[test]
fn resolution_orders_numerically_not_lexically() {
    let tags = vec![String::from("v1.9.0"), String::from("v1.10.0")];
    assert_eq!(resolve_latest_version(&tags).unwrap(), "1.10.0");
}

#[test]
fn resolution_passes_over_unparsable_tags() {
    let tags = vec![
        String::from("nightly"),
        String::from("v2.0.1"),
        String::from("v2.0"),
    ];
    assert_eq!(resolve_latest_version(&tags).unwrap(), "2.0.1");
}

#[test]
fn resolution_fails_on_an_empty_listing() {
    let err = resolve_latest_version(&Vec::new()).unwrap_err();
    assert!(matches!(err, ReShaderError::FetchLatestVersion(_)));
}

#[test]
fn resolution_fails_when_nothing_parses() {
    let tags = vec![String::from("latest"), String::from("stable")];
    let err = resolve_latest_version(&tags).unwrap_err();
    assert!(matches!(err, ReShaderError::FetchLatestVersion(_)));
}

#[test]
fn download_url_interpolates_the_version() {
    assert_eq!(
        reshade_download_url("1.2.0", false),
        "https://reshade.me/downloads/ReShade_Setup_1.2.0_Addon.exe"
    );
    assert_eq!(
        reshade_download_url("1.2.0", true),
        "https://reshade.me/downloads/ReShade_Setup_1.2.0.exe"
    );
}

#[test]
fn end_to_end_resolution_builds_the_addon_url() {
    let tags = vec![
        String::from("v1.0.0"),
        String::from("v1.2.0"),
        String::from("v1.1.0"),
    ];
    let url = resolve_installer_url(None, &tags, false).unwrap();
    assert_eq!(url, "https://reshade.me/downloads/ReShade_Setup_1.2.0_Addon.exe");
}

#[test]
fn an_explicit_version_is_used_unchecked() {
    let url = resolve_installer_url(Some(String::from("9.9.9")), &Vec::new(), true).unwrap();
    assert_eq!(url, "https://reshade.me/downloads/ReShade_Setup_9.9.9.exe");
}

#[test]
fn trim_v_strips_every_leading_v() {
    assert_eq!(trim_v("v1.0.0"), "1.0.0");
    assert_eq!(trim_v("vv2.0.0"), "2.0.0");
    assert_eq!(trim_v("1.0.0"), "1.0.0");
    assert_eq!(trim_v(""), "");
    assert_eq!(trim_v("vvv"), "");
}
