use reshader::{
    archive_root_name, enabled_collections, injector_file_name, join_path,
    parse_shader_collections, parse_u8, replace_all, zip_file_name, ShaderCollection,
};

const MANIFEST: &str = "\
[Pack1]
PackageName=Standard effects
PackageDescription=The standard effect pack
InstallPath=.\\reshade-shaders\\Shaders\\Standard
TextureInstallPath=.\\reshade-shaders\\Textures
DownloadUrl=https://example.invalid/standard.zip
Enabled=1
Required=1

[Pack2]
PackageName=Extra effects
PackageDescription=An optional pack
InstallPath=.\\reshade-shaders\\Shaders\\Extra
TextureInstallPath=.\\reshade-shaders\\Textures
DownloadUrl=https://example.invalid/extra.zip
Enabled=0
Required=0
";

#[test]
fn manifest_sections_become_collections_in_order() {
    let cols = parse_shader_collections(MANIFEST).unwrap();
    assert_eq!(cols.len(), 2);
    assert_eq!(cols[0].name, "Standard effects");
    assert_eq!(cols[0].description, "The standard effect pack");
    assert_eq!(cols[0].download_url, "https://example.invalid/standard.zip");
    assert!(cols[0].enabled);
    assert!(cols[0].required);
    assert_eq!(cols[1].name, "Extra effects");
    assert!(!cols[1].enabled);
    assert!(!cols[1].required);
}

#[test]
fn install_paths_are_rewritten_for_the_merged_tree() {
    let cols = parse_shader_collections(MANIFEST).unwrap();
    assert_eq!(cols[0].install_path, "Merged/Shaders/Standard");
    assert_eq!(cols[0].texture_install_path, "Merged/Textures");
    assert_eq!(cols[1].install_path, "Merged/Shaders/Extra");
}

#[test]
fn a_missing_flag_means_disabled() {
    let text = "\
[Pack]
PackageName=N
PackageDescription=D
InstallPath=.\\reshade-shaders\\S
TextureInstallPath=.\\reshade-shaders\\T
DownloadUrl=https://example.invalid/p.zip
";
    let cols = parse_shader_collections(text).unwrap();
    assert!(!cols[0].enabled);
    assert!(!cols[0].required);
}

#[test]
fn a_section_without_a_package_name_fails_the_parse() {
    let text = "\
[Pack]
PackageDescription=D
InstallPath=.\\a
TextureInstallPath=.\\b
DownloadUrl=u
";
    assert!(parse_shader_collections(text).is_none());
}

#[test]
fn a_too_short_install_path_fails_the_parse() {
    let text = "\
[Pack]
PackageName=N
PackageDescription=D
InstallPath=.
TextureInstallPath=.\\b
DownloadUrl=u
";
    assert!(parse_shader_collections(text).is_none());
}

#[test]
fn enabled_collections_keeps_only_the_enabled_ones_in_order() {
    let a = ShaderCollection::new(true, false, "a", "", "p", "t", "u");
    let b = ShaderCollection::new(false, false, "b", "", "p", "t", "u");
    let c = ShaderCollection::new(true, true, "c", "", "p", "t", "u");
    let picked = enabled_collections(&vec![a, b, c]);
    let names: Vec<&str> = picked.iter().map(|x| x.name.as_str()).collect();
    assert_eq!(names, vec!["a", "c"]);
}

#[test]
fn parse_u8_accepts_plain_decimals() {
    assert_eq!(parse_u8("0"), Some(0));
    assert_eq!(parse_u8("1"), Some(1));
    assert_eq!(parse_u8("01"), Some(1));
    assert_eq!(parse_u8("+7"), Some(7));
    assert_eq!(parse_u8("255"), Some(255));
}

#[test]
fn parse_u8_rejects_everything_else() {
    assert_eq!(parse_u8(""), None);
    assert_eq!(parse_u8("+"), None);
    assert_eq!(parse_u8("256"), None);
    assert_eq!(parse_u8("12x"), None);
    assert_eq!(parse_u8("-1"), None);
    assert_eq!(parse_u8(" 1"), None);
}

#[test]
fn collection_construction_keeps_the_fields() {
    let c = ShaderCollection::new(true, false, "n", "d", "ip", "tp", "url");
    assert!(c.enabled);
    assert!(!c.required);
    assert_eq!(c.name, "n");
    assert_eq!(c.description, "d");
    assert_eq!(c.install_path, "ip");
    assert_eq!(c.texture_install_path, "tp");
    assert_eq!(c.download_url, "url");
}

#[test]
fn scratch_names_and_paths_are_deterministic() {
    assert_eq!(zip_file_name("Pack"), "Pack.zip");
    assert_eq!(join_path("/data", "zips"), "/data/zips");
    assert_eq!(injector_file_name(true), "ReShade64.Vanilla.dll");
    assert_eq!(injector_file_name(false), "ReShade64.Addon.dll");
}

#[test]
fn archive_root_is_the_first_entry_or_synthesized() {
    let names = vec![String::from("Pack-master/"), String::from("Pack-master/a.fx")];
    let (root, created) = archive_root_name(&names, "Pack");
    assert_eq!(root, "Pack-master/");
    assert!(!created);
    let (root, created) = archive_root_name(&Vec::new(), "Pack");
    assert_eq!(root, "Pack.zip");
    assert!(created);
}

#[test]
fn replace_all_rewrites_each_occurrence() {
    assert_eq!(replace_all("a\\b\\c", "\\", "/"), "a/b/c");
    assert_eq!(
        replace_all("reshade-shaders/x/reshade-shaders", "reshade-shaders", "Merged"),
        "Merged/x/Merged"
    );
    assert_eq!(replace_all("aaa", "aa", "b"), "ba");
    assert_eq!(replace_all("abc", "x", "y"), "abc");
}
