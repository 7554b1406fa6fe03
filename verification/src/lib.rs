//! Verified core of a ReShade installer: locating the zip archive embedded in
//! the vendor installer, resolving release versions, planning symlink-based
//! install and uninstall steps, merging shader trees, and keeping the list of
//! managed game directories.

pub mod cliargs;
pub mod codec;
pub mod collections;
pub mod config;
pub mod errors;
pub mod fsplan;
pub mod gitflow;
pub mod locator;
pub mod merge;
pub mod session;
pub mod version;

pub use cliargs::CliArgs;
pub use cliargs::SubCommand;
pub use codec::encode_config;
pub use codec::lemma_config_round_trip;
pub use codec::parse_config;
pub use collections::ShaderCollection;
pub use collections::archive_root_name;
pub use collections::enabled_collections;
pub use collections::join_path;
pub use collections::parse_shader_collections;
pub use collections::parse_u8;
pub use collections::replace_all;
pub use collections::rewrite_install_path;
pub use collections::zip_file_name;
pub use config::Config;
pub use errors::ReShaderError;
pub use errors::ReShaderResult;
pub use fsplan::AssetName;
pub use fsplan::EntryState;
pub use fsplan::FsOp;
pub use fsplan::GameDirState;
pub use fsplan::LinkTarget;
pub use fsplan::plan_install_preset_for_game;
pub use fsplan::plan_install_reshade;
pub use fsplan::plan_install_reshade_shaders;
pub use fsplan::plan_uninstall;
pub use gitflow::MergeAnalysis;
pub use gitflow::PullAction;
pub use gitflow::branch_ref_name;
pub use gitflow::check_repository_exists;
pub use gitflow::decide_pull;
pub use gitflow::resolve_refspec;
pub use locator::carve_injector_library;
pub use locator::find_zip_offset;
pub use locator::injector_file_name;
pub use merge::FileTree;
pub use merge::lemma_merge_last_wins;
pub use session::MenuChoice;
pub use session::SessionState;
pub use session::next_session_state;
pub use session::should_persist_config;
pub use version::reshade_download_url;
pub use version::resolve_installer_url;
pub use version::resolve_latest_version;
pub use version::trim_v;
