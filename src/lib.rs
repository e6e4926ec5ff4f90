//! Object resolution and rendering for a read-only browser of bare git repositories:
//! a ref and a path go in, a directory listing, file contents or a README come out.
//! Also the decisions of a restricted login shell that only runs git's transfer
//! commands.

pub mod config;
pub mod error;
pub mod git_repo;
pub mod hexdump;
pub mod listing;
pub mod nav;
pub mod render;
pub mod repo_path;
pub mod shell;
pub mod text;

pub use config::{compile_overrides, relative_readme_path, select_lang, Access, Override, RepoMetadata};
pub use error::Error;
pub use git_repo::{
    after_entry, after_load, after_lookup, after_root, decode_branch_names, find_tag, EntryStep, RootStep, ls_tree, readme_from_object, render_blob, render_readme, Branch, GitRepo, Lookup,
    Object, Stage, Step,
};
pub use hexdump::fmt_xxd_hexdump;
pub use listing::{list_files, order_by_name, partition_dirs_first, sort_files_by_name, File, FileMode, TreeEntry};
pub use nav::{path_nav, NavSegment};
pub use render::{readme_entry, readme_from_content, render_content, Readme, RenderedContent};
pub use repo_path::{RepoPath, RepoPathError};
pub use shell::{git_shell_dequote, plan_invocation, standard_commands, DequoteError, Invocation, ShellError};
