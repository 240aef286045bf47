//! A read-only filesystem over a jj repository.
//!
//! The commits of the repository, its mutable commits, workspaces and bookmarks are directories
//! below the mountpoint. This library decides what is at each path, what a directory lists, which
//! inode a path has and what the kernel is told. What only the repository can tell, a program
//! around the library looks up: a file that needs such a lookup answers with a `Query`, and takes
//! what was found.

pub mod bookmarks_directory;
pub mod commit_id;
pub mod commit_tree_file;
pub mod commits_directory;
pub mod config;
pub mod file;
pub mod fuse;
pub mod hardcoded_symlink;
pub mod inode_map;
pub mod inode_tree;
pub mod inodes;
mod interned;
pub mod jj_error;
pub mod jj_filesystem;
pub mod jj_repo;
pub mod listing;
pub mod merge;
pub mod mutable_commits_directory;
pub mod named;
pub mod path_mapper;
pub mod path_mapper_all_commits;
pub mod paths;
pub mod read_window;
pub mod repo_path;
pub mod repo_view;
pub mod revset;
pub mod static_directory;
pub mod text;
pub mod tree;
pub mod vfs;
pub mod virtual_file;
pub mod workspaces_directory;
pub mod writable_commit_tree_file;
