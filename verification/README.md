# jjfsd

A read-only filesystem over a [jj](https://github.com/jj-vcs/jj) repository, with its logic
verified by Verus.

Below the mountpoint:

- `commits/<commit id>/...`: the tree of each commit,
- `mutable_commits/<commit id>`: a symlink to each commit that may still be rewritten,
- `workspaces/<name>/...`: the tree of the commit that each workspace has checked out,
- `bookmarks/<name>`: a symlink to the commit of each local bookmark that points to one commit.

## Layout

- `src/`: the library. Its functions state in their contracts what they return, and Verus proves it.
  What an implementor of `VirtualFile` or `PathMapper` answers is left to that implementor.
  - Text, names, paths and ids: `text`, `named`, `paths`, `repo_path`, `commit_id`, `config`.
  - The repository as plain values: `repo_view`, `revset`, `tree`, `merge`, `listing`.
  - Files and directories: `virtual_file`, `static_directory`, `hardcoded_symlink`,
    `commits_directory`, `mutable_commits_directory`, `workspaces_directory`,
    `bookmarks_directory`, `commit_tree_file`, `writable_commit_tree_file`.
  - The layout below the mountpoint: `path_mapper`, `path_mapper_all_commits`.
  - Inodes and requests by inode: `inode_tree`, `inode_map`, `inodes`, `vfs`, `read_window`, `fuse`.
  - Files and directories alone, without symlinks: `file`, `jj_filesystem`,
    `vfs::commit_tree_file`, `vfs::commits_directory`, `jj_repo`.
- `app/`: the program. It mounts the filesystem, makes the lookups in the repository that the
  library asks for, and talks to the kernel.
- `tests/`: tests of the library, some of them on repositories on disk.

Functions marked `#[verifier::external_body]` call other crates (`jj_lib`, `itertools`, `ustr`).
Their contracts are not proved; each says what it claims of the function that it calls.
