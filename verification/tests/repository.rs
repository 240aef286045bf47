use std::path::Path;
use std::sync::Arc;

use futures::AsyncReadExt as _;
use futures::StreamExt as _;
use jj_lib::backend;
use jj_lib::backend::ChangeId;
use jj_lib::backend::CopyId;
use jj_lib::backend::MillisSinceEpoch;
use jj_lib::backend::Signature;
use jj_lib::backend::Timestamp;
use jj_lib::config::ConfigLayer;
use jj_lib::config::ConfigSource;
use jj_lib::config::StackedConfig;
use jj_lib::merge::Merge;
use jj_lib::object_id::ObjectId as _;
use jj_lib::op_store;
use jj_lib::ref_name::RefName;
use jj_lib::repo::ReadonlyRepo;
use jj_lib::repo::Repo as _;
use jj_lib::repo::StoreFactories;
use jj_lib::repo_path::RepoPathBuf;
use jj_lib::revset::ResolvedRevsetExpression;
use jj_lib::settings::UserSettings;
use jj_lib::tree_builder::TreeBuilder;
use jj_lib::workspace::default_working_copy_factories;
use jj_lib::workspace::Workspace;
use jjfsd::bookmarks_directory::BookmarksDirectory;
use jjfsd::commit_id::CommitId;
use jjfsd::commit_tree_file;
use jjfsd::commit_tree_file::CommitTreeFile;
use jjfsd::commits_directory::CommitsDirectory;
use jjfsd::file::File;
use jjfsd::file::FileType as PlainType;
use jjfsd::jj_error::JjError;
use jjfsd::jj_error::JjResult;
use jjfsd::jj_filesystem::VirtualFile as _;
use jjfsd::jj_repo;
use jjfsd::jj_repo::JjCommit as _;
use jjfsd::jj_repo::JjLibCommit;
use jjfsd::jj_repo::JjLibRepo;
use jjfsd::jj_repo::JjRepo as _;
use jjfsd::mutable_commits_directory::MutableCommitsDirectory;
use jjfsd::path_mapper::PathMapper as _;
use jjfsd::path_mapper_all_commits::AllCommitsPathMapper;
use jjfsd::path_mapper_all_commits::Entry;
use jjfsd::read_window::ReadWindow;
use jjfsd::repo_view::Bookmark;
use jjfsd::repo_view::RefTarget;
use jjfsd::repo_view::RepoView;
use jjfsd::repo_view::WorkspaceCommit;
use jjfsd::revset::Revset;
use jjfsd::tree::Tree;
use jjfsd::tree::TreeEntry;
use jjfsd::tree::TreeValue;
use jjfsd::vfs;
use jjfsd::virtual_file::Answer;
use jjfsd::virtual_file::DirectoryEntry;
use jjfsd::virtual_file::FileAttributes;
use jjfsd::virtual_file::FileType;
use jjfsd::virtual_file::Found;
use jjfsd::virtual_file::Query;
use jjfsd::virtual_file::VirtualFile;
use jjfsd::workspaces_directory::WorkspacesDirectory;
use jjfsd::writable_commit_tree_file::FileUpdate;
use jjfsd::writable_commit_tree_file::UpdateAction;
use jjfsd::writable_commit_tree_file::WritableCommitTreeFile;
use pollster::FutureExt as _;

// --- A repository on disk ---

fn user_settings() -> UserSettings {
    let config_text = r#"
        user.name = "Test User"
        user.email = "test.user@example.com"
        operation.username = "test-username"
        operation.hostname = "host.example.com"
        debug.randomness-seed = 42
    "#;
    let mut config = StackedConfig::with_defaults();
    config.add_layer(ConfigLayer::parse(ConfigSource::User, config_text).unwrap());
    UserSettings::from_config(config).unwrap()
}

fn load(workspace_root: &Path) -> Arc<ReadonlyRepo> {
    let loaded_workspace = Workspace::load(
        &user_settings(),
        workspace_root,
        &StoreFactories::default(),
        &default_working_copy_factories(),
    )
    .unwrap();
    loaded_workspace.repo_loader().load_at_head().block_on().unwrap()
}

fn setup_test_repo() -> (tempfile::TempDir, Arc<ReadonlyRepo>, CommitId) {
    let settings = user_settings();
    let temp_dir = tempfile::tempdir().unwrap();
    let workspace_root = temp_dir.path().to_path_buf();

    // Initialize a simple workspace
    let (workspace, repo) = Workspace::init_simple(&settings, &workspace_root)
        .block_on()
        .unwrap();

    let store = repo.store().clone();

    // Create a tree with a file and a subdirectory containing a file
    let mut tree_builder = TreeBuilder::new(store.clone(), store.empty_tree_id().clone());

    let file1_path = RepoPathBuf::from_relative_path(Path::new("file1.txt")).unwrap();
    let file2_path = RepoPathBuf::from_relative_path(Path::new("dir/file2.txt")).unwrap();

    let file1_content = b"hello content 1";
    let file2_content = b"hello content 2";

    let file1_id = store
        .write_file(&file1_path, &mut &file1_content[..])
        .block_on()
        .unwrap();
    tree_builder.set(
        file1_path.clone(),
        backend::TreeValue::File {
            id: file1_id,
            executable: false,
            copy_id: CopyId::placeholder(),
        },
    );

    let file2_id = store
        .write_file(&file2_path, &mut &file2_content[..])
        .block_on()
        .unwrap();
    tree_builder.set(
        file2_path.clone(),
        backend::TreeValue::File {
            id: file2_id,
            executable: false,
            copy_id: CopyId::placeholder(),
        },
    );

    let symlink_path = RepoPathBuf::from_relative_path(Path::new("symlink")).unwrap();
    let symlink_id = store
        .write_symlink(&symlink_path, "file1.txt")
        .block_on()
        .unwrap();
    tree_builder.set(symlink_path, backend::TreeValue::Symlink(symlink_id));

    let tree_id = tree_builder.write_tree().block_on().unwrap();

    // Write a commit pointing to this tree
    let signature = Signature {
        name: "Test User".to_string(),
        email: "test.user@example.com".to_string(),
        timestamp: Timestamp {
            timestamp: MillisSinceEpoch(0),
            tz_offset: 0,
        },
    };
    let commit_data = backend::Commit {
        parents: vec![store.root_commit_id().clone()],
        predecessors: vec![],
        root_tree: Merge::resolved(tree_id),
        conflict_labels: Merge::resolved("".to_string()),
        change_id: ChangeId::from_hex("0000000000000000000000000000abcd"),
        description: "test commit".to_string(),
        author: signature.clone(),
        committer: signature,
        secure_sig: None,
    };
    let commit = store.write_commit(commit_data, None).block_on().unwrap();

    // Update the working copy commit ID for the workspace name
    let mut tx = repo.start_transaction();
    tx.repo_mut().add_head(&commit).block_on().unwrap();
    tx.repo_mut()
        .set_wc_commit(workspace.workspace_name().to_owned(), commit.id().clone())
        .unwrap();
    let _repo = tx.commit("set working copy").block_on().unwrap();

    let readonly_repo = load(&workspace_root);
    let commit_id = own_id(commit.id());
    (temp_dir, readonly_repo, commit_id)
}

fn set_bookmark(repo: &Arc<ReadonlyRepo>, name: &str, target: op_store::RefTarget) -> Arc<ReadonlyRepo> {
    let mut tx = repo.start_transaction();
    tx.repo_mut()
        .set_local_bookmark_target(RefName::new(name), target);
    tx.commit("set bookmark").block_on().unwrap()
}

// --- What the repository has for the library ---

fn own_id(id: &backend::CommitId) -> CommitId {
    CommitId::new(id.to_bytes())
}

fn backend_id(id: &CommitId) -> backend::CommitId {
    backend::CommitId::from_bytes(&id.bytes)
}

fn own_target(target: &op_store::RefTarget) -> RefTarget {
    RefTarget {
        merge: target.as_merge().map(|term| term.as_ref().map(own_id)),
    }
}

fn view_of(repo: &ReadonlyRepo) -> Arc<RepoView> {
    let view = repo.view();
    let own_view = RepoView::new(
        own_id(repo.store().root_commit_id()),
        view.wc_commit_ids()
            .iter()
            .map(|(name, id)| WorkspaceCommit {
                name: name.as_str().to_string(),
                commit_id: own_id(id),
            })
            .collect(),
        view.local_bookmarks()
            .map(|(name, target)| Bookmark {
                name: name.as_str().to_string(),
                target: own_target(target),
            })
            .collect(),
        view.tags()
            .map(|(_name, target)| own_target(target.local_target))
            .collect(),
        view.all_remote_bookmarks()
            .map(|(_symbol, remote_ref)| own_target(&remote_ref.target))
            .collect(),
    );
    Arc::new(own_view.unwrap())
}

fn expression(set: &Revset) -> Arc<ResolvedRevsetExpression> {
    match set {
        Revset::All => ResolvedRevsetExpression::all(),
        Revset::Commits(ids) => {
            ResolvedRevsetExpression::commits(ids.iter().map(backend_id).collect())
        }
        Revset::Ancestors(heads) => expression(heads).ancestors(),
        Revset::Minus(kept, removed) => expression(kept).minus(&expression(removed)),
    }
}

fn commits_of(repo: &ReadonlyRepo, set: &Revset) -> Found<Vec<Option<CommitId>>> {
    let revset = expression(set)
        .evaluate(repo)
        .map_err(|e| e.into_backend_error().to_string())?;
    let ids: Vec<_> = revset.stream().collect().block_on();
    Ok(ids
        .into_iter()
        .map(|id| id.ok().map(|id| own_id(&id)))
        .collect())
}

fn is_empty(repo: &ReadonlyRepo, set: &Revset) -> Found<bool> {
    let revset = expression(set).evaluate(repo).map_err(|e| e.to_string())?;
    Ok(revset.is_empty())
}

fn loaded(repo: &ReadonlyRepo, id: &CommitId) -> Found<()> {
    match repo.store().get_commit_async(&backend_id(id)).block_on() {
        Ok(_) => Ok(()),
        Err(e) => Err(e.to_string()),
    }
}

fn own_value(value: &backend::TreeValue) -> TreeValue {
    match value {
        backend::TreeValue::File {
            id,
            executable,
            copy_id,
        } => TreeValue::File {
            id: id.to_bytes(),
            executable: *executable,
            copy_id: copy_id.to_bytes(),
        },
        backend::TreeValue::Symlink(id) => TreeValue::Symlink(id.to_bytes()),
        backend::TreeValue::Tree(id) => TreeValue::Tree(id.to_bytes()),
        backend::TreeValue::GitSubmodule(id) => TreeValue::GitSubmodule(id.to_bytes()),
    }
}

fn path_value(repo: &ReadonlyRepo, commit: &CommitId, path: &str) -> Found<Merge<Option<TreeValue>>> {
    let commit = repo.store().get_commit_async(&backend_id(commit)).block_on().unwrap();
    let path = RepoPathBuf::from_internal_string(path).unwrap();
    match commit.tree().path_value(&path).block_on() {
        Ok(merged) => Ok(merged.map(|term| term.as_ref().map(own_value))),
        Err(e) => Err(e.to_string()),
    }
}

fn sub_trees(repo: &ReadonlyRepo, commit: &CommitId, path: &str) -> Found<Option<Merge<Tree>>> {
    let commit = repo.store().get_commit_async(&backend_id(commit)).block_on().unwrap();
    let path = RepoPathBuf::from_internal_string(path).unwrap();
    let trees = commit.tree().trees().block_on().map_err(|e| e.to_string())?;
    let trees = trees
        .sub_tree_recursive(&path)
        .block_on()
        .map_err(|e| e.to_string())?;
    Ok(trees.map(|trees| {
        trees.map(|tree| {
            let entries = tree
                .entries_non_recursive()
                .map(|entry| TreeEntry {
                    name: entry.name().as_internal_str().to_string(),
                    value: own_value(entry.value()),
                })
                .collect();
            Tree::new(entries).unwrap()
        })
    }))
}

fn content_of(repo: &ReadonlyRepo, query: &Query) -> Vec<u8> {
    match query {
        Query::File { path, id } => {
            let path = RepoPathBuf::from_internal_string(path.as_str()).unwrap();
            let id = backend::FileId::from_bytes(id);
            let mut reader = repo.store().read_file(&path, &id).block_on().unwrap();
            let mut contents = Vec::new();
            reader.read_to_end(&mut contents).block_on().unwrap();
            contents
        }
        other => panic!("unexpected query {:?}", other),
    }
}

fn target_of(repo: &ReadonlyRepo, query: &Query) -> String {
    match query {
        Query::Symlink { path, id } => {
            let path = RepoPathBuf::from_internal_string(path.as_str()).unwrap();
            let id = backend::SymlinkId::from_bytes(id);
            repo.store().read_symlink(&path, &id).block_on().unwrap()
        }
        other => panic!("unexpected query {:?}", other),
    }
}

fn ready<T>(answer: Answer<T>) -> T {
    match answer {
        Answer::Ready(value) => value,
        Answer::Lookup(query) => panic!("unexpected lookup {:?}", query),
    }
}

fn query<T>(answer: Answer<T>) -> Query {
    match answer {
        Answer::Ready(_) => panic!("expected a lookup"),
        Answer::Lookup(query) => query,
    }
}

fn path_query<T>(answer: Answer<T>) -> (CommitId, String) {
    match query(answer) {
        Query::PathValue { commit_id, path } | Query::SubTrees { commit_id, path } => {
            (commit_id, path)
        }
        other => panic!("unexpected query {:?}", other),
    }
}

fn revset_query<T>(answer: Answer<T>) -> Revset {
    match query(answer) {
        Query::Commits(set) => set,
        other => panic!("unexpected query {:?}", other),
    }
}

// --- Requests to a path of a commit ---

struct TreePath<'a> {
    repo: &'a ReadonlyRepo,
    file: CommitTreeFile,
}

fn tree_path<'a>(repo: &'a ReadonlyRepo, commit: &CommitId, path: &str) -> JjResult<TreePath<'a>> {
    let file = CommitTreeFile::new(commit.clone(), path.to_string(), loaded(repo, commit))?;
    Ok(TreePath { repo, file })
}

impl TreePath<'_> {
    fn read(&self) -> JjResult<Vec<u8>> {
        let (commit, path) = path_query(self.file.read()?);
        let value = path_value(self.repo, &commit, &path);
        Ok(content_of(self.repo, &self.file.read_found(&value)?))
    }

    fn list(&self) -> JjResult<Vec<DirectoryEntry>> {
        let (commit, path) = path_query(self.file.list()?);
        let trees = sub_trees(self.repo, &commit, &path);
        match self.file.list_found(&trees)? {
            Answer::Ready(entries) => Ok(entries),
            answer => {
                let (commit, path) = path_query(answer);
                let value = path_value(self.repo, &commit, &path);
                Err(self.file.list_missing(&value))
            }
        }
    }

    fn read_link(&self) -> JjResult<String> {
        let (commit, path) = path_query(self.file.read_link()?);
        let value = path_value(self.repo, &commit, &path);
        Ok(target_of(self.repo, &self.file.read_link_found(&value)?))
    }

    fn attributes(&self) -> JjResult<FileAttributes> {
        let (commit, path) = path_query(self.file.attributes()?);
        let value = path_value(self.repo, &commit, &path);
        match self.file.attributes_found(&value)? {
            Answer::Ready(attributes) => Ok(attributes),
            Answer::Lookup(query) => match &query {
                Query::File { .. } => {
                    let size = content_of(self.repo, &query).len() as u64;
                    commit_tree_file::file_attributes(Ok(size))
                }
                _ => commit_tree_file::link_attributes(Ok(target_of(self.repo, &query))),
            },
        }
    }

    fn file_type(&self) -> JjResult<FileType> {
        let (commit, path) = path_query(self.file.file_type()?);
        let value = path_value(self.repo, &commit, &path);
        self.file.file_type_found(&value)
    }
}

#[test]
fn tree_path_list_directory_root() {
    let (_temp_dir, repo, commit_id) = setup_test_repo();
    let root_files = tree_path(&repo, &commit_id, "").unwrap().list().unwrap();

    assert_eq!(root_files.len(), 3);
    assert_eq!(root_files[0].name, "dir");
    assert!(matches!(root_files[0].file_type, FileType::Directory));
    assert_eq!(root_files[1].name, "file1.txt");
    assert!(matches!(root_files[1].file_type, FileType::File));
    assert_eq!(root_files[2].name, "symlink");
    assert!(matches!(root_files[2].file_type, FileType::Symlink));
}

#[test]
fn tree_path_list_directory_sub() {
    let (_temp_dir, repo, commit_id) = setup_test_repo();
    let dir_files = tree_path(&repo, &commit_id, "dir").unwrap().list().unwrap();

    assert_eq!(dir_files.len(), 1);
    let file2 = dir_files.iter().find(|f| f.name == "file2.txt").unwrap();
    assert!(matches!(file2.file_type, FileType::File));
}

#[test]
fn tree_path_file_size() {
    let (_temp_dir, repo, commit_id) = setup_test_repo();
    let file = tree_path(&repo, &commit_id, "file1.txt").unwrap();
    let attributes = file.attributes().unwrap();
    assert_eq!(attributes.size, b"hello content 1".len() as u64);
    assert_eq!(attributes.file_type, FileType::File);
    assert_eq!((attributes.created, attributes.modified), (0, 0));

    let directory = tree_path(&repo, &commit_id, "dir").unwrap();
    let attributes = directory.attributes().unwrap();
    assert_eq!(attributes.size, 0);
    assert_eq!(attributes.file_type, FileType::Directory);

    let link = tree_path(&repo, &commit_id, "symlink").unwrap();
    let attributes = link.attributes().unwrap();
    assert_eq!(attributes.size, 9);
    assert_eq!(attributes.file_type, FileType::Symlink);

    let missing = tree_path(&repo, &commit_id, "missing").unwrap();
    assert_eq!(missing.attributes(), Err(JjError::NotFound));
}

#[test]
fn tree_path_read_file() {
    let (_temp_dir, repo, commit_id) = setup_test_repo();
    let file = tree_path(&repo, &commit_id, "file1.txt").unwrap();
    assert_eq!(file.read().unwrap(), b"hello content 1");
}

#[test]
fn tree_path_invalid_path() {
    let (_temp_dir, repo, commit_id) = setup_test_repo();
    let file = tree_path(&repo, &commit_id, "some/../path").unwrap();
    assert_eq!(file.list(), Err(JjError::InvalidPath));
    assert_eq!(file.read(), Err(JjError::InvalidPath));
    assert_eq!(file.read_link(), Err(JjError::InvalidPath));
    assert_eq!(file.attributes(), Err(JjError::InvalidPath));
    assert_eq!(file.file_type(), Err(JjError::InvalidPath));
    let found: Found<Merge<Option<TreeValue>>> = Ok(Merge::absent());
    assert_eq!(file.file.read_found(&found), Err(JjError::InvalidPath));
    assert_eq!(file.file.list_found(&Ok(None)), Err(JjError::InvalidPath));
    assert_eq!(file.file.read_link_found(&found), Err(JjError::InvalidPath));
    assert_eq!(file.file.attributes_found(&found), Err(JjError::InvalidPath));
    assert_eq!(file.file.file_type_found(&found), Err(JjError::InvalidPath));
}

#[test]
fn tree_path_not_found() {
    let (_temp_dir, repo, commit_id) = setup_test_repo();
    let directory = tree_path(&repo, &commit_id, "non_existent_dir").unwrap();
    assert_eq!(directory.list(), Err(JjError::NotFound));
    let file = tree_path(&repo, &commit_id, "non_existent_file.txt").unwrap();
    assert_eq!(file.read(), Err(JjError::NotFound));
    assert_eq!(file.read_link(), Err(JjError::NotFound));
}

#[test]
fn tree_path_is_directory() {
    let (_temp_dir, repo, commit_id) = setup_test_repo();
    let directory = tree_path(&repo, &commit_id, "dir").unwrap();
    assert_eq!(directory.read(), Err(JjError::NotAFile));
    assert_eq!(directory.read_link(), Err(JjError::NotASymlink));
}

#[test]
fn tree_path_list_file_not_a_directory() {
    let (_temp_dir, repo, commit_id) = setup_test_repo();
    let file = tree_path(&repo, &commit_id, "file1.txt").unwrap();
    assert_eq!(file.list(), Err(JjError::NotADirectory));
}

#[test]
fn tree_path_file_type() {
    let (_temp_dir, repo, commit_id) = setup_test_repo();
    let type_of = |path: &str| tree_path(&repo, &commit_id, path).unwrap().file_type();
    assert_eq!(type_of("dir"), Ok(FileType::Directory));
    assert_eq!(type_of("file1.txt"), Ok(FileType::File));
    assert_eq!(type_of("symlink"), Ok(FileType::Symlink));
    assert_eq!(type_of("."), Ok(FileType::Directory));
    assert_eq!(type_of("dir//file2.txt/"), Ok(FileType::File));
}

#[test]
fn test_read_symlink_file() {
    let (_temp_dir, repo, commit_id) = setup_test_repo();
    let link = tree_path(&repo, &commit_id, "symlink").unwrap();
    assert_eq!(link.read_link().unwrap(), "file1.txt");
}

#[test]
fn tree_path_of_missing_commit() {
    let (_temp_dir, repo, _commit_id) = setup_test_repo();
    let missing = CommitId::new(vec![1; 64]);
    let result = tree_path(&repo, &missing, "dir");
    assert!(matches!(result, Err(JjError::JjLibBackendError(_))));
}

// --- The same without symlinks ---

struct PlainPath<'a> {
    repo: &'a ReadonlyRepo,
    file: vfs::commit_tree_file::CommitTreeFile,
}

fn plain_path<'a>(repo: &'a ReadonlyRepo, commit: &CommitId, path: &str) -> PlainPath<'a> {
    let file = vfs::commit_tree_file::CommitTreeFile::new(
        commit.clone(),
        path.to_string(),
        loaded(repo, commit),
    );
    PlainPath {
        repo,
        file: file.unwrap(),
    }
}

impl PlainPath<'_> {
    fn read(&self) -> JjResult<Vec<u8>> {
        let (commit, path) = path_query(self.file.read()?);
        let value = path_value(self.repo, &commit, &path);
        Ok(content_of(self.repo, &self.file.read_found(&value)?))
    }

    fn list(&self) -> JjResult<Vec<File>> {
        let (commit, path) = path_query(self.file.list()?);
        let trees = sub_trees(self.repo, &commit, &path);
        match self.file.list_found(&trees)? {
            Answer::Ready(files) => Ok(files),
            answer => {
                let (commit, path) = path_query(answer);
                let value = path_value(self.repo, &commit, &path);
                Err(self.file.list_missing(&value))
            }
        }
    }

    fn size(&self) -> JjResult<u64> {
        let (commit, path) = path_query(self.file.size()?);
        let value = path_value(self.repo, &commit, &path);
        match self.file.size_found(&value)? {
            Answer::Ready(size) => Ok(size),
            Answer::Lookup(query) => Ok(content_of(self.repo, &query).len() as u64),
        }
    }

    fn file_type(&self) -> JjResult<PlainType> {
        let (commit, path) = path_query(self.file.file_type()?);
        let value = path_value(self.repo, &commit, &path);
        self.file.file_type_found(&value)
    }
}

#[test]
fn commit_tree_file_test_list_directory_root() {
    let (_temp_dir, repo, commit_id) = setup_test_repo();
    let root_files = plain_path(&repo, &commit_id, "").list().unwrap();

    assert_eq!(root_files.len(), 3);
    assert_eq!(root_files[0].name, "dir");
    assert!(matches!(root_files[0].file_type, PlainType::Directory));
    assert_eq!(root_files[1].name, "file1.txt");
    assert!(matches!(root_files[1].file_type, PlainType::File));
    assert_eq!(root_files[2].name, "symlink");
    assert!(matches!(root_files[2].file_type, PlainType::File));
}

#[test]
fn commit_tree_file_test_list_directory_sub() {
    let (_temp_dir, repo, commit_id) = setup_test_repo();
    let dir_files = plain_path(&repo, &commit_id, "dir").list().unwrap();

    assert_eq!(dir_files.len(), 1);
    let file2 = dir_files.iter().find(|f| f.name == "file2.txt").unwrap();
    assert!(matches!(file2.file_type, PlainType::File));
}

#[test]
fn commit_tree_file_test_file_size() {
    let (_temp_dir, repo, commit_id) = setup_test_repo();
    let size = plain_path(&repo, &commit_id, "file1.txt").size().unwrap();
    assert_eq!(size, b"hello content 1".len() as u64);
}

#[test]
fn commit_tree_file_sizes() {
    let (_temp_dir, repo, commit_id) = setup_test_repo();
    assert_eq!(plain_path(&repo, &commit_id, "dir").size(), Ok(0));
    assert_eq!(
        plain_path(&repo, &commit_id, "symlink").size(),
        Err(JjError::NotAFile)
    );
    assert_eq!(
        plain_path(&repo, &commit_id, "missing").size(),
        Err(JjError::NotFound)
    );
}

#[test]
fn commit_tree_file_test_read_file() {
    let (_temp_dir, repo, commit_id) = setup_test_repo();
    let contents = plain_path(&repo, &commit_id, "file1.txt").read().unwrap();
    assert_eq!(contents, b"hello content 1");
}

#[test]
fn commit_tree_file_test_invalid_path() {
    let (_temp_dir, repo, commit_id) = setup_test_repo();
    // Setup CommitTreeFile with invalid path
    let commit_tree = plain_path(&repo, &commit_id, "some/../path");
    let err = match commit_tree.list() {
        Err(e) => e,
        Ok(_) => panic!("Expected an error"),
    };
    assert!(matches!(err, JjError::InvalidPath));

    let commit_tree = plain_path(&repo, &commit_id, "some/../path");
    let err = match commit_tree.read() {
        Err(e) => e,
        Ok(_) => panic!("Expected an error"),
    };
    assert!(matches!(err, JjError::InvalidPath));
}

#[test]
fn commit_tree_file_test_not_found() {
    let (_temp_dir, repo, commit_id) = setup_test_repo();
    let err = match plain_path(&repo, &commit_id, "non_existent_dir").list() {
        Err(e) => e,
        Ok(_) => panic!("Expected an error"),
    };
    assert!(matches!(err, JjError::NotFound));

    let err = match plain_path(&repo, &commit_id, "non_existent_file.txt").read() {
        Err(e) => e,
        Ok(_) => panic!("Expected an error"),
    };
    assert!(matches!(err, JjError::NotFound));
}

#[test]
fn commit_tree_file_test_is_directory() {
    let (_temp_dir, repo, commit_id) = setup_test_repo();
    let err = match plain_path(&repo, &commit_id, "dir").read() {
        Err(e) => e,
        Ok(_) => panic!("Expected an error"),
    };
    assert!(matches!(err, JjError::NotAFile));
}

#[test]
fn commit_tree_file_test_list_file_not_a_directory() {
    let (_temp_dir, repo, commit_id) = setup_test_repo();
    let err = match plain_path(&repo, &commit_id, "file1.txt").list() {
        Err(e) => e,
        Ok(_) => panic!("Expected an error"),
    };
    assert!(matches!(err, JjError::NotADirectory));
}

#[test]
fn commit_tree_file_test_file_type() {
    let (_temp_dir, repo, commit_id) = setup_test_repo();

    let type_dir = plain_path(&repo, &commit_id, "dir").file_type().unwrap();
    assert!(matches!(type_dir, PlainType::Directory));

    let type_file = plain_path(&repo, &commit_id, "file1.txt").file_type().unwrap();
    assert!(matches!(type_file, PlainType::File));
}

#[test]
fn commits_directory_test_repo_commits() {
    let (_temp_dir, repo, _commit) = setup_test_repo();
    let commits_dir = vfs::commits_directory::CommitsDirectory::new(view_of(&repo));
    let set = revset_query(commits_dir.list().unwrap());
    let files = commits_dir.list_found(commits_of(&repo, &set)).unwrap();

    // The repository has: root commit + initial workspace commit + our test commit,
    // so 3 in total.
    assert_eq!(files.len(), 3);

    for file in &files {
        assert_eq!(file.file_type, PlainType::Directory);
    }
    assert_eq!(commits_dir.read(), Err(JjError::NotAFile));
    assert_eq!(commits_dir.size(), Ok(Answer::Ready(0)));
    assert_eq!(
        commits_dir.file_type(),
        Ok(Answer::Ready(PlainType::Directory))
    );
}

// --- Commits of a repository ---

struct RepoCommit {
    _temp_dir: tempfile::TempDir,
    repo: Arc<ReadonlyRepo>,
    commit: JjLibCommit,
}

fn setup_repo_commit() -> RepoCommit {
    let (temp_dir, repo, commit_id) = setup_test_repo();
    let jj_repo = JjLibRepo::new(view_of(&repo));
    let commit = jj_repo.get_commit(&commit_id, loaded(&repo, &commit_id));
    RepoCommit {
        _temp_dir: temp_dir,
        repo,
        commit: commit.unwrap(),
    }
}

impl RepoCommit {
    fn list_directory(&self, path: &str) -> Result<Vec<File>, jj_repo::JjError> {
        let place = self.commit.repo_path(path)?;
        let trees = sub_trees(&self.repo, self.commit.id(), &place);
        self.commit.list_directory(path, &trees)
    }

    fn read_file(&self, path: &str) -> Result<Vec<u8>, jj_repo::JjError> {
        let place = self.commit.repo_path(path)?;
        let value = path_value(&self.repo, self.commit.id(), &place);
        Ok(content_of(&self.repo, &self.commit.read_file(path, &value)?))
    }

    fn file_size(&self, path: &str) -> Result<u64, jj_repo::JjError> {
        let place = self.commit.repo_path(path)?;
        let value = path_value(&self.repo, self.commit.id(), &place);
        let size = match self.commit.read_file(path, &value) {
            Ok(query) => content_of(&self.repo, &query).len() as u64,
            Err(_) => 0,
        };
        self.commit.file_size(path, &value, Ok(size))
    }
}

#[test]
fn jj_repo_test_list_directory_root() {
    let jj_repo = setup_repo_commit();

    let root_files = jj_repo.list_directory("").unwrap();
    assert_eq!(root_files.len(), 3);
    assert_eq!(root_files[0].name, "dir");
    assert_eq!(root_files[0].file_type, PlainType::Directory);
    assert_eq!(root_files[1].name, "file1.txt");
    assert_eq!(root_files[1].file_type, PlainType::File);
    assert_eq!(root_files[2].name, "symlink");
    assert_eq!(root_files[2].file_type, PlainType::File);
}

#[test]
fn jj_repo_test_list_directory_sub() {
    let jj_repo = setup_repo_commit();

    let dir_files = jj_repo.list_directory("dir").unwrap();
    assert_eq!(dir_files.len(), 1);
    let file2 = dir_files.iter().find(|f| f.name == "file2.txt").unwrap();
    assert_eq!(file2.file_type, PlainType::File);
}

#[test]
fn jj_repo_test_file_size() {
    let jj_repo = setup_repo_commit();

    let size = jj_repo.file_size("file1.txt").unwrap();
    assert_eq!(size, b"hello content 1".len() as u64);
}

#[test]
fn jj_repo_size_fails_as_reading() {
    let jj_repo = setup_repo_commit();
    for path in ["dir", "symlink", "non_existent_file.txt", "some/../path"] {
        let error = jj_repo.read_file(path).unwrap_err();
        assert_eq!(jj_repo.file_size(path), Err(error));
    }
    assert!(matches!(
        jj_repo.file_size("dir"),
        Err(jj_repo::JjError::IsDirectory(path)) if path == "dir"
    ));
}

#[test]
fn jj_repo_test_read_file() {
    let jj_repo = setup_repo_commit();

    let contents = jj_repo.read_file("file1.txt").unwrap();
    assert_eq!(contents, b"hello content 1");
}

#[test]
fn jj_repo_test_repo_commits() {
    let (_temp_dir, repo, _) = setup_test_repo();
    let jj_repo = JjLibRepo::new(view_of(&repo));
    let found = commits_of(&repo, &jj_repo.commits()).unwrap();
    let commits = jj_repo.commits_found(&found);

    // The repository has: root commit + initial workspace commit + our test commit,
    // so 3 in total.
    assert_eq!(commits.len(), 3);
}

#[test]
fn test_get_commit() {
    let (_temp_dir, repo, _) = setup_test_repo();
    let jj_repo = JjLibRepo::new(view_of(&repo));
    let found = commits_of(&repo, &jj_repo.commits()).unwrap();
    let commits = jj_repo.commits_found(&found);

    for commit_id in &commits {
        let commit = jj_repo.get_commit(commit_id, loaded(&repo, commit_id));
        assert!(commit.is_ok());
        assert_eq!(commit.unwrap().id(), commit_id);
    }
    let missing = CommitId::new(vec![1; 64]);
    assert!(jj_repo.get_commit(&missing, loaded(&repo, &missing)).is_err());
}

#[test]
fn jj_repo_test_invalid_path() {
    let jj_repo = setup_repo_commit();

    let err = match jj_repo.list_directory("some/../path") {
        Err(e) => e,
        Ok(_) => panic!("Expected an error"),
    };
    assert!(matches!(err, jj_repo::JjError::InvalidPath(_)));

    let err = match jj_repo.read_file("some/../path") {
        Err(e) => e,
        Ok(_) => panic!("Expected an error"),
    };
    assert!(matches!(err, jj_repo::JjError::InvalidPath(_)));

    let err = match jj_repo.file_size("some/../path") {
        Err(e) => e,
        Ok(_) => panic!("Expected an error"),
    };
    assert!(matches!(err, jj_repo::JjError::InvalidPath(_)));
    assert_eq!(
        err.message(),
        "The input path should not contain . or ..: some/../path"
    );
}

#[test]
fn jj_repo_test_not_found() {
    let jj_repo = setup_repo_commit();

    let err = match jj_repo.list_directory("non_existent_dir") {
        Err(e) => e,
        Ok(_) => panic!("Expected an error"),
    };
    assert!(matches!(err, jj_repo::JjError::NotFound(_)));

    let err = match jj_repo.read_file("non_existent_file.txt") {
        Err(e) => e,
        Ok(_) => panic!("Expected an error"),
    };
    assert!(matches!(err, jj_repo::JjError::NotFound(_)));
    assert_eq!(
        err.message(),
        "File or directory not found: non_existent_file.txt"
    );
}

#[test]
fn jj_repo_test_is_directory() {
    let jj_repo = setup_repo_commit();

    let err = match jj_repo.read_file("dir") {
        Err(e) => e,
        Ok(_) => panic!("Expected an error"),
    };
    assert!(matches!(err, jj_repo::JjError::IsDirectory(_)));
    assert_eq!(err.message(), "Expected file, but found directory: dir");
}

#[test]
fn test_is_symlink() {
    let jj_repo = setup_repo_commit();

    let err = match jj_repo.read_file("symlink") {
        Err(e) => e,
        Ok(_) => panic!("Expected an error"),
    };
    assert!(matches!(err, jj_repo::JjError::Other(_)));
    assert_eq!(err.message(), "symlink: Symlinks not supported");
}

// --- Directories of commits, workspaces and bookmarks ---

#[test]
fn all_commits_are_listed() {
    let (_temp_dir, repo, commit_id) = setup_test_repo();
    let commits_dir = CommitsDirectory::new(view_of(&repo));
    let set = revset_query(commits_dir.list().unwrap());
    let files = commits_dir.list_found(commits_of(&repo, &set)).unwrap();

    // The repository has: root commit + initial workspace commit + our test commit,
    // so 3 in total.
    assert_eq!(files.len(), 3);

    for file in &files {
        assert!(matches!(file.file_type, FileType::Directory));
    }
    assert!(files.iter().any(|file| file.name == commit_id.hex()));
}

#[test]
fn test_repo_workspaces() {
    let (_temp_dir, repo, _commit) = setup_test_repo();
    let workspaces_dir = WorkspacesDirectory::new(view_of(&repo));
    let files = ready(workspaces_dir.list().unwrap());

    // The repository has 1 workspace.
    assert_eq!(files.len(), 1);
    assert_eq!(files[0].name, "default");
    assert!(matches!(files[0].file_type, FileType::Directory));
}

#[test]
fn test_bookmarks_directory_empty() {
    let (_temp_dir, repo, _commit) = setup_test_repo();
    let bookmarks_dir = BookmarksDirectory::new(view_of(&repo), "../commits".to_string());
    let files = ready(bookmarks_dir.list().unwrap());
    assert_eq!(files.len(), 0);
}

#[test]
fn test_bookmarks_directory_with_bookmarks() {
    let (_temp_dir, repo, commit_id) = setup_test_repo();

    let target = op_store::RefTarget::normal(backend_id(&commit_id));
    let repo = set_bookmark(&repo, "main", target.clone());
    let repo = set_bookmark(&repo, "feat-test", target);

    let bookmarks_dir = BookmarksDirectory::new(view_of(&repo), "../commits".to_string());
    let files = ready(bookmarks_dir.list().unwrap());
    assert_eq!(files.len(), 2);
    assert_eq!(files[0].name, "feat-test");
    assert!(matches!(files[0].file_type, FileType::Symlink));
    assert_eq!(files[1].name, "main");
    assert!(matches!(files[1].file_type, FileType::Symlink));

    let symlink = bookmarks_dir.get_symlink("main").unwrap();
    assert!(matches!(
        ready(symlink.file_type().unwrap()),
        FileType::Symlink
    ));
    assert_eq!(
        ready(symlink.read_link().unwrap()),
        format!("../commits/{}", commit_id.hex())
    );

    let not_found = bookmarks_dir.get_symlink("nonexistent");
    assert!(matches!(not_found, Err(JjError::NotFound)));
}

#[test]
fn test_bookmarks_directory_conflicted_skipped() {
    let (_temp_dir, repo, commit_id) = setup_test_repo();

    let root_id = repo.store().root_commit_id().clone();
    let target =
        op_store::RefTarget::from_legacy_form(vec![], vec![backend_id(&commit_id), root_id]);
    let repo = set_bookmark(&repo, "conflicted", target);

    let bookmarks_dir = BookmarksDirectory::new(view_of(&repo), "../commits".to_string());
    let files = ready(bookmarks_dir.list().unwrap());
    assert_eq!(files.len(), 0);

    let res = bookmarks_dir.get_symlink("conflicted");
    assert!(matches!(res, Err(JjError::NotFound)));
}

#[test]
fn test_repo_mutable_commits() {
    let (_temp_dir, repo, _commit) = setup_test_repo();
    let commits_dir = MutableCommitsDirectory::new(view_of(&repo), "../commits".to_string());
    let set = revset_query(commits_dir.list().unwrap());
    let files = commits_dir.list_found(commits_of(&repo, &set)).unwrap();

    // The repository has: root commit (immutable) + initial workspace
    // commit (mutable) + our test commit (mutable), so 2 mutable
    // commits in total.
    assert_eq!(files.len(), 2);

    let root_commit_hex = own_id(repo.store().root_commit_id()).hex();
    for file in &files {
        assert!(matches!(file.file_type, FileType::Symlink));
        assert_ne!(file.name, root_commit_hex);
    }
}

fn is_mutable(repo: &ReadonlyRepo, commit_id: &CommitId) -> JjResult<bool> {
    let set = MutableCommitsDirectory::mutable_revset(&view_of(repo), commit_id);
    MutableCommitsDirectory::is_mutable(is_empty(repo, &set))
}

#[test]
fn test_is_mutable() {
    let (_temp_dir, repo, commit_id) = setup_test_repo();
    assert!(is_mutable(&repo, &commit_id).unwrap());
    assert!(!is_mutable(&repo, &own_id(repo.store().root_commit_id())).unwrap());

    let fake_commit_id = CommitId::new(vec![0u8; 32]);
    assert!(!is_mutable(&repo, &fake_commit_id).unwrap());
}

fn check_immutable(repo: &ReadonlyRepo, commit_id: &CommitId) {
    assert!(!is_mutable(repo, commit_id).unwrap());
    let directory = MutableCommitsDirectory::new(view_of(repo), "../commits".to_string());
    let set = revset_query(directory.list().unwrap());
    let files = directory.list_found(commits_of(repo, &set)).unwrap();
    assert_eq!(files.len(), 1);
    assert!(files.iter().all(|file| file.name != commit_id.hex()));
    assert!(matches!(
        directory.get_symlink(commit_id, is_empty(repo, &directory.revset_of(commit_id))),
        Err(JjError::NotFound)
    ));
}

#[test]
fn tags_are_immutable() {
    let (_temp_dir, repo, commit_id) = setup_test_repo();
    let target = op_store::RefTarget::normal(backend_id(&commit_id));
    let mut tx = repo.start_transaction();
    tx.repo_mut()
        .set_local_tag_target(RefName::new("v1"), target);
    check_immutable(&tx.commit("tag").block_on().unwrap(), &commit_id);
}

#[test]
fn remote_bookmarks_are_immutable() {
    let (_temp_dir, repo, commit_id) = setup_test_repo();
    let target = op_store::RefTarget::normal(backend_id(&commit_id));
    let mut tx = repo.start_transaction();
    tx.repo_mut().set_remote_bookmark(
        RefName::new("main").to_remote_symbol("origin".as_ref()),
        op_store::RemoteRef {
            target,
            state: op_store::RemoteRefState::New,
        },
    );
    check_immutable(&tx.commit("fetch").block_on().unwrap(), &commit_id);
}

#[test]
fn test_get_symlink() {
    let (_temp_dir, repo, commit_id) = setup_test_repo();
    let commits_dir = MutableCommitsDirectory::new(view_of(&repo), "../commits".to_string());
    let get_symlink = |id: &CommitId| {
        commits_dir.get_symlink(id, is_empty(&repo, &commits_dir.revset_of(id)))
    };

    let symlink = get_symlink(&commit_id).unwrap();
    assert!(matches!(
        ready(symlink.file_type().unwrap()),
        FileType::Symlink
    ));
    assert_eq!(
        ready(symlink.read_link().unwrap()),
        format!("../commits/{}", commit_id.hex())
    );

    let root_commit_id = own_id(repo.store().root_commit_id());
    assert!(matches!(
        get_symlink(&root_commit_id),
        Err(JjError::NotFound)
    ));
}

// --- The layout ---

fn mapper(repo: &ReadonlyRepo) -> AllCommitsPathMapper {
    AllCommitsPathMapper::new(view_of(repo))
}

fn tree_entry<'a>(repo: &'a ReadonlyRepo, entry: Entry) -> TreePath<'a> {
    match entry {
        Entry::CommitTree { commit_id, path } => tree_path(repo, &commit_id, &path).unwrap(),
        _ => panic!("expected a path of a commit"),
    }
}

#[test]
fn test_all_commit_trees_mapper_root() {
    let (_temp_dir, repo, _commit) = setup_test_repo();
    let mapper = mapper(&repo);

    let entry = mapper.get_entry("").unwrap();
    let list = ready(entry.list().unwrap());
    let mut entries: Vec<String> = list.into_iter().map(|e| e.name).collect();
    entries.sort();
    assert_eq!(
        entries,
        vec!["bookmarks", "commits", "mutable_commits", "workspaces"]
    );
}

#[test]
fn test_all_commit_trees_mapper_commit_root() {
    let (_temp_dir, repo, commit_id) = setup_test_repo();
    let mapper = mapper(&repo);

    let path = format!("commits/{}", commit_id.hex());
    let entry = mapper.get_entry(&path).unwrap();
    assert!(matches!(query(entry.list().unwrap()), Query::Commit(id) if id == commit_id));
    assert!(tree_entry(&repo, entry).list().is_ok());
}

#[test]
fn test_all_commit_trees_mapper_commit_subpath() {
    let (_temp_dir, repo, commit_id) = setup_test_repo();
    let mapper = mapper(&repo);

    let path = format!("commits/{}/file1.txt", commit_id.hex());
    let entry = mapper.get_entry(&path).unwrap();
    assert!(tree_entry(&repo, entry).read().is_ok());
}

#[test]
fn test_all_commit_trees_mapper_invalid_commit_id() {
    let (_temp_dir, repo, _commit) = setup_test_repo();
    let mapper = mapper(&repo);

    let err = match mapper.get_entry("invalid_commit_hex") {
        Err(e) => e,
        Ok(_) => panic!("Expected NotFound error"),
    };
    assert!(matches!(err, JjError::NotFound));
    assert!(matches!(
        mapper.get_entry("commits/invalid_commit_hex"),
        Err(JjError::NotFound)
    ));
    assert!(matches!(
        mapper.get_entry("mutable_commits/abc"),
        Err(JjError::NotFound)
    ));
    assert!(matches!(mapper.get_entry("/commits"), Err(JjError::NotFound)));
    assert!(matches!(mapper.get_entry("./commits"), Err(JjError::NotFound)));
}

#[test]
fn test_all_commit_trees_mapper_workspaces_root() {
    let (_temp_dir, repo, _commit) = setup_test_repo();
    let mapper = mapper(&repo);

    let entry = mapper.get_entry("workspaces").unwrap();
    let entries = ready(entry.list().unwrap());
    assert_eq!(entries.len(), 1);
    assert_eq!(entries[0].name, "default");
}

#[test]
fn test_all_commit_trees_mapper_workspace_file() {
    let (_temp_dir, repo, _commit) = setup_test_repo();
    let mapper = mapper(&repo);

    let entry = mapper.get_entry("workspaces/default/file1.txt").unwrap();
    assert!(tree_entry(&repo, entry).read().is_ok());
}

#[test]
fn test_all_commit_trees_mapper_non_existent_workspace() {
    let (_temp_dir, repo, _commit) = setup_test_repo();
    let mapper = mapper(&repo);

    let err = match mapper.get_entry("workspaces/nonexistent") {
        Err(e) => e,
        Ok(_) => panic!("Expected NotFound error"),
    };
    assert!(matches!(err, JjError::NotFound));

    let err = match mapper.get_entry("workspaces/nonexistent/file1.txt") {
        Err(e) => e,
        Ok(_) => panic!("Expected NotFound error"),
    };
    assert!(matches!(err, JjError::NotFound));
}

#[test]
fn test_all_commit_trees_mapper_mutable_commits_root() {
    let (_temp_dir, repo, _commit) = setup_test_repo();
    let mapper = mapper(&repo);

    let directory = match mapper.get_entry("mutable_commits").unwrap() {
        Entry::MutableCommits(directory) => directory,
        _ => panic!("expected the directory of mutable commits"),
    };
    let set = revset_query(directory.list().unwrap());
    let entries = directory.list_found(commits_of(&repo, &set)).unwrap();
    assert_eq!(entries.len(), 2);
    for e in entries {
        assert!(matches!(e.file_type, FileType::Symlink));
    }
}

#[test]
fn test_all_commit_trees_mapper_mutable_commit_entry() {
    let (_temp_dir, repo, commit_id) = setup_test_repo();
    let mapper = mapper(&repo);

    let commit_hex = commit_id.hex();
    let path = format!("mutable_commits/{}", commit_hex);
    let entry = mapper.get_entry(&path).unwrap();
    let set = revset_query(entry.file_type().unwrap());
    let link = match entry {
        Entry::MutableCommit {
            directory,
            commit_id,
        } => directory.get_symlink(&commit_id, is_empty(&repo, &set)),
        _ => panic!("expected a mutable commit"),
    };
    let link = link.unwrap();
    assert!(matches!(
        ready(link.file_type().unwrap()),
        FileType::Symlink
    ));
    assert_eq!(
        ready(link.read_link().unwrap()),
        format!("../commits/{}", commit_hex)
    );

    let file_path = format!("mutable_commits/{}/file1.txt", commit_hex);
    let file_entry_res = mapper.get_entry(&file_path);
    assert!(matches!(file_entry_res, Err(JjError::NotFound)));
}

#[test]
fn test_all_commit_trees_mapper_mutable_commits_immutable_not_found() {
    let (_temp_dir, repo, _commit) = setup_test_repo();
    let mapper = mapper(&repo);

    let root_hex = own_id(repo.store().root_commit_id()).hex();
    let entry = mapper.get_entry(&format!("mutable_commits/{}", root_hex)).unwrap();
    let set = revset_query(entry.file_type().unwrap());
    let err = match entry {
        Entry::MutableCommit {
            directory,
            commit_id,
        } => match directory.get_symlink(&commit_id, is_empty(&repo, &set)) {
            Err(e) => e,
            Ok(_) => panic!("Expected NotFound for immutable commit"),
        },
        _ => panic!("expected a mutable commit"),
    };
    assert!(matches!(err, JjError::NotFound));
}

#[test]
fn test_all_commit_trees_mapper_bookmarks_root() {
    let (_temp_dir, repo, commit_id) = setup_test_repo();
    let target = op_store::RefTarget::normal(backend_id(&commit_id));
    let repo = set_bookmark(&repo, "main", target);
    let mapper = mapper(&repo);

    let entry = mapper.get_entry("bookmarks").unwrap();
    let entries = ready(entry.list().unwrap());
    assert_eq!(entries.len(), 1);
    assert_eq!(entries[0].name, "main");
    assert!(matches!(entries[0].file_type, FileType::Symlink));
}

#[test]
fn test_all_commit_trees_mapper_bookmark_entry() {
    let (_temp_dir, repo, commit_id) = setup_test_repo();
    let commit_hex = commit_id.hex();
    let target = op_store::RefTarget::normal(backend_id(&commit_id));
    let repo = set_bookmark(&repo, "feature-1", target);
    let mapper = mapper(&repo);

    let entry = mapper.get_entry("bookmarks/feature-1").unwrap();
    assert!(matches!(
        ready(entry.file_type().unwrap()),
        FileType::Symlink
    ));
    let target = ready(entry.read_link().unwrap());
    assert_eq!(target, format!("../commits/{}", commit_hex));
    assert_eq!(
        ready(entry.attributes().unwrap()).size,
        target.len() as u64
    );

    let err = mapper.get_entry("bookmarks/feature-1/file1.txt");
    assert!(matches!(err, Err(JjError::NotFound)));

    // The link leads to the commit.
    let entry = mapper.get_entry(&target[3..]).unwrap();
    assert!(tree_entry(&repo, entry).list().is_ok());
}

#[test]
fn test_all_commit_trees_mapper_bookmark_nonexistent() {
    let (_temp_dir, repo, _commit) = setup_test_repo();
    let mapper = mapper(&repo);

    let err = mapper.get_entry("bookmarks/nonexistent");
    assert!(matches!(err, Err(JjError::NotFound)));
}

#[test]
fn mapper_reload() {
    let (_temp_dir, repo, commit_id) = setup_test_repo();
    let mut mapper = mapper(&repo);
    assert!(mapper.get_entry("bookmarks/late").is_err());

    let target = op_store::RefTarget::normal(backend_id(&commit_id));
    let repo = set_bookmark(&repo, "late", target);
    assert_eq!(
        mapper.reload_at_head(Err("no head".to_string())),
        Err(JjError::IO("no head".to_string()))
    );
    assert!(mapper.get_entry("bookmarks/late").is_err());
    assert_eq!(mapper.reload_at_head(Ok(view_of(&repo))), Ok(()));
    assert!(mapper.get_entry("bookmarks/late").is_ok());
}

#[test]
fn test_vfs_read_real_repo_files() {
    let (_temp_dir, repo, commit_id) = setup_test_repo();
    let mapper = mapper(&repo);
    let commit_hex = commit_id.hex();
    let at = |path: &str| {
        let path = format!("commits/{}{}", commit_hex, path);
        tree_entry(&repo, mapper.get_entry(&path).unwrap())
    };
    let read = |path: &str, offset: u64, size: u64| {
        let mut window = ReadWindow::new(offset, size);
        for piece in at(path).read().unwrap().chunks(4) {
            window.feed(piece);
        }
        window.finish()
    };

    let commit_dir_attr = at("").attributes().unwrap();
    assert!(matches!(commit_dir_attr.file_type, FileType::Directory));

    let file1_attr = at("/file1.txt").attributes().unwrap();
    assert!(matches!(file1_attr.file_type, FileType::File));
    assert_eq!(file1_attr.size, 15); // "hello content 1" is 15 bytes

    assert_eq!(read("/file1.txt", 0, 15), b"hello content 1");

    let dir_attr = at("/dir").attributes().unwrap();
    assert!(matches!(dir_attr.file_type, FileType::Directory));

    let file2_attr = at("/dir/file2.txt").attributes().unwrap();
    assert!(matches!(file2_attr.file_type, FileType::File));
    assert_eq!(file2_attr.size, 15); // "hello content 2" is 15 bytes

    assert_eq!(read("/dir/file2.txt", 0, 15), b"hello content 2");
    assert_eq!(read("/dir/file2.txt", 6, 7), b"content");
}

// --- Changes ---

#[test]
fn writable_file_reads_the_checkout() {
    let (_temp_dir, repo, commit_id) = setup_test_repo();
    let file = WritableCommitTreeFile::new(
        view_of(&repo),
        "default".to_string(),
        "file1.txt".to_string(),
    );
    assert!(matches!(query(VirtualFile::read(&file).unwrap()), Query::Commit(id) if id == commit_id));
    let readonly = file.to_readonly(loaded(&repo, &commit_id)).unwrap();
    let readonly = TreePath {
        repo: &repo,
        file: readonly,
    };
    assert_eq!(readonly.read().unwrap(), b"hello content 1");
    assert!(matches!(
        file.to_readonly(Err("gone".to_string())),
        Err(JjError::JjLibBackendError(message)) if message == "gone"
    ));

    let missing =
        WritableCommitTreeFile::new(view_of(&repo), "other".to_string(), "file1.txt".to_string());
    assert_eq!(VirtualFile::read(&missing), Err(JjError::NotFound));
    assert_eq!(VirtualFile::list(&missing), Err(JjError::NotFound));
    assert_eq!(missing.read_link(), Err(JjError::NotFound));
    assert_eq!(missing.attributes(), Err(JjError::NotFound));
    assert_eq!(VirtualFile::file_type(&missing), Err(JjError::NotFound));
    assert!(matches!(
        missing.to_readonly(Ok(())),
        Err(JjError::NotFound)
    ));
}

fn backend_value(value: &TreeValue) -> backend::TreeValue {
    match value {
        TreeValue::File {
            id,
            executable,
            copy_id,
        } => backend::TreeValue::File {
            id: backend::FileId::from_bytes(id),
            executable: *executable,
            copy_id: CopyId::from_bytes(copy_id),
        },
        TreeValue::Symlink(id) => backend::TreeValue::Symlink(backend::SymlinkId::from_bytes(id)),
        TreeValue::Tree(id) => backend::TreeValue::Tree(backend::TreeId::from_bytes(id)),
        TreeValue::GitSubmodule(id) => {
            backend::TreeValue::GitSubmodule(backend::CommitId::from_bytes(id))
        }
    }
}

#[test]
fn update_rewrites_the_checkout() {
    let (_temp_dir, repo, commit_id) = setup_test_repo();
    let store = repo.store().clone();
    let path = RepoPathBuf::from_relative_path(Path::new("new.txt")).unwrap();
    let id = store.write_file(&path, &mut &b"new"[..]).block_on().unwrap();
    let value = TreeValue::File {
        id: id.to_bytes(),
        executable: true,
        copy_id: CopyId::placeholder().to_bytes(),
    };
    let mut update = FileUpdate::new(
        &view_of(&repo),
        "default",
        "new.txt".to_string(),
        Some(value),
        "add a file".to_string(),
    )
    .unwrap();

    let mut commit = None;
    let mut new_tree = None;
    let mut new_id = None;
    let mut tx = Some(repo.start_transaction());
    let mut steps: usize = 0;
    while let Some(action) = update.action() {
        match action {
            UpdateAction::LoadCommit(id) => {
                assert_eq!(*id, commit_id);
                commit = Some(store.get_commit_async(&backend_id(id)).block_on().unwrap());
            }
            UpdateAction::WriteTree { path, value } => {
                let tree = commit.as_ref().unwrap().tree();
                let mut builder = jj_lib::merged_tree_builder::MergedTreeBuilder::new(tree);
                builder.set_or_remove(
                    RepoPathBuf::from_internal_string(path).unwrap(),
                    Merge::resolved(value.as_ref().map(backend_value)),
                );
                new_tree = Some(builder.write_tree().block_on().unwrap());
            }
            UpdateAction::RewriteCommit => {
                let rewritten = tx
                    .as_mut()
                    .unwrap()
                    .repo_mut()
                    .rewrite_commit(commit.as_ref().unwrap())
                    .set_tree(new_tree.take().unwrap())
                    .write()
                    .block_on()
                    .unwrap();
                new_id = Some(rewritten.id().clone());
            }
            UpdateAction::SetWcCommit(name) => {
                let name = jj_lib::ref_name::WorkspaceNameBuf::from(name);
                tx.as_mut()
                    .unwrap()
                    .repo_mut()
                    .set_wc_commit(name, new_id.clone().unwrap())
                    .unwrap();
            }
            UpdateAction::RebaseDescendants => {
                tx.as_mut()
                    .unwrap()
                    .repo_mut()
                    .rebase_descendants()
                    .block_on()
                    .unwrap();
            }
            UpdateAction::CommitTransaction(description) => {
                assert_eq!(description, "add a file");
                tx.take().unwrap().commit(description).block_on().unwrap();
            }
        }
        steps += 1;
        assert_eq!(update.advance(Ok(())), Ok(()));
    }
    assert_eq!(steps, 6);

    let repo = load(_temp_dir.path());
    let mapper = mapper(&repo);
    let entry = mapper.get_entry("workspaces/default/new.txt").unwrap();
    assert_eq!(tree_entry(&repo, entry).read().unwrap(), b"new");
    let entry = mapper.get_entry("workspaces/default/file1.txt").unwrap();
    assert_eq!(tree_entry(&repo, entry).read().unwrap(), b"hello content 1");
}
