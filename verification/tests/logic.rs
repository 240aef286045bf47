use std::sync::Arc;

use jj_lib::merge::Merge;
use jjfsd::bookmarks_directory::BookmarkSymlink;
use jjfsd::bookmarks_directory::BookmarksDirectory;
use jjfsd::commit_id::CommitId;
use jjfsd::commit_tree_file;
use jjfsd::commit_tree_file::CommitTreeFile;
use jjfsd::commits_directory::CommitsDirectory;
use jjfsd::config;
use jjfsd::file::File;
use jjfsd::file::FileType as PlainType;
use jjfsd::hardcoded_symlink::HardcodedSymlink;
use jjfsd::jj_error::JjError;
use jjfsd::jj_repo;
use jjfsd::jj_repo::JjCommit as _;
use jjfsd::jj_repo::JjLibRepo;
use jjfsd::jj_repo::JjRepo as _;
use jjfsd::mutable_commits_directory::MutableCommitSymlink;
use jjfsd::mutable_commits_directory::MutableCommitsDirectory;
use jjfsd::paths;
use jjfsd::read_window::ReadWindow;
use jjfsd::repo_path;
use jjfsd::repo_view::Bookmark;
use jjfsd::repo_view::RefTarget;
use jjfsd::repo_view::RepoView;
use jjfsd::repo_view::WorkspaceCommit;
use jjfsd::revset::Revset;
use jjfsd::static_directory::StaticDirectory;
use jjfsd::text;
use jjfsd::tree::Tree;
use jjfsd::tree::TreeEntry;
use jjfsd::tree::TreeValue;
use jjfsd::vfs;
use jjfsd::virtual_file::Answer;
use jjfsd::virtual_file::DirectoryEntry;
use jjfsd::virtual_file::FileAttributes;
use jjfsd::virtual_file::FileType;
use jjfsd::virtual_file::Found;
use jjfsd::virtual_file::Query;
use jjfsd::virtual_file::VirtualFile;
use jjfsd::workspaces_directory::WorkspacesDirectory;
use jjfsd::writable_commit_tree_file;
use jjfsd::writable_commit_tree_file::FileUpdate;
use jjfsd::writable_commit_tree_file::UpdateAction;

fn id(byte: u8) -> CommitId {
    CommitId::new(vec![byte, byte])
}

fn target(terms: Vec<Option<CommitId>>) -> RefTarget {
    RefTarget {
        merge: Merge::from_vec(terms),
    }
}

fn bookmark(name: &str, target: RefTarget) -> Bookmark {
    Bookmark {
        name: name.to_string(),
        target,
    }
}

fn workspace(name: &str, commit_id: CommitId) -> WorkspaceCommit {
    WorkspaceCommit {
        name: name.to_string(),
        commit_id,
    }
}

fn repo() -> RepoView {
    RepoView {
        root_commit_id: id(0),
        wc_commit_ids: vec![
            workspace("a", id(1)),
            workspace("b", id(2)),
            workspace("c", id(1)),
        ],
        local_bookmarks: vec![
            bookmark("zoo", target(vec![Some(id(1))])),
            bookmark("Main", target(vec![Some(id(2))])),
            bookmark("gone", target(vec![None])),
            bookmark("split", target(vec![Some(id(1)), None, Some(id(2))])),
            bookmark("été", target(vec![Some(id(4))])),
            bookmark("main", target(vec![Some(id(3))])),
        ],
        tags: vec![
            target(vec![Some(id(5))]),
            target(vec![None]),
            target(vec![Some(id(6)), Some(id(7)), Some(id(8))]),
        ],
        remote_bookmarks: vec![target(vec![Some(id(9)), None, None])],
    }
}

fn ready<T>(answer: Answer<T>) -> T {
    match answer {
        Answer::Ready(value) => value,
        Answer::Lookup(query) => panic!("unexpected lookup {:?}", query),
    }
}

fn names(entries: &[DirectoryEntry]) -> Vec<&str> {
    entries.iter().map(|entry| entry.name.as_str()).collect()
}

// --- Text and paths ---

#[test]
fn hex_of_ids() {
    let parsed = CommitId::try_from_hex("00aBcDeF").unwrap();
    assert_eq!(parsed.bytes, vec![0x00, 0xab, 0xcd, 0xef]);
    assert_eq!(parsed.hex(), "00abcdef");
    assert_eq!(CommitId::try_from_hex(&parsed.hex()), Some(parsed));
    assert_eq!(CommitId::try_from_hex(""), Some(CommitId::new(vec![])));
    assert_eq!(CommitId::try_from_hex("abc"), None);
    assert_eq!(CommitId::try_from_hex("0g"), None);
    assert_eq!(CommitId::try_from_hex("é0"), None);
    assert!(id(3).same(&id(3)));
    assert!(!id(3).same(&id(4)));
    assert!(!id(3).same(&CommitId::new(vec![3])));
}

#[test]
fn text_order_is_that_of_bytes() {
    assert!(text::is_text_le("", "a"));
    assert!(text::is_text_le("Z", "a"));
    assert!(text::is_text_le("a", "a"));
    assert!(text::is_text_le("a", "ab"));
    assert!(!text::is_text_le("ab", "a"));
    assert!(!text::is_text_le("é", "z"));
    assert_eq!(text::split("a//b", '/'), vec!["a", "", "b"]);
    assert_eq!(text::split("", '/'), vec![""]);
    assert_eq!(text::decimal_text(0), "0");
    assert_eq!(text::decimal_text(u64::MAX), "18446744073709551615");
}

#[test]
fn paths_split_and_join() {
    let empty: Vec<String> = Vec::new();
    assert_eq!(paths::split_path(""), empty);
    assert_eq!(paths::split_path("a//./b/"), vec!["a", "b"]);
    assert_eq!(paths::split_path("/a"), vec!["/", "a"]);
    assert_eq!(paths::split_path("./a/.."), vec![".", "a", ".."]);
    assert_eq!(paths::join("", "a"), "a");
    assert_eq!(paths::join("a", "b"), "a/b");
    assert_eq!(paths::join("/", "b"), "/b");
    assert_eq!(paths::join("a", "/b"), "/b");
    assert_eq!(paths::parent_path("a/b/"), Some("a".to_string()));
    assert_eq!(paths::parent_path("a"), Some("".to_string()));
    assert_eq!(paths::parent_path(""), None);
    assert_eq!(paths::parent_path("/"), None);
}

#[test]
fn paths_inside_a_tree() {
    assert_eq!(repo_path::repo_path(""), Some("".to_string()));
    assert_eq!(repo_path::repo_path("."), Some("".to_string()));
    assert_eq!(repo_path::repo_path("a//b/./c/"), Some("a/b/c".to_string()));
    assert_eq!(repo_path::repo_path("./a"), None);
    assert_eq!(repo_path::repo_path("/a"), None);
    assert_eq!(repo_path::repo_path("a/.."), None);
    assert_eq!(repo_path::repo_path(".."), None);
}

#[test]
fn interned_names() {
    let file = File::new("some name", PlainType::Directory);
    assert_eq!(file.name, "some name");
    assert_eq!(file.file_type, PlainType::Directory);
    assert_eq!(file, File::new("some name", PlainType::Directory));
}

// --- Configuration ---

#[test]
fn config_settings() {
    let config = "# store\nrepo_id = \"my repo\"\nserver_url = \"http://host:1\"\n";
    assert_eq!(
        config::parse_config(config),
        Ok(("http://host:1".to_string(), "my repo".to_string()))
    );
    assert_eq!(
        config::parse_config(""),
        Ok(("http://localhost:8080".to_string(), "default".to_string()))
    );
}

#[test]
fn config_corner_cases() {
    let repo_id = |config: &str| config::parse_config(config).unwrap().1;
    // The first line with the key counts, even where it has no value.
    assert_eq!(repo_id("repo_id = x\nrepo_id = \"y\""), "default");
    assert_eq!(repo_id("repo_id = \"x\"\nrepo_id = \"y\""), "x");
    // A key is only one at the start of a line.
    assert_eq!(repo_id(" repo_id = \"x\""), "default");
    assert_eq!(repo_id("repo_id=\"x\""), "default");
    // A value without a closing quote goes to the end of the line.
    assert_eq!(repo_id("repo_id = \"x\r\nnext"), "x");
    assert_eq!(repo_id("repo_id = \"x\r"), "x\r");
    assert_eq!(repo_id("repo_id = \"\""), "");
}

#[test]
fn config_places() {
    assert_eq!(
        config::config_candidates("/r/op_store"),
        vec![
            "/r/op_store/config.toml",
            "/r/store/config.toml",
            "/r/config.toml"
        ]
    );
    assert_eq!(config::config_candidates("/"), vec!["/config.toml"]);
    let path = |existing: Vec<bool>| config::get_config_path("/r/op_store", &existing);
    assert_eq!(path(vec![true, true, true]), "/r/op_store/config.toml");
    assert_eq!(path(vec![false, true, true]), "/r/store/config.toml");
    assert_eq!(path(vec![false, false, true]), "/r/config.toml");
    assert_eq!(path(vec![false, false, false]), "/r/op_store/config.toml");
    assert_eq!(path(vec![]), "/r/op_store/config.toml");
}

// --- The state of a repository ---

#[test]
fn ref_targets() {
    assert_eq!(target(vec![Some(id(1))]).as_normal(), Some(&id(1)));
    assert_eq!(target(vec![None]).as_normal(), None);
    let conflicted = target(vec![Some(id(1)), Some(id(2)), Some(id(3))]);
    assert_eq!(conflicted.as_normal(), None);
    assert_eq!(conflicted.added_ids(), vec![id(1), id(3)]);
    assert_eq!(target(vec![Some(id(1)), None, None]).added_ids(), vec![id(1)]);
    assert_eq!(target(vec![None]).added_ids(), vec![]);
}

#[test]
fn views_and_trees_are_in_order() {
    let view = |workspaces: &[&str], bookmarks: &[&str]| {
        RepoView::new(
            id(0),
            workspaces.iter().map(|name| workspace(name, id(1))).collect(),
            bookmarks
                .iter()
                .map(|name| bookmark(name, target(vec![Some(id(2))])))
                .collect(),
            vec![],
            vec![],
        )
    };
    let repo = view(&["a", "b"], &["M", "m", "é"]).unwrap();
    assert_eq!(repo.get_wc_commit_id("b"), Some(&id(1)));
    let directory = BookmarksDirectory::new(Arc::new(repo), String::new());
    let entries = ready(directory.list().unwrap());
    assert_eq!(names(&entries), vec!["M", "m", "é"]);
    assert!(view(&[], &[]).is_some());
    assert_eq!(view(&["b", "a"], &[]), None);
    assert_eq!(view(&["a", "a"], &[]), None);
    assert_eq!(view(&[], &["m", "M"]), None);
    assert_eq!(view(&["a"], &["m", "m"]), None);

    let entry = |name: &str| TreeEntry {
        name: name.to_string(),
        value: file_value(1),
    };
    let tree = Tree::new(vec![entry("a"), entry("a.txt"), entry("b")]).unwrap();
    assert_eq!(tree.entries.len(), 3);
    assert!(Tree::new(vec![]).is_some());
    assert_eq!(Tree::new(vec![entry("b"), entry("a")]), None);
    assert_eq!(Tree::new(vec![entry("a"), entry("a")]), None);
    assert!(text::is_text_lt("a", "b"));
    assert!(!text::is_text_lt("a", "a"));
}

#[test]
fn view_lookups() {
    let repo = repo();
    assert_eq!(repo.get_wc_commit_id("b"), Some(&id(2)));
    assert_eq!(repo.get_wc_commit_id("d"), None);
    assert_eq!(repo.get_bookmark_commit_id("zoo"), Some(&id(1)));
    assert_eq!(repo.get_bookmark_commit_id("gone"), None);
    assert_eq!(repo.get_bookmark_commit_id("split"), None);
    assert_eq!(repo.get_bookmark_commit_id("none"), None);
    assert_eq!(
        repo.immutable_heads(),
        vec![id(0), id(5), id(6), id(8), id(9)]
    );
    assert_eq!(
        BookmarksDirectory::get_bookmark_commit_id(&repo, "main"),
        Ok(id(3))
    );
    assert_eq!(
        BookmarksDirectory::get_bookmark_commit_id(&repo, "gone"),
        Err(JjError::NotFound)
    );
}

#[test]
fn bookmarks_are_sorted() {
    let repo = Arc::new(repo());
    let directory = BookmarksDirectory::new(repo.clone(), "../commits".to_string());
    let entries = ready(directory.list().unwrap());
    assert_eq!(names(&entries), vec!["Main", "main", "zoo", "été"]);
    assert!(entries.iter().all(|e| e.file_type == FileType::Symlink));
    for bookmark in &repo.local_bookmarks {
        assert_eq!(
            names(&entries).contains(&bookmark.name.as_str()),
            directory.get_symlink(&bookmark.name).is_ok()
        );
    }
    assert_eq!(ready(directory.attributes().unwrap()).file_type, FileType::Directory);
    assert_eq!(directory.read(), Err(JjError::NotAFile));
    assert_eq!(directory.read_link(), Err(JjError::NotASymlink));
}

#[test]
fn workspaces_in_order() {
    let directory = WorkspacesDirectory::new(Arc::new(repo()));
    let entries = ready(directory.list().unwrap());
    assert_eq!(names(&entries), vec!["a", "b", "c"]);
    assert!(entries.iter().all(|e| e.file_type == FileType::Directory));
    assert_eq!(directory.file_type(), Ok(Answer::Ready(FileType::Directory)));
    assert_eq!(ready(directory.attributes().unwrap()).size, 0);
}

#[test]
fn commits_that_cannot_be_read_are_left_out() {
    let found: Found<Vec<Option<CommitId>>> = Ok(vec![Some(id(1)), None, Some(id(2))]);
    let directory = CommitsDirectory::new(Arc::new(repo()));
    let entries = directory.list_found(found).unwrap();
    assert_eq!(names(&entries), vec!["0101", "0202"]);
    assert!(entries.iter().all(|e| e.file_type == FileType::Directory));
    assert_eq!(
        directory.list_found(Err("broken".to_string())),
        Err(JjError::JjLibBackendError("broken".to_string()))
    );
    assert_eq!(
        directory.list(),
        Ok(Answer::Lookup(Query::Commits(Revset::All)))
    );

    let jj_repo = JjLibRepo::new(Arc::new(repo()));
    let found = vec![Some(id(1)), None, Some(id(2))];
    assert_eq!(jj_repo.commits_found(&found), vec![id(1), id(2)]);
    assert_eq!(jj_repo.commits(), Revset::All);

    let plain = vfs::commits_directory::CommitsDirectory::new(Arc::new(repo()));
    let files = plain.list_found(Ok(found)).unwrap();
    assert_eq!(
        files,
        vec![
            File::new("0101", PlainType::Directory),
            File::new("0202", PlainType::Directory)
        ]
    );
    assert_eq!(
        plain.list_found(Err("broken".to_string())),
        Err(JjError::JjLibBackendError("broken".to_string()))
    );
}

#[test]
fn mutable_revsets() {
    let repo = Arc::new(repo());
    let directory = MutableCommitsDirectory::new(repo.clone(), "up".to_string());
    let heads = Revset::Ancestors(Box::new(Revset::Commits(repo.immutable_heads())));
    let all = Revset::Minus(Box::new(Revset::All), Box::new(heads));
    assert_eq!(directory.list(), Ok(Answer::Lookup(Query::Commits(all))));

    let heads = Revset::Ancestors(Box::new(Revset::Commits(repo.immutable_heads())));
    let one = Revset::Minus(Box::new(Revset::Commits(vec![id(1)])), Box::new(heads));
    assert_eq!(directory.revset_of(&id(1)), one);
    assert_eq!(MutableCommitsDirectory::mutable_revset(&repo, &id(1)), one);

    assert_eq!(MutableCommitsDirectory::is_mutable(Ok(false)), Ok(true));
    assert_eq!(MutableCommitsDirectory::is_mutable(Ok(true)), Ok(false));
    assert_eq!(
        MutableCommitsDirectory::is_mutable(Err("x".to_string())),
        Ok(false)
    );
    let link = directory.get_symlink(&id(1), Ok(false)).unwrap();
    assert_eq!(link.read_link(), Ok(Answer::Ready("up/0101".to_string())));
    assert!(matches!(
        directory.get_symlink(&id(1), Err("x".to_string())),
        Err(JjError::NotFound)
    ));
    let entries = directory.list_found(Ok(vec![None, Some(id(1))])).unwrap();
    assert_eq!(names(&entries), vec!["0101"]);
    assert_eq!(entries[0].file_type, FileType::Symlink);
    assert_eq!(
        directory.list_found(Err("broken".to_string())),
        Err(JjError::JjLibBackendError("broken".to_string()))
    );
}

// --- Fixed files ---

fn check_link<F: VirtualFile>(link: F) {
    assert_eq!(link.read_link(), Ok(Answer::Ready("../é".to_string())));
    assert_eq!(link.file_type(), Ok(Answer::Ready(FileType::Symlink)));
    assert_eq!(
        link.attributes(),
        Ok(Answer::Ready(FileAttributes {
            size: 5,
            file_type: FileType::Symlink,
            created: 0,
            modified: 0,
        }))
    );
    assert_eq!(link.read(), Err(JjError::NotAFile));
    assert_eq!(link.list(), Err(JjError::NotADirectory));
    assert_eq!(link.write(0, b""), Err(JjError::Readonly));
    assert_eq!(link.delete(), Err(JjError::Readonly));
}

#[test]
fn symlinks() {
    check_link(HardcodedSymlink::new("../é".to_string()));
    check_link(BookmarkSymlink::new("../é".to_string()));
    check_link(MutableCommitSymlink::new("../é".to_string()));
}

#[test]
fn static_directories() {
    let entries = vec![
        DirectoryEntry {
            name: "b".to_string(),
            file_type: FileType::File,
        },
        DirectoryEntry {
            name: "a".to_string(),
            file_type: FileType::Symlink,
        },
    ];
    let directory = StaticDirectory::new(entries.clone());
    assert_eq!(directory.list(), Ok(Answer::Ready(entries.clone())));
    assert_eq!(directory.list(), Ok(Answer::Ready(entries)));
    assert_eq!(directory.file_type(), Ok(Answer::Ready(FileType::Directory)));
    assert_eq!(
        directory.attributes(),
        Ok(Answer::Ready(FileAttributes {
            size: 0,
            file_type: FileType::Directory,
            created: 0,
            modified: 0,
        }))
    );
    assert_eq!(directory.read(), Err(JjError::NotAFile));
    assert_eq!(directory.read_link(), Err(JjError::NotASymlink));
}

// --- Trees ---

fn file_value(id: u8) -> TreeValue {
    TreeValue::File {
        id: vec![id],
        executable: false,
        copy_id: vec![],
    }
}

fn tree(entries: Vec<(&str, TreeValue)>) -> Tree {
    let entries = entries
        .into_iter()
        .map(|(name, value)| TreeEntry {
            name: name.to_string(),
            value,
        })
        .collect();
    Tree::new(entries).unwrap()
}

fn found(value: Option<TreeValue>) -> Found<Merge<Option<TreeValue>>> {
    Ok(Merge::resolved(value))
}

fn conflict() -> Found<Merge<Option<TreeValue>>> {
    Ok(Merge::from_vec(vec![
        Some(file_value(1)),
        None,
        Some(TreeValue::Tree(vec![2])),
    ]))
}

fn broken() -> Found<Merge<Option<TreeValue>>> {
    Err("broken".to_string())
}

fn tree_file(path: &str) -> CommitTreeFile {
    CommitTreeFile::new(id(1), path.to_string(), Ok(())).unwrap()
}

#[test]
fn tree_lookup() {
    let tree = tree(vec![("a", file_value(1)), ("b", TreeValue::Tree(vec![2]))]);
    assert_eq!(tree.value("b"), Some(&TreeValue::Tree(vec![2])));
    assert_eq!(tree.value("c"), None);
}

#[test]
fn tree_file_names_its_commit() {
    let file = CommitTreeFile::new(id(7), "x".to_string(), Ok(())).unwrap();
    assert_eq!(file.commit_id(), &id(7));
    assert_eq!(
        file.list(),
        Ok(Answer::Lookup(Query::SubTrees {
            commit_id: id(7),
            path: "x".to_string()
        }))
    );
    let value = Query::PathValue {
        commit_id: id(7),
        path: "x".to_string(),
    };
    assert_eq!(file.attributes(), Ok(Answer::Lookup(value)));
}

#[test]
fn tree_file_read() {
    let file = tree_file("x//y");
    assert_eq!(
        file.read(),
        Ok(Answer::Lookup(Query::PathValue {
            commit_id: id(1),
            path: "x/y".to_string()
        }))
    );
    assert_eq!(
        file.read_found(&found(Some(file_value(7)))),
        Ok(Query::File {
            path: "x/y".to_string(),
            id: vec![7]
        })
    );
    assert_eq!(file.read_found(&found(None)), Err(JjError::NotFound));
    assert_eq!(
        file.read_found(&found(Some(TreeValue::Symlink(vec![1])))),
        Err(JjError::NotAFile)
    );
    assert_eq!(
        file.read_found(&found(Some(TreeValue::GitSubmodule(vec![1])))),
        Err(JjError::NotAFile)
    );
    assert_eq!(file.read_found(&conflict()), Err(JjError::NotADirectory));
    assert_eq!(
        file.read_found(&broken()),
        Err(JjError::JjLibBackendError("broken".to_string()))
    );
}

#[test]
fn tree_file_read_link() {
    let file = tree_file("x");
    assert_eq!(
        file.read_link_found(&found(Some(TreeValue::Symlink(vec![7])))),
        Ok(Query::Symlink {
            path: "x".to_string(),
            id: vec![7]
        })
    );
    assert_eq!(file.read_link_found(&found(None)), Err(JjError::NotFound));
    assert_eq!(
        file.read_link_found(&found(Some(file_value(1)))),
        Err(JjError::NotASymlink)
    );
    assert_eq!(file.read_link_found(&conflict()), Err(JjError::NotASymlink));
    assert_eq!(
        file.read_link_found(&broken()),
        Err(JjError::JjLibBackendError("broken".to_string()))
    );
}

#[test]
fn tree_file_types() {
    let file = tree_file("x");
    let type_of = |value| file.file_type_found(&found(value));
    assert_eq!(type_of(Some(TreeValue::Tree(vec![1]))), Ok(FileType::Directory));
    assert_eq!(type_of(Some(TreeValue::Symlink(vec![1]))), Ok(FileType::Symlink));
    assert_eq!(type_of(Some(file_value(1))), Ok(FileType::File));
    assert_eq!(type_of(Some(TreeValue::GitSubmodule(vec![1]))), Ok(FileType::File));
    assert_eq!(type_of(None), Ok(FileType::File));
    let error = file.file_type_found(&conflict()).unwrap_err();
    assert_eq!(error, JjError::IO("Conflicted path".to_string()));
    assert_eq!(error.message(), "Conflicted path");
    assert_eq!(
        file.file_type_found(&broken()),
        Err(JjError::JjLibBackendError("broken".to_string()))
    );
}

#[test]
fn tree_file_attributes() {
    let file = tree_file("x");
    let attributes = |value| file.attributes_found(&found(value));
    assert_eq!(
        attributes(Some(file_value(7))),
        Ok(Answer::Lookup(Query::File {
            path: "x".to_string(),
            id: vec![7]
        }))
    );
    assert_eq!(
        attributes(Some(TreeValue::Symlink(vec![7]))),
        Ok(Answer::Lookup(Query::Symlink {
            path: "x".to_string(),
            id: vec![7]
        }))
    );
    assert_eq!(
        ready(attributes(Some(TreeValue::Tree(vec![7]))).unwrap()).file_type,
        FileType::Directory
    );
    assert_eq!(attributes(None), Err(JjError::NotFound));
    assert_eq!(
        attributes(Some(TreeValue::GitSubmodule(vec![7]))),
        Err(JjError::NotAFile)
    );
    assert_eq!(
        file.attributes_found(&conflict()),
        Err(JjError::IO("Conflicted path".to_string()))
    );
    assert_eq!(commit_tree_file::file_attributes(Ok(3)).unwrap().size, 3);
    assert_eq!(
        commit_tree_file::file_attributes(Err("cut".to_string())),
        Err(JjError::IO("cut".to_string()))
    );
    assert_eq!(
        commit_tree_file::link_attributes(Ok("é".to_string())).unwrap().size,
        2
    );
    assert_eq!(
        commit_tree_file::link_attributes(Err("cut".to_string())),
        Err(JjError::JjLibBackendError("cut".to_string()))
    );
}

#[test]
fn tree_file_list() {
    let file = tree_file("x");
    let one = tree(vec![
        ("a", TreeValue::Tree(vec![1])),
        ("b", file_value(2)),
        ("c", TreeValue::Symlink(vec![3])),
        ("d", TreeValue::GitSubmodule(vec![4])),
    ]);
    let entries = ready(file.list_found(&Ok(Some(Merge::resolved(one)))).unwrap());
    assert_eq!(names(&entries), vec!["a", "b", "c", "d"]);
    let types: Vec<FileType> = entries.iter().map(|entry| entry.file_type).collect();
    assert_eq!(
        types,
        vec![
            FileType::Directory,
            FileType::File,
            FileType::Symlink,
            FileType::File
        ]
    );
    assert_eq!(
        file.list_found(&Ok(None)),
        Ok(Answer::Lookup(Query::PathValue {
            commit_id: id(1),
            path: "x".to_string()
        }))
    );
    assert_eq!(
        file.list_found(&Err("broken".to_string())),
        Err(JjError::JjLibBackendError("broken".to_string()))
    );
}

#[test]
fn tree_file_list_in_conflict() {
    let file = tree_file("x");
    let trees = Merge::from_vec(vec![
        tree(vec![("b", TreeValue::Tree(vec![1])), ("c", file_value(2))]),
        tree(vec![("a", file_value(3))]),
        tree(vec![("c", file_value(4)), ("d", TreeValue::Symlink(vec![5]))]),
    ]);
    // Each name once, where it occurs first, and all as files.
    let entries = ready(file.list_found(&Ok(Some(trees))).unwrap());
    assert_eq!(names(&entries), vec!["b", "c", "a", "d"]);
    assert!(entries.iter().all(|entry| entry.file_type == FileType::File));
}

#[test]
fn tree_file_list_missing() {
    let file = tree_file("x");
    let error = |value| file.list_missing(&found(value));
    assert_eq!(error(None), JjError::NotFound);
    assert_eq!(error(Some(TreeValue::Tree(vec![1]))), JjError::NotFound);
    assert_eq!(error(Some(file_value(1))), JjError::NotADirectory);
    assert_eq!(file.list_missing(&conflict()), JjError::NotADirectory);
    assert_eq!(
        file.list_missing(&broken()),
        JjError::JjLibBackendError("broken".to_string())
    );
}

#[test]
fn plain_tree_file_names_its_commit() {
    let file =
        vfs::commit_tree_file::CommitTreeFile::new(id(7), "x".to_string(), Ok(())).unwrap();
    assert_eq!(file.commit_id(), &id(7));
    let value = Query::PathValue {
        commit_id: id(7),
        path: "x".to_string(),
    };
    assert_eq!(file.list_found(&Ok(None)), Ok(Answer::Lookup(value)));
}

#[test]
fn plain_tree_file() {
    let file =
        vfs::commit_tree_file::CommitTreeFile::new(id(1), "x".to_string(), Ok(())).unwrap();
    let trees = Merge::resolved(tree(vec![
        ("a", TreeValue::Tree(vec![1])),
        ("l", TreeValue::Symlink(vec![2])),
    ]));
    assert_eq!(
        file.list_found(&Ok(Some(trees))),
        Ok(Answer::Ready(vec![
            File::new("a", PlainType::Directory),
            File::new("l", PlainType::File)
        ]))
    );
    assert_eq!(
        file.file_type_found(&found(Some(TreeValue::Symlink(vec![1])))),
        Ok(PlainType::File)
    );
    assert_eq!(
        file.size_found(&found(Some(TreeValue::Tree(vec![1])))),
        Ok(Answer::Ready(0))
    );
    assert_eq!(
        file.size_found(&conflict()),
        Err(JjError::IO("Conflicted path".to_string()))
    );
    assert!(matches!(
        vfs::commit_tree_file::CommitTreeFile::new(id(1), "x".to_string(), Err("no".to_string())),
        Err(JjError::JjLibBackendError(_))
    ));
}

#[test]
fn repo_commit_errors() {
    let jj_repo = JjLibRepo::new(Arc::new(repo()));
    let commit = jj_repo.get_commit(&id(1), Ok(())).unwrap();
    let error = |value| commit.read_file("x", &value).unwrap_err().message();
    assert_eq!(error(conflict()), "x: Conflicting files no supported");
    assert_eq!(
        error(found(Some(TreeValue::GitSubmodule(vec![1])))),
        "x: Git submodules not supported"
    );
    assert_eq!(error(broken()), "Underlying jj-lib error: broken");
    assert_eq!(
        commit.read_file("x/./y", &found(Some(file_value(7)))),
        Ok(Query::File {
            path: "x/y".to_string(),
            id: vec![7]
        })
    );
    assert_eq!(
        commit.list_directory("x", &Err("broken".to_string())),
        Err(jj_repo::JjError::JjLibBackendError("broken".to_string()))
    );
    let file = found(Some(file_value(7)));
    assert_eq!(commit.file_size("x", &file, Ok(3)), Ok(3));
    assert_eq!(
        commit.file_size("x", &file, Err("cut".to_string())),
        Err(jj_repo::JjError::JjLibBackendError("cut".to_string()))
    );
    assert_eq!(
        commit.file_size("x", &found(Some(TreeValue::Tree(vec![1]))), Ok(0)),
        Err(jj_repo::JjError::IsDirectory("x".to_string()))
    );
    assert_eq!(
        commit.file_size("../x", &file, Ok(3)),
        Err(jj_repo::JjError::InvalidPath("../x".to_string()))
    );
}

// --- Reading in pieces ---

#[test]
fn window_over_pieces() {
    let content = b"0123456789";
    for offset in 0..12 {
        for size in 0..12 {
            for piece in 1..6 {
                let mut window = ReadWindow::new(offset, size);
                for bytes in content.chunks(piece) {
                    window.feed(bytes);
                }
                let from = (offset as usize).min(10);
                let to = (from + size as usize).min(10);
                let expected = &content[from..to];
                assert_eq!(window.is_full(), expected.len() == size as usize);
                assert_eq!(window.finish(), expected);
            }
        }
    }
}

// --- Updates ---

fn update() -> FileUpdate {
    FileUpdate::new(
        &repo(),
        "a",
        "p".to_string(),
        None,
        "remove p".to_string(),
    )
    .unwrap()
}

#[test]
fn update_steps_in_order() {
    let mut update = update();
    let expected = vec![
        UpdateAction::LoadCommit(&CommitId { bytes: vec![1, 1] }),
        UpdateAction::WriteTree {
            path: "p",
            value: &None,
        },
        UpdateAction::RewriteCommit,
        UpdateAction::SetWcCommit("a"),
        UpdateAction::SetWcCommit("c"),
        UpdateAction::RebaseDescendants,
        UpdateAction::CommitTransaction("remove p"),
    ]
    .iter()
    .map(|action| format!("{:?}", action))
    .collect::<Vec<String>>();
    let mut taken = Vec::new();
    while let Some(action) = update.action() {
        taken.push(format!("{:?}", action));
        assert_eq!(update.advance(Ok(())), Ok(()));
    }
    assert_eq!(taken, expected);
}

#[test]
fn update_errors() {
    let expected = vec![
        JjError::JjLibBackendError("m".to_string()),
        JjError::JjLibBackendError("m".to_string()),
        JjError::JjLibBackendError("m".to_string()),
        JjError::InvalidPath,
        JjError::InvalidPath,
        JjError::IO("m".to_string()),
        JjError::IO("m".to_string()),
    ];
    for (i, error) in expected.into_iter().enumerate() {
        let mut update = update();
        for _ in 0..i {
            assert_eq!(update.advance(Ok(())), Ok(()));
        }
        assert_eq!(update.advance(Err("m".to_string())), Err(error));
    }
    let missing = FileUpdate::new(&repo(), "z", "p".to_string(), None, String::new());
    assert!(matches!(missing, Err(JjError::NotFound)));
    assert_eq!(
        writable_commit_tree_file::task_error("cancelled"),
        JjError::IO("spawn_blocking failed: cancelled".to_string())
    );
}

#[test]
fn error_messages() {
    let messages: Vec<String> = vec![
        JjError::InvalidPath,
        JjError::NotFound,
        JjError::NotADirectory,
        JjError::NotAFile,
        JjError::NotASymlink,
        JjError::IO("m".to_string()),
        JjError::JjLibBackendError("m".to_string()),
    ]
    .iter()
    .map(|error| error.message())
    .collect();
    assert_eq!(
        messages,
        vec![
            "Invalid path",
            "Not found",
            "Expected a directory",
            "Expected a file",
            "Expected a symlink",
            "m",
            "Underlying jj-lib error: m"
        ]
    );
}
