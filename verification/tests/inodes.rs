use jjfsd::file::FileType;
use jjfsd::inode_map::InodeMap;
use jjfsd::inode_map::ROOT_INODE;
use jjfsd::inodes::Inodes;
use jjfsd::jj_error::JjError;

fn assert_sync<T: Sync>() {}

fn assert_send<T: Send>() {}

#[test]
fn inode_map_test_get_path() {
    let mut inodes = InodeMap::new();

    // Root path is empty
    assert_eq!(inodes.get_path(ROOT_INODE).unwrap(), "");

    assert_eq!(inodes.get_ino(ROOT_INODE, "foo").unwrap(), 2);
    assert_eq!(inodes.get_ino(2, "bar.txt").unwrap(), 3);

    assert_eq!(inodes.get_path(2).unwrap(), "foo");
    assert_eq!(inodes.get_path(3).unwrap(), "foo/bar.txt");
}

#[test]
fn test_get_ino() {
    let mut inodes = InodeMap::new();

    // Create "foo" under root
    let foo_ino = inodes.get_ino(ROOT_INODE, "foo").unwrap();
    assert_eq!(foo_ino, 2);
    assert_eq!(inodes.get_path(foo_ino).unwrap(), "foo");

    // Get "foo" again, should return existing INO 2
    let foo_ino_again = inodes.get_ino(ROOT_INODE, "foo").unwrap();
    assert_eq!(foo_ino_again, 2);

    // Create "bar.txt" under "foo"
    let bar_ino = inodes.get_ino(foo_ino, "bar.txt").unwrap();
    assert_eq!(bar_ino, 3);
    assert_eq!(inodes.get_path(bar_ino).unwrap(), "foo/bar.txt");

    // Error cases: Non-existent parent
    let err = inodes.get_ino(999, "bar.txt");
    assert!(matches!(err, Err(JjError::NotFound)));
}

#[test]
fn test_inode_map_is_sync() {
    // This will yield a compile error if InodeMap is not Sync.
    assert_sync::<InodeMap>();
}

#[test]
fn test_inode_map_is_send() {
    // This will yield a compile error if InodeMap is not Send.
    assert_send::<InodeMap>();
}

#[test]
fn inode_map_unknown_inode() {
    let inodes = InodeMap::default();
    assert_eq!(inodes.get_path(7), Err(JjError::NotFound));
    assert_eq!(inodes.get_parent_ino(7), Err(JjError::NotFound));
    assert_eq!(inodes.get_parent_ino(ROOT_INODE), Ok(ROOT_INODE));
}

#[test]
fn inode_map_same_name_in_two_directories() {
    let mut inodes = InodeMap::new();
    let a = inodes.get_ino(ROOT_INODE, "a").unwrap();
    let b = inodes.get_ino(ROOT_INODE, "b").unwrap();
    let in_a = inodes.get_ino(a, "x").unwrap();
    let in_b = inodes.get_ino(b, "x").unwrap();
    assert_ne!(in_a, in_b);
    assert_eq!(inodes.get_path(in_a).unwrap(), "a/x");
    assert_eq!(inodes.get_path(in_b).unwrap(), "b/x");
    assert_eq!(inodes.get_parent_ino(in_b), Ok(b));
    // A lookup that failed uses no number up.
    assert!(inodes.get_ino(999, "y").is_err());
    assert_eq!(inodes.get_ino(a, "y").unwrap(), 6);
}

#[test]
fn inodes_test_get_path() {
    let mut inodes = Inodes::new();

    // Root path
    assert_eq!(inodes.get_path(ROOT_INODE), "/");

    // Populate some inodes
    let foo = inodes.get_or_create_child(ROOT_INODE, "foo", FileType::Directory);
    assert_eq!(foo.unwrap(), 2);
    let bar = inodes.get_or_create_child(2, "bar.txt", FileType::File);
    assert_eq!(bar.unwrap(), 3);

    assert_eq!(inodes.get_path(2), "/foo");
    assert_eq!(inodes.get_path(3), "/foo/bar.txt");
}

#[test]
fn test_get_child() {
    let mut inodes = Inodes::new();

    // Create "foo" using get_or_create_child
    let foo_ino = inodes
        .get_or_create_child(ROOT_INODE, "foo", FileType::Directory)
        .unwrap();
    assert_eq!(foo_ino, 2);

    assert_eq!(inodes.get_child(ROOT_INODE, "foo").unwrap(), 2);

    let err = inodes.get_child(999, "bar");
    assert!(err.is_err());
}

#[test]
fn inodes_child_errors() {
    let mut inodes = Inodes::new();
    let file = inodes
        .get_or_create_child(ROOT_INODE, "f", FileType::File)
        .unwrap();
    let missing = inodes.get_child(ROOT_INODE, "g").unwrap_err();
    let not_a_directory = inodes.get_child(file, "g").unwrap_err();
    let no_parent = inodes.get_child(999, "g").unwrap_err();
    assert_eq!(missing.message(), "Child g not found under parent INO 1");
    assert_eq!(no_parent.message(), "Parent INO 999 not found");
    assert_eq!(
        not_a_directory.message(),
        format!("Parent INO {} is not a directory", file)
    );
}

#[test]
fn test_get_or_create_child() {
    let mut inodes = Inodes::new();

    // Create "foo" under root as directory
    let foo_ino = inodes
        .get_or_create_child(ROOT_INODE, "foo", FileType::Directory)
        .unwrap();
    assert_eq!(foo_ino, 2);
    assert_eq!(inodes.get_path(foo_ino), "/foo");

    // Get "foo" again, should return existing INO 2
    let foo_ino_again = inodes
        .get_or_create_child(ROOT_INODE, "foo", FileType::Directory)
        .unwrap();
    assert_eq!(foo_ino_again, 2);

    // Create "bar.txt" under "foo" as file
    let bar_ino = inodes
        .get_or_create_child(foo_ino, "bar.txt", FileType::File)
        .unwrap();
    assert_eq!(bar_ino, 3);
    assert_eq!(inodes.get_path(bar_ino), "/foo/bar.txt");

    // Error cases
    // 1. Non-existent parent
    let err = inodes.get_or_create_child(999, "bar.txt", FileType::File);
    assert!(err.is_err());
    assert_eq!(err.unwrap_err().message(), "Parent INO 999 not found");

    // 2. Parent is not a directory
    let err = inodes.get_or_create_child(bar_ino, "baz.txt", FileType::File);
    assert!(err.is_err());
    assert_eq!(
        err.unwrap_err().message(),
        format!("Parent INO {} is not a directory", bar_ino)
    );
}

#[test]
fn test_get_or_create_child_type_mismatch() {
    let mut inodes = Inodes::new();

    // Create "foo" as a Directory
    let foo_ino = inodes
        .get_or_create_child(ROOT_INODE, "foo", FileType::Directory)
        .unwrap();

    // Get or create "foo" again, but ask for a File. This succeeds, returning foo_ino.
    let foo_ino_file = inodes
        .get_or_create_child(ROOT_INODE, "foo", FileType::File)
        .unwrap();
    assert_eq!(foo_ino_file, foo_ino);
}

#[test]
fn test_get_parent_and_file_type() {
    let mut inodes = Inodes::new();
    let foo_ino = inodes
        .get_or_create_child(ROOT_INODE, "foo", FileType::Directory)
        .unwrap();
    let bar_ino = inodes
        .get_or_create_child(foo_ino, "bar.txt", FileType::File)
        .unwrap();

    assert_eq!(inodes.get_parent(foo_ino), Some(ROOT_INODE));
    assert_eq!(inodes.get_parent(bar_ino), Some(foo_ino));
    assert_eq!(inodes.get_parent(999), None);

    assert_eq!(inodes.get_file_type(ROOT_INODE), Some(FileType::Directory));
    assert_eq!(inodes.get_file_type(foo_ino), Some(FileType::Directory));
    assert_eq!(inodes.get_file_type(bar_ino), Some(FileType::File));
    assert_eq!(inodes.get_file_type(999), None);
}
