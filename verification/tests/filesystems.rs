use std::collections::HashMap;
use std::sync::Arc;

use jjfsd::file::File;
use jjfsd::file::FileType as PlainType;
use jjfsd::fuse;
use jjfsd::fuse::Errno;
use jjfsd::fuse::FileAttr;
use jjfsd::fuse::JjFuse;
use jjfsd::fuse::ReaddirAction;
use jjfsd::inode_tree::Inode;
use jjfsd::inode_tree::ROOT_INODE;
use jjfsd::jj_error::JjError;
use jjfsd::jj_error::JjResult;
use jjfsd::jj_filesystem;
use jjfsd::jj_filesystem::DirCursor;
use jjfsd::jj_filesystem::DirStep;
use jjfsd::jj_filesystem::JjVfsState;
use jjfsd::path_mapper::PathMapper;
use jjfsd::vfs::PathMappedVfs;
use jjfsd::vfs::ReadDirEntry;
use jjfsd::vfs::VirtualFilesystem;
use jjfsd::virtual_file::Answer;
use jjfsd::virtual_file::CreateFile;
use jjfsd::virtual_file::DirectoryEntry;
use jjfsd::virtual_file::FileAttributes;
use jjfsd::virtual_file::FileType;
use jjfsd::virtual_file::VirtualFile;

enum MockVirtualFile {
    File(Vec<u8>),
    Directory(HashMap<String, Arc<MockVirtualFile>>),
    Symlink(String),
}

struct MockFile(Arc<MockVirtualFile>);

impl VirtualFile for MockFile {
    fn read(&self) -> JjResult<Answer<Vec<u8>>> {
        match &*self.0 {
            MockVirtualFile::File(content) => Ok(Answer::Ready(content.clone())),
            MockVirtualFile::Directory(_) => Err(JjError::NotAFile),
            MockVirtualFile::Symlink(_) => Err(JjError::NotAFile),
        }
    }

    fn list(&self) -> JjResult<Answer<Vec<DirectoryEntry>>> {
        match &*self.0 {
            MockVirtualFile::Directory(entries) => {
                let children = entries
                    .iter()
                    .map(|(name, file)| DirectoryEntry {
                        name: name.to_string(),
                        file_type: match &**file {
                            MockVirtualFile::File(_) => FileType::File,
                            MockVirtualFile::Directory(_) => FileType::Directory,
                            MockVirtualFile::Symlink(_) => FileType::Symlink,
                        },
                    })
                    .collect();
                Ok(Answer::Ready(children))
            }
            MockVirtualFile::File(_) | MockVirtualFile::Symlink(_) => Err(JjError::NotADirectory),
        }
    }

    fn read_link(&self) -> JjResult<Answer<String>> {
        match &*self.0 {
            MockVirtualFile::Symlink(target) => Ok(Answer::Ready(target.clone())),
            _ => Err(JjError::NotASymlink),
        }
    }

    fn attributes(&self) -> JjResult<Answer<FileAttributes>> {
        let (size, file_type) = match &*self.0 {
            MockVirtualFile::File(content) => (content.len() as u64, FileType::File),
            MockVirtualFile::Directory(_) => (0, FileType::Directory),
            MockVirtualFile::Symlink(target) => (target.len() as u64, FileType::Symlink),
        };
        Ok(Answer::Ready(FileAttributes {
            size,
            file_type,
            created: 5,
            modified: 7,
        }))
    }

    fn file_type(&self) -> JjResult<Answer<FileType>> {
        Ok(Answer::Ready(match &*self.0 {
            MockVirtualFile::File(_) => FileType::File,
            MockVirtualFile::Directory(_) => FileType::Directory,
            MockVirtualFile::Symlink(_) => FileType::Symlink,
        }))
    }
}

impl jj_filesystem::VirtualFile for MockFile {
    fn read(&self) -> JjResult<Answer<Vec<u8>>> {
        VirtualFile::read(self)
    }

    fn list(&self) -> JjResult<Answer<Vec<File>>> {
        match &*self.0 {
            MockVirtualFile::Directory(entries) => {
                let children = entries
                    .iter()
                    .map(|(name, file)| {
                        let file_type = match &**file {
                            MockVirtualFile::Directory(_) => PlainType::Directory,
                            _ => PlainType::File,
                        };
                        File::new(name, file_type)
                    })
                    .collect();
                Ok(Answer::Ready(children))
            }
            _ => Err(JjError::NotADirectory),
        }
    }

    fn size(&self) -> JjResult<Answer<u64>> {
        match &*self.0 {
            MockVirtualFile::File(content) => Ok(Answer::Ready(content.len() as u64)),
            _ => Ok(Answer::Ready(0)),
        }
    }

    fn file_type(&self) -> JjResult<Answer<PlainType>> {
        match &*self.0 {
            MockVirtualFile::Directory(_) => Ok(Answer::Ready(PlainType::Directory)),
            _ => Ok(Answer::Ready(PlainType::File)),
        }
    }
}

struct MockPathMapper {
    root: Arc<MockVirtualFile>,
}

impl MockPathMapper {
    fn find(&self, path: &str) -> JjResult<MockFile> {
        let mut current_entry = self.root.clone();
        for part in path.split('/').filter(|part| !part.is_empty()) {
            let next = match &*current_entry {
                MockVirtualFile::Directory(entries) => {
                    entries.get(part).ok_or(JjError::NotFound)?.clone()
                }
                _ => return Err(JjError::NotFound),
            };
            current_entry = next;
        }
        Ok(MockFile(current_entry))
    }
}

impl PathMapper for MockPathMapper {
    type File = MockFile;

    fn get_entry(&self, path: &str) -> JjResult<MockFile> {
        self.find(path)
    }
}

impl jj_filesystem::PathMapper for MockPathMapper {
    type Entry = MockFile;

    fn get_entry(&self, path: &str) -> JjResult<MockFile> {
        self.find(path)
    }
}

fn mapper() -> MockPathMapper {
    let mut root_children = HashMap::new();
    root_children.insert(
        "file.txt".to_string(),
        Arc::new(MockVirtualFile::File(b"hello world".to_vec())),
    );
    root_children.insert(
        "symlink.txt".to_string(),
        Arc::new(MockVirtualFile::Symlink("file.txt".to_string())),
    );

    let mut dir_children = HashMap::new();
    dir_children.insert(
        "nested.txt".to_string(),
        Arc::new(MockVirtualFile::File(b"nested content".to_vec())),
    );
    root_children.insert(
        "dir".to_string(),
        Arc::new(MockVirtualFile::Directory(dir_children)),
    );

    MockPathMapper {
        root: Arc::new(MockVirtualFile::Directory(root_children)),
    }
}

fn setup_test_vfs() -> PathMappedVfs<MockPathMapper> {
    PathMappedVfs::new(mapper())
}

fn ready<T>(answer: Answer<T>) -> T {
    match answer {
        Answer::Ready(value) => value,
        Answer::Lookup(query) => panic!("unexpected lookup {:?}", query),
    }
}

fn entries(
    fs: &mut PathMappedVfs<MockPathMapper>,
    ino: Inode,
    offset: u64,
) -> JjResult<Vec<ReadDirEntry>> {
    let mut stream = ready(fs.read_directory(ino, offset)?);
    let mut found = Vec::new();
    while let Some(entry) = stream.next(&mut fs.inode_map) {
        found.push(entry?);
    }
    Ok(found)
}

#[test]
fn vfs_test_read_root_file() {
    let mut fs = setup_test_vfs();
    let file_ino = fs.get_ino(ROOT_INODE, "file.txt").unwrap();
    let attr = ready(fs.get_attributes(file_ino).unwrap());
    assert_eq!(attr.size, 11);
    let content = ready(fs.read(file_ino, 0, 11).unwrap());
    assert_eq!(content, b"hello world");
}

#[test]
fn vfs_test_read_nested_file() {
    let mut fs = setup_test_vfs();
    let dir_ino = fs.get_ino(ROOT_INODE, "dir").unwrap();
    let file_ino = fs.get_ino(dir_ino, "nested.txt").unwrap();
    let attr = ready(fs.get_attributes(file_ino).unwrap());
    assert_eq!(attr.size, 14);
    let content = ready(fs.read(file_ino, 0, 14).unwrap());
    assert_eq!(content, b"nested content");
}

#[test]
fn vfs_read_windows() {
    let mut fs = setup_test_vfs();
    let ino = fs.get_ino(ROOT_INODE, "file.txt").unwrap();
    assert_eq!(ready(fs.read(ino, 6, 100).unwrap()), b"world");
    assert_eq!(ready(fs.read(ino, 0, 5).unwrap()), b"hello");
    assert_eq!(ready(fs.read(ino, 4, 3).unwrap()), b"o w");
    assert_eq!(ready(fs.read(ino, 3, 0).unwrap()), b"");
    assert_eq!(ready(fs.read(ino, 11, 4).unwrap()), b"");
    assert_eq!(ready(fs.read(ino, u64::MAX, 4).unwrap()), b"");
}

#[test]
fn vfs_test_list_directory() {
    let mut fs = setup_test_vfs();
    let dir_ino = fs.get_ino(ROOT_INODE, "dir").unwrap();

    let entries = entries(&mut fs, dir_ino, 0).unwrap();

    assert_eq!(entries.len(), 3);
    assert_eq!(entries[0].name, ".");
    assert_eq!(entries[0].offset, 1);
    assert_eq!(entries[0].ino, dir_ino);
    assert_eq!(entries[1].name, "..");
    assert_eq!(entries[1].offset, 2);
    assert_eq!(entries[1].ino, ROOT_INODE);
    assert_eq!(entries[2].name, "nested.txt");
    assert_eq!(entries[2].offset, 3);
    assert!(matches!(entries[2].file_type, FileType::File));
    assert_eq!(
        fs.get_ino(dir_ino, "nested.txt").unwrap(),
        entries[2].ino
    );
}

#[test]
fn vfs_test_list_directory_with_offset() {
    let mut fs = setup_test_vfs();
    let dir_ino = fs.get_ino(ROOT_INODE, "dir").unwrap();

    // Skip '.' (offset = 1)
    let found = entries(&mut fs, dir_ino, 1).unwrap();
    assert_eq!(found.len(), 2);
    assert_eq!(found[0].name, "..");
    assert_eq!(found[1].name, "nested.txt");

    // Skip '.' and '..' (offset = 2)
    let found = entries(&mut fs, dir_ino, 2).unwrap();
    assert_eq!(found.len(), 1);
    assert_eq!(found[0].name, "nested.txt");
}

#[test]
fn vfs_read_on_from_each_offset() {
    let mut fs = setup_test_vfs();
    let all = entries(&mut fs, ROOT_INODE, 0).unwrap();
    assert_eq!(all.len(), 5);
    for i in 0..all.len() {
        let rest = entries(&mut fs, ROOT_INODE, all[i].offset).unwrap();
        assert_eq!(rest, all[i + 1..]);
    }
    assert_eq!(entries(&mut fs, ROOT_INODE, 6).unwrap().len(), 0);
    assert_eq!(entries(&mut fs, ROOT_INODE, u64::MAX).unwrap().len(), 0);
}

#[test]
fn test_list_directory_not_a_directory() {
    let mut fs = setup_test_vfs();
    let file_ino = fs.get_ino(ROOT_INODE, "file.txt").unwrap();
    let result = fs.read_directory(file_ino, 0);
    assert!(matches!(result, Err(JjError::NotADirectory)));
}

#[test]
fn test_list_directory_not_found() {
    let fs = setup_test_vfs();
    let result = fs.read_directory(999, 0);
    assert!(matches!(result, Err(JjError::NotFound)));
}

#[test]
fn test_read_link() {
    let mut fs = setup_test_vfs();
    let symlink_ino = fs.get_ino(ROOT_INODE, "symlink.txt").unwrap();
    let target = ready(fs.read_link(symlink_ino).unwrap());
    assert_eq!(target, "file.txt");
}

#[test]
fn test_read_link_not_a_symlink() {
    let mut fs = setup_test_vfs();
    let file_ino = fs.get_ino(ROOT_INODE, "file.txt").unwrap();
    let result = fs.read_link(file_ino);
    assert!(matches!(result, Err(JjError::NotASymlink)));
}

#[test]
fn vfs_unknown_names() {
    let mut fs = setup_test_vfs();
    // A name gets an inode before it is known whether there is a file.
    let ino = fs.get_ino(ROOT_INODE, "missing").unwrap();
    assert_eq!(fs.get_attributes(ino), Err(JjError::NotFound));
    assert_eq!(fs.read(ino, 0, 1), Err(JjError::NotFound));
    assert_eq!(fs.get_ino(999, "x"), Err(JjError::NotFound));
    assert_eq!(
        fs.open_directory(999, 0, Vec::new()),
        Err(JjError::NotFound)
    );
}

#[test]
fn files_are_read_only() {
    let fs = setup_test_vfs();
    let file = fs.get_virtual_file(ROOT_INODE).unwrap();
    let new_file = CreateFile::Directory {
        name: "d".to_string(),
    };
    assert_eq!(file.create(new_file), Err(JjError::Readonly));
    assert_eq!(file.write(0, b"x"), Err(JjError::Readonly));
    assert_eq!(file.delete(), Err(JjError::Readonly));
}

#[test]
fn fuse_lookup() {
    let mut mounted = JjFuse::new(setup_test_vfs());
    let (ino, attributes) = mounted.lookup(ROOT_INODE, Some("file.txt")).unwrap();
    assert_eq!(ino, 2);
    assert_eq!(ready(attributes).size, 11);
    assert_eq!(
        mounted.lookup(ROOT_INODE, None),
        Err(JjError::InvalidPath)
    );
    assert_eq!(
        mounted.lookup(ROOT_INODE, Some("none")),
        Err(JjError::NotFound)
    );
    assert_eq!(mounted.lookup(999, Some("x")), Err(JjError::NotFound));
}

#[test]
fn fuse_readdir_stops_when_full() {
    let mut fs = setup_test_vfs();
    let dir_ino = fs.get_ino(ROOT_INODE, "dir").unwrap();
    let mut stream = ready(fs.read_directory(dir_ino, 0).unwrap());
    let first = fuse::readdir(&mut stream, &mut fs.inode_map, false);
    match first {
        ReaddirAction::Add(entry) => assert_eq!(entry.name, "."),
        other => panic!("unexpected {:?}", other),
    }
    assert_eq!(
        fuse::readdir(&mut stream, &mut fs.inode_map, true),
        ReaddirAction::Send
    );
    // What was not reached has no inode yet.
    assert_eq!(fs.get_ino(ROOT_INODE, "next").unwrap(), dir_ino + 1);

    let mut names = Vec::new();
    loop {
        match fuse::readdir(&mut stream, &mut fs.inode_map, false) {
            ReaddirAction::Add(entry) => names.push(entry.name),
            ReaddirAction::Send => break,
            ReaddirAction::Fail(errno) => panic!("unexpected {:?}", errno),
        }
    }
    assert_eq!(names, vec!["..", "nested.txt"]);
}

#[test]
fn fuse_readdir_keeps_the_directory() {
    let mut fs = setup_test_vfs();
    let dir_ino = fs.get_ino(ROOT_INODE, "dir").unwrap();
    let children: Vec<DirectoryEntry> = ["x", "y", "z"]
        .iter()
        .map(|name| DirectoryEntry {
            name: name.to_string(),
            file_type: FileType::File,
        })
        .collect();
    let mut stream = fs.open_directory(dir_ino, 0, children.clone()).unwrap();
    let mut added = Vec::new();
    while let ReaddirAction::Add(entry) =
        fuse::readdir(&mut stream, &mut fs.inode_map, false)
    {
        assert_eq!(stream.ino, dir_ino);
        assert_eq!(stream.parent_ino, ROOT_INODE);
        assert_eq!(stream.children, children);
        assert_eq!(stream.position, entry.offset);
        added.push((entry.ino, entry.offset, entry.name));
    }
    assert_eq!(stream.position, 5);
    let expected: Vec<(Inode, u64, String)> = vec![
        (dir_ino, 1, ".".to_string()),
        (ROOT_INODE, 2, "..".to_string()),
        (fs.get_ino(dir_ino, "x").unwrap(), 3, "x".to_string()),
        (fs.get_ino(dir_ino, "y").unwrap(), 4, "y".to_string()),
        (fs.get_ino(dir_ino, "z").unwrap(), 5, "z".to_string()),
    ];
    assert_eq!(added, expected);
}

#[test]
fn fuse_readdir_of_unknown_directory() {
    let mut fs = setup_test_vfs();
    let children = vec![DirectoryEntry {
        name: "x".to_string(),
        file_type: FileType::File,
    }];
    let mut stream = fs.open_directory(ROOT_INODE, 2, children).unwrap();
    stream.ino = 999;
    assert_eq!(
        fuse::readdir(&mut stream, &mut fs.inode_map, false),
        ReaddirAction::Fail(Errno::ENOENT)
    );
}

#[test]
fn fuse_attributes() {
    let attributes = FileAttributes {
        size: 513,
        file_type: FileType::File,
        created: 5,
        modified: 7,
    };
    assert_eq!(
        attributes.to_fuse(9, 11),
        FileAttr {
            ino: 9,
            size: 513,
            blocks: 2,
            atime: 11,
            mtime: 7,
            ctime: 7,
            crtime: 5,
            kind: fuse::FileType::RegularFile,
            perm: 0o644,
            nlink: 1,
            uid: 1000,
            gid: 1000,
            rdev: 0,
            flags: 0,
            blksize: 4096,
        }
    );
    let directory = FileAttributes {
        size: 0,
        file_type: FileType::Directory,
        created: 0,
        modified: 0,
    };
    let attr = directory.to_fuse(1, 0);
    assert_eq!((attr.blocks, attr.perm, attr.nlink), (0, 0o755, 2));
    assert_eq!(attr.kind, fuse::FileType::Directory);
    let link = FileAttributes {
        size: u64::MAX,
        file_type: FileType::Symlink,
        created: 0,
        modified: 0,
    };
    let attr = link.to_fuse(1, 0);
    assert_eq!((attr.blocks, attr.perm, attr.nlink), (1 << 55, 0o644, 1));
    assert_eq!(attr.kind, fuse::FileType::Symlink);
}

#[test]
fn fuse_errors() {
    assert_eq!(Errno::from(JjError::NotFound), Errno::ENOENT);
    assert_eq!(Errno::from(JjError::NotADirectory), Errno::ENOTDIR);
    assert_eq!(Errno::from(JjError::NotAFile), Errno::EISDIR);
    assert_eq!(Errno::from(JjError::NotASymlink), Errno::EINVAL);
    assert_eq!(Errno::from(JjError::InvalidPath), Errno::EIO);
    assert_eq!(Errno::from(JjError::Readonly), Errno::EIO);
    assert_eq!(Errno::from(JjError::IO("x".to_string())), Errno::EIO);
    assert_eq!(
        Errno::from(JjError::JjLibBackendError("x".to_string())),
        Errno::EIO
    );
}

fn setup_test_state() -> JjVfsState<MockPathMapper> {
    JjVfsState::new(mapper())
}

fn read_entries(
    fs: &mut JjVfsState<MockPathMapper>,
    ino: Inode,
    offset: u64,
    limit: usize,
) -> JjResult<Vec<(Inode, String, PlainType)>> {
    let mut cursor = DirCursor::new(ino, offset);
    let mut found = Vec::new();
    loop {
        match fs.readdir(&mut cursor, found.len() == limit)? {
            DirStep::Entry(child, file) => found.push((child, file.name.to_string(), file.file_type)),
            DirStep::Lookup(query) => panic!("unexpected lookup {:?}", query),
            DirStep::End => return Ok(found),
        }
    }
}

#[test]
fn jj_filesystem_test_read_root_file() {
    let mut fs = setup_test_state();
    let attr = ready(fs.lookup(1, "file.txt").unwrap());
    let content = ready(fs.read(attr.ino, 0, 11).unwrap());
    assert_eq!(content, b"hello world");
}

#[test]
fn jj_filesystem_test_read_nested_file() {
    let mut fs = setup_test_state();
    let dir_attr = ready(fs.lookup(1, "dir").unwrap());
    let file_attr = ready(fs.lookup(dir_attr.ino, "nested.txt").unwrap());
    let content = ready(fs.read(file_attr.ino, 0, 14).unwrap());
    assert_eq!(content, b"nested content");
}

#[test]
fn jj_filesystem_read_goes_to_the_end() {
    let mut fs = setup_test_state();
    let attr = ready(fs.lookup(1, "file.txt").unwrap());
    assert_eq!(ready(fs.read(attr.ino, 6, 2).unwrap()), b"world");
    assert_eq!(ready(fs.read(attr.ino, 12, 2).unwrap()), b"");
}

#[test]
fn jj_filesystem_test_list_directory() {
    let mut fs = setup_test_state();
    let dir_attr = ready(fs.lookup(1, "dir").unwrap());

    let entries = read_entries(&mut fs, dir_attr.ino, 0, 100).unwrap();

    assert_eq!(entries.len(), 3);

    assert_eq!(entries[0].1, ".");
    assert_eq!(entries[0].0, dir_attr.ino);
    assert!(matches!(entries[0].2, PlainType::Directory));

    assert_eq!(entries[1].1, "..");
    assert_eq!(entries[1].0, 1);
    assert!(matches!(entries[1].2, PlainType::Directory));

    assert_eq!(entries[2].1, "nested.txt");
    assert!(matches!(entries[2].2, PlainType::File));
}

#[test]
fn jj_filesystem_test_list_directory_with_offset() {
    let mut fs = setup_test_state();
    let dir_attr = ready(fs.lookup(1, "dir").unwrap());

    let entries = read_entries(&mut fs, dir_attr.ino, 2, 100).unwrap();

    assert_eq!(entries.len(), 1);
    assert_eq!(entries[0].1, "nested.txt");
    assert!(matches!(entries[0].2, PlainType::File));
}

#[test]
fn jj_filesystem_readdir_stops_and_fails() {
    let mut fs = setup_test_state();
    let dir_attr = ready(fs.lookup(1, "dir").unwrap());
    assert_eq!(
        read_entries(&mut fs, dir_attr.ino, 0, 2).unwrap().len(),
        2
    );
    let file_attr = ready(fs.lookup(1, "file.txt").unwrap());
    // The entries of the directory itself and of its parent come before the children.
    assert_eq!(read_entries(&mut fs, file_attr.ino, 0, 2).unwrap().len(), 2);
    assert_eq!(
        read_entries(&mut fs, file_attr.ino, 0, 3),
        Err(JjError::NotADirectory)
    );
    assert_eq!(read_entries(&mut fs, 999, 0, 1).unwrap().len(), 1);
    assert_eq!(read_entries(&mut fs, 999, 1, 1), Err(JjError::NotFound));
    assert_eq!(read_entries(&mut fs, 999, 2, 1), Err(JjError::NotFound));
}

#[test]
fn jj_filesystem_readdir_at_the_last_position() {
    let mut fs = setup_test_state();
    let dir_attr = ready(fs.lookup(1, "dir").unwrap());
    let file_attr = ready(fs.lookup(1, "file.txt").unwrap());
    assert_eq!(read_entries(&mut fs, dir_attr.ino, u64::MAX, 1), Ok(vec![]));
    assert_eq!(
        read_entries(&mut fs, file_attr.ino, u64::MAX, 1),
        Err(JjError::NotADirectory)
    );
    assert_eq!(
        read_entries(&mut fs, 999, u64::MAX, 1),
        Err(JjError::NotFound)
    );
}

#[test]
fn jj_filesystem_attributes() {
    let mut fs = setup_test_state();
    let attr = ready(fs.lookup(1, "file.txt").unwrap());
    assert_eq!((attr.size, attr.blocks, attr.perm, attr.nlink), (11, 1, 0o644, 1));
    assert_eq!(attr.kind, fuse::FileType::RegularFile);
    assert_eq!((attr.atime, attr.mtime, attr.ctime, attr.crtime), (0, 0, 0, 0));
    let root = ready(fs.getattr(1).unwrap());
    assert_eq!((root.ino, root.size, root.perm, root.nlink), (1, 0, 0o755, 2));
    assert_eq!(root.kind, fuse::FileType::Directory);
    assert_eq!(fs.getattr(999), Err(JjError::NotFound));
    assert_eq!(fs.lookup(999, "x"), Err(JjError::NotFound));
    assert_eq!(fs.lookup(1, "none"), Err(JjError::NotFound));
}

#[test]
fn create_file_names_and_types() {
    let file = CreateFile::File {
        name: "f".to_string(),
        executable: true,
    };
    let directory = CreateFile::Directory {
        name: "d".to_string(),
    };
    let link = CreateFile::Symlink {
        name: "l".to_string(),
        target: "t".to_string(),
    };
    assert_eq!(file.name(), "f");
    assert_eq!(directory.name(), "d");
    assert_eq!(link.name(), "l");
    assert_eq!(file.clone(), file);
    assert_eq!(FileType::from(file), FileType::File);
    assert_eq!(FileType::from(directory), FileType::Directory);
    assert_eq!(FileType::from(link), FileType::Symlink);
}
