//! An inode table that tells files from directories.

use vstd::prelude::*;
use vstd::string::*;

use crate::file::FileType;
use crate::inode_tree;
use crate::inode_tree::ChildError;
use crate::inode_tree::InodeTree;
use crate::inode_tree::Node;
use crate::paths;
use crate::text;

verus! {

/// Why a child could not be given.
#[derive(Debug, PartialEq, Eq)]
pub enum InodesError {
    /// No inode has the number that was given for the parent.
    ParentNotFound { parent: u64 },
    /// The parent is a file.
    ParentNotADirectory { parent: u64 },
    /// The parent has no child of that name.
    ChildNotFound { parent: u64, name: String },
}

impl InodesError {
    /// The text that describes the error.
    pub open spec fn text(&self) -> Seq<char> {
        match self {
            InodesError::ParentNotFound { parent } => "Parent INO "@ + text::decimal(*parent as nat)
                + " not found"@,
            InodesError::ParentNotADirectory { parent } => "Parent INO "@ + text::decimal(
                *parent as nat,
            ) + " is not a directory"@,
            InodesError::ChildNotFound { parent, name } => "Child "@ + name@
                + " not found under parent INO "@ + text::decimal(*parent as nat),
        }
    }

    /// Describes the error.
    pub fn message(&self) -> (r: String)
        ensures
            r@ == self.text(),
    {
        match self {
            InodesError::ParentNotFound { parent } => {
                let number = text::decimal_text(*parent);
                "Parent INO ".to_owned().concat(number.as_str()).concat(" not found")
            },
            InodesError::ParentNotADirectory { parent } => {
                let number = text::decimal_text(*parent);
                "Parent INO ".to_owned().concat(number.as_str()).concat(" is not a directory")
            },
            InodesError::ChildNotFound { parent, name } => {
                let number = text::decimal_text(*parent);
                "Child ".to_owned().concat(name.as_str()).concat(" not found under parent INO ").concat(
                    number.as_str(),
                )
            },
        }
    }
}

/// The inodes by number, each with its parent, its name and its type.
pub struct Inodes {
    tree: InodeTree,
}

impl View for Inodes {
    type V = Map<u64, Node>;

    closed spec fn view(&self) -> Map<u64, Node> {
        self.tree@
    }
}

impl Inodes {
    /// The lookups by name agree with the inodes.
    pub closed spec fn is_linked(&self) -> bool {
        self.tree.wf()
    }

    /// The inodes form a tree.
    pub open spec fn wf(&self) -> bool {
        inode_tree::is_tree(self@) && self.is_linked()
    }

    /// A table that holds the root directory alone.
    pub fn new() -> (r: Self)
        ensures
            r.wf(),
            r@ == inode_tree::root_only(),
    {
        Inodes { tree: InodeTree::new() }
    }

    /// The absolute path of an inode.
    pub fn get_path(&self, ino: u64) -> (r: String)
        requires
            self.wf(),
            self@.contains_key(ino),
        ensures
            r@ == inode_tree::path_below(paths::root_text(), self@, ino),
    {
        proof {
            reveal_strlit("/");
            assert("/"@ =~= paths::root_text());
        }
        match self.tree.get_path("/", ino) {
            Some(path) => path,
            None => String::new(),
        }
    }

    /// The inode of `name` in the directory `parent`.
    pub fn get_child(&self, parent: u64, name: &str) -> (r: Result<u64, InodesError>)
        requires
            self.wf(),
        ensures
            match r {
                Ok(child) => inode_tree::is_directory(self@, parent) && inode_tree::is_child(
                    self@,
                    parent,
                    name@,
                    child,
                ),
                Err(InodesError::ParentNotFound { parent: p }) => p == parent
                    && !self@.contains_key(parent),
                Err(InodesError::ParentNotADirectory { parent: p }) => p == parent
                    && self@.contains_key(parent) && !inode_tree::is_directory(self@, parent),
                Err(InodesError::ChildNotFound { parent: p, name: n }) => p == parent && n@ == name@
                    && inode_tree::is_directory(self@, parent) && !inode_tree::has_child(
                    self@,
                    parent,
                    name@,
                ),
            },
    {
        match self.tree.get_child(parent, name) {
            Ok(Some(child)) => Ok(child),
            Ok(None) => Err(InodesError::ChildNotFound { parent, name: name.to_owned() }),
            Err(ChildError::ParentNotFound) => Err(InodesError::ParentNotFound { parent }),
            Err(ChildError::ParentNotADirectory) => Err(InodesError::ParentNotADirectory { parent }),
        }
    }

    /// The inode of `name` in the directory `parent`, which is made, with the given type, if it is
    /// not there yet. An inode that is there already keeps its type.
    pub fn get_or_create_child(&mut self, parent: u64, name: &str, file_type: FileType) -> (r: Result<
        u64,
        InodesError,
    >)
        requires
            old(self).wf(),
        ensures
            final(self).wf(),
            match r {
                Ok(ino) => inode_tree::is_directory(old(self)@, parent) && inode_tree::is_lookup(
                    old(self)@,
                    final(self)@,
                    parent,
                    name@,
                    file_type,
                    ino,
                ),
                Err(InodesError::ParentNotFound { parent: p }) => p == parent && !old(self)@.contains_key(parent) && final(self)@ == old(self)@,
                Err(InodesError::ParentNotADirectory { parent: p }) => p == parent && old(self)@.contains_key(parent) && !inode_tree::is_directory(old(self)@, parent) && final(self)@ == old(self)@,
                Err(InodesError::ChildNotFound { .. }) => false,
            },
    {
        match self.tree.get_or_create_child(parent, name, file_type) {
            Ok(ino) => Ok(ino),
            Err(ChildError::ParentNotFound) => Err(InodesError::ParentNotFound { parent }),
            Err(ChildError::ParentNotADirectory) => Err(InodesError::ParentNotADirectory { parent }),
        }
    }

    /// The parent of an inode, if the table has it. The root is its own parent.
    pub fn get_parent(&self, ino: u64) -> (r: Option<u64>)
        ensures
            r == (if self@.contains_key(ino) {
                Some(self@[ino].parent)
            } else {
                None
            }),
    {
        self.tree.get_parent(ino)
    }

    /// The type of an inode, if the table has it.
    pub fn get_file_type(&self, ino: u64) -> (r: Option<FileType>)
        ensures
            r == (if self@.contains_key(ino) {
                Some(self@[ino].file_type)
            } else {
                None
            }),
    {
        self.tree.get_file_type(ino)
    }
}

/// The root has the path `/`, and the path of any other inode is its name joined to the path of its
/// parent.
pub proof fn lemma_path_of_child(
    inodes: Inodes,
    ino: u64,
    parent: u64,
    r: String,
    r_parent: String,
)
    requires
        inodes.wf(),
        inodes@.contains_key(ino),
        call_ensures(Inodes::get_parent, (&inodes, ino), Some(parent)),
        call_ensures(Inodes::get_path, (&inodes, ino), r),
        call_ensures(Inodes::get_path, (&inodes, parent), r_parent),
    ensures
        ino == 1 ==> parent == 1 && r@ == seq!['/'],
        ino != 1 ==> r@ == paths::joined(r_parent@, inodes@[ino].name),
{
    inode_tree::lemma_way_to_inode(inodes@, ino);
    if ino != 1 {
        let names = inode_tree::path_names(inodes@, ino);
        assert(inodes@.contains_key(parent));
        assert(names.drop_last() =~= inode_tree::path_names(inodes@, parent));
    }
}

/// A child that is known is found under its parent and its name, and nothing else is.
pub proof fn lemma_child_of_name(
    inodes: Inodes,
    parent: u64,
    name: &str,
    child: u64,
    r: Result<u64, InodesError>,
)
    requires
        inodes.wf(),
        call_ensures(Inodes::get_child, (&inodes, parent, name), r),
    ensures
        r == Ok::<_, InodesError>(child) <==> child != 1 && inodes@.contains_key(child)
            && inodes@[child].parent == parent && inodes@[child].name == name@,
{
    if inode_tree::is_child(inodes@, parent, name@, child) {
        assert(inode_tree::has_child(inodes@, parent, name@));
        assert(inode_tree::is_directory(inodes@, inodes@[child].parent));
        if r is Ok {
            let found = r->Ok_0;
            assert(inodes@[found].parent == inodes@[child].parent);
        }
    }
}

/// What is not a directory of the table has no children: the error names it. A directory without a
/// child of the name gives an error with both.
pub proof fn lemma_no_child(
    inodes: Inodes,
    parent: u64,
    name: &str,
    r: Result<u64, InodesError>,
)
    requires
        inodes.wf(),
        call_ensures(Inodes::get_child, (&inodes, parent, name), r),
    ensures
        !inodes@.contains_key(parent) ==> r == Err::<u64, _>(InodesError::ParentNotFound { parent }),
        inodes@.contains_key(parent) && inodes@[parent].file_type == FileType::File ==> r == Err::<
            u64,
            _,
        >(InodesError::ParentNotADirectory { parent }),
        inodes@.contains_key(parent) && inodes@[parent].file_type == FileType::Directory && r is Err
            ==> (r matches Err(InodesError::ChildNotFound { parent: p, name: n }) && p == parent && n@
            == name@),
{
}

/// Making a child fails exactly where the parent is missing or a file, and then changes nothing.
/// Otherwise it gives the child of that name; one that is there already keeps its type, and a new one
/// has the given type and the next number.
pub proof fn lemma_get_or_create()
    ensures
        forall|
            inodes: &mut Inodes,
            parent: u64,
            name: &str,
            file_type: FileType,
            r: Result<u64, InodesError>,
        | #[trigger]
            call_ensures(Inodes::get_or_create_child, (inodes, parent, name, file_type), r)
                && inodes.wf() ==> {
                &&& r is Ok <==> inodes@.contains_key(parent) && inodes@[parent].file_type
                    == FileType::Directory
                &&& r is Err ==> final(inodes)@ == inodes@ && r == (if inodes@.contains_key(parent) {
                    Err::<u64, _>(InodesError::ParentNotADirectory { parent })
                } else {
                    Err::<u64, _>(InodesError::ParentNotFound { parent })
                })
                &&& r matches Ok(ino) ==> {
                    &&& final(inodes)@.contains_key(ino)
                    &&& final(inodes)@[ino].parent == parent
                    &&& final(inodes)@[ino].name == name@
                    &&& inodes@.contains_key(ino) ==> final(inodes)@ == inodes@
                    &&& !inodes@.contains_key(ino) ==> ino == inodes@.len() + 1
                        && final(inodes)@[ino].file_type == file_type && final(inodes)@.remove(ino)
                        == inodes@
                }
            },
{
    assert forall|
        inodes: &mut Inodes,
        parent: u64,
        name: &str,
        file_type: FileType,
        r: Result<u64, InodesError>,
    | #[trigger]
        call_ensures(Inodes::get_or_create_child, (inodes, parent, name, file_type), r)
            && inodes.wf() implies {
        &&& r is Ok <==> inodes@.contains_key(parent) && inodes@[parent].file_type
            == FileType::Directory
        &&& r is Err ==> final(inodes)@ == inodes@ && r == (if inodes@.contains_key(parent) {
            Err::<u64, _>(InodesError::ParentNotADirectory { parent })
        } else {
            Err::<u64, _>(InodesError::ParentNotFound { parent })
        })
        &&& r matches Ok(ino) ==> {
            &&& final(inodes)@.contains_key(ino)
            &&& final(inodes)@[ino].parent == parent
            &&& final(inodes)@[ino].name == name@
            &&& inodes@.contains_key(ino) ==> final(inodes)@ == inodes@
            &&& !inodes@.contains_key(ino) ==> ino == inodes@.len() + 1
                && final(inodes)@[ino].file_type == file_type && final(inodes)@.remove(ino)
                == inodes@
        }
    } by {
        if r is Ok {
            let ino = r->Ok_0;
            if !inode_tree::has_child(inodes@, parent, name@) {
                assert(!inodes@.contains_key(ino));
                assert(final(inodes)@.remove(ino) =~= inodes@);
            }
        }
    }
}

/// A table starts with the root alone.
pub proof fn lemma_new_inodes(inodes: Inodes, ino: u64)
    requires
        call_ensures(Inodes::new, (), inodes),
    ensures
        inodes.wf(),
        inodes@.contains_key(ino) <==> ino == 1,
        inodes@[1].file_type == FileType::Directory,
{
}

/// The description of an error holds the number of the parent in decimal, and the name of a child that
/// is missing.
pub proof fn lemma_message_of_error(error: InodesError, r: String)
    requires
        call_ensures(InodesError::message, (&error,), r),
    ensures
        error matches InodesError::ParentNotFound { parent } ==> exists|digits: Seq<char>| #[trigger]
            text::decimal_value(digits) == parent && r@ == "Parent INO "@ + digits + " not found"@,
        error matches InodesError::ParentNotADirectory { parent } ==> exists|digits: Seq<char>|
         #[trigger]
            text::decimal_value(digits) == parent && r@ == "Parent INO "@ + digits
                + " is not a directory"@,
        error matches InodesError::ChildNotFound { parent, name } ==> exists|digits: Seq<char>|
         #[trigger]
            text::decimal_value(digits) == parent && r@ == "Child "@ + name@
                + " not found under parent INO "@ + digits,
{
    let parent = match error {
        InodesError::ParentNotFound { parent } => parent,
        InodesError::ParentNotADirectory { parent } => parent,
        InodesError::ChildNotFound { parent, .. } => parent,
    };
    text::lemma_decimal(parent as nat);
}

/// The parent and the type of an inode are those that it was made with, and an inode that is not known
/// has neither.
pub proof fn lemma_recorded(
    inodes: Inodes,
    ino: u64,
    parent: Option<u64>,
    file_type: Option<FileType>,
)
    requires
        call_ensures(Inodes::get_parent, (&inodes, ino), parent),
        call_ensures(Inodes::get_file_type, (&inodes, ino), file_type),
    ensures
        inodes@.contains_key(ino) ==> parent == Some(inodes@[ino].parent) && file_type == Some(
            inodes@[ino].file_type,
        ),
        !inodes@.contains_key(ino) ==> parent is None && file_type is None,
{
}

} // verus!
