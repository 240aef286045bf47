//! The inodes that the filesystem has handed out.

use vstd::prelude::*;

use crate::file::FileType;
use crate::inode_tree;
use crate::inode_tree::ChildError;
use crate::inode_tree::InodeTree;
use crate::inode_tree::Node;
use crate::jj_error::JjError;
use crate::paths;
use crate::text;

pub use crate::inode_tree::Inode;
pub use crate::inode_tree::ROOT_INODE;

verus! {

/// The inodes by number, each with its parent and its name. Any of them may have children.
pub struct InodeMap {
    tree: InodeTree,
}

impl View for InodeMap {
    type V = Map<Inode, Node>;

    closed spec fn view(&self) -> Map<Inode, Node> {
        self.tree@
    }
}

/// Every inode may have children.
pub open spec fn all_directories(nodes: Map<Inode, Node>) -> bool {
    forall|i: Inode| #[trigger]
        nodes.contains_key(i) ==> nodes[i].file_type == FileType::Directory
}

/// The path of an inode, relative to the root.
pub open spec fn path_of(nodes: Map<Inode, Node>, ino: Inode) -> Seq<char> {
    inode_tree::path_below(Seq::empty(), nodes, ino)
}

/// The result of looking `name` up in `parent`: the inode that was there, or the next new one.
pub open spec fn is_get_ino(
    before: Map<Inode, Node>,
    after: Map<Inode, Node>,
    parent: Inode,
    name: Seq<char>,
    ino: Inode,
) -> bool {
    before.contains_key(parent) && inode_tree::is_lookup(
        before,
        after,
        parent,
        name,
        FileType::Directory,
        ino,
    )
}

impl InodeMap {
    /// The lookups by name agree with the inodes.
    pub closed spec fn is_linked(&self) -> bool {
        self.tree.wf()
    }

    /// The inodes form a tree in which each one may have children.
    pub open spec fn wf(&self) -> bool {
        inode_tree::is_tree(self@) && all_directories(self@) && self.is_linked()
    }

    /// A map that holds the root alone.
    pub fn new() -> (r: Self)
        ensures
            r.wf(),
            r@ == inode_tree::root_only(),
    {
        InodeMap { tree: InodeTree::new() }
    }

    /// The path of an inode, relative to the root.
    pub fn get_path(&self, ino: Inode) -> (r: Result<String, JjError>)
        requires
            self.wf(),
        ensures
            match r {
                Ok(path) => self@.contains_key(ino) && path@ == path_of(self@, ino),
                Err(error) => error == JjError::NotFound && !self@.contains_key(ino),
            },
    {
        proof {
            reveal_strlit("");
            assert(""@ =~= Seq::empty());
        }
        match self.tree.get_path("", ino) {
            Some(path) => Ok(path),
            None => Err(JjError::NotFound),
        }
    }

    /// The parent of an inode. The root is its own parent.
    pub fn get_parent_ino(&self, ino: Inode) -> (r: Result<Inode, JjError>)
        requires
            self.wf(),
        ensures
            r == (if self@.contains_key(ino) {
                Ok::<Inode, JjError>(self@[ino].parent)
            } else {
                Err(JjError::NotFound)
            }),
    {
        match self.tree.get_parent(ino) {
            Some(parent) => Ok(parent),
            None => Err(JjError::NotFound),
        }
    }

    /// The inode of `name` in `parent`, which gets a new number if it has none yet.
    pub fn get_ino(&mut self, parent: Inode, name: &str) -> (r: Result<Inode, JjError>)
        requires
            old(self).wf(),
        ensures
            final(self).wf(),
            match r {
                Ok(ino) => is_get_ino(old(self)@, final(self)@, parent, name@, ino),
                Err(error) => error == JjError::NotFound && !old(self)@.contains_key(parent)
                    && final(self)@ == old(self)@,
            },
    {
        match self.tree.get_or_create_child(parent, name, FileType::Directory) {
            Ok(ino) => Ok(ino),
            Err(_) => Err(JjError::NotFound),
        }
    }
}

impl Default for InodeMap {
    fn default() -> (r: Self)
        ensures
            r.wf(),
            r@ == inode_tree::root_only(),
    {
        InodeMap::new()
    }
}

/// The root has the empty path, and the path of any other inode is its name joined to the path of its
/// parent.
pub proof fn lemma_path_of_child(
    map: InodeMap,
    ino: Inode,
    parent: Inode,
    r: Result<String, JjError>,
    r_parent: Result<String, JjError>,
)
    requires
        map.wf(),
        map@.contains_key(ino),
        call_ensures(InodeMap::get_parent_ino, (&map, ino), Ok(parent)),
        call_ensures(InodeMap::get_path, (&map, ino), r),
        call_ensures(InodeMap::get_path, (&map, parent), r_parent),
    ensures
        ino == 1 ==> parent == 1 && (r matches Ok(path) && path@ == Seq::<char>::empty()),
        ino != 1 ==> (r matches Ok(path) && r_parent matches Ok(above) && path@ == paths::joined(
            above@,
            map@[ino].name,
        )),
{
    inode_tree::lemma_way_to_inode(map@, ino);
    if ino != 1 {
        let names = inode_tree::path_names(map@, ino);
        assert(map@.contains_key(parent));
        assert(names.drop_last() =~= inode_tree::path_names(map@, parent));
    }
}

/// Where every name on the way to an inode is a plain one, its path is those names with single slashes
/// between them.
pub proof fn lemma_path_is_the_way(map: InodeMap, ino: Inode, r: Result<String, JjError>)
    requires
        map.wf(),
        map@.contains_key(ino),
        forall|i: int|
            0 <= i < inode_tree::path_names(map@, ino).len() ==> paths::is_plain_name(
                #[trigger] inode_tree::path_names(map@, ino)[i],
            ),
        call_ensures(InodeMap::get_path, (&map, ino), r),
    ensures
        r matches Ok(path) && path@ == text::separated(inode_tree::path_names(map@, ino), '/')
            && paths::segments(path@) == inode_tree::path_names(map@, ino),
{
    paths::lemma_joined_text(inode_tree::path_names(map@, ino));
    inode_tree::lemma_path_segments(map@, ino);
}

/// An inode that is not known has no path and no parent.
pub proof fn lemma_unknown_inode(
    map: InodeMap,
    ino: Inode,
    r: Result<String, JjError>,
    parent: Result<Inode, JjError>,
)
    requires
        !map@.contains_key(ino),
        call_ensures(InodeMap::get_path, (&map, ino), r),
        call_ensures(InodeMap::get_parent_ino, (&map, ino), parent),
    ensures
        r == Err::<String, _>(JjError::NotFound),
        parent == Err::<Inode, _>(JjError::NotFound),
{
}

/// Looking a name up fails exactly where the parent is not known, and then changes nothing. Otherwise
/// it gives the inode of that name in the parent, keeps all others, and gives new inodes the next
/// numbers.
pub proof fn lemma_get_ino()
    ensures
        forall|map: &mut InodeMap, parent: Inode, name: &str, r: Result<Inode, JjError>| #[trigger]
            call_ensures(InodeMap::get_ino, (map, parent, name), r) && map.wf() ==> {
                &&& r is Ok <==> map@.contains_key(parent)
                &&& r matches Err(error) ==> error == JjError::NotFound && final(map)@ == map@
                &&& r matches Ok(ino) ==> {
                    &&& final(map)@.contains_key(ino)
                    &&& final(map)@[ino].parent == parent
                    &&& final(map)@[ino].name == name@
                    &&& map@.contains_key(ino) ==> final(map)@ == map@
                    &&& !map@.contains_key(ino) ==> ino == map@.len() + 1 && final(map)@.remove(ino)
                        == map@
                }
            },
{
    assert forall|map: &mut InodeMap, parent: Inode, name: &str, r: Result<Inode, JjError>| #[trigger]
        call_ensures(InodeMap::get_ino, (map, parent, name), r) && map.wf() implies {
        &&& r is Ok <==> map@.contains_key(parent)
        &&& r matches Err(error) ==> error == JjError::NotFound && final(map)@ == map@
        &&& r matches Ok(ino) ==> {
            &&& final(map)@.contains_key(ino)
            &&& final(map)@[ino].parent == parent
            &&& final(map)@[ino].name == name@
            &&& map@.contains_key(ino) ==> final(map)@ == map@
            &&& !map@.contains_key(ino) ==> ino == map@.len() + 1 && final(map)@.remove(ino) == map@
        }
    } by {
        if r is Ok {
            let ino = r->Ok_0;
            if !inode_tree::has_child(map@, parent, name@) {
                assert(!map@.contains_key(ino));
                assert(final(map)@.remove(ino) =~= map@);
            }
        }
    }
}

} // verus!
