//! A table of inodes that forms a tree of named files.

use std::collections::HashMap;

use vstd::hash_map::StringHashMap;
use vstd::prelude::*;

use crate::file::FileType;
use crate::interned;
use crate::paths;

verus! {

/// The number of an inode.
pub type Inode = u64;

/// The inode of the root directory.
pub const ROOT_INODE: Inode = 1;

/// What the table records of one inode.
#[verifier::ext_equal]
pub struct Node {
    pub parent: Inode,
    pub name: Seq<char>,
    pub file_type: FileType,
}

/// The nodes of a table that holds nothing but the root.
pub open spec fn root_only() -> Map<Inode, Node> {
    map![ROOT_INODE => (Node {
        parent: ROOT_INODE,
        name: Seq::empty(),
        file_type: FileType::Directory,
    })]
}

/// Whether `child` is the inode of `name` in the directory `parent`.
pub open spec fn is_child(nodes: Map<Inode, Node>, parent: Inode, name: Seq<char>, child: Inode) -> bool {
    &&& child != ROOT_INODE
    &&& nodes.contains_key(child)
    &&& nodes[child].parent == parent
    &&& nodes[child].name == name
}

/// Whether the directory `parent` has an inode for `name`.
pub open spec fn has_child(nodes: Map<Inode, Node>, parent: Inode, name: Seq<char>) -> bool {
    exists|child: Inode| is_child(nodes, parent, name, child)
}

/// Whether `ino` is an inode of the table and a directory.
pub open spec fn is_directory(nodes: Map<Inode, Node>, ino: Inode) -> bool {
    nodes.contains_key(ino) && nodes[ino].file_type == FileType::Directory
}

/// The inodes are numbered from the root upwards without gaps, every parent is a directory with a
/// smaller number, and no two inodes share both parent and name.
pub open spec fn is_tree(nodes: Map<Inode, Node>) -> bool {
    &&& nodes.dom().finite()
    &&& nodes.len() >= 1
    &&& forall|i: Inode| #[trigger] nodes.contains_key(i) <==> ROOT_INODE <= i <= nodes.len()
    &&& nodes[ROOT_INODE] == root_only()[ROOT_INODE]
    &&& forall|i: Inode| #[trigger]
        nodes.contains_key(i) && i != ROOT_INODE ==> nodes[i].parent < i && is_directory(
            nodes,
            nodes[i].parent,
        )
    &&& forall|i: Inode, j: Inode|
        #![trigger nodes[i], nodes[j]]
        nodes.contains_key(i) && nodes.contains_key(j) && i != ROOT_INODE && j != ROOT_INODE
            && nodes[i].parent == nodes[j].parent && nodes[i].name == nodes[j].name ==> i == j
}

/// The names from the root down to `ino`.
pub open spec fn path_names(nodes: Map<Inode, Node>, ino: Inode) -> Seq<Seq<char>>
    decreases ino,
{
    if ino == ROOT_INODE || !nodes.contains_key(ino) || nodes[ino].parent >= ino {
        Seq::empty()
    } else {
        path_names(nodes, nodes[ino].parent).push(nodes[ino].name)
    }
}

/// The path of `ino` below `base`.
pub open spec fn path_below(base: Seq<char>, nodes: Map<Inode, Node>, ino: Inode) -> Seq<char> {
    paths::joined_all(base, path_names(nodes, ino))
}

/// `ino` is the child of that name: the one that was there, with nothing changed, or a new one with
/// the next number, with nothing else changed.
pub open spec fn is_lookup(
    before: Map<Inode, Node>,
    after: Map<Inode, Node>,
    parent: Inode,
    name: Seq<char>,
    file_type: FileType,
    ino: Inode,
) -> bool {
    if has_child(before, parent, name) {
        after == before && is_child(before, parent, name, ino)
    } else {
        ino == before.len() + 1 && after == before.insert(ino, Node { parent, name, file_type })
    }
}

/// A new child of a directory, under the next number and with a name of its own there, keeps the
/// table a tree.
proof fn lemma_insert_keeps_tree(nodes: Map<Inode, Node>, ino: Inode, node: Node)
    requires
        is_tree(nodes),
        ino == nodes.len() + 1,
        is_directory(nodes, node.parent),
        !has_child(nodes, node.parent, node.name),
    ensures
        is_tree(nodes.insert(ino, node)),
        nodes.insert(ino, node).len() == nodes.len() + 1,
{
    let after = nodes.insert(ino, node);
    assert(!nodes.contains_key(ino));
    assert(after.dom() =~= nodes.dom().insert(ino));
    assert(nodes.contains_key(ROOT_INODE));
    assert forall|i: Inode| #[trigger] after.contains_key(i) <==> ROOT_INODE <= i <= after.len() by {
        assert(nodes.contains_key(i) <==> ROOT_INODE <= i <= nodes.len());
    }
    assert forall|i: Inode| #[trigger] after.contains_key(i) && i != ROOT_INODE implies after[i].parent
        < i && is_directory(after, after[i].parent) by {
        if i != ino {
            assert(nodes.contains_key(i));
        }
    }
    assert forall|i: Inode, j: Inode|
        #![trigger after[i], after[j]]
        after.contains_key(i) && after.contains_key(j) && i != ROOT_INODE && j != ROOT_INODE
            && after[i].parent == after[j].parent && after[i].name == after[j].name implies i
        == j by {
        if i != j {
            assert(!is_child(nodes, node.parent, node.name, i));
            assert(!is_child(nodes, node.parent, node.name, j));
            if i != ino && j != ino {
                assert(nodes[i] == after[i] && nodes[j] == after[j]);
            }
        }
    }
}

/// Looking a name up keeps every inode that was there, with its parent, name, type and path.
pub proof fn lemma_lookup_keeps_inodes(
    before: Map<Inode, Node>,
    after: Map<Inode, Node>,
    parent: Inode,
    name: Seq<char>,
    file_type: FileType,
    ino: Inode,
    other: Inode,
)
    requires
        is_tree(before),
        is_lookup(before, after, parent, name, file_type, ino),
        before.contains_key(other),
    ensures
        after.contains_key(other),
        after[other] == before[other],
        path_names(after, other) == path_names(before, other),
    decreases other,
{
    assert(after[other] == before[other]);
    if other != ROOT_INODE {
        lemma_lookup_keeps_inodes(
            before,
            after,
            parent,
            name,
            file_type,
            ino,
            before[other].parent,
        );
    }
}

/// After a name was looked up in a directory, its inode has that parent and that name, and its path
/// is the path of the directory with the name pushed onto it.
pub proof fn lemma_lookup_path(
    base: Seq<char>,
    before: Map<Inode, Node>,
    after: Map<Inode, Node>,
    parent: Inode,
    name: Seq<char>,
    file_type: FileType,
    ino: Inode,
)
    requires
        is_tree(before),
        is_directory(before, parent),
        is_lookup(before, after, parent, name, file_type, ino),
    ensures
        is_child(after, parent, name, ino),
        path_below(base, after, ino) == paths::joined(path_below(base, before, parent), name),
{
    lemma_lookup_keeps_inodes(before, after, parent, name, file_type, ino, parent);
    assert(before.contains_key(parent));
    if has_child(before, parent, name) {
        assert(before.contains_key(ino));
    }
    let names = path_names(after, ino);
    assert(names == path_names(after, parent).push(name));
    assert(names.drop_last() =~= path_names(after, parent));
}

/// The inode of a child is found whenever its name is looked up, and nothing changes.
pub proof fn lemma_child_found(
    before: Map<Inode, Node>,
    after: Map<Inode, Node>,
    parent: Inode,
    name: Seq<char>,
    file_type: FileType,
    child: Inode,
    found: Inode,
)
    requires
        is_tree(before),
        is_child(before, parent, name, child),
        is_lookup(before, after, parent, name, file_type, found),
    ensures
        found == child,
        after == before,
{
    assert(has_child(before, parent, name));
    assert(before[child].parent == before[found].parent);
}

/// A name that is looked up twice in one directory has one inode, and the second lookup changes
/// nothing.
pub proof fn lemma_lookup_again(
    before: Map<Inode, Node>,
    between: Map<Inode, Node>,
    after: Map<Inode, Node>,
    parent: Inode,
    name: Seq<char>,
    first_type: FileType,
    second_type: FileType,
    first: Inode,
    second: Inode,
)
    requires
        is_tree(before),
        is_directory(before, parent),
        is_lookup(before, between, parent, name, first_type, first),
        is_lookup(between, after, parent, name, second_type, second),
    ensures
        second == first,
        after == between,
{
    lemma_lookup_path(Seq::empty(), before, between, parent, name, first_type, first);
    lemma_lookup_keeps_tree(before, between, parent, name, first_type, first);
    lemma_child_found(between, after, parent, name, second_type, first, second);
}

/// Two different names, or one name in two directories, never share an inode.
pub proof fn lemma_lookups_differ(
    before: Map<Inode, Node>,
    between: Map<Inode, Node>,
    after: Map<Inode, Node>,
    parent1: Inode,
    name1: Seq<char>,
    type1: FileType,
    ino1: Inode,
    parent2: Inode,
    name2: Seq<char>,
    type2: FileType,
    ino2: Inode,
)
    requires
        is_tree(before),
        is_directory(before, parent1),
        is_directory(between, parent2),
        is_lookup(before, between, parent1, name1, type1, ino1),
        is_lookup(between, after, parent2, name2, type2, ino2),
        parent1 != parent2 || name1 != name2,
    ensures
        ino1 != ino2,
{
    lemma_lookup_path(Seq::empty(), before, between, parent1, name1, type1, ino1);
    lemma_lookup_keeps_tree(before, between, parent1, name1, type1, ino1);
    lemma_lookup_path(Seq::empty(), between, after, parent2, name2, type2, ino2);
    lemma_lookup_keeps_inodes(between, after, parent2, name2, type2, ino2, ino1);
}

/// Looking a name up in a directory keeps the table a tree.
pub proof fn lemma_lookup_keeps_tree(
    before: Map<Inode, Node>,
    after: Map<Inode, Node>,
    parent: Inode,
    name: Seq<char>,
    file_type: FileType,
    ino: Inode,
)
    requires
        is_tree(before),
        is_directory(before, parent),
        is_lookup(before, after, parent, name, file_type, ino),
    ensures
        is_tree(after),
{
    if !has_child(before, parent, name) {
        lemma_insert_keeps_tree(before, ino, Node { parent, name, file_type });
    }
}

/// Where every name on the way to an inode is a plain one, the segments of its path are those names.
pub proof fn lemma_path_segments(nodes: Map<Inode, Node>, ino: Inode)
    requires
        forall|i: int|
            0 <= i < path_names(nodes, ino).len() ==> paths::is_plain_name(
                #[trigger] path_names(nodes, ino)[i],
            ),
    ensures
        paths::segments(path_below(Seq::empty(), nodes, ino)) == path_names(nodes, ino),
{
    paths::lemma_segments_empty();
    paths::lemma_segments_joined_all(Seq::empty(), path_names(nodes, ino));
    assert(Seq::<Seq<char>>::empty() + path_names(nodes, ino) =~= path_names(nodes, ino));
}

/// Why a child could not be looked up or created.
#[derive(Debug, Clone, Copy, PartialEq, Eq, Structural)]
pub enum ChildError {
    ParentNotFound,
    ParentNotADirectory,
}

struct Entry {
    parent: Inode,
    name: &'static str,
    file_type: FileType,
    children: StringHashMap<Inode>,
}

impl Entry {
    spec fn node(&self) -> Node {
        Node { parent: self.parent, name: self.name@, file_type: self.file_type }
    }
}

/// A table of inodes. Inodes are never removed, so a number always means the same file.
pub struct InodeTree {
    entries: HashMap<Inode, Entry>,
    last: Inode,
}

impl View for InodeTree {
    type V = Map<Inode, Node>;

    closed spec fn view(&self) -> Map<Inode, Node> {
        self.entries@.map_values(|e: Entry| e.node())
    }
}

impl InodeTree {
    /// The names that each directory looks its children up by are those of its children.
    pub closed spec fn is_linked(&self) -> bool {
        &&& self.last == self@.len()
        &&& forall|p: Inode, n: Seq<char>| #[trigger]
            self.entries@.contains_key(p) && #[trigger] self.entries@[p].children@.contains_key(n)
                ==> is_child(self@, p, n, self.entries@[p].children@[n])
        &&& forall|c: Inode| #[trigger]
            self.entries@.contains_key(c) && c != ROOT_INODE ==> {
                let siblings = self.entries@[self.entries@[c].parent].children@;
                siblings.contains_key(self.entries@[c].name@) && siblings[self.entries@[c].name@] == c
            }
    }

    /// The table is a tree, and lookups by name agree with it.
    pub open spec fn wf(&self) -> bool {
        is_tree(self@) && self.is_linked()
    }

    /// A table that holds the root directory alone.
    pub fn new() -> (r: Self)
        ensures
            r.wf(),
            r@ == root_only(),
    {
        let mut entries: HashMap<Inode, Entry> = HashMap::new();
        entries.insert(
            ROOT_INODE,
            Entry {
                parent: ROOT_INODE,
                name: interned::intern(""),
                file_type: FileType::Directory,
                children: StringHashMap::new(),
            },
        );
        let tree = InodeTree { entries, last: ROOT_INODE };
        proof {
            reveal_strlit("");
            assert(tree.entries@[ROOT_INODE].name@ =~= Seq::empty());
            assert(tree@ =~= root_only());
        }
        tree
    }

    /// The type of an inode, if the table has it.
    pub fn get_file_type(&self, ino: Inode) -> (r: Option<FileType>)
        ensures
            r == (if self@.contains_key(ino) {
                Some(self@[ino].file_type)
            } else {
                None
            }),
    {
        match self.entries.get(&ino) {
            Some(entry) => Some(entry.file_type),
            None => None,
        }
    }

    /// The parent of an inode, if the table has it.
    pub fn get_parent(&self, ino: Inode) -> (r: Option<Inode>)
        ensures
            r == (if self@.contains_key(ino) {
                Some(self@[ino].parent)
            } else {
                None
            }),
    {
        match self.entries.get(&ino) {
            Some(entry) => Some(entry.parent),
            None => None,
        }
    }

    /// The path of an inode below `base`, if the table has the inode.
    pub fn get_path(&self, base: &str, ino: Inode) -> (r: Option<String>)
        requires
            self.wf(),
        ensures
            match r {
                Some(path) => self@.contains_key(ino) && path@ == path_below(base@, self@, ino),
                None => !self@.contains_key(ino),
            },
    {
        let mut components: Vec<&'static str> = Vec::new();
        let mut current: Inode = ino;
        let ghost mut above: Seq<Seq<char>> = Seq::empty();
        assert(path_names(self@, current) + above =~= path_names(self@, ino));
        while current != ROOT_INODE
            invariant
                self.wf(),
                path_names(self@, ino) == path_names(self@, current) + above,
                above.len() == components@.len(),
                forall|i: int|
                    0 <= i < above.len() ==> #[trigger] above[i] == components@[above.len() - 1
                        - i]@,
                current == ino || self@.contains_key(current),
                current != ino ==> self@.contains_key(ino),
            decreases current,
        {
            match self.entries.get(&current) {
                Some(entry) => {
                    components.push(entry.name);
                    proof {
                        assert(self@.contains_key(current));
                        let name = self@[current].name;
                        let rest = above;
                        above = seq![name] + rest;
                        assert(path_names(self@, ino) =~= path_names(self@, entry.parent) + above);
                    }
                    current = entry.parent;
                },
                None => {
                    assert(!self@.contains_key(current));
                    return None;
                },
            }
        }
        proof {
            assert(self@.contains_key(ROOT_INODE));
            assert(path_names(self@, ROOT_INODE) =~= Seq::empty());
            assert(above =~= path_names(self@, ino));
        }
        let mut path: String = base.to_owned();
        let mut left: usize = components.len();
        assert(above.take(0) =~= Seq::empty());
        while left > 0
            invariant
                left <= components@.len(),
                above.len() == components@.len(),
                forall|i: int|
                    0 <= i < above.len() ==> #[trigger] above[i] == components@[above.len() - 1
                        - i]@,
                path@ == paths::joined_all(base@, above.take(components@.len() - left)),
            decreases left,
        {
            left = left - 1;
            let ghost done = components@.len() - left;
            proof {
                assert(above.take(done).drop_last() =~= above.take(done - 1));
                assert(above.take(done).last() == above[done - 1]);
            }
            path = paths::join(path.as_str(), components[left]);
        }
        assert(above.take(above.len() as int) =~= above);
        Some(path)
    }

    /// The inode of `name` in the directory `parent`.
    pub fn get_child(&self, parent: Inode, name: &str) -> (r: Result<Option<Inode>, ChildError>)
        requires
            self.wf(),
        ensures
            match r {
                Err(ChildError::ParentNotFound) => !self@.contains_key(parent),
                Err(ChildError::ParentNotADirectory) => self@.contains_key(parent)
                    && !is_directory(self@, parent),
                Ok(Some(child)) => is_directory(self@, parent) && is_child(
                    self@,
                    parent,
                    name@,
                    child,
                ),
                Ok(None) => is_directory(self@, parent) && !has_child(self@, parent, name@),
            },
    {
        match self.entries.get(&parent) {
            None => Err(ChildError::ParentNotFound),
            Some(entry) => {
                assert(self@[parent] == entry.node());
                match entry.file_type {
                    FileType::File => Err(ChildError::ParentNotADirectory),
                    FileType::Directory => {
                        match entry.children.get(name) {
                            Some(child) => Ok(Some(*child)),
                            None => {
                                proof {
                                    assert forall|c: Inode| !is_child(self@, parent, name@, c) by {
                                        if is_child(self@, parent, name@, c) {
                                            assert(self.entries@.contains_key(c));
                                        }
                                    }
                                }
                                Ok(None)
                            },
                        }
                    },
                }
            },
        }
    }

    /// The inode of `name` in the directory `parent`, which is made if it is not there yet.
    pub fn get_or_create_child(&mut self, parent: Inode, name: &str, file_type: FileType) -> (r:
        Result<Inode, ChildError>)
        requires
            old(self).wf(),
        ensures
            final(self).wf(),
            match r {
                Err(ChildError::ParentNotFound) => !old(self)@.contains_key(parent) && final(self)@
                    == old(self)@,
                Err(ChildError::ParentNotADirectory) => old(self)@.contains_key(parent)
                    && !is_directory(old(self)@, parent) && final(self)@ == old(self)@,
                Ok(ino) => is_directory(old(self)@, parent) && is_lookup(
                    old(self)@,
                    final(self)@,
                    parent,
                    name@,
                    file_type,
                    ino,
                ),
            },
    {
        match self.get_child(parent, name) {
            Err(error) => return Err(error),
            Ok(Some(child)) => return Ok(child),
            Ok(None) => {},
        }
        let ghost before = *self;
        let ino: Inode = self.last.wrapping_add(1);
        let entry = Entry {
            parent,
            name: interned::intern(name),
            file_type,
            children: StringHashMap::new(),
        };
        let mut directory = match self.entries.remove(&parent) {
            Some(directory) => directory,
            None => return Err(ChildError::ParentNotFound),
        };
        assert(directory == before.entries@[parent]);
        directory.children.insert(name.to_owned(), ino);
        self.entries.insert(parent, directory);
        self.entries.insert(ino, entry);
        let count: usize = self.entries.len();
        proof {
            assert(!before@.contains_key(ino));
            assert(self@ =~= before@.insert(ino, entry.node()));
            assert(self@.dom() =~= before@.dom().insert(ino));
            assert(self@.dom() =~= self.entries@.dom());
            assert(count == self@.len());
            assert(ino == before@.len() + 1);
        }
        self.last = ino;
        proof {
            lemma_insert_keeps_tree(before@, ino, entry.node());
            assert forall|p: Inode, n: Seq<char>| #[trigger]
                self.entries@.contains_key(p) && #[trigger] self.entries@[p].children@.contains_key(
                    n,
                ) implies is_child(self@, p, n, self.entries@[p].children@[n]) by {
                if p != ino && !(p == parent && n == name@) {
                    assert(before.entries@.contains_key(p));
                    assert(before.entries@[p].children@.contains_key(n));
                    assert(is_child(before@, p, n, before.entries@[p].children@[n]));
                }
            }
            assert forall|c: Inode| #[trigger]
                self.entries@.contains_key(c) && c != ROOT_INODE implies {
                let siblings = self.entries@[self.entries@[c].parent].children@;
                siblings.contains_key(self.entries@[c].name@) && siblings[self.entries@[c].name@]
                    == c
            } by {
                if c != ino {
                    assert(before.entries@.contains_key(c));
                    assert(before@.contains_key(c));
                    assert(!is_child(before@, parent, name@, c));
                }
            }
        }
        Ok(ino)
    }
}

/// The way to the root has no names, and the way to any other inode is that to its parent and then
/// its own name.
pub proof fn lemma_way_to_inode(nodes: Map<Inode, Node>, ino: Inode)
    requires
        is_tree(nodes),
        nodes.contains_key(ino),
    ensures
        ino == 1 ==> path_names(nodes, ino) == Seq::<Seq<char>>::empty(),
        ino != 1 ==> path_names(nodes, ino) == path_names(nodes, nodes[ino].parent).push(
            nodes[ino].name,
        ),
{
}

/// After a name was looked up in a directory, the way to its inode is the way to the directory and
/// then the name.
pub proof fn lemma_way_to_child(
    before: Map<Inode, Node>,
    after: Map<Inode, Node>,
    parent: Inode,
    name: Seq<char>,
    file_type: FileType,
    ino: Inode,
)
    requires
        is_tree(before),
        is_directory(before, parent),
        is_lookup(before, after, parent, name, file_type, ino),
    ensures
        path_names(after, ino) == path_names(before, parent).push(name),
{
    lemma_lookup_path(Seq::empty(), before, after, parent, name, file_type, ino);
    lemma_lookup_keeps_inodes(before, after, parent, name, file_type, ino, parent);
    lemma_lookup_keeps_tree(before, after, parent, name, file_type, ino);
    lemma_way_to_inode(after, ino);
}

/// A lookup adds at most the inode that it gives, and that inode has the parent and the name that were
/// asked for. A new one has the type that was asked for and a number that no other inode has.
pub proof fn lemma_lookup_adds_child(
    before: Map<Inode, Node>,
    after: Map<Inode, Node>,
    parent: Inode,
    name: Seq<char>,
    file_type: FileType,
    ino: Inode,
    other: Inode,
)
    requires
        is_tree(before),
        is_lookup(before, after, parent, name, file_type, ino),
    ensures
        after.contains_key(ino),
        ino != 1,
        after[ino].parent == parent,
        after[ino].name == name,
        after.contains_key(other) <==> before.contains_key(other) || other == ino,
        before.contains_key(other) ==> after[other] == before[other],
        !before.contains_key(ino) ==> after[ino].file_type == file_type && forall|i: Inode|
            before.contains_key(i) ==> i < ino,
{
    if !has_child(before, parent, name) {
        assert(!before.contains_key(ino));
    }
}

/// The first table holds the root alone, a directory that is its own parent.
pub proof fn lemma_new_table(table: InodeTree)
    requires
        call_ensures(InodeTree::new, (), table),
    ensures
        table.wf(),
        forall|i: Inode| table@.contains_key(i) <==> i == 1,
        table@[1].parent == 1,
        table@[1].file_type == FileType::Directory,
{
}

/// A lookup with the means to make a child fails exactly where the parent is missing or a file, and
/// then changes nothing; otherwise it gives the child.
pub proof fn lemma_lookup_outcome()
    ensures
        forall|
            table: &mut InodeTree,
            parent: Inode,
            name: &str,
            file_type: FileType,
            r: Result<Inode, ChildError>,
        | #[trigger]
            call_ensures(InodeTree::get_or_create_child, (table, parent, name, file_type), r) ==> {
                &&& final(table).wf()
                &&& r == Err::<Inode, _>(ChildError::ParentNotFound) <==> !table@.contains_key(parent)
                &&& r == Err::<Inode, _>(ChildError::ParentNotADirectory) <==> table@.contains_key(
                    parent,
                ) && table@[parent].file_type == FileType::File
                &&& r is Err ==> final(table)@ == table@
                &&& r matches Ok(ino) ==> is_lookup(
                    table@,
                    final(table)@,
                    parent,
                    name@,
                    file_type,
                    ino,
                )
            },
{
}

/// A lookup without the means to make a child gives the one child of that name, or nothing where
/// there is none.
pub proof fn lemma_child_of_name(
    table: InodeTree,
    parent: Inode,
    name: &str,
    child: Inode,
    r: Result<Option<Inode>, ChildError>,
)
    requires
        table.wf(),
        call_ensures(InodeTree::get_child, (&table, parent, name), r),
    ensures
        r == Ok::<_, ChildError>(Some(child)) <==> child != 1 && table@.contains_key(child)
            && table@[child].parent == parent && table@[child].name == name@,
{
    if is_child(table@, parent, name@, child) {
        assert(has_child(table@, parent, name@));
        assert(is_directory(table@, table@[child].parent));
        if r is Ok && r->Ok_0 is Some {
            let found = r->Ok_0->0;
            assert(table@[found].parent == table@[child].parent);
        }
    }
}

} // verus!
