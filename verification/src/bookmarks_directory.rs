//! The directory of local bookmarks.

use std::sync::Arc;

use vstd::prelude::*;
use vstd::utf8::*;

use crate::commit_id;
use crate::commit_id::CommitId;
use crate::jj_error::{JjError, JjResult};
use crate::merge;
use crate::paths;
use crate::repo_view;
use crate::repo_view::{Bookmark, RepoView};
use crate::text;
use crate::virtual_file;
use crate::virtual_file::{
    Answer, DirectoryEntry, EntryView, FileAttributes, FileType, VirtualFile,
};

verus! {

/// A directory that lists the local bookmarks as symlinks to `<prefix_path>/<commit_id>`.
pub struct BookmarksDirectory {
    repo: Arc<RepoView>,
    prefix_path: String,
}

/// The names of the bookmarks that point to one commit, in the order of the bookmarks.
pub open spec fn normal_names(bookmarks: Seq<Bookmark>) -> Seq<Seq<char>>
    decreases bookmarks.len(),
{
    if bookmarks.len() == 0 {
        Seq::empty()
    } else {
        let names = normal_names(bookmarks.drop_last());
        if bookmarks.last().target.normal_id() is Some {
            names.push(bookmarks.last().name@)
        } else {
            names
        }
    }
}

/// Whether names are in the order of their UTF-8 bytes.
pub open spec fn is_sorted(names: Seq<Seq<char>>) -> bool {
    forall|i: int, j: int|
        0 <= i <= j < names.len() ==> text::text_le(#[trigger] names[i], #[trigger] names[j])
}

/// Whether a list holds the given names and no others, each as often, in order.
pub open spec fn is_sorting(names: Seq<Seq<char>>, sorted: Seq<Seq<char>>) -> bool {
    is_sorted(sorted) && sorted.to_multiset() == names.to_multiset()
}

/// There is only one way to sort names.
pub proof fn lemma_sorting_unique(names: Seq<Seq<char>>, a: Seq<Seq<char>>, b: Seq<Seq<char>>)
    requires
        is_sorting(names, a),
        is_sorting(names, b),
    ensures
        a == b,
{
    let leq = |x: Seq<char>, y: Seq<char>| text::text_le(x, y);
    assert forall|x: Seq<char>| #[trigger] leq(x, x) by {
        text::lemma_text_le_total(x, x);
    }
    assert forall|x: Seq<char>, y: Seq<char>| #[trigger] leq(x, y) && #[trigger] leq(y, x) implies x
        == y by {
        text::lemma_text_le_antisymmetric(x, y);
    }
    assert forall|x: Seq<char>, y: Seq<char>, z: Seq<char>| #[trigger]
        leq(x, y) && #[trigger] leq(y, z) implies leq(x, z) by {
        text::lemma_text_le_transitive(x, y, z);
    }
    assert forall|x: Seq<char>, y: Seq<char>| #[trigger] leq(x, y) || leq(y, x) by {
        text::lemma_text_le_total(x, y);
    }
    vstd::seq_lib::lemma_sorted_unique(a, b, leq);
}

/// A bookmark is listed exactly where it has a symlink.
pub proof fn lemma_listed_iff_linked(repo: RepoView, listed: Seq<Seq<char>>, name: Seq<char>)
    requires
        repo.wf(),
        is_sorting(normal_names(repo.local_bookmarks@), listed),
    ensures
        listed.contains(name) <==> repo.bookmark_commit_id(name) is Some,
{
    let bookmarks = repo.local_bookmarks@;
    let names = repo_view::bookmark_names(bookmarks);
    text::lemma_ascends_distinct(names);
    lemma_normal_names(bookmarks, name);
    listed.to_multiset_ensures();
    normal_names(bookmarks).to_multiset_ensures();
    names.index_of_first_ensures(name);
    if listed.contains(name) {
        assert(listed.to_multiset().count(name) > 0);
        assert(normal_names(bookmarks).contains(name));
        let i = choose|i: int|
            0 <= i < bookmarks.len() && (#[trigger] bookmarks[i]).name@ == name
                && bookmarks[i].target.normal_id() is Some;
        assert(names[i] == name);
        assert(names.contains(name));
        assert(names[names.index_of_first(name)->0] == names[i]);
    }
    if repo.bookmark_commit_id(name) is Some {
        let i = names.index_of_first(name)->0;
        assert(bookmarks[i].name@ == name);
        assert(normal_names(bookmarks).contains(name));
        assert(normal_names(bookmarks).to_multiset().count(name) > 0);
        assert(listed.contains(name));
    }
}

/// The bookmarks are listed in the order of their names, each once.
pub proof fn lemma_listed_ascend(repo: RepoView, listed: Seq<Seq<char>>)
    requires
        repo.wf(),
        is_sorting(normal_names(repo.local_bookmarks@), listed),
    ensures
        text::ascends(listed),
        listed == normal_names(repo.local_bookmarks@),
{
    let names = normal_names(repo.local_bookmarks@);
    lemma_normal_ascend(repo.local_bookmarks@);
    assert(is_sorted(names)) by {
        assert forall|i: int, j: int| 0 <= i <= j < names.len() implies text::text_le(
            #[trigger] names[i],
            #[trigger] names[j],
        ) by {
            if i < j {
                assert(text::text_lt(names[i], names[j]));
            } else {
                text::lemma_text_le_total(names[i], names[i]);
            }
        }
    }
    lemma_sorting_unique(names, names, listed);
}

proof fn lemma_normal_ascend(bookmarks: Seq<Bookmark>)
    requires
        text::ascends(repo_view::bookmark_names(bookmarks)),
    ensures
        text::ascends(normal_names(bookmarks)),
    decreases bookmarks.len(),
{
    if bookmarks.len() > 0 {
        let all = repo_view::bookmark_names(bookmarks);
        let rest = bookmarks.drop_last();
        let names = normal_names(rest);
        assert(repo_view::bookmark_names(rest) =~= all.take(all.len() - 1));
        text::lemma_ascends_start(all, all.len() - 1);
        lemma_normal_ascend(rest);
        assert forall|k: int| 0 <= k < names.len() implies text::text_lt(
            #[trigger] names[k],
            all.last(),
        ) by {
            lemma_normal_names(rest, names[k]);
            let i = choose|i: int|
                0 <= i < rest.len() && (#[trigger] rest[i]).name@ == names[k]
                    && rest[i].target.normal_id() is Some;
            assert(all[i] == names[k]);
            assert(text::text_lt(all[i], all[all.len() - 1]));
        }
    }
}

proof fn lemma_normal_names(bookmarks: Seq<Bookmark>, name: Seq<char>)
    ensures
        normal_names(bookmarks).contains(name) <==> exists|i: int|
            0 <= i < bookmarks.len() && (#[trigger] bookmarks[i]).name@ == name
                && bookmarks[i].target.normal_id() is Some,
    decreases bookmarks.len(),
{
    if bookmarks.len() > 0 {
        let rest = bookmarks.drop_last();
        let names = normal_names(rest);
        lemma_normal_names(rest, name);
        if normal_names(bookmarks).contains(name) {
            if names.contains(name) {
                let i = choose|i: int|
                    0 <= i < rest.len() && (#[trigger] rest[i]).name@ == name
                        && rest[i].target.normal_id() is Some;
                assert(bookmarks[i] == rest[i]);
            } else {
                assert(bookmarks[bookmarks.len() - 1].name@ == name);
            }
        }
        if exists|i: int|
            0 <= i < bookmarks.len() && (#[trigger] bookmarks[i]).name@ == name
                && bookmarks[i].target.normal_id() is Some {
            let i = choose|i: int|
                0 <= i < bookmarks.len() && (#[trigger] bookmarks[i]).name@ == name
                    && bookmarks[i].target.normal_id() is Some;
            let all = normal_names(bookmarks);
            if i == bookmarks.len() - 1 {
                assert(all.last() == name);
            } else {
                assert(rest[i] == bookmarks[i]);
                let k = choose|k: int| 0 <= k < names.len() && names[k] == name;
                assert(all[k] == name);
            }
        }
    }
}

/// Puts a name into its place of a sorted list.
fn insert_sorted(names: &mut Vec<String>, name: String)
    requires
        is_sorted(text::views(old(names)@)),
    ensures
        is_sorting(text::views(old(names)@).push(name@), text::views(final(names)@)),
{
    let ghost before = text::views(names@);
    let mut at: usize = names.len();
    while at > 0 && !text::is_text_le(names[at - 1].as_str(), name.as_str())
        invariant
            at <= names@.len(),
            before == text::views(names@),
            forall|j: int|
                at <= j < before.len() ==> text::text_le(name@, #[trigger] before[j]),
            is_sorted(before),
        decreases at,
    {
        proof {
            text::lemma_text_le_total(name@, before[at - 1]);
        }
        at = at - 1;
    }
    let ghost added = name@;
    names.insert(at, name);
    let ghost after = text::views(names@);
    proof {
        assert(after =~= before.insert(at as int, added));
        assert forall|i: int, j: int| 0 <= i <= j < after.len() implies text::text_le(
            #[trigger] after[i],
            #[trigger] after[j],
        ) by {
            text::lemma_text_le_total(added, added);
            if i < at && j == at {
                text::lemma_text_le_transitive(before[i], before[at - 1], added);
            }
        }
        before.to_multiset_ensures();
        after.to_multiset_ensures();
        assert(after.remove(at as int) =~= before);
        assert(after[at as int] == added);
        assert(after.to_multiset() =~= before.push(added).to_multiset());
    }
}

impl BookmarksDirectory {
    /// The repository that the directory shows.
    pub closed spec fn repo(&self) -> RepoView {
        *self.repo
    }

    /// The path before the commit ids in the targets.
    pub closed spec fn prefix(&self) -> Seq<char> {
        self.prefix_path@
    }

    pub fn new(repo: Arc<RepoView>, prefix_path: String) -> (r: Self)
        ensures
            r.repo() == *repo,
            r.prefix() == prefix_path@,
    {
        BookmarksDirectory { repo, prefix_path }
    }

    /// The commit that a local bookmark points to.
    pub fn get_bookmark_commit_id(repo: &RepoView, bookmark_name: &str) -> (r: JjResult<CommitId>)
        ensures
            match repo.bookmark_commit_id(bookmark_name@) {
                Some(id) => r matches Ok(found) && found@ == id,
                None => r == Err::<CommitId, _>(JjError::NotFound),
            },
    {
        match repo.get_bookmark_commit_id(bookmark_name) {
            Some(id) => Ok(id.clone()),
            None => Err(JjError::NotFound),
        }
    }

    /// The symlink for a local bookmark.
    pub fn get_symlink(&self, bookmark_name: &str) -> (r: JjResult<BookmarkSymlink>)
        ensures
            match self.repo().bookmark_commit_id(bookmark_name@) {
                Some(id) => r matches Ok(link) && link@ == paths::joined(
                    self.prefix(),
                    commit_id::hex_text(id),
                ),
                None => r == Err::<BookmarkSymlink, _>(JjError::NotFound),
            },
    {
        match Self::get_bookmark_commit_id(&self.repo, bookmark_name) {
            Ok(id) => {
                let hex = id.hex();
                Ok(BookmarkSymlink::new(paths::join(self.prefix_path.as_str(), hex.as_str())))
            },
            Err(error) => Err(error),
        }
    }
}

impl VirtualFile for BookmarksDirectory {
    fn list(&self) -> (r: JjResult<Answer<Vec<DirectoryEntry>>>)
        ensures
            r matches Ok(Answer::Ready(entries)) && exists|names: Seq<Seq<char>>|
                #![trigger virtual_file::named_entries(names, FileType::Symlink)]
                {
                    &&& is_sorting(normal_names(self.repo().local_bookmarks@), names)
                    &&& virtual_file::entry_views(entries@) == virtual_file::named_entries(
                        names,
                        FileType::Symlink,
                    )
                },
    {
        let bookmarks = &self.repo.local_bookmarks;
        let mut names: Vec<String> = Vec::new();
        let mut i: usize = 0;
        assert(text::views(names@) =~= normal_names(bookmarks@.take(0)));
        while i < bookmarks.len()
            invariant
                i <= bookmarks@.len(),
                is_sorting(normal_names(bookmarks@.take(i as int)), text::views(names@)),
            decreases bookmarks@.len() - i,
        {
            let ghost before = text::views(names@);
            let ghost listed = normal_names(bookmarks@.take(i as int));
            proof {
                assert(bookmarks@.take(i + 1).drop_last() =~= bookmarks@.take(i as int));
                assert(bookmarks@.take(i + 1).last() == bookmarks@[i as int]);
            }
            if bookmarks[i].target.as_normal().is_some() {
                let name = bookmarks[i].name.clone();
                insert_sorted(&mut names, name);
                proof {
                    before.to_multiset_ensures();
                    listed.to_multiset_ensures();
                }
            }
            i = i + 1;
        }
        assert(bookmarks@.take(i as int) =~= bookmarks@);
        let ghost sorted = text::views(names@);
        let mut entries: Vec<DirectoryEntry> = Vec::new();
        let mut k: usize = 0;
        while k < names.len()
            invariant
                k <= names@.len(),
                entries@.len() == k,
                sorted == text::views(names@),
                forall|j: int|
                    0 <= j < k ==> (#[trigger] entries@[j]).name@ == sorted[j]
                        && entries@[j].file_type == FileType::Symlink,
            decreases names@.len() - k,
        {
            let name = names[k].clone();
            entries.push(DirectoryEntry { name, file_type: FileType::Symlink });
            k = k + 1;
        }
        assert(virtual_file::entry_views(entries@) =~= virtual_file::named_entries(
            sorted,
            FileType::Symlink,
        ));
        Ok(Answer::Ready(entries))
    }

    fn attributes(&self) -> (r: JjResult<Answer<FileAttributes>>)
        ensures
            r matches Ok(Answer::Ready(attributes)) && attributes == virtual_file::timeless(
                0,
                FileType::Directory,
            ),
    {
        Ok(Answer::Ready(virtual_file::directory_attributes()))
    }

    fn file_type(&self) -> (r: JjResult<Answer<FileType>>)
        ensures
            r matches Ok(Answer::Ready(FileType::Directory)),
    {
        Ok(Answer::Ready(FileType::Directory))
    }
}

/// A symlink to the commit of a bookmark.
pub struct BookmarkSymlink {
    target: String,
}

impl View for BookmarkSymlink {
    type V = Seq<char>;

    closed spec fn view(&self) -> Seq<char> {
        self.target@
    }
}

impl BookmarkSymlink {
    pub fn new(target: String) -> (r: Self)
        ensures
            r@ == target@,
    {
        BookmarkSymlink { target }
    }
}

impl VirtualFile for BookmarkSymlink {
    fn read_link(&self) -> (r: JjResult<Answer<String>>)
        ensures
            r matches Ok(Answer::Ready(target)) && target@ == self@,
    {
        Ok(Answer::Ready(self.target.clone()))
    }

    fn attributes(&self) -> (r: JjResult<Answer<FileAttributes>>)
        ensures
            r matches Ok(Answer::Ready(attributes)) && attributes.size == virtual_file::link_size(
                self@,
            ) && attributes == virtual_file::timeless(attributes.size, FileType::Symlink),
    {
        Ok(Answer::Ready(virtual_file::link_attributes(self.target.as_str())))
    }

    fn file_type(&self) -> (r: JjResult<Answer<FileType>>)
        ensures
            r matches Ok(Answer::Ready(FileType::Symlink)),
    {
        Ok(Answer::Ready(FileType::Symlink))
    }
}

/// A bookmark is listed exactly where its target has one term and that term is a commit. What is
/// listed is a symlink, and the names ascend.
pub proof fn lemma_listed_bookmarks(
    directory: BookmarksDirectory,
    name: Seq<char>,
    r: JjResult<Answer<Vec<DirectoryEntry>>>,
)
    requires
        directory.repo().wf(),
        call_ensures(BookmarksDirectory::list, (&directory,), r),
    ensures
        r matches Ok(Answer::Ready(entries)) && ((exists|k: int|
            0 <= k < entries@.len() && (#[trigger] entries@[k]).name@ == name) <==> exists|i: int|
            0 <= i < directory.repo().local_bookmarks@.len() && (
            #[trigger] directory.repo().local_bookmarks@[i]).name@ == name && merge::id_terms(
                directory.repo().local_bookmarks@[i].target.merge,
            ).len() == 1 && merge::id_terms(
                directory.repo().local_bookmarks@[i].target.merge,
            )[0] is Some) && (forall|k: int|
            0 <= k < entries@.len() ==> (#[trigger] entries@[k]).file_type == FileType::Symlink)
            && forall|j: int, k: int|
            0 <= j < k < entries@.len() ==> text::text_lt(
                (#[trigger] entries@[j]).name@,
                (#[trigger] entries@[k]).name@,
            ),
{
    let entries = r->Ok_0->Ready_0@;
    let views = virtual_file::entry_views(entries);
    let bookmarks = directory.repo().local_bookmarks@;
    let names = choose|names: Seq<Seq<char>>|
        #![trigger virtual_file::named_entries(names, FileType::Symlink)]
        is_sorting(normal_names(bookmarks), names) && views == virtual_file::named_entries(
            names,
            FileType::Symlink,
        );
    lemma_listed_ascend(directory.repo(), names);
    lemma_normal_names(bookmarks, name);
    assert(views.len() == entries.len() && views.len() == names.len());
    assert forall|k: int| 0 <= k < entries.len() implies (#[trigger] entries[k]).name@ == names[k]
        && entries[k].file_type == FileType::Symlink by {
        assert(views[k] == entries[k]@);
    }
    if names.contains(name) {
        let k = choose|k: int| 0 <= k < names.len() && names[k] == name;
        assert(entries[k].name@ == name);
    }
    if exists|k: int| 0 <= k < entries.len() && (#[trigger] entries[k]).name@ == name {
        let k = choose|k: int| 0 <= k < entries.len() && (#[trigger] entries[k]).name@ == name;
        assert(names[k] == name);
    }
    if exists|i: int|
        0 <= i < bookmarks.len() && (#[trigger] bookmarks[i]).name@ == name && merge::id_terms(
            bookmarks[i].target.merge,
        ).len() == 1 && merge::id_terms(bookmarks[i].target.merge)[0] is Some {
        let i = choose|i: int|
            0 <= i < bookmarks.len() && (#[trigger] bookmarks[i]).name@ == name && merge::id_terms(
                bookmarks[i].target.merge,
            ).len() == 1 && merge::id_terms(bookmarks[i].target.merge)[0] is Some;
        assert(bookmarks[i].target.normal_id() is Some);
    }
    assert forall|j: int, k: int| 0 <= j < k < entries.len() implies text::text_lt(
        (#[trigger] entries[j]).name@,
        (#[trigger] entries[k]).name@,
    ) by {
        assert(text::text_lt(names[j], names[k]));
    }
}

/// The symlink of a bookmark is the prefix with the id of its commit joined to it: its last segment
/// reads as the id.
pub proof fn lemma_symlink_of_bookmark(
    directory: BookmarksDirectory,
    i: int,
    name: &str,
    r: JjResult<BookmarkSymlink>,
)
    requires
        directory.repo().wf(),
        0 <= i < directory.repo().local_bookmarks@.len(),
        name@ == directory.repo().local_bookmarks@[i].name@,
        call_ensures(BookmarksDirectory::get_symlink, (&directory, name), r),
    ensures
        ({
            let terms = merge::id_terms(directory.repo().local_bookmarks@[i].target.merge);
            if terms.len() == 1 && terms[0] is Some {
                r matches Ok(link) && (terms[0]->0@.len() > 0 ==> paths::segments(link@)
                    == paths::segments(directory.prefix()).push(
                    commit_id::hex_text(terms[0]->0@),
                ) && commit_id::hex_bytes(paths::segments(link@).last()) == terms[0]->0@)
            } else {
                r == Err::<BookmarkSymlink, _>(JjError::NotFound)
            }
        }),
{
    let names = repo_view::bookmark_names(directory.repo().local_bookmarks@);
    let terms = merge::id_terms(directory.repo().local_bookmarks@[i].target.merge);
    text::lemma_ascends_distinct(names);
    assert(names[i] == name@);
    assert(names.contains(name@));
    names.index_of_first_ensures(name@);
    if terms.len() == 1 && terms[0] is Some && terms[0]->0@.len() > 0 {
        let commit = terms[0]->0@;
        commit_id::lemma_hex_round_trip(commit);
        commit_id::lemma_hex_plain(commit);
        paths::lemma_segments_joined(directory.prefix(), commit_id::hex_text(commit));
    }
}

/// A symlink leads to the target that it was made of, and has as many bytes.
pub proof fn lemma_symlink_target(
    target: String,
    symlink: BookmarkSymlink,
    link: JjResult<Answer<String>>,
    attributes: JjResult<Answer<FileAttributes>>,
)
    requires
        call_ensures(BookmarkSymlink::new, (target,), symlink),
        call_ensures(BookmarkSymlink::read_link, (&symlink,), link),
        call_ensures(BookmarkSymlink::attributes, (&symlink,), attributes),
    ensures
        symlink@ == target@,
        link matches Ok(Answer::Ready(found)) && found@ == target@,
        attributes matches Ok(Answer::Ready(a)) && a.file_type == FileType::Symlink && a.size
            == encode_utf8(target@).len(),
{
}

/// A directory shows the repository that it was made of, below the prefix that it was given.
pub proof fn lemma_new_directory(
    repo: Arc<RepoView>,
    prefix_path: String,
    directory: BookmarksDirectory,
)
    requires
        call_ensures(BookmarksDirectory::new, (repo, prefix_path), directory),
    ensures
        directory.repo() == *repo,
        directory.prefix() == prefix_path@,
{
}

/// The commit of a bookmark is the one term of its target, where it has one term and that term is a
/// commit.
pub proof fn lemma_commit_of_bookmark(
    repo: RepoView,
    i: int,
    name: &str,
    r: JjResult<CommitId>,
)
    requires
        repo.wf(),
        0 <= i < repo.local_bookmarks@.len(),
        name@ == repo.local_bookmarks@[i].name@,
        call_ensures(BookmarksDirectory::get_bookmark_commit_id, (&repo, name), r),
    ensures
        ({
            let terms = merge::id_terms(repo.local_bookmarks@[i].target.merge);
            if terms.len() == 1 && terms[0] is Some {
                r matches Ok(id) && id@ == terms[0]->0@
            } else {
                r == Err::<CommitId, _>(JjError::NotFound)
            }
        }),
{
    let names = repo_view::bookmark_names(repo.local_bookmarks@);
    text::lemma_ascends_distinct(names);
    assert(names[i] == name@);
    assert(names.contains(name@));
    names.index_of_first_ensures(name@);
}

} // verus!
