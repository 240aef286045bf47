//! Unix path text: joining, splitting into segments, parents.
//!
//! A path is a `String`. The functions here read it as `std::path` does: separators may repeat,
//! a `.` counts only at the very start, and an absolute path replaces what it is joined to.

use vstd::prelude::*;
use vstd::string::*;

use crate::text;

verus! {

/// The text `/`.
pub open spec fn root_text() -> Seq<char> {
    seq!['/']
}

/// The text `.`.
pub open spec fn dot_text() -> Seq<char> {
    seq!['.']
}

/// The text `..`.
pub open spec fn dot_dot_text() -> Seq<char> {
    seq!['.', '.']
}

/// What a path becomes when `name` is pushed onto it.
pub open spec fn joined(base: Seq<char>, name: Seq<char>) -> Seq<char> {
    if name.len() > 0 && name[0] == '/' {
        name
    } else if base.len() == 0 || base.last() == '/' {
        base + name
    } else {
        base + seq!['/'] + name
    }
}

/// What `base` becomes when all of `names` are pushed onto it, in order.
pub open spec fn joined_all(base: Seq<char>, names: Seq<Seq<char>>) -> Seq<char>
    decreases names.len(),
{
    if names.len() == 0 {
        base
    } else {
        joined(joined_all(base, names.drop_last()), names.last())
    }
}

/// Whether a piece between separators counts as a segment wherever it stands.
pub open spec fn counts(piece: Seq<char>) -> bool {
    piece.len() > 0 && piece != dot_text()
}

/// The segment that only the start of a path gives: the root, or a leading `.`.
pub open spec fn leading(path: Seq<char>) -> Seq<Seq<char>> {
    if path.len() > 0 && path[0] == '/' {
        seq![root_text()]
    } else if text::pieces(path, '/')[0] == dot_text() {
        seq![dot_text()]
    } else {
        Seq::empty()
    }
}

/// The segments of a path.
pub open spec fn segments(path: Seq<char>) -> Seq<Seq<char>> {
    leading(path) + text::pieces(path, '/').filter(|p: Seq<char>| counts(p))
}

/// A name that is one segment of any path it is pushed onto.
pub open spec fn is_plain_name(name: Seq<char>) -> bool {
    counts(name) && !name.contains('/')
}

/// The path without its last segment, unless it is empty or the root.
pub open spec fn parent(path: Seq<char>) -> Option<Seq<char>> {
    let all = segments(path);
    if all.len() == 0 || all.last() == root_text() {
        None
    } else {
        Some(joined_all(Seq::empty(), all.drop_last()))
    }
}

/// Pushing a plain name onto a path adds that name as its last segment, and nothing else.
pub proof fn lemma_segments_joined(base: Seq<char>, name: Seq<char>)
    requires
        is_plain_name(name),
    ensures
        segments(joined(base, name)) == segments(base).push(name),
{
    let keep = |p: Seq<char>| counts(p);
    let path = joined(base, name);
    text::lemma_pieces_shape(base, '/');
    text::lemma_pieces_single(name, '/');
    assert(name.contains(name[0]));
    assert(seq![name].filter(keep) =~= seq![name]) by {
        reveal(Seq::filter);
        assert(seq![name].drop_last() =~= Seq::empty());
    }
    if base.len() == 0 {
        assert(path =~= name);
        assert(base =~= Seq::empty());
        assert(text::pieces(base, '/') =~= seq![Seq::<char>::empty()]);
        assert(text::pieces(base, '/').filter(keep) =~= Seq::empty()) by {
            reveal(Seq::filter);
            assert(text::pieces(base, '/').drop_last() =~= Seq::empty());
        }
        assert(segments(path) =~= segments(base).push(name));
    } else if base.last() == '/' {
        text::lemma_pieces_extended(base, name, '/');
        let front = text::pieces(base, '/').drop_last();
        assert(text::pieces(base, '/').last() + name =~= name);
        assert(text::pieces(path, '/') =~= front + seq![name]);
        text::lemma_pieces_shape(base.drop_last(), '/');
        assert(text::pieces(base, '/') =~= front + seq![Seq::<char>::empty()]);
        assert(seq![Seq::<char>::empty()].filter(keep) =~= Seq::empty()) by {
            reveal(Seq::filter);
            assert(seq![Seq::<char>::empty()].drop_last() =~= Seq::empty());
        }
        Seq::filter_distributes_over_add(front, seq![name], keep);
        Seq::filter_distributes_over_add(front, seq![Seq::<char>::empty()], keep);
        assert(text::pieces(path, '/')[0] == text::pieces(base, '/')[0]);
        assert(segments(path) =~= segments(base).push(name));
    } else {
        text::lemma_pieces_separated(base, name, '/');
        Seq::filter_distributes_over_add(text::pieces(base, '/'), seq![name], keep);
        assert(text::pieces(path, '/')[0] == text::pieces(base, '/')[0]);
        assert(segments(path) =~= segments(base).push(name));
    }
}

/// The segments of plain names joined onto a path are those of the path and then the names.
pub proof fn lemma_segments_joined_all(base: Seq<char>, names: Seq<Seq<char>>)
    requires
        forall|i: int| 0 <= i < names.len() ==> is_plain_name(#[trigger] names[i]),
    ensures
        segments(joined_all(base, names)) == segments(base) + names,
    decreases names.len(),
{
    if names.len() > 0 {
        assert forall|i: int| 0 <= i < names.drop_last().len() implies is_plain_name(
            #[trigger] names.drop_last()[i],
        ) by {
            assert(names.drop_last()[i] == names[i]);
        }
        lemma_segments_joined_all(base, names.drop_last());
        lemma_segments_joined(joined_all(base, names.drop_last()), names.last());
    }
    assert(segments(joined_all(base, names)) =~= segments(base) + names);
}

/// The empty path has no segments.
pub proof fn lemma_segments_empty()
    ensures
        segments(Seq::empty()) == Seq::<Seq<char>>::empty(),
{
    let keep = |p: Seq<char>| counts(p);
    let nothing = Seq::<char>::empty();
    assert(text::pieces(nothing, '/') =~= seq![nothing]);
    assert(text::pieces(nothing, '/').filter(keep) =~= Seq::empty()) by {
        reveal_with_fuel(Seq::<_>::filter, 2);
        assert(text::pieces(nothing, '/').drop_last() =~= Seq::empty());
    }
    assert(segments(nothing) =~= Seq::empty());
}

/// Pushes `name` onto the path `base`.
pub fn join(base: &str, name: &str) -> (r: String)
    ensures
        r@ == joined(base@, name@),
{
    let tail = text::chars_of(name);
    if tail.len() > 0 && tail[0] == '/' {
        return name.to_owned();
    }
    let head = text::chars_of(base);
    let mut path = base.to_owned();
    if head.len() > 0 && head[head.len() - 1] != '/' {
        proof {
            reveal_strlit("/");
        }
        path.append("/");
        assert(path@ =~= base@ + seq!['/']);
    }
    path.append(name);
    path
}

/// Splits a path into its segments.
pub fn split_path(path: &str) -> (r: Vec<String>)
    ensures
        text::views(r@) == segments(path@),
{
    let ghost keep = |p: Seq<char>| counts(p);
    let all = text::split(path, '/');
    let chars = text::chars_of(path);
    let mut out: Vec<String> = Vec::new();
    proof {
        reveal_strlit("/");
        reveal_strlit(".");
        text::lemma_pieces_shape(path@, '/');
        assert("/"@ =~= root_text());
        assert("."@ =~= dot_text());
        assert(text::views(all@).len() == all@.len());
        assert(text::views(all@)[0] == all@[0]@);
    }
    if chars.len() > 0 && chars[0] == '/' {
        out.push("/".to_owned());
    } else if text::text_eq(all[0].as_str(), ".") {
        out.push(".".to_owned());
    }
    assert(text::views(out@) =~= leading(path@));
    assert(text::views(all@).take(0) =~= Seq::empty());
    assert(text::views(all@).take(0).filter(keep) =~= Seq::empty()) by {
        reveal(Seq::filter);
    }
    assert(text::views(out@) =~= leading(path@) + text::views(all@).take(0).filter(keep));
    let mut i: usize = 0;
    while i < all.len()
        invariant
            i <= all@.len(),
            text::views(all@) == text::pieces(path@, '/'),
            "."@ == dot_text(),
            keep == (|p: Seq<char>| counts(p)),
            text::views(out@) == leading(path@) + text::views(all@).take(i as int).filter(keep),
        decreases all@.len() - i,
    {
        let piece = &all[i];
        let ghost before = out@;
        proof {
            reveal(Seq::filter);
            assert(text::views(all@)[i as int] == piece@);
            assert(text::views(all@).take(i + 1).drop_last() =~= text::views(all@).take(i as int));
            assert(text::views(all@).take(i + 1).last() == piece@);
        }
        if !piece.as_str().is_empty() && !text::text_eq(piece.as_str(), ".") {
            out.push(piece.clone());
            assert(text::views(out@) =~= text::views(before).push(piece@));
        }
        assert(text::views(out@) =~= leading(path@) + text::views(all@).take(i + 1).filter(keep));
        i = i + 1;
    }
    assert(text::views(all@).take(i as int) =~= text::views(all@));
    out
}

/// The text `joined_all(base, names)`.
pub fn join_all(base: &str, names: &Vec<String>, count: usize) -> (r: String)
    requires
        count <= names@.len(),
    ensures
        r@ == joined_all(base@, text::views(names@).take(count as int)),
{
    let mut path = base.to_owned();
    let mut i: usize = 0;
    assert(text::views(names@).take(0) =~= Seq::empty());
    while i < count
        invariant
            i <= count <= names@.len(),
            path@ == joined_all(base@, text::views(names@).take(i as int)),
        decreases count - i,
    {
        proof {
            assert(text::views(names@).take(i + 1).drop_last() =~= text::views(names@).take(i as int));
            assert(text::views(names@).take(i + 1).last() == names@[i as int]@);
        }
        path = join(path.as_str(), names[i].as_str());
        i = i + 1;
    }
    path
}

/// The path without its last segment; `None` for the empty path and for the root.
pub fn parent_path(path: &str) -> (r: Option<String>)
    ensures
        match r {
            Some(p) => parent(path@) == Some(p@),
            None => parent(path@) is None,
        },
{
    let all = split_path(path);
    assert(text::views(all@).len() == all@.len());
    if all.len() == 0 {
        return None;
    }
    proof {
        reveal_strlit("/");
        reveal_strlit("");
        assert("/"@ =~= root_text());
        assert(""@ =~= Seq::empty());
        assert(text::views(all@).last() == all@.last()@);
        assert(text::views(all@).take(all@.len() - 1) =~= text::views(all@).drop_last());
    }
    if text::text_eq(all[all.len() - 1].as_str(), "/") {
        return None;
    }
    Some(join_all("", &all, all.len() - 1))
}

/// Any text without a slash is a plain name, unless it is empty or `.`.
pub proof fn lemma_plain_name(name: Seq<char>)
    requires
        name.len() > 0,
        name != seq!['.'],
        forall|i: int| 0 <= i < name.len() ==> #[trigger] name[i] != '/',
    ensures
        is_plain_name(name),
{
}

/// A name without a root is put after the path and a slash, which is left out after another one
/// and at the start; a name with a root stands alone.
pub proof fn lemma_join_text(base: &str, name: &str, r: String)
    requires
        call_ensures(join, (base, name), r),
    ensures
        name@.len() > 0 && name@[0] == '/' ==> r@ == name@,
        !(name@.len() > 0 && name@[0] == '/') && base@.len() == 0 ==> r@ == name@,
        !(name@.len() > 0 && name@[0] == '/') && base@.len() > 0 && base@.last() == '/' ==> r@
            == base@ + name@,
        !(name@.len() > 0 && name@[0] == '/') && base@.len() > 0 && base@.last() != '/' ==> r@
            == base@ + seq!['/'] + name@,
{
    if base@.len() == 0 {
        assert(base@ + name@ =~= name@);
    }
}

/// Splitting a path to which a name was joined gives the parts of the path and then that name.
pub proof fn lemma_split_of_joined(
    base: &str,
    name: &str,
    joint: String,
    path: &str,
    before: Vec<String>,
    after: Vec<String>,
)
    requires
        name@.len() > 0,
        name@ != seq!['.'],
        forall|i: int| 0 <= i < name@.len() ==> #[trigger] name@[i] != '/',
        call_ensures(join, (base, name), joint),
        path@ == joint@,
        call_ensures(split_path, (base,), before),
        call_ensures(split_path, (path,), after),
    ensures
        text::views(after@) == text::views(before@).push(name@),
{
    lemma_plain_name(name@);
    lemma_segments_joined(base@, name@);
}

/// The path of plain names is those names with single slashes between them.
pub proof fn lemma_joined_text(names: Seq<Seq<char>>)
    requires
        forall|i: int| 0 <= i < names.len() ==> is_plain_name(#[trigger] names[i]),
    ensures
        joined_all(Seq::empty(), names) == text::separated(names, '/'),
        names.len() > 0 ==> joined_all(Seq::empty(), names).len() > 0,
        names.len() > 0 ==> joined_all(Seq::empty(), names).last() != '/',
    decreases names.len(),
{
    if names.len() > 0 {
        let front = names.drop_last();
        let name = names.last();
        assert forall|i: int| 0 <= i < front.len() implies is_plain_name(#[trigger] front[i]) by {
            assert(front[i] == names[i]);
        }
        lemma_joined_text(front);
        assert(is_plain_name(names[names.len() - 1]));
        assert(name.contains(name[0]));
        assert(name.contains(name.last()));
        if front.len() == 0 {
            assert(joined(Seq::empty(), name) =~= names[0]);
        }
    }
}

/// A path of plain names with single slashes between them splits into those names.
pub proof fn lemma_split_of_names(names: Seq<Seq<char>>, path: &str, r: Vec<String>)
    requires
        forall|i: int|
            0 <= i < names.len() ==> (#[trigger] names[i]).len() > 0 && names[i] != seq!['.']
                && !names[i].contains('/'),
        path@ == text::separated(names, '/'),
        call_ensures(split_path, (path,), r),
    ensures
        text::views(r@) == names,
{
    assert forall|i: int| 0 <= i < names.len() implies is_plain_name(#[trigger] names[i]) by {
        assert(names[i].len() > 0);
    }
    lemma_joined_text(names);
    lemma_segments_empty();
    lemma_segments_joined_all(Seq::empty(), names);
    assert(Seq::<Seq<char>>::empty() + names =~= names);
}

proof fn lemma_filter_one(piece: Seq<char>)
    ensures
        seq![piece].filter(|p: Seq<char>| counts(p)) == (if counts(piece) {
            seq![piece]
        } else {
            Seq::empty()
        }),
{
    reveal_with_fuel(Seq::<_>::filter, 2);
    assert(seq![piece].drop_last() =~= Seq::empty());
    assert(seq![piece].filter(|p: Seq<char>| counts(p)) =~= (if counts(piece) {
        seq![piece]
    } else {
        Seq::empty()
    }));
}

/// What is between two slashes but no segment changes nothing.
proof fn lemma_segments_skip(a: Seq<char>, skipped: Seq<char>, b: Seq<char>)
    requires
        a.len() > 0,
        !skipped.contains('/'),
        !counts(skipped),
    ensures
        segments(a + seq!['/'] + skipped + seq!['/'] + b) == segments(a + seq!['/'] + b),
{
    let keep = |p: Seq<char>| counts(p);
    let short = a + seq!['/'] + b;
    let start = a + seq!['/'] + skipped;
    let long = start + seq!['/'] + b;
    text::lemma_pieces_shape(a, '/');
    text::lemma_pieces_separated(a, b, '/');
    text::lemma_pieces_separated(start, b, '/');
    text::lemma_pieces_separated(a, skipped, '/');
    text::lemma_pieces_single(skipped, '/');
    lemma_filter_one(skipped);
    let pa = text::pieces(a, '/');
    let pb = text::pieces(b, '/');
    Seq::filter_distributes_over_add(pa, pb, keep);
    Seq::filter_distributes_over_add(pa + seq![skipped], pb, keep);
    Seq::filter_distributes_over_add(pa, seq![skipped], keep);
    assert(text::pieces(long, '/')[0] == pa[0]);
    assert(text::pieces(short, '/')[0] == pa[0]);
    assert(long[0] == a[0] && short[0] == a[0]);
    assert(segments(long) =~= segments(short));
}

/// A slash more between two parts of a path, or a `.` between two slashes, changes nothing, nor
/// does a slash at the end.
pub proof fn lemma_redundant_separators(
    a: Seq<char>,
    b: Seq<char>,
    plain: &str,
    doubled: &str,
    dotted: &str,
    r: Vec<String>,
    r_doubled: Vec<String>,
    r_dotted: Vec<String>,
)
    requires
        a.len() > 0,
        plain@ == a + seq!['/'] + b,
        doubled@ == a + seq!['/'] + seq!['/'] + b,
        dotted@ == a + seq!['/'] + seq!['.'] + seq!['/'] + b,
        call_ensures(split_path, (plain,), r),
        call_ensures(split_path, (doubled,), r_doubled),
        call_ensures(split_path, (dotted,), r_dotted),
    ensures
        text::views(r_doubled@) == text::views(r@),
        text::views(r_dotted@) == text::views(r@),
{
    let nothing = Seq::<char>::empty();
    lemma_segments_skip(a, nothing, b);
    assert(a + seq!['/'] + nothing + seq!['/'] + b =~= doubled@);
    lemma_segments_skip(a, dot_text(), b);
}

/// A slash at the end of a path changes nothing.
pub proof fn lemma_trailing_separator(a: &str, path: &str, r: Vec<String>, after: Vec<String>)
    requires
        a@.len() > 0,
        path@ == a@ + seq!['/'],
        call_ensures(split_path, (a,), r),
        call_ensures(split_path, (path,), after),
    ensures
        text::views(after@) == text::views(r@),
{
    let keep = |p: Seq<char>| counts(p);
    let nothing = Seq::<char>::empty();
    text::lemma_pieces_shape(a@, '/');
    text::lemma_pieces_separated(a@, nothing, '/');
    assert(a@ + seq!['/'] + nothing =~= path@);
    assert(text::pieces(nothing, '/') =~= seq![nothing]);
    lemma_filter_one(nothing);
    Seq::filter_distributes_over_add(text::pieces(a@, '/'), seq![nothing], keep);
    assert(text::pieces(path@, '/')[0] == text::pieces(a@, '/')[0]);
    assert(segments(path@) =~= segments(a@));
}

/// The root alone is one segment, the root.
pub proof fn lemma_segments_root()
    ensures
        segments(root_text()) == seq![root_text()],
{
    let keep = |p: Seq<char>| counts(p);
    let nothing = Seq::<char>::empty();
    text::lemma_pieces_separated(nothing, nothing, '/');
    assert(nothing + seq!['/'] + nothing =~= root_text());
    assert(text::pieces(nothing, '/') =~= seq![nothing]);
    lemma_filter_one(nothing);
    Seq::filter_distributes_over_add(seq![nothing], seq![nothing], keep);
    assert(segments(root_text()) =~= seq![root_text()]);
}

/// A `.` alone is one segment, the `.`.
pub proof fn lemma_segments_dot()
    ensures
        segments(dot_text()) == seq![dot_text()],
{
    text::lemma_pieces_single(dot_text(), '/');
    lemma_filter_one(dot_text());
    assert(segments(dot_text()) =~= seq![dot_text()]);
}

/// A path that starts with the root splits into the root and then the names below it.
pub proof fn lemma_split_of_absolute(names: Seq<Seq<char>>, path: &str, r: Vec<String>)
    requires
        forall|i: int|
            0 <= i < names.len() ==> (#[trigger] names[i]).len() > 0 && names[i] != seq!['.']
                && !names[i].contains('/'),
        path@ == seq!['/'] + text::separated(names, '/'),
        call_ensures(split_path, (path,), r),
    ensures
        text::views(r@) == seq![seq!['/']] + names,
{
    assert forall|i: int| 0 <= i < names.len() implies is_plain_name(#[trigger] names[i]) by {
        assert(names[i].len() > 0);
    }
    lemma_segments_root();
    lemma_absolute_text(names);
    lemma_segments_joined_all(root_text(), names);
}

proof fn lemma_absolute_text(names: Seq<Seq<char>>)
    requires
        forall|i: int| 0 <= i < names.len() ==> is_plain_name(#[trigger] names[i]),
    ensures
        joined_all(root_text(), names) == root_text() + text::separated(names, '/'),
    decreases names.len(),
{
    if names.len() > 0 {
        let front = names.drop_last();
        let name = names.last();
        assert forall|i: int| 0 <= i < front.len() implies is_plain_name(#[trigger] front[i]) by {
            assert(front[i] == names[i]);
        }
        lemma_absolute_text(front);
        lemma_joined_text(front);
        assert(is_plain_name(names[names.len() - 1]));
        assert(name.contains(name[0]));
        let before = joined_all(root_text(), front);
        if front.len() == 0 {
            assert(before =~= root_text());
        } else {
            assert(before.last() == text::separated(front, '/').last());
        }
        assert(joined(before, name) =~= root_text() + text::separated(names, '/'));
    } else {
        assert(joined_all(root_text(), names) =~= root_text() + text::separated(names, '/'));
    }
}

proof fn lemma_joined_all_after(base: Seq<char>, first: Seq<char>, names: Seq<Seq<char>>)
    ensures
        joined_all(base, seq![first] + names) == joined_all(joined(base, first), names),
    decreases names.len(),
{
    let all = seq![first] + names;
    if names.len() > 0 {
        lemma_joined_all_after(base, first, names.drop_last());
        assert(all.drop_last() =~= seq![first] + names.drop_last());
    } else {
        assert(all =~= seq![first]);
        assert(all.drop_last() =~= Seq::empty());
        reveal_with_fuel(joined_all, 2);
    }
}

proof fn lemma_filtered_plain(all: Seq<Seq<char>>, names: Seq<Seq<char>>)
    requires
        names == all.filter(|p: Seq<char>| counts(p)),
        forall|i: int| 0 <= i < all.len() ==> !(#[trigger] all[i]).contains('/'),
    ensures
        forall|i: int| 0 <= i < names.len() ==> is_plain_name(#[trigger] names[i]),
    decreases all.len(),
{
    reveal(Seq::filter);
    if all.len() > 0 {
        let front = all.drop_last();
        let rest = front.filter(|p: Seq<char>| counts(p));
        lemma_filtered_plain(front, rest);
        assert(!all[all.len() - 1].contains('/'));
        assert forall|i: int| 0 <= i < names.len() implies is_plain_name(#[trigger] names[i]) by {
            if i < rest.len() {
                assert(names[i] == rest[i]);
            }
        }
    }
}

/// The segments of a path, joined again, are a path with the same segments.
pub proof fn lemma_segments_rebuilt(path: Seq<char>)
    ensures
        segments(joined_all(Seq::empty(), segments(path))) == segments(path),
{
    let names = text::pieces(path, '/').filter(|p: Seq<char>| counts(p));
    let nothing = Seq::<char>::empty();
    text::lemma_pieces_shape(path, '/');
    lemma_filtered_plain(text::pieces(path, '/'), names);
    if leading(path).len() == 0 {
        assert(segments(path) =~= names);
        lemma_segments_empty();
        lemma_segments_joined_all(nothing, names);
        assert(Seq::<Seq<char>>::empty() + names =~= names);
    } else {
        let first = leading(path)[0];
        assert(segments(path) =~= seq![first] + names);
        lemma_joined_all_after(nothing, first, names);
        lemma_segments_root();
        lemma_segments_dot();
        assert(joined(nothing, first) =~= first);
        lemma_segments_joined_all(first, names);
    }
}

/// The parent of a path to which a name was joined has the segments of that path.
pub proof fn lemma_parent_of_joined(
    base: &str,
    name: &str,
    joint: String,
    path: &str,
    r: Option<String>,
)
    requires
        name@.len() > 0,
        name@ != seq!['.'],
        forall|i: int| 0 <= i < name@.len() ==> #[trigger] name@[i] != '/',
        call_ensures(join, (base, name), joint),
        path@ == joint@,
        call_ensures(parent_path, (path,), r),
    ensures
        r matches Some(parent) && segments(parent@) == segments(base@),
{
    lemma_plain_name(name@);
    lemma_segments_joined(base@, name@);
    lemma_segments_rebuilt(base@);
    assert(name@.contains(name@[0]));
    assert(segments(path@).drop_last() =~= segments(base@));
    assert(root_text()[0] == '/');
}

/// The empty path and the root have no parent.
pub proof fn lemma_no_parent(path: &str, r: Option<String>)
    requires
        path@ == Seq::<char>::empty() || path@ == seq!['/'],
        call_ensures(parent_path, (path,), r),
    ensures
        r is None,
{
    lemma_segments_empty();
    lemma_segments_root();
}

/// Plain names joined one after the other are the segments after those of the path.
pub proof fn lemma_join_names(base: &str, names: Vec<String>, count: usize, r: String)
    requires
        count <= names@.len(),
        forall|i: int| 0 <= i < count ==> is_plain_name((#[trigger] names@[i])@),
        call_ensures(join_all, (base, &names, count), r),
    ensures
        segments(r@) == segments(base@) + text::views(names@).take(count as int),
{
    let joint = text::views(names@).take(count as int);
    assert forall|i: int| 0 <= i < joint.len() implies is_plain_name(#[trigger] joint[i]) by {
        assert(joint[i] == names@[i]@);
    }
    lemma_segments_joined_all(base@, joint);
}

} // verus!
