//! The configuration of a repository store.

use vstd::prelude::*;
use vstd::string::*;

use crate::jj_error::JjResult;
use crate::paths;
use crate::text;

verus! {

/// A line without the carriage return that belongs to its line ending.
pub open spec fn without_return(line: Seq<char>) -> Seq<char> {
    if line.len() > 0 && line.last() == '\r' {
        line.drop_last()
    } else {
        line
    }
}

/// The lines of a text. A line ends with a line feed, or with a carriage return and a line feed;
/// the last line may lack its ending.
pub open spec fn lines(content: Seq<char>) -> Seq<Seq<char>> {
    let pieces = text::pieces(content, '\n');
    let ended = pieces.drop_last().map_values(|line: Seq<char>| without_return(line));
    if pieces.last().len() > 0 {
        ended.push(pieces.last())
    } else {
        ended
    }
}

/// The first line that starts with a key, if any.
pub open spec fn line_of(lines: Seq<Seq<char>>, key: Seq<char>) -> Option<Seq<char>>
    decreases lines.len(),
{
    if lines.len() == 0 {
        None
    } else if key.is_prefix_of(lines[0]) {
        Some(lines[0])
    } else {
        line_of(lines.drop_first(), key)
    }
}

/// What stands between the first two quotes of the first line that starts with a key.
pub open spec fn setting(content: Seq<char>, key: Seq<char>, default: Seq<char>) -> Seq<char> {
    match line_of(lines(content), key) {
        Some(line) => if text::pieces(line, '"').len() > 1 {
            text::pieces(line, '"')[1]
        } else {
            default
        },
        None => default,
    }
}

/// The lines of a text.
fn split_lines(content: &str) -> (r: Vec<String>)
    ensures
        text::views(r@) == lines(content@),
{
    let pieces = text::split(content, '\n');
    let ghost all = text::pieces(content@, '\n');
    proof {
        text::lemma_pieces_shape(content@, '\n');
    }
    let mut found: Vec<String> = Vec::new();
    let count: usize = pieces.len() - 1;
    let mut i: usize = 0;
    while i < count
        invariant
            i <= count,
            count + 1 == pieces@.len(),
            text::views(pieces@) == all,
            found@.len() == i,
            forall|j: int| 0 <= j < i ==> (#[trigger] found@[j])@ == without_return(all[j]),
        decreases count - i,
    {
        let line = pieces[i].as_str();
        let length: usize = line.unicode_len();
        assert(line@ == all[i as int]);
        if length > 0 && line.get_char(length - 1) == '\r' {
            let kept = line.substring_char(0, length - 1);
            assert(kept@ =~= without_return(all[i as int]));
            found.push(kept.to_owned());
        } else {
            found.push(line.to_owned());
        }
        i = i + 1;
    }
    let ghost ended = all.drop_last().map_values(|line: Seq<char>| without_return(line));
    assert(text::views(found@) =~= ended);
    let last = pieces[count].as_str();
    assert(last@ == all.last());
    if last.unicode_len() > 0 {
        found.push(last.to_owned());
        assert(text::views(found@) =~= ended.push(all.last()));
    }
    found
}

/// Whether a text starts with another.
fn starts_with(content: &str, prefix: &str) -> (r: bool)
    ensures
        r == prefix@.is_prefix_of(content@),
{
    let length: usize = prefix.unicode_len();
    if content.unicode_len() < length {
        return false;
    }
    let start = content.substring_char(0, length);
    assert(start@ =~= content@.subrange(0, prefix@.len() as int));
    text::text_eq(start, prefix)
}

/// What stands between the first two quotes of the first line that starts with a key.
fn find_setting(content: &str, key: &str, default: &str) -> (r: String)
    ensures
        r@ == setting(content@, key@, default@),
{
    let found = split_lines(content);
    let ghost all = lines(content@);
    let mut i: usize = 0;
    assert(all.skip(0) =~= all);
    while i < found.len()
        invariant
            i <= found@.len(),
            text::views(found@) == all,
            all == lines(content@),
            line_of(all, key@) == line_of(all.skip(i as int), key@),
        decreases found@.len() - i,
    {
        let line = found[i].as_str();
        assert(line@ == all.skip(i as int)[0]);
        if starts_with(line, key) {
            let parts = text::split(line, '"');
            if parts.len() > 1 {
                assert(text::views(parts@)[1] == parts@[1]@);
                return parts[1].clone();
            }
            return default.to_owned();
        }
        assert(all.skip(i as int).drop_first() =~= all.skip(i + 1));
        i = i + 1;
    }
    assert(all.skip(i as int) =~= Seq::empty());
    default.to_owned()
}

/// The URL of the server and the id of the repository in a configuration. What is missing has a
/// default.
pub fn parse_config(config_str: &str) -> (r: JjResult<(String, String)>)
    ensures
        r matches Ok((server_url, repo_id)) && server_url@ == setting(
            config_str@,
            "server_url ="@,
            "http://localhost:8080"@,
        ) && repo_id@ == setting(config_str@, "repo_id ="@, "default"@),
{
    let repo_id = find_setting(config_str, "repo_id =", "default");
    let server_url = find_setting(config_str, "server_url =", "http://localhost:8080");
    Ok((server_url, repo_id))
}

/// Where the configuration of a store may be, in the order in which the places are tried.
pub open spec fn candidates(store_path: Seq<char>) -> Seq<Seq<char>> {
    let direct = seq![paths::joined(store_path, "config.toml"@)];
    match paths::parent(store_path) {
        Some(parent) => direct + seq![
            paths::joined(paths::joined(parent, "store"@), "config.toml"@),
            paths::joined(parent, "config.toml"@),
        ],
        None => direct,
    }
}

/// Where the configuration of a store may be, in the order in which the places are tried.
pub fn config_candidates(store_path: &str) -> (r: Vec<String>)
    ensures
        text::views(r@) == candidates(store_path@),
{
    let mut places: Vec<String> = Vec::new();
    places.push(paths::join(store_path, "config.toml"));
    match paths::parent_path(store_path) {
        Some(parent) => {
            let store = paths::join(parent.as_str(), "store");
            places.push(paths::join(store.as_str(), "config.toml"));
            places.push(paths::join(parent.as_str(), "config.toml"));
        },
        None => {},
    }
    assert(text::views(places@) =~= candidates(store_path@));
    places
}

/// The first of the places that exists, if any.
pub open spec fn first_existing(places: Seq<Seq<char>>, existing: Seq<bool>) -> Option<Seq<char>>
    decreases places.len(),
{
    if places.len() == 0 || existing.len() == 0 {
        None
    } else if existing[0] {
        Some(places[0])
    } else {
        first_existing(places.drop_first(), existing.drop_first())
    }
}

/// The place of the configuration of a store: the first candidate that exists, or the first one
/// where none does. `existing` tells of each candidate whether it exists.
pub fn get_config_path(store_path: &str, existing: &Vec<bool>) -> (r: String)
    ensures
        r@ == match first_existing(candidates(store_path@), existing@) {
            Some(place) => place,
            None => candidates(store_path@)[0],
        },
{
    let places = config_candidates(store_path);
    let ghost all = candidates(store_path@);
    let mut i: usize = 0;
    assert(all.skip(0) =~= all);
    assert(existing@.skip(0) =~= existing@);
    assert(text::views(places@)[0] == places@[0]@);
    while i < places.len() && i < existing.len()
        invariant
            i <= places@.len(),
            i <= existing@.len(),
            text::views(places@) == all,
            all == candidates(store_path@),
            first_existing(all, existing@) == first_existing(
                all.skip(i as int),
                existing@.skip(i as int),
            ),
        decreases places@.len() - i,
    {
        assert(text::views(places@)[i as int] == places@[i as int]@);
        if existing[i] {
            return places[i].clone();
        }
        assert(all.skip(i as int).drop_first() =~= all.skip(i + 1));
        assert(existing@.skip(i as int).drop_first() =~= existing@.skip(i + 1));
        i = i + 1;
    }
    places[0].clone()
}

/// Lines, each with a line feed at its end.
pub open spec fn ended_lines(others: Seq<Seq<char>>) -> Seq<char>
    decreases others.len(),
{
    if others.len() == 0 {
        Seq::empty()
    } else {
        ended_lines(others.drop_last()) + others.last() + seq!['\n']
    }
}

/// The pieces of text after ended lines are those lines and then the pieces of the text.
proof fn lemma_pieces_after_lines(others: Seq<Seq<char>>, tail: Seq<char>)
    requires
        forall|i: int| 0 <= i < others.len() ==> !(#[trigger] others[i]).contains('\n'),
    ensures
        text::pieces(ended_lines(others) + tail, '\n') == others + text::pieces(tail, '\n'),
    decreases others.len(),
{
    if others.len() == 0 {
        assert(ended_lines(others) + tail =~= tail);
        assert(others + text::pieces(tail, '\n') =~= text::pieces(tail, '\n'));
    } else {
        let front = others.drop_last();
        let last = others.last();
        assert(!others[others.len() - 1].contains('\n'));
        assert forall|i: int| 0 <= i < front.len() implies !(#[trigger] front[i]).contains('\n') by {
            assert(front[i] == others[i]);
        }
        lemma_pieces_after_lines(front, last + seq!['\n'] + tail);
        text::lemma_pieces_separated(last, tail, '\n');
        text::lemma_pieces_single(last, '\n');
        assert(ended_lines(others) + tail =~= ended_lines(front) + (last + seq!['\n'] + tail));
        assert(others + text::pieces(tail, '\n') =~= front + (seq![last] + text::pieces(
            tail,
            '\n',
        )));
    }
}

/// Text without a separator extends the first piece of what it is put before.
proof fn lemma_pieces_before(a: Seq<char>, b: Seq<char>, sep: char)
    requires
        !a.contains(sep),
    ensures
        text::pieces(a + b, sep).len() == text::pieces(b, sep).len(),
        text::pieces(a + b, sep)[0] == a + text::pieces(b, sep)[0],
    decreases b.len(),
{
    text::lemma_pieces_shape(b, sep);
    if b.len() == 0 {
        assert(a + b =~= a);
        text::lemma_pieces_single(a, sep);
        assert(a + text::pieces(b, sep)[0] =~= a);
    } else {
        let front = b.drop_last();
        lemma_pieces_before(a, front, sep);
        text::lemma_pieces_shape(front, sep);
        assert((a + b).drop_last() =~= a + front);
        assert((a + b).last() == b.last());
        assert(text::pieces(a + b, sep)[0] =~= a + text::pieces(b, sep)[0]);
    }
}

/// The first line that starts with a key is the one before which no line does.
proof fn lemma_line_of(all: Seq<Seq<char>>, key: Seq<char>, k: int)
    requires
        0 <= k <= all.len(),
        forall|i: int| 0 <= i < k ==> !key.is_prefix_of(#[trigger] all[i]),
        k < all.len() ==> key.is_prefix_of(all[k]),
    ensures
        line_of(all, key) == (if k < all.len() {
            Some(all[k])
        } else {
            None
        }),
    decreases all.len(),
{
    if all.len() > 0 && k > 0 {
        let rest = all.drop_first();
        assert(!key.is_prefix_of(all[0]));
        assert forall|i: int| 0 <= i < k - 1 implies !key.is_prefix_of(#[trigger] rest[i]) by {
            assert(rest[i] == all[i + 1]);
        }
        lemma_line_of(rest, key, k - 1);
    }
}

/// A line does not start with a key when the text up to its carriage return does not.
proof fn lemma_not_started(line: Seq<char>, key: Seq<char>)
    requires
        !key.is_prefix_of(line),
    ensures
        !key.is_prefix_of(without_return(line)),
{
    if key.is_prefix_of(without_return(line)) {
        assert(key =~= line.take(key.len() as int));
    }
}

/// What a setting is in a text that holds it after lines which do not start with its key.
proof fn lemma_setting_found(
    others: Seq<Seq<char>>,
    key: Seq<char>,
    gap: Seq<char>,
    value: Seq<char>,
    rest: Seq<char>,
    default: Seq<char>,
)
    requires
        forall|i: int|
            0 <= i < others.len() ==> !(#[trigger] others[i]).contains('\n') && !key.is_prefix_of(
                others[i],
            ),
        !key.contains('\n') && !key.contains('"'),
        !gap.contains('\n') && !gap.contains('"'),
        !value.contains('\n') && !value.contains('"'),
    ensures
        setting(
            ended_lines(others) + (key + gap + seq!['"'] + value + seq!['"'] + rest),
            key,
            default,
        ) == value,
{
    let head = key + gap + seq!['"'] + value + seq!['"'];
    let tail = head + rest;
    let content = ended_lines(others) + tail;
    let pieces = text::pieces(content, '\n');
    let parts = text::pieces(rest, '\n');
    let k = others.len() as int;
    assert(!head.contains('\n')) by {
        assert forall|i: int| 0 <= i < head.len() implies head[i] != '\n' by {
            if i < key.len() {
                assert(key.contains(head[i]));
            } else if i < key.len() + gap.len() {
                assert(gap[i - key.len()] == head[i]);
                assert(gap.contains(head[i]));
            } else if i > key.len() + gap.len() && i < key.len() + gap.len() + 1 + value.len() {
                assert(value[i - key.len() - gap.len() - 1] == head[i]);
                assert(value.contains(head[i]));
            }
        }
    }
    lemma_pieces_after_lines(others, tail);
    lemma_pieces_before(head, rest, '\n');
    text::lemma_pieces_shape(rest, '\n');
    text::lemma_pieces_shape(tail, '\n');
    let all = lines(content);
    let raw = head + parts[0];
    assert(pieces[k] == raw);
    assert(raw.len() > 0);
    let cut = if parts[0].len() > 0 && parts[0].last() == '\r' {
        parts[0].drop_last()
    } else {
        parts[0]
    };
    assert(without_return(raw) =~= head + cut);
    let end = if k < pieces.len() - 1 {
        cut
    } else {
        parts[0]
    };
    assert(k < all.len());
    assert(all[k] == head + end);
    assert forall|i: int| 0 <= i < k implies !key.is_prefix_of(#[trigger] all[i]) by {
        assert(!key.is_prefix_of(others[i]));
        assert(pieces[i] == others[i]);
        lemma_not_started(others[i], key);
    }
    assert(key =~= all[k].take(key.len() as int));
    lemma_line_of(all, key, k);
    lemma_quoted(key + gap, value, end, key, gap);
    assert(head + end =~= (key + gap) + seq!['"'] + (value + seq!['"'] + end));
}

/// The second piece of a line between quotes.
proof fn lemma_quoted(
    start: Seq<char>,
    value: Seq<char>,
    end: Seq<char>,
    key: Seq<char>,
    gap: Seq<char>,
)
    requires
        start == key + gap,
        !key.contains('"'),
        !gap.contains('"'),
        !value.contains('"'),
    ensures
        text::pieces(start + seq!['"'] + (value + seq!['"'] + end), '"').len() > 1,
        text::pieces(start + seq!['"'] + (value + seq!['"'] + end), '"')[1] == value,
{
    assert(!start.contains('"')) by {
        assert forall|i: int| 0 <= i < start.len() implies start[i] != '"' by {
            if i < key.len() {
                assert(key.contains(start[i]));
            } else {
                assert(gap[i - key.len()] == start[i]);
                assert(gap.contains(start[i]));
            }
        }
    }
    text::lemma_pieces_separated(start, value + seq!['"'] + end, '"');
    text::lemma_pieces_single(start, '"');
    text::lemma_pieces_separated(value, end, '"');
    text::lemma_pieces_single(value, '"');
}

/// What a setting is in a text of which no line starts with its key.
proof fn lemma_setting_missing(
    others: Seq<Seq<char>>,
    last: Seq<char>,
    key: Seq<char>,
    default: Seq<char>,
)
    requires
        key.len() > 0,
        forall|i: int|
            0 <= i < others.len() ==> !(#[trigger] others[i]).contains('\n') && !key.is_prefix_of(
                others[i],
            ),
        !last.contains('\n'),
        !key.is_prefix_of(last),
    ensures
        setting(ended_lines(others) + last, key, default) == default,
{
    let content = ended_lines(others) + last;
    let pieces = text::pieces(content, '\n');
    lemma_pieces_after_lines(others, last);
    text::lemma_pieces_single(last, '\n');
    let all = lines(content);
    assert(pieces.drop_last() =~= others);
    assert forall|i: int| 0 <= i < all.len() implies !key.is_prefix_of(#[trigger] all[i]) by {
        if i < others.len() {
            assert(!key.is_prefix_of(others[i]));
            lemma_not_started(others[i], key);
        }
    }
    lemma_line_of(all, key, all.len() as int);
}

proof fn lemma_keys()
    ensures
        "server_url ="@.len() > 0,
        "repo_id ="@.len() > 0,
        !"server_url ="@.contains('\n') && !"server_url ="@.contains('"'),
        !"repo_id ="@.contains('\n') && !"repo_id ="@.contains('"'),
{
    reveal_strlit("server_url =");
    reveal_strlit("repo_id =");
}

/// The URL that a line of the configuration holds between quotes is read, whatever the lines before
/// and after it are, unless an earlier line starts with the same key.
pub proof fn lemma_server_url_read(
    others: Seq<Seq<char>>,
    gap: Seq<char>,
    value: Seq<char>,
    rest: Seq<char>,
    config_str: &str,
    r: JjResult<(String, String)>,
)
    requires
        forall|i: int|
            0 <= i < others.len() ==> !(#[trigger] others[i]).contains('\n')
                && !"server_url ="@.is_prefix_of(others[i]),
        !gap.contains('\n') && !gap.contains('"'),
        !value.contains('\n') && !value.contains('"'),
        config_str@ == ended_lines(others) + ("server_url ="@ + gap + seq!['"'] + value + seq!['"']
            + rest),
        call_ensures(parse_config, (config_str,), r),
    ensures
        r matches Ok((server_url, repo_id)) && server_url@ == value,
{
    lemma_keys();
    lemma_setting_found(
        others,
        "server_url ="@,
        gap,
        value,
        rest,
        "http://localhost:8080"@,
    );
}

/// The id that a line of the configuration holds between quotes is read, whatever the lines before and
/// after it are, unless an earlier line starts with the same key.
pub proof fn lemma_repo_id_read(
    others: Seq<Seq<char>>,
    gap: Seq<char>,
    value: Seq<char>,
    rest: Seq<char>,
    config_str: &str,
    r: JjResult<(String, String)>,
)
    requires
        forall|i: int|
            0 <= i < others.len() ==> !(#[trigger] others[i]).contains('\n')
                && !"repo_id ="@.is_prefix_of(others[i]),
        !gap.contains('\n') && !gap.contains('"'),
        !value.contains('\n') && !value.contains('"'),
        config_str@ == ended_lines(others) + ("repo_id ="@ + gap + seq!['"'] + value + seq!['"']
            + rest),
        call_ensures(parse_config, (config_str,), r),
    ensures
        r matches Ok((server_url, repo_id)) && repo_id@ == value,
{
    lemma_keys();
    lemma_setting_found(others, "repo_id ="@, gap, value, rest, "default"@);
}

/// A setting that no line of the configuration starts with has its default.
pub proof fn lemma_defaults(
    others: Seq<Seq<char>>,
    last: Seq<char>,
    config_str: &str,
    r: JjResult<(String, String)>,
)
    requires
        forall|i: int| 0 <= i < others.len() ==> !(#[trigger] others[i]).contains('\n'),
        !last.contains('\n'),
        config_str@ == ended_lines(others) + last,
        call_ensures(parse_config, (config_str,), r),
    ensures
        r is Ok,
        !"server_url ="@.is_prefix_of(last) && (forall|i: int|
            0 <= i < others.len() ==> !"server_url ="@.is_prefix_of(#[trigger] others[i]))
            ==> r->Ok_0.0@ == "http://localhost:8080"@,
        !"repo_id ="@.is_prefix_of(last) && (forall|i: int|
            0 <= i < others.len() ==> !"repo_id ="@.is_prefix_of(#[trigger] others[i]))
            ==> r->Ok_0.1@ == "default"@,
{
    lemma_keys();
    if !"server_url ="@.is_prefix_of(last) && (forall|i: int|
        0 <= i < others.len() ==> !"server_url ="@.is_prefix_of(#[trigger] others[i])) {
        lemma_setting_missing(others, last, "server_url ="@, "http://localhost:8080"@);
    }
    if !"repo_id ="@.is_prefix_of(last) && (forall|i: int|
        0 <= i < others.len() ==> !"repo_id ="@.is_prefix_of(#[trigger] others[i])) {
        lemma_setting_missing(others, last, "repo_id ="@, "default"@);
    }
}

proof fn lemma_file_names()
    ensures
        paths::is_plain_name("config.toml"@),
        paths::is_plain_name("store"@),
{
    reveal_strlit("config.toml");
    reveal_strlit("store");
    assert("config.toml"@.len() != paths::dot_text().len());
    assert("store"@.len() != paths::dot_text().len());
}

/// The configuration of a store may be in the store, in the directory `store` beside it, or beside it,
/// and these places are tried in that order.
pub proof fn lemma_places(
    base: Seq<char>,
    name: Seq<char>,
    store_path: &str,
    r: Vec<String>,
)
    requires
        store_path@ == paths::joined(base, name),
        paths::is_plain_name(name),
        call_ensures(config_candidates, (store_path,), r),
    ensures
        r@.len() == 3,
        paths::segments(r@[0]@) == paths::segments(base).push(name).push("config.toml"@),
        paths::segments(r@[1]@) == paths::segments(base).push("store"@).push("config.toml"@),
        paths::segments(r@[2]@) == paths::segments(base).push("config.toml"@),
{
    let places = text::views(r@);
    lemma_file_names();
    paths::lemma_segments_joined(base, name);
    paths::lemma_segments_rebuilt(base);
    let all = paths::segments(store_path@);
    assert(all.drop_last() =~= paths::segments(base));
    assert(name.contains(name[0]));
    assert(paths::root_text()[0] == '/');
    assert(all.last() != paths::root_text());
    let parent = paths::joined_all(Seq::empty(), all.drop_last());
    assert(paths::parent(store_path@) == Some(parent));
    paths::lemma_segments_joined(store_path@, "config.toml"@);
    paths::lemma_segments_joined(parent, "store"@);
    paths::lemma_segments_joined(paths::joined(parent, "store"@), "config.toml"@);
    paths::lemma_segments_joined(parent, "config.toml"@);
    assert(places.len() == r@.len());
    assert(places[0] == r@[0]@ && places[1] == r@[1]@ && places[2] == r@[2]@);
}

proof fn lemma_first_existing(places: Seq<Seq<char>>, existing: Seq<bool>, k: int)
    requires
        places.len() == existing.len(),
        0 <= k <= places.len(),
        forall|i: int| 0 <= i < k ==> !#[trigger] existing[i],
        k < places.len() ==> existing[k],
    ensures
        first_existing(places, existing) == (if k < places.len() {
            Some(places[k])
        } else {
            None
        }),
    decreases places.len(),
{
    if places.len() > 0 && k > 0 {
        assert(!existing[0]);
        assert forall|i: int| 0 <= i < k - 1 implies !#[trigger] existing.drop_first()[i] by {
            assert(existing.drop_first()[i] == existing[i + 1]);
        }
        lemma_first_existing(places.drop_first(), existing.drop_first(), k - 1);
    }
}

/// The place of the configuration is the first of the places that exists, and the first of all where
/// none does.
pub proof fn lemma_first_place_taken(
    store_path: &str,
    existing: Vec<bool>,
    k: int,
    places: Vec<String>,
    r: String,
)
    requires
        call_ensures(config_candidates, (store_path,), places),
        existing@.len() == places@.len(),
        0 <= k <= places@.len(),
        forall|i: int| 0 <= i < k ==> !#[trigger] existing@[i],
        k < places@.len() ==> existing@[k],
        call_ensures(get_config_path, (store_path, &existing), r),
    ensures
        places@.len() > 0,
        k < places@.len() ==> r@ == places@[k]@,
        k == places@.len() ==> r@ == places@[0]@,
{
    let all = text::views(places@);
    assert(all.len() == places@.len());
    lemma_first_existing(all, existing@, k);
    assert(all[0] == places@[0]@);
    if k < places@.len() {
        assert(all[k] == places@[k]@);
    }
}

/// The configuration of a store at the empty path or the root can only be in the store.
pub proof fn lemma_one_place(store_path: &str, r: Vec<String>)
    requires
        store_path@ == Seq::<char>::empty() || store_path@ == seq!['/'],
        call_ensures(config_candidates, (store_path,), r),
    ensures
        r@.len() == 1,
        paths::segments(r@[0]@) == paths::segments(store_path@).push("config.toml"@),
{
    let places = text::views(r@);
    lemma_file_names();
    paths::lemma_segments_empty();
    paths::lemma_segments_root();
    paths::lemma_segments_joined(store_path@, "config.toml"@);
    assert(places.len() == r@.len());
    assert(places[0] == r@[0]@);
}

/// The line of a key in a text that holds it after lines which do not start with the key.
proof fn lemma_line_found(
    others: Seq<Seq<char>>,
    key: Seq<char>,
    line: Seq<char>,
    ending: Seq<char>,
)
    requires
        forall|i: int|
            0 <= i < others.len() ==> !(#[trigger] others[i]).contains('\n') && !key.is_prefix_of(
                others[i],
            ),
        key.is_prefix_of(line),
        line.len() > 0,
        !line.contains('\n'),
        line.last() != '\r',
        ending.len() == 0 || ending[0] == '\n',
    ensures
        line_of(lines(ended_lines(others) + (line + ending)), key) == Some(line),
{
    let nothing = Seq::<char>::empty();
    let content = ended_lines(others) + (line + ending);
    let pieces = text::pieces(content, '\n');
    let parts = text::pieces(ending, '\n');
    let k = others.len() as int;
    lemma_pieces_after_lines(others, line + ending);
    lemma_pieces_before(line, ending, '\n');
    text::lemma_pieces_shape(ending, '\n');
    assert(parts[0] =~= nothing) by {
        if ending.len() > 0 {
            let rest = ending.drop_first();
            assert(ending =~= nothing + seq!['\n'] + rest);
            text::lemma_pieces_separated(nothing, rest, '\n');
            assert(text::pieces(nothing, '\n') =~= seq![nothing]);
        }
    }
    let all = lines(content);
    assert(line + parts[0] =~= line);
    assert(pieces[k] == line);
    assert(without_return(line) == line);
    assert(k < all.len());
    assert(all[k] == line);
    assert forall|i: int| 0 <= i < k implies !key.is_prefix_of(#[trigger] all[i]) by {
        assert(!key.is_prefix_of(others[i]));
        assert(pieces[i] == others[i]);
        lemma_not_started(others[i], key);
    }
    lemma_line_of(all, key, k);
}

/// Where the first line that starts with a key has no quote, the setting has its default, whatever
/// follows.
pub proof fn lemma_unquoted_settings(
    others: Seq<Seq<char>>,
    line: Seq<char>,
    ending: Seq<char>,
    config_str: &str,
    r: JjResult<(String, String)>,
)
    requires
        line.len() > 0,
        !line.contains('\n'),
        !line.contains('"'),
        line.last() != '\r',
        ending.len() == 0 || ending[0] == '\n',
        config_str@ == ended_lines(others) + (line + ending),
        call_ensures(parse_config, (config_str,), r),
    ensures
        r is Ok,
        "server_url ="@.is_prefix_of(line) && (forall|i: int|
            0 <= i < others.len() ==> !(#[trigger] others[i]).contains('\n')
                && !"server_url ="@.is_prefix_of(others[i])) ==> r->Ok_0.0@
            == "http://localhost:8080"@,
        "repo_id ="@.is_prefix_of(line) && (forall|i: int|
            0 <= i < others.len() ==> !(#[trigger] others[i]).contains('\n')
                && !"repo_id ="@.is_prefix_of(others[i])) ==> r->Ok_0.1@ == "default"@,
{
    text::lemma_pieces_single(line, '"');
    if "server_url ="@.is_prefix_of(line) && (forall|i: int|
        0 <= i < others.len() ==> !(#[trigger] others[i]).contains('\n')
            && !"server_url ="@.is_prefix_of(others[i])) {
        lemma_line_found(others, "server_url ="@, line, ending);
    }
    if "repo_id ="@.is_prefix_of(line) && (forall|i: int|
        0 <= i < others.len() ==> !(#[trigger] others[i]).contains('\n')
            && !"repo_id ="@.is_prefix_of(others[i])) {
        lemma_line_found(others, "repo_id ="@, line, ending);
    }
}

/// Where the first line that starts with a key has one quote, the setting is what follows the quote in
/// that line.
pub proof fn lemma_unclosed_settings(
    others: Seq<Seq<char>>,
    start: Seq<char>,
    value: Seq<char>,
    ending: Seq<char>,
    config_str: &str,
    r: JjResult<(String, String)>,
)
    requires
        !start.contains('\n') && !start.contains('"'),
        !value.contains('\n') && !value.contains('"'),
        value.len() > 0 ==> value.last() != '\r',
        ending.len() == 0 || ending[0] == '\n',
        config_str@ == ended_lines(others) + (start + seq!['"'] + value + ending),
        call_ensures(parse_config, (config_str,), r),
    ensures
        r is Ok,
        "server_url ="@.is_prefix_of(start) && (forall|i: int|
            0 <= i < others.len() ==> !(#[trigger] others[i]).contains('\n')
                && !"server_url ="@.is_prefix_of(others[i])) ==> r->Ok_0.0@ == value,
        "repo_id ="@.is_prefix_of(start) && (forall|i: int|
            0 <= i < others.len() ==> !(#[trigger] others[i]).contains('\n')
                && !"repo_id ="@.is_prefix_of(others[i])) ==> r->Ok_0.1@ == value,
{
    let line = start + seq!['"'] + value;
    assert(!line.contains('\n')) by {
        assert forall|i: int| 0 <= i < line.len() implies line[i] != '\n' by {
            if i < start.len() {
                assert(start.contains(line[i]));
            } else if i > start.len() {
                assert(value[i - start.len() - 1] == line[i]);
                assert(value.contains(line[i]));
            }
        }
    }
    text::lemma_pieces_separated(start, value, '"');
    text::lemma_pieces_single(start, '"');
    text::lemma_pieces_single(value, '"');
    if "server_url ="@.is_prefix_of(start) && (forall|i: int|
        0 <= i < others.len() ==> !(#[trigger] others[i]).contains('\n')
            && !"server_url ="@.is_prefix_of(others[i])) {
        assert("server_url ="@ =~= line.take("server_url ="@.len() as int));
        lemma_line_found(others, "server_url ="@, line, ending);
    }
    if "repo_id ="@.is_prefix_of(start) && (forall|i: int|
        0 <= i < others.len() ==> !(#[trigger] others[i]).contains('\n')
            && !"repo_id ="@.is_prefix_of(others[i])) {
        assert("repo_id ="@ =~= line.take("repo_id ="@.len() as int));
        lemma_line_found(others, "repo_id ="@, line, ending);
    }
}

} // verus!
