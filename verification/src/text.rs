//! Text comparisons and formatting on `str` and `String`.

use vstd::prelude::*;
use vstd::string::*;
use vstd::utf8::*;

verus! {

/// Whether the bytes `a` come before the bytes `b`, or equal them, in lexicographic order.
pub open spec fn bytes_le(a: Seq<u8>, b: Seq<u8>) -> bool
    decreases a.len(),
{
    a.len() == 0 || (b.len() > 0 && (a[0] < b[0] || (a[0] == b[0] && bytes_le(
        a.drop_first(),
        b.drop_first(),
    ))))
}

/// The order of strings: that of their UTF-8 bytes.
pub open spec fn text_le(a: Seq<char>, b: Seq<char>) -> bool {
    bytes_le(encode_utf8(a), encode_utf8(b))
}

/// The views of a sequence of strings.
pub open spec fn views(strings: Seq<String>) -> Seq<Seq<char>> {
    strings.map_values(|s: String| s@)
}

proof fn lemma_bytes_le_total(a: Seq<u8>, b: Seq<u8>)
    ensures
        bytes_le(a, b) || bytes_le(b, a),
    decreases a.len(),
{
    if a.len() > 0 && b.len() > 0 {
        lemma_bytes_le_total(a.drop_first(), b.drop_first());
    }
}

proof fn lemma_bytes_le_transitive(a: Seq<u8>, b: Seq<u8>, c: Seq<u8>)
    requires
        bytes_le(a, b),
        bytes_le(b, c),
    ensures
        bytes_le(a, c),
    decreases a.len(),
{
    if a.len() > 0 && a[0] == b[0] && b[0] == c[0] {
        lemma_bytes_le_transitive(a.drop_first(), b.drop_first(), c.drop_first());
    }
}

proof fn lemma_bytes_le_antisymmetric(a: Seq<u8>, b: Seq<u8>)
    requires
        bytes_le(a, b),
        bytes_le(b, a),
    ensures
        a == b,
    decreases a.len(),
{
    if a.len() > 0 {
        lemma_bytes_le_antisymmetric(a.drop_first(), b.drop_first());
        assert(a =~= seq![a[0]] + a.drop_first());
        assert(b =~= seq![b[0]] + b.drop_first());
    } else {
        assert(a =~= b);
    }
}

/// The order of strings is total.
pub proof fn lemma_text_le_total(a: Seq<char>, b: Seq<char>)
    ensures
        text_le(a, b) || text_le(b, a),
{
    lemma_bytes_le_total(encode_utf8(a), encode_utf8(b));
}

/// The order of strings is transitive.
pub proof fn lemma_text_le_transitive(a: Seq<char>, b: Seq<char>, c: Seq<char>)
    requires
        text_le(a, b),
        text_le(b, c),
    ensures
        text_le(a, c),
{
    lemma_bytes_le_transitive(encode_utf8(a), encode_utf8(b), encode_utf8(c));
}

/// Two strings of which each comes before the other or equals it are one string.
pub proof fn lemma_text_le_antisymmetric(a: Seq<char>, b: Seq<char>)
    requires
        text_le(a, b),
        text_le(b, a),
    ensures
        a == b,
{
    lemma_bytes_le_antisymmetric(encode_utf8(a), encode_utf8(b));
    encode_utf8_decode_utf8(a);
    encode_utf8_decode_utf8(b);
}

/// Whether `a` comes before `b`.
pub open spec fn text_lt(a: Seq<char>, b: Seq<char>) -> bool {
    text_le(a, b) && a != b
}

/// Whether each string of a list comes before all that follow it.
pub open spec fn ascends(names: Seq<Seq<char>>) -> bool {
    forall|i: int, j: int|
        0 <= i < j < names.len() ==> text_lt(#[trigger] names[i], #[trigger] names[j])
}

/// No string occurs twice in an ascending list.
pub proof fn lemma_ascends_distinct(names: Seq<Seq<char>>)
    requires
        ascends(names),
    ensures
        names.no_duplicates(),
{
    assert forall|i: int, j: int|
        0 <= i < names.len() && 0 <= j < names.len() && i != j implies names[i] != names[j] by {
        if i < j {
            assert(text_lt(names[i], names[j]));
        } else {
            assert(text_lt(names[j], names[i]));
        }
    }
}

/// A list ascends as far as one string further exactly where that string comes after the one before
/// it.
pub proof fn lemma_ascends_further(names: Seq<Seq<char>>, i: int)
    requires
        0 <= i < names.len(),
        ascends(names.take(i)),
    ensures
        ascends(names.take(i + 1)) <==> i == 0 || text_lt(names[i - 1], names[i]),
{
    let before = names.take(i);
    let after = names.take(i + 1);
    if i > 0 {
        assert(after[i - 1] == names[i - 1]);
        assert(after[i] == names[i]);
    }
    if i == 0 || text_lt(names[i - 1], names[i]) {
        assert forall|j: int, k: int| 0 <= j < k < after.len() implies text_lt(
            #[trigger] after[j],
            #[trigger] after[k],
        ) by {
            if k < i {
                assert(before[j] == after[j] && before[k] == after[k]);
            } else if j < i - 1 {
                assert(before[j] == after[j] && before[i - 1] == after[i - 1]);
                assert(text_lt(before[j], before[i - 1]));
                lemma_text_le_transitive(after[j], after[i - 1], after[k]);
                if after[j] == after[k] {
                    lemma_text_le_antisymmetric(after[j], after[i - 1]);
                }
            }
        }
    }
}

/// The start of an ascending list ascends.
pub proof fn lemma_ascends_start(names: Seq<Seq<char>>, i: int)
    requires
        0 <= i <= names.len(),
        ascends(names),
    ensures
        ascends(names.take(i)),
{
    let start = names.take(i);
    assert forall|j: int, k: int| 0 <= j < k < start.len() implies text_lt(
        #[trigger] start[j],
        #[trigger] start[k],
    ) by {
        assert(start[j] == names[j] && start[k] == names[k]);
    }
}

/// Whether two strings hold the same text.
pub fn text_eq(a: &str, b: &str) -> (r: bool)
    ensures
        r == (a@ == b@),
{
    let x = a.as_bytes();
    let y = b.as_bytes();
    proof {
        encode_utf8_decode_utf8(a@);
        encode_utf8_decode_utf8(b@);
    }
    if x.len() != y.len() {
        return false;
    }
    let mut i: usize = 0;
    while i < x.len()
        invariant
            i <= x@.len(),
            x@.len() == y@.len(),
            x@ == encode_utf8(a@),
            y@ == encode_utf8(b@),
            forall|j: int| 0 <= j < i ==> x@[j] == y@[j],
        decreases x@.len() - i,
    {
        if x[i] != y[i] {
            return false;
        }
        i = i + 1;
    }
    assert(x@ =~= y@);
    true
}

/// Whether `a` comes before `b` or equals it.
pub fn is_text_le(a: &str, b: &str) -> (r: bool)
    ensures
        r == text_le(a@, b@),
{
    let x = a.as_bytes();
    let y = b.as_bytes();
    let mut i: usize = 0;
    assert(x@.skip(0) =~= x@);
    assert(y@.skip(0) =~= y@);
    while i < x.len()
        invariant
            i <= x@.len(),
            i <= y@.len(),
            x@ == encode_utf8(a@),
            y@ == encode_utf8(b@),
            text_le(a@, b@) == bytes_le(x@.skip(i as int), y@.skip(i as int)),
        decreases x@.len() - i,
    {
        if i >= y.len() {
            return false;
        }
        if x[i] != y[i] {
            return x[i] < y[i];
        }
        assert(x@.skip(i as int).drop_first() =~= x@.skip(i + 1));
        assert(y@.skip(i as int).drop_first() =~= y@.skip(i + 1));
        i = i + 1;
    }
    true
}

/// Whether `a` comes before `b`.
pub fn is_text_lt(a: &str, b: &str) -> (r: bool)
    ensures
        r == text_lt(a@, b@),
{
    is_text_le(a, b) && !text_eq(a, b)
}

/// The characters of a string.
pub fn chars_of(s: &str) -> (r: Vec<char>)
    ensures
        r@ == s@,
{
    let mut v: Vec<char> = Vec::new();
    for c in it: s.chars()
        invariant
            it.seq() == s@,
            v@ == it.seq().take(it.index() as int),
    {
        v.push(c);
    }
    v
}

/// The first place of a text in a list is the one before which it does not occur.
pub proof fn lemma_first_place(names: Seq<Seq<char>>, name: Seq<char>, i: int)
    requires
        0 <= i <= names.len(),
        forall|j: int| 0 <= j < i ==> #[trigger] names[j] != name,
    ensures
        i == names.len() ==> names.index_of_first(name) is None,
        i < names.len() && names[i] == name ==> names.index_of_first(name) == Some(i),
{
    names.index_of_first_ensures(name);
    if i < names.len() && names[i] == name {
        let first = names.index_of_first(name)->0;
        assert(first == i) by {
            if first < i {
                assert(names[first] != name);
            }
        }
    }
}

/// What `sep` separates in `s`: one more piece than there are separators.
pub open spec fn pieces(s: Seq<char>, sep: char) -> Seq<Seq<char>>
    decreases s.len(),
{
    if s.len() == 0 {
        seq![s]
    } else {
        let front = pieces(s.drop_last(), sep);
        if s.last() == sep {
            front.push(Seq::empty())
        } else {
            front.drop_last().push(front.last().push(s.last()))
        }
    }
}

/// There is at least one piece, and no piece holds the separator.
pub proof fn lemma_pieces_shape(s: Seq<char>, sep: char)
    ensures
        pieces(s, sep).len() >= 1,
        forall|i: int| 0 <= i < pieces(s, sep).len() ==> !(#[trigger] pieces(s, sep)[i]).contains(sep),
    decreases s.len(),
{
    if s.len() > 0 {
        lemma_pieces_shape(s.drop_last(), sep);
        let front = pieces(s.drop_last(), sep);
        if s.last() != sep {
            let piece = front.last().push(s.last());
            assert(!front[front.len() - 1].contains(sep));
            assert forall|j: int| 0 <= j < piece.len() implies piece[j] != sep by {
                if j < front.last().len() {
                    assert(front.last()[j] == piece[j]);
                    assert(front.last().contains(piece[j]));
                }
            }
        }
    }
}

/// The pieces of two texts with a separator between them are the pieces of both.
pub proof fn lemma_pieces_separated(a: Seq<char>, b: Seq<char>, sep: char)
    ensures
        pieces(a + seq![sep] + b, sep) == pieces(a, sep) + pieces(b, sep),
    decreases b.len(),
{
    let whole = a + seq![sep] + b;
    lemma_pieces_shape(a, sep);
    lemma_pieces_shape(b, sep);
    if b.len() == 0 {
        assert(whole.drop_last() =~= a);
        assert(b =~= Seq::empty());
        assert(pieces(whole, sep) =~= pieces(a, sep) + pieces(b, sep));
    } else {
        lemma_pieces_separated(a, b.drop_last(), sep);
        lemma_pieces_shape(b.drop_last(), sep);
        assert(whole.drop_last() =~= a + seq![sep] + b.drop_last());
        assert(whole.last() == b.last());
        assert(pieces(whole, sep) =~= pieces(a, sep) + pieces(b, sep));
    }
}

/// Text without a separator extends the last piece of what it is appended to.
pub proof fn lemma_pieces_extended(a: Seq<char>, b: Seq<char>, sep: char)
    requires
        !b.contains(sep),
    ensures
        pieces(a + b, sep) == pieces(a, sep).drop_last().push(pieces(a, sep).last() + b),
    decreases b.len(),
{
    lemma_pieces_shape(a, sep);
    let whole = a + b;
    if b.len() == 0 {
        assert(whole =~= a);
        assert(pieces(a, sep).last() + b =~= pieces(a, sep).last());
        assert(pieces(a, sep) =~= pieces(a, sep).drop_last().push(pieces(a, sep).last()));
    } else {
        assert(b.contains(b.last()));
        assert(!b.drop_last().contains(sep)) by {
            assert(forall|i: int|
                0 <= i < b.drop_last().len() ==> b.drop_last()[i] == #[trigger] b[i]);
        }
        lemma_pieces_extended(a, b.drop_last(), sep);
        assert(whole.drop_last() =~= a + b.drop_last());
        assert(whole.last() == b.last());
        let longer = pieces(a, sep).last() + b.drop_last();
        assert(longer.push(b.last()) =~= pieces(a, sep).last() + b);
        assert(pieces(whole, sep) =~= pieces(a, sep).drop_last().push(
            pieces(a, sep).last() + b,
        ));
    }
}

/// Text without a separator is one piece.
pub proof fn lemma_pieces_single(s: Seq<char>, sep: char)
    requires
        !s.contains(sep),
    ensures
        pieces(s, sep) == seq![s],
{
    let nothing = Seq::<char>::empty();
    lemma_pieces_extended(nothing, s, sep);
    assert(nothing + s =~= s);
    assert(pieces(s, sep) =~= seq![s]);
}

/// The pieces of `s` between its separators.
pub fn split(s: &str, sep: char) -> (r: Vec<String>)
    ensures
        views(r@) == pieces(s@, sep),
{
    let chars = chars_of(s);
    let mut out: Vec<String> = Vec::new();
    let mut start: usize = 0;
    let mut i: usize = 0;
    assert(s@.take(0) =~= Seq::empty());
    assert(s@.subrange(0, 0) =~= Seq::empty());
    assert(views(out@).push(s@.subrange(0, 0)) =~= seq![Seq::<char>::empty()]);
    while i < chars.len()
        invariant
            chars@ == s@,
            start <= i <= chars@.len(),
            pieces(s@.take(i as int), sep) == views(out@).push(s@.subrange(start as int, i as int)),
        decreases chars@.len() - i,
    {
        let ghost before = s@.take(i as int);
        let ghost piece = s@.subrange(start as int, i as int);
        assert(s@.take(i + 1).drop_last() =~= before);
        assert(s@.take(i + 1).last() == s@[i as int]);
        assert(views(out@).push(piece).drop_last() =~= views(out@));
        if chars[i] == sep {
            let ghost done = out@;
            out.push(s.substring_char(start, i).to_owned());
            start = i + 1;
            assert(views(out@) =~= views(done).push(piece));
            assert(s@.subrange(i + 1, i + 1) =~= Seq::empty());
        } else {
            assert(s@.subrange(start as int, i + 1) =~= piece.push(s@[i as int]));
        }
        i = i + 1;
    }
    let ghost done = out@;
    out.push(s.substring_char(start, i).to_owned());
    assert(s@.take(i as int) =~= s@);
    assert(views(out@) =~= views(done).push(s@.subrange(start as int, i as int)));
    out
}

/// The decimal digits of a number.
pub open spec fn decimal(n: nat) -> Seq<char>
    decreases n,
{
    if n < 10 {
        seq![digit_char(n)]
    } else {
        decimal(n / 10).push(digit_char(n % 10))
    }
}

/// The character of one decimal digit.
pub open spec fn digit_char(d: nat) -> char {
    (d + 48) as char
}

fn digit_text(d: u64) -> (r: &'static str)
    requires
        d < 10,
    ensures
        r@ == seq![digit_char(d as nat)],
{
    proof {
        reveal_strlit("0");
        reveal_strlit("1");
        reveal_strlit("2");
        reveal_strlit("3");
        reveal_strlit("4");
        reveal_strlit("5");
        reveal_strlit("6");
        reveal_strlit("7");
        reveal_strlit("8");
        reveal_strlit("9");
    }
    let r: &'static str = match d {
        0 => "0",
        1 => "1",
        2 => "2",
        3 => "3",
        4 => "4",
        5 => "5",
        6 => "6",
        7 => "7",
        8 => "8",
        _ => "9",
    };
    assert(r@ =~= seq![digit_char(d as nat)]);
    r
}

/// The number written in decimal.
pub fn decimal_text(n: u64) -> (r: String)
    ensures
        r@ == decimal(n as nat),
    decreases n,
{
    if n < 10 {
        digit_text(n).to_owned()
    } else {
        let mut s = decimal_text(n / 10);
        s.append(digit_text(n % 10));
        assert(s@ =~= decimal((n / 10) as nat).push(digit_char((n % 10) as nat)));
        s
    }
}

/// The text of parts with a separator between each two of them.
pub open spec fn separated(parts: Seq<Seq<char>>, sep: char) -> Seq<char>
    decreases parts.len(),
{
    if parts.len() == 0 {
        Seq::empty()
    } else if parts.len() == 1 {
        parts[0]
    } else {
        separated(parts.drop_last(), sep) + seq![sep] + parts.last()
    }
}

/// Appending to the last part appends to the text.
proof fn lemma_separated_extended(parts: Seq<Seq<char>>, more: Seq<char>, sep: char)
    requires
        parts.len() > 0,
    ensures
        separated(parts.drop_last().push(parts.last() + more), sep) == separated(parts, sep) + more,
{
    let longer = parts.drop_last().push(parts.last() + more);
    assert(longer.drop_last() =~= parts.drop_last());
    assert(separated(longer, sep) =~= separated(parts, sep) + more);
}

proof fn lemma_pieces_rejoin(s: Seq<char>, sep: char)
    ensures
        separated(pieces(s, sep), sep) == s,
    decreases s.len(),
{
    if s.len() > 0 {
        let front = pieces(s.drop_last(), sep);
        lemma_pieces_rejoin(s.drop_last(), sep);
        lemma_pieces_shape(s.drop_last(), sep);
        if s.last() == sep {
            let all = front.push(Seq::<char>::empty());
            assert(all.drop_last() =~= front);
            assert(separated(all, sep) =~= s);
        } else {
            lemma_separated_extended(front, seq![s.last()], sep);
            assert(front.last() + seq![s.last()] =~= front.last().push(s.last()));
            assert(s.drop_last() + seq![s.last()] =~= s);
        }
    }
}

/// Splitting a text loses nothing: the parts with the separator between them are the text, and the
/// separator is in none of the parts.
pub proof fn lemma_split_rejoins(s: &str, sep: char, r: Vec<String>)
    requires
        call_ensures(split, (s, sep), r),
    ensures
        r@.len() > 0,
        separated(views(r@), sep) == s@,
        forall|i: int| 0 <= i < r@.len() ==> !(#[trigger] r@[i])@.contains(sep),
{
    lemma_pieces_rejoin(s@, sep);
    lemma_pieces_shape(s@, sep);
    assert forall|i: int| 0 <= i < r@.len() implies !(#[trigger] r@[i])@.contains(sep) by {
        assert(views(r@)[i] == r@[i]@);
    }
}

proof fn lemma_bytes_le_difference(start: Seq<u8>, x: u8, y: u8, a: Seq<u8>, b: Seq<u8>)
    requires
        x != y,
    ensures
        bytes_le(start + seq![x] + a, start + seq![y] + b) <==> x < y,
    decreases start.len(),
{
    let s = start + seq![x] + a;
    let t = start + seq![y] + b;
    if start.len() > 0 {
        lemma_bytes_le_difference(start.drop_first(), x, y, a, b);
        assert(s.drop_first() =~= start.drop_first() + seq![x] + a);
        assert(t.drop_first() =~= start.drop_first() + seq![y] + b);
    }
}

proof fn lemma_bytes_le_longer(a: Seq<u8>, more: Seq<u8>)
    ensures
        bytes_le(a, a + more),
    decreases a.len(),
{
    if a.len() > 0 {
        lemma_bytes_le_longer(a.drop_first(), more);
        assert((a + more).drop_first() =~= a.drop_first() + more);
    }
}

/// Of two texts, that with the smaller byte where they first differ comes first.
pub proof fn lemma_first_difference(
    a: &str,
    b: &str,
    start: Seq<u8>,
    x: u8,
    y: u8,
    rest_a: Seq<u8>,
    rest_b: Seq<u8>,
    r: bool,
)
    requires
        encode_utf8(a@) == start + seq![x] + rest_a,
        encode_utf8(b@) == start + seq![y] + rest_b,
        x != y,
        call_ensures(is_text_le, (a, b), r),
    ensures
        r <==> x < y,
{
    lemma_bytes_le_difference(start, x, y, rest_a, rest_b);
}

/// A text comes before every longer text that starts with it, and never after it.
pub proof fn lemma_start_comes_first(a: &str, b: &str, more: Seq<u8>, forth: bool, back: bool)
    requires
        encode_utf8(b@) == encode_utf8(a@) + more,
        more.len() > 0,
        call_ensures(is_text_le, (a, b), forth),
        call_ensures(is_text_le, (b, a), back),
    ensures
        forth,
        !back,
{
    lemma_bytes_le_longer(encode_utf8(a@), more);
    if back {
        lemma_bytes_le_antisymmetric(encode_utf8(a@), encode_utf8(b@));
        assert(encode_utf8(a@).len() == encode_utf8(b@).len());
    }
}

/// The number that decimal digits stand for.
pub open spec fn decimal_value(digits: Seq<char>) -> nat
    decreases digits.len(),
{
    if digits.len() == 0 {
        0
    } else {
        10 * decimal_value(digits.drop_last()) + (digits.last() as nat - '0' as nat) as nat
    }
}

pub(crate) proof fn lemma_decimal(n: nat)
    ensures
        decimal(n).len() > 0,
        decimal_value(decimal(n)) == n,
        forall|i: int| 0 <= i < decimal(n).len() ==> '0' <= #[trigger] decimal(n)[i] <= '9',
        decimal(n)[0] == '0' ==> n == 0,
        n == 0 ==> decimal(n).len() == 1,
    decreases n,
{
    if n < 10 {
        assert(decimal(n).drop_last() =~= Seq::empty());
        assert(decimal_value(decimal(n).drop_last()) == 0);
    } else {
        lemma_decimal(n / 10);
        assert(decimal(n).drop_last() =~= decimal(n / 10));
        assert(decimal(n)[0] == decimal(n / 10)[0]);
    }
}

/// A number in decimal reads back as that number. It holds digits alone, and no zero before others.
pub proof fn lemma_decimal_reads_back(n: u64, r: String)
    requires
        call_ensures(decimal_text, (n,), r),
    ensures
        decimal_value(r@) == n,
        r@.len() > 0,
        forall|i: int| 0 <= i < r@.len() ==> '0' <= #[trigger] r@[i] <= '9',
        r@.len() > 1 ==> r@[0] != '0',
{
    lemma_decimal(n as nat);
}

} // verus!
