//! Commit ids and their hexadecimal text.

use jj_lib::object_id::ObjectId;
use vstd::prelude::*;

use crate::paths;

verus! {

/// The id of a commit.
#[derive(Debug, PartialEq, Eq)]
pub struct CommitId {
    pub bytes: Vec<u8>,
}

impl View for CommitId {
    type V = Seq<u8>;

    open spec fn view(&self) -> Seq<u8> {
        self.bytes@
    }
}

impl Clone for CommitId {
    fn clone(&self) -> (r: Self)
        ensures
            r@ == self@,
    {
        let bytes = self.bytes.clone();
        assert(bytes@ =~= self@);
        CommitId { bytes }
    }
}

/// The bytes of each id of a list.
pub open spec fn id_views(ids: Seq<CommitId>) -> Seq<Seq<u8>> {
    ids.map_values(|id: CommitId| id@)
}

/// The ids that are present among a list of terms, in order.
pub open spec fn present_ids(terms: Seq<Option<CommitId>>) -> Seq<Seq<u8>>
    decreases terms.len(),
{
    if terms.len() == 0 {
        Seq::empty()
    } else {
        present_ids(terms.drop_last()) + present(terms.last())
    }
}

/// The id, if there is one.
pub open spec fn present(term: Option<CommitId>) -> Seq<Seq<u8>> {
    match term {
        Some(id) => seq![id@],
        None => Seq::empty(),
    }
}

/// The value of a hexadecimal digit, in either case.
pub open spec fn hex_value(c: char) -> Option<u8> {
    if '0' <= c <= '9' {
        Some((c as u32 - 48) as u8)
    } else if 'a' <= c <= 'f' {
        Some((c as u32 - 87) as u8)
    } else if 'A' <= c <= 'F' {
        Some((c as u32 - 55) as u8)
    } else {
        None
    }
}

/// The lower-case digit of a value below sixteen.
pub open spec fn hex_digit(v: u8) -> char {
    if v < 10 {
        (v + 48) as char
    } else {
        (v + 87) as char
    }
}

/// Whether a text is an even number of hexadecimal digits.
pub open spec fn is_hex(text: Seq<char>) -> bool {
    &&& text.len() % 2 == 0
    &&& forall|i: int| 0 <= i < text.len() ==> hex_value(#[trigger] text[i]) is Some
}

/// The bytes that hexadecimal text stands for, two digits to a byte.
pub open spec fn hex_bytes(text: Seq<char>) -> Seq<u8> {
    Seq::new(
        text.len() / 2,
        |i: int| (16 * hex_value(text[2 * i])->0 + hex_value(text[2 * i + 1])->0) as u8,
    )
}

/// Bytes as lower-case hexadecimal text.
pub open spec fn hex_text(bytes: Seq<u8>) -> Seq<char> {
    Seq::new(
        2 * bytes.len(),
        |i: int|
            hex_digit(
                if i % 2 == 0 {
                    bytes[i / 2] / 16
                } else {
                    bytes[i / 2] % 16
                },
            ),
    )
}

/// The text with its upper-case hexadecimal digits in lower case.
pub open spec fn lower_hex(text: Seq<char>) -> Seq<char> {
    text.map_values(
        |c: char|
            if 'A' <= c <= 'F' {
                (c as u32 + 32) as char
            } else {
                c
            },
    )
}

/// Calls `jj_lib::backend::CommitId::try_from_hex` and takes the bytes of the id.
///
/// Trusted: an even number of hexadecimal digits, in either case, gives the bytes they stand for;
/// any other text gives nothing.
#[verifier::external_body]
fn decode_hex(hex: &str) -> (r: Option<Vec<u8>>)
    ensures
        match r {
            Some(bytes) => is_hex(hex@) && bytes@ == hex_bytes(hex@),
            None => !is_hex(hex@),
        },
{
    match jj_lib::backend::CommitId::try_from_hex(hex) {
        Some(id) => Some(id.to_bytes()),
        None => None,
    }
}

/// Calls `jj_lib::object_id::ObjectId::hex` on a `jj_lib::backend::CommitId` of the given bytes.
///
/// Trusted: the text is two lower-case hexadecimal digits for each byte, the high one first.
#[verifier::external_body]
fn encode_hex(bytes: &[u8]) -> (r: String)
    ensures
        r@ == hex_text(bytes@),
{
    jj_lib::backend::CommitId::from_bytes(bytes).hex()
}

impl CommitId {
    /// An id of the given bytes.
    pub fn new(bytes: Vec<u8>) -> (r: Self)
        ensures
            r@ == bytes@,
    {
        CommitId { bytes }
    }

    /// Reads an id from hexadecimal text.
    pub fn try_from_hex(hex: &str) -> (r: Option<Self>)
        ensures
            match r {
                Some(id) => is_hex(hex@) && id@ == hex_bytes(hex@),
                None => !is_hex(hex@),
            },
    {
        match decode_hex(hex) {
            Some(bytes) => Some(CommitId { bytes }),
            None => None,
        }
    }

    /// The id as lower-case hexadecimal text.
    pub fn hex(&self) -> (r: String)
        ensures
            r@ == hex_text(self@),
    {
        encode_hex(self.bytes.as_slice())
    }

    /// Whether two ids are the same.
    pub fn same(&self, other: &CommitId) -> (r: bool)
        ensures
            r == (self@ == other@),
    {
        if self.bytes.len() != other.bytes.len() {
            return false;
        }
        let mut i: usize = 0;
        while i < self.bytes.len()
            invariant
                i <= self@.len(),
                self@.len() == other@.len(),
                forall|j: int| 0 <= j < i ==> self@[j] == other@[j],
            decreases self@.len() - i,
        {
            if self.bytes[i] != other.bytes[i] {
                return false;
            }
            i = i + 1;
        }
        assert(self@ =~= other@);
        true
    }
}

/// The hexadecimal text of an id reads back as that id.
pub proof fn lemma_hex_round_trip(bytes: Seq<u8>)
    ensures
        is_hex(hex_text(bytes)),
        hex_bytes(hex_text(bytes)) == bytes,
{
    let text = hex_text(bytes);
    assert forall|i: int| 0 <= i < text.len() implies hex_value(#[trigger] text[i]) == Some(
        if i % 2 == 0 {
            bytes[i / 2] / 16
        } else {
            bytes[i / 2] % 16
        },
    ) by {
        lemma_digit_value(
            if i % 2 == 0 {
                bytes[i / 2] / 16
            } else {
                bytes[i / 2] % 16
            },
        );
    }
    assert forall|i: int| 0 <= i < bytes.len() implies hex_bytes(text)[i] == bytes[i] by {
        assert(hex_value(text[2 * i]) == Some(bytes[i] / 16u8));
        assert(hex_value(text[2 * i + 1]) == Some(bytes[i] % 16u8));
    }
    assert(hex_bytes(text) =~= bytes);
}

/// Text that reads as an id is the text of that id, but for the case of its digits.
pub proof fn lemma_hex_text_of_parsed(text: Seq<char>)
    requires
        is_hex(text),
    ensures
        hex_text(hex_bytes(text)) == lower_hex(text),
{
    let bytes = hex_bytes(text);
    assert(hex_text(bytes).len() == text.len());
    assert forall|i: int| 0 <= i < text.len() implies hex_text(bytes)[i] == lower_hex(text)[i] by {
        let high = hex_value(text[2 * (i / 2)])->0;
        let low = hex_value(text[2 * (i / 2) + 1])->0;
        assert(hex_value(text[2 * (i / 2)]) is Some);
        assert(hex_value(text[2 * (i / 2) + 1]) is Some);
        assert(bytes[i / 2] == 16 * high + low);
        assert(hex_value(text[i]) is Some);
        lemma_value_digit(text[i]);
    }
    assert(hex_text(bytes) =~= lower_hex(text));
}

proof fn lemma_digit_value(v: u8)
    requires
        v < 16,
    ensures
        hex_value(hex_digit(v)) == Some(v),
{
}

proof fn lemma_value_digit(c: char)
    requires
        hex_value(c) is Some,
    ensures
        hex_digit(hex_value(c)->0) == (if 'A' <= c <= 'F' {
            (c as u32 + 32) as char
        } else {
            c
        }),
{
}

/// The text of an id reads back as that id.
pub proof fn lemma_hex_reads_back(id: CommitId, text: String, hex: &str, r: Option<CommitId>)
    requires
        call_ensures(CommitId::hex, (&id,), text),
        hex@ == text@,
        call_ensures(CommitId::try_from_hex, (hex,), r),
    ensures
        r matches Some(found) && found@ == id@,
{
    lemma_hex_round_trip(id@);
}

/// The text of an id is two lower-case hexadecimal digits for each byte, the high one first.
pub proof fn lemma_hex_digits(id: CommitId, text: String, i: int)
    requires
        call_ensures(CommitId::hex, (&id,), text),
        0 <= i < id@.len(),
    ensures
        text@.len() == 2 * id@.len(),
        text@[2 * i] as u32 == (if id@[i] / 16 < 10 {
            id@[i] / 16 + '0' as u32
        } else {
            id@[i] / 16 - 10 + 'a' as u32
        }),
        text@[2 * i + 1] as u32 == (if id@[i] % 16 < 10 {
            id@[i] % 16 + '0' as u32
        } else {
            id@[i] % 16 - 10 + 'a' as u32
        }),
{
    assert((2 * i) / 2 == i);
    assert((2 * i + 1) / 2 == i);
}

/// A text reads as an id exactly where it is an even number of hexadecimal digits, in either case.
pub proof fn lemma_hex_accepted(hex: &str, r: Option<CommitId>)
    requires
        call_ensures(CommitId::try_from_hex, (hex,), r),
    ensures
        r is Some <==> hex@.len() % 2 == 0 && forall|i: int|
            0 <= i < hex@.len() ==> '0' <= #[trigger] hex@[i] <= '9' || 'a' <= hex@[i] <= 'f' || 'A'
                <= hex@[i] <= 'F',
{
    assert forall|i: int| 0 <= i < hex@.len() implies (hex_value(#[trigger] hex@[i]) is Some <==> '0'
        <= hex@[i] <= '9' || 'a' <= hex@[i] <= 'f' || 'A' <= hex@[i] <= 'F') by {}
    if r is None && hex@.len() % 2 == 0 {
        let i = choose|i: int| 0 <= i < hex@.len() && !(hex_value(#[trigger] hex@[i]) is Some);
        assert(!('0' <= hex@[i] <= '9' || 'a' <= hex@[i] <= 'f' || 'A' <= hex@[i] <= 'F'));
    }
}

/// The ids that are present in two lists, one after the other, are those of the first and then those
/// of the second.
pub proof fn lemma_present_ids_append(a: Seq<Option<CommitId>>, b: Seq<Option<CommitId>>)
    ensures
        present_ids(a + b) == present_ids(a) + present_ids(b),
    decreases b.len(),
{
    if b.len() == 0 {
        assert(a + b =~= a);
        assert(present_ids(a) + present_ids(b) =~= present_ids(a));
    } else {
        lemma_present_ids_append(a, b.drop_last());
        assert((a + b).drop_last() =~= a + b.drop_last());
        assert((a + b).last() == b.last());
        assert(present_ids(a + b) =~= present_ids(a) + present_ids(b));
    }
}

/// An id that is present is the one of a list of that id alone; a list of a missing id has none.
pub proof fn lemma_present_ids_single(term: Option<CommitId>)
    ensures
        match term {
            Some(id) => present_ids(seq![term]) == seq![id@],
            None => present_ids(seq![term]) == Seq::<Seq<u8>>::empty(),
        },
{
    reveal_with_fuel(present_ids, 2);
    assert(seq![term].drop_last() =~= Seq::empty());
    assert(present_ids(seq![term]) =~= present(term));
}

/// An id is present exactly where one of the terms is that id.
pub proof fn lemma_present_iff_term(terms: Seq<Option<CommitId>>, id: Seq<u8>)
    ensures
        present_ids(terms).contains(id) <==> exists|i: int|
            0 <= i < terms.len() && (#[trigger] terms[i]) is Some && terms[i]->0@ == id,
    decreases terms.len(),
{
    if terms.len() > 0 {
        let front = terms.drop_last();
        let before = present_ids(front);
        let all = present_ids(terms);
        lemma_present_iff_term(front, id);
        if all.contains(id) {
            let k = choose|k: int| 0 <= k < all.len() && all[k] == id;
            if k < before.len() {
                assert(before[k] == id);
                let i = choose|i: int|
                    0 <= i < front.len() && (#[trigger] front[i]) is Some && front[i]->0@ == id;
                assert(terms[i] == front[i]);
            } else {
                assert(terms[terms.len() - 1]->0@ == id);
            }
        }
        if exists|i: int|
            0 <= i < terms.len() && (#[trigger] terms[i]) is Some && terms[i]->0@ == id {
            let i = choose|i: int|
                0 <= i < terms.len() && (#[trigger] terms[i]) is Some && terms[i]->0@ == id;
            if i < front.len() {
                assert(front[i] == terms[i]);
                let k = choose|k: int| 0 <= k < before.len() && before[k] == id;
                assert(all[k] == id);
            } else {
                assert(all[before.len() as int] == id);
            }
        }
    }
}

/// The text of an id is a plain name of a path, unless it is empty.
pub proof fn lemma_hex_plain(bytes: Seq<u8>)
    requires
        bytes.len() > 0,
    ensures
        paths::is_plain_name(hex_text(bytes)),
{
    let hex = hex_text(bytes);
    lemma_hex_round_trip(bytes);
    assert forall|i: int| 0 <= i < hex.len() implies hex[i] != '/' && hex[i] != '.' by {
        assert(hex_value(hex[i]) is Some);
    }
    assert(hex[0] != paths::dot_text()[0]);
}

/// The bytes of a list of ids are as many as the ids, each those of its id.
pub proof fn lemma_id_views(ids: Seq<CommitId>, i: int)
    ensures
        id_views(ids).len() == ids.len(),
        0 <= i < ids.len() ==> id_views(ids)[i] == ids[i].bytes@,
{
}

/// An id has the bytes that it was made of, and is the same as another exactly where their bytes are.
pub proof fn lemma_same_bytes(bytes: Vec<u8>, id: CommitId, other: CommitId, r: bool)
    requires
        call_ensures(CommitId::new, (bytes,), id),
        call_ensures(CommitId::same, (&id, &other), r),
    ensures
        id.bytes@ == bytes@,
        r <==> bytes@ == other.bytes@,
{
}

} // verus!
