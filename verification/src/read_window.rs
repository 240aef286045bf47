//! A part of a file that arrives in pieces.

use vstd::prelude::*;

verus! {

/// At most `size` bytes of `content`, from `offset` on.
pub open spec fn window(content: Seq<u8>, offset: nat, size: nat) -> Seq<u8> {
    let from = if offset <= content.len() {
        content.skip(offset as int)
    } else {
        Seq::empty()
    };
    if size <= from.len() {
        from.take(size as int)
    } else {
        from
    }
}

/// The bytes of a window, collected from the pieces of a file.
pub struct ReadWindow {
    /// How many bytes are still to be skipped.
    skip: u64,
    /// How many bytes are still to be taken.
    room: u64,
    content: Vec<u8>,
    offset: Ghost<nat>,
    size: Ghost<nat>,
    seen: Ghost<Seq<u8>>,
}

impl ReadWindow {
    /// The start of the window.
    pub closed spec fn offset(&self) -> nat {
        self.offset@
    }

    /// The most bytes that are taken.
    pub closed spec fn size(&self) -> nat {
        self.size@
    }

    /// The bytes of the file that have arrived.
    pub closed spec fn seen(&self) -> Seq<u8> {
        self.seen@
    }

    /// What was collected is the window on what has arrived.
    pub closed spec fn wf(&self) -> bool {
        &&& self.content@ == window(self.seen@, self.offset@, self.size@)
        &&& self.skip == (if self.seen@.len() <= self.offset@ {
            self.offset@ - self.seen@.len()
        } else {
            0
        })
        &&& self.room == self.size@ - self.content@.len()
    }

    pub fn new(offset: u64, size: u64) -> (r: Self)
        ensures
            r.wf(),
            r.offset() == offset,
            r.size() == size,
            r.seen() == Seq::<u8>::empty(),
    {
        let content: Vec<u8> = Vec::new();
        assert(content@ =~= window(Seq::empty(), offset as nat, size as nat));
        ReadWindow {
            skip: offset,
            room: size,
            content,
            offset: Ghost(offset as nat),
            size: Ghost(size as nat),
            seen: Ghost(Seq::empty()),
        }
    }

    /// Takes the next piece of the file.
    pub fn feed(&mut self, piece: &[u8])
        requires
            old(self).wf(),
        ensures
            final(self).wf(),
            final(self).offset() == old(self).offset(),
            final(self).size() == old(self).size(),
            final(self).seen() == old(self).seen() + piece@,
    {
        let mut i: usize = 0;
        while i < piece.len()
            invariant
                i <= piece@.len(),
                self.wf(),
                self.offset() == old(self).offset(),
                self.size() == old(self).size(),
                self.seen() == old(self).seen() + piece@.take(i as int),
            decreases piece@.len() - i,
        {
            let ghost before = self.seen@;
            let ghost taken = self.content@;
            if self.skip > 0 {
                self.skip = self.skip - 1;
            } else if self.room > 0 {
                self.content.push(piece[i]);
                self.room = self.room - 1;
            }
            proof {
                self.seen@ = before.push(piece@[i as int]);
                assert(piece@.take(i + 1) =~= piece@.take(i as int).push(piece@[i as int]));
                assert(self.seen@ =~= old(self).seen() + piece@.take(i + 1));
                assert(self.content@ =~= window(self.seen@, self.offset@, self.size@));
            }
            i = i + 1;
        }
        assert(piece@.take(i as int) =~= piece@);
    }

    /// Whether the rest of the file does not matter.
    pub fn is_full(&self) -> (r: bool)
        requires
            self.wf(),
        ensures
            r == (window(self.seen(), self.offset(), self.size()).len() == self.size()),
    {
        self.room == 0
    }

    /// The bytes of the window on what has arrived.
    pub fn finish(self) -> (r: Vec<u8>)
        requires
            self.wf(),
        ensures
            r@ == window(self.seen(), self.offset(), self.size()),
    {
        self.content
    }
}

/// Once a window is full, more of the file does not change it.
pub proof fn lemma_full_window(content: Seq<u8>, more: Seq<u8>, offset: nat, size: nat)
    requires
        window(content, offset, size).len() == size,
    ensures
        window(content + more, offset, size) == window(content, offset, size),
{
    assert(window(content + more, offset, size) =~= window(content, offset, size));
}

/// Two windows, the second where the first one ends, are one window.
pub proof fn lemma_windows_join(content: Seq<u8>, offset: nat, first: nat, second: nat)
    ensures
        window(content, offset, first) + window(content, offset + first, second) == window(
            content,
            offset,
            first + second,
        ),
{
    assert(window(content, offset, first) + window(content, offset + first, second) =~= window(
        content,
        offset,
        first + second,
    ));
}

/// A window has as many bytes as there are from the offset on, but no more than its size, and they are
/// the bytes from the offset on.
pub proof fn lemma_window_bytes(content: Seq<u8>, offset: nat, size: nat)
    ensures
        window(content, offset, size).len() == (if offset >= content.len() {
            0
        } else if content.len() - offset <= size {
            content.len() - offset
        } else {
            size as int
        }),
        forall|i: int|
            0 <= i < window(content, offset, size).len() ==> #[trigger] window(
                content,
                offset,
                size,
            )[i] == content[offset + i],
{
}

/// What a window that was opened with an offset and a size gives of a file that has arrived in it:
/// from the offset on, as many bytes as there are, but no more than the size.
pub proof fn lemma_collected_bytes(
    offset: u64,
    size: u64,
    content: Seq<u8>,
    opened: ReadWindow,
    fed: ReadWindow,
    r: Vec<u8>,
)
    requires
        call_ensures(ReadWindow::new, (offset, size), opened),
        fed.offset() == opened.offset(),
        fed.size() == opened.size(),
        fed.seen() == opened.seen() + content,
        call_ensures(ReadWindow::finish, (fed,), r),
    ensures
        r@.len() == (if offset >= content.len() {
            0
        } else if content.len() - offset <= size {
            content.len() - offset
        } else {
            size as int
        }),
        forall|i: int| 0 <= i < r@.len() ==> #[trigger] r@[i] == content[offset + i],
{
    assert(fed.seen() =~= content);
    lemma_window_bytes(content, offset as nat, size as nat);
}

/// Feeding a piece adds it to what has arrived in a window and keeps its offset and its size.
pub proof fn lemma_feed()
    ensures
        forall|window: &mut ReadWindow, piece: &[u8]| #[trigger]
            call_ensures(ReadWindow::feed, (window, piece), ()) ==> final(window).wf()
                && final(window).offset() == window.offset() && final(window).size()
                == window.size() && final(window).seen() == window.seen() + piece@,
{
}

/// A window is full exactly where it has as many bytes as its size.
pub proof fn lemma_full_iff_size(window: ReadWindow, full: bool, r: Vec<u8>)
    requires
        call_ensures(ReadWindow::is_full, (&window,), full),
        call_ensures(ReadWindow::finish, (window,), r),
    ensures
        full <==> r@.len() == window.size(),
{
}

} // verus!
