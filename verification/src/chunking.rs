//! Splitting a text into overlapping, fixed-size character windows.

use vstd::prelude::*;
use crate::text::{chars_of, string_from_chars};

verus! {

/// The number of characters in a window of the service's chunker.
pub const DEFAULT_CHUNK_SIZE: usize = 1000;

/// The number of characters that consecutive windows of the service's chunker share.
pub const DEFAULT_CHUNK_OVERLAP: usize = 200;

/// One window of a text, with its position among the windows.
#[derive(Debug, PartialEq, Eq)]
pub struct Chunk {
    pub text: String,
    pub chunk_index: u32,
}

/// Cuts a text into windows of `chunk_size` characters, each window starting
/// `chunk_size - chunk_overlap` characters (at least one) after the previous one.
#[derive(Debug)]
pub struct RecursiveChunker {
    chunk_size: usize,
    chunk_overlap: usize,
}

/// How far each window starts after the previous one.
pub open spec fn chunk_step(chunk_size: nat, chunk_overlap: nat) -> nat {
    if chunk_size > chunk_overlap { (chunk_size - chunk_overlap) as nat } else { 1 }
}

/// The windows of `chars` from position `start` on: a window of `size`
/// characters (cut at the end of the text), then, unless that window reached
/// the end, the windows from `start + step`.
pub open spec fn windows_from(chars: Seq<char>, start: nat, size: nat, step: nat) -> Seq<Seq<char>>
    decreases (if start < chars.len() { chars.len() - start } else { 0 }),
{
    if start >= chars.len() || step == 0 {
        Seq::empty()
    } else if start + size >= chars.len() {
        seq![chars.subrange(start as int, chars.len() as int)]
    } else {
        seq![chars.subrange(start as int, (start + size) as int)].add(
            windows_from(chars, start + step, size, step),
        )
    }
}

/// The windows that a chunker with these settings cuts `chars` into.
pub open spec fn chunk_windows(chars: Seq<char>, chunk_size: nat, chunk_overlap: nat) -> Seq<
    Seq<char>,
> {
    windows_from(chars, 0, chunk_size, chunk_step(chunk_size, chunk_overlap))
}

/// The texts of a list of chunks.
pub open spec fn chunk_texts(chunks: Seq<Chunk>) -> Seq<Seq<char>> {
    chunks.map_values(|c: Chunk| c.text@)
}

/// The first window in full, then each later window without its first `overlap`
/// characters: the text that the windows were cut from.
pub open spec fn reassemble(windows: Seq<Seq<char>>, overlap: nat) -> Seq<char> {
    if windows.len() == 0 {
        Seq::empty()
    } else {
        windows[0] + concat_skipping(windows.drop_first(), overlap)
    }
}

pub open spec fn concat_skipping(windows: Seq<Seq<char>>, overlap: nat) -> Seq<char>
    decreases windows.len(),
{
    if windows.len() == 0 {
        Seq::empty()
    } else {
        windows[0].skip(overlap as int) + concat_skipping(windows.drop_first(), overlap)
    }
}

impl RecursiveChunker {
    pub closed spec fn size(&self) -> nat {
        self.chunk_size as nat
    }

    pub closed spec fn overlap(&self) -> nat {
        self.chunk_overlap as nat
    }

    pub fn new(chunk_size: usize, chunk_overlap: usize) -> (r: Self)
        ensures
            r.size() == chunk_size,
            r.overlap() == chunk_overlap,
    {
        Self { chunk_size, chunk_overlap }
    }

    /// The windows of `text`, numbered from zero.
    pub fn chunk_text(&self, text: &str) -> (chunks: Vec<Chunk>)
        requires
            chunk_windows(text@, self.size(), self.overlap()).len() <= u32::MAX,
        ensures
            chunk_texts(chunks@) == chunk_windows(text@, self.size(), self.overlap()),
            forall|i: int| 0 <= i < chunks.len() ==> #[trigger] chunks[i].chunk_index == i,
    {
        let chars = chars_of(text);
        let n = chars.len();
        let size = self.chunk_size;
        let step: usize = if self.chunk_size > self.chunk_overlap {
            self.chunk_size - self.chunk_overlap
        } else {
            1
        };
        let ghost all = chunk_windows(text@, size as nat, self.chunk_overlap as nat);
        let mut chunks: Vec<Chunk> = Vec::new();
        let mut start: usize = 0;
        let mut index: u32 = 0;
        assert(chunk_texts(chunks@) =~= Seq::<Seq<char>>::empty());
        while start < n
            invariant_except_break
                chars@ == text@,
                n == chars.len(),
                step == chunk_step(size as nat, self.chunk_overlap as nat),
                size == self.chunk_size,
                all == chunk_windows(text@, size as nat, self.chunk_overlap as nat),
                all.len() <= u32::MAX,
                index == chunks.len(),
                forall|i: int| 0 <= i < chunks.len() ==> #[trigger] chunks[i].chunk_index == i,
                chunk_texts(chunks@) + windows_from(chars@, start as nat, size as nat, step as nat)
                    == all,
            ensures
                forall|i: int| 0 <= i < chunks.len() ==> #[trigger] chunks[i].chunk_index == i,
                chunk_texts(chunks@) == all,
            decreases n - start,
        {
            let ghost before = chunk_texts(chunks@);
            let ghost rest = windows_from(chars@, start as nat, size as nat, step as nat);
            let end: usize = if size >= n - start { n } else { start + size };
            let piece = string_from_chars(&chars.as_slice()[start..end]);
            assert(piece@ == chars@.subrange(start as int, end as int));
            assert(rest.len() >= 1);
            assert(before.len() + 1 <= all.len()) by {
                assert(all.len() == before.len() + rest.len());
            }
            chunks.push(Chunk { text: piece, chunk_index: index });
            assert(chunk_texts(chunks@) =~= before.push(piece@));
            if end == n {
                assert(rest =~= seq![chars@.subrange(start as int, n as int)]);
                assert(chunk_texts(chunks@) =~= before + rest);
                break;
            }
            let ghost next = windows_from(chars@, (start + step) as nat, size as nat, step as nat);
            assert(rest =~= seq![chars@.subrange(start as int, end as int)] + next);
            assert(chunk_texts(chunks@) + next =~= before + rest);
            index = index + 1;
            start = start + step;
        }
        chunks
    }
}

proof fn lemma_windows_shape(chars: Seq<char>, start: nat, size: nat, step: nat)
    requires
        step >= 1,
    ensures
        forall|i: int|
            0 <= i < windows_from(chars, start, size, step).len() ==> {
                let w = #[trigger] windows_from(chars, start, size, step)[i];
                &&& w.len() <= size
                &&& (size >= 1 ==> w.len() >= 1)
            },
        start < chars.len() <==> windows_from(chars, start, size, step).len() > 0,
    decreases (if start < chars.len() { chars.len() - start } else { 0 }),
{
    if start < chars.len() && start + size < chars.len() {
        lemma_windows_shape(chars, start + step, size, step);
        let w = windows_from(chars, start, size, step);
        let rest = windows_from(chars, start + step, size, step);
        assert forall|i: int| 0 <= i < w.len() implies {
            let x = #[trigger] w[i];
            &&& x.len() <= size
            &&& (size >= 1 ==> x.len() >= 1)
        } by {
            if i > 0 {
                assert(w[i] == rest[i - 1]);
            }
        }
    }
}

proof fn lemma_concat_skipping(chars: Seq<char>, start: nat, size: nat, step: nat)
    requires
        1 <= step <= size,
        start + (size - step) <= chars.len(),
    ensures
        concat_skipping(windows_from(chars, start, size, step), (size - step) as nat)
            == chars.skip(start + size - step),
    decreases chars.len() - start,
{
    let k = (size - step) as nat;
    let w = windows_from(chars, start, size, step);
    if start >= chars.len() {
        assert(chars.skip(start + size - step) =~= Seq::<char>::empty());
    } else if start + size >= chars.len() {
        assert(w.drop_first() =~= Seq::<Seq<char>>::empty());
        assert(chars.subrange(start as int, chars.len() as int).skip(k as int) =~= chars.skip(
            start + size - step,
        ));
        assert(concat_skipping(w.drop_first(), k) =~= Seq::<char>::empty());
        assert(concat_skipping(w, k) =~= w[0].skip(k as int) + Seq::<char>::empty());
    } else {
        lemma_concat_skipping(chars, start + step, size, step);
        let rest = windows_from(chars, start + step, size, step);
        assert(w.drop_first() =~= rest);
        assert(chars.subrange(start as int, (start + size) as int).skip(k as int)
            + chars.skip(start + step + size - step) =~= chars.skip(start + size - step));
    }
}

/// Nothing is lost or altered by chunking: taking the first window in full and
/// every later window without the overlap it shares with its predecessor gives
/// back the text, when windows hold at least one character.
pub proof fn law_chunks_reassemble(text: Seq<char>, chunk_size: nat, chunk_overlap: nat)
    requires
        chunk_size >= 1,
    ensures
        reassemble(
            chunk_windows(text, chunk_size, chunk_overlap),
            (chunk_size - chunk_step(chunk_size, chunk_overlap)) as nat,
        ) == text,
{
    let step = chunk_step(chunk_size, chunk_overlap);
    let k = (chunk_size - step) as nat;
    let w = chunk_windows(text, chunk_size, chunk_overlap);
    if text.len() == 0 {
        assert(text =~= Seq::<char>::empty());
    } else if chunk_size >= text.len() {
        assert(w.drop_first() =~= Seq::<Seq<char>>::empty());
        assert(text.subrange(0, text.len() as int) =~= text);
        assert(reassemble(w, k) =~= w[0] + Seq::<char>::empty());
    } else {
        lemma_concat_skipping(text, step, chunk_size, step);
        let rest = windows_from(text, step, chunk_size, step);
        assert(w.drop_first() =~= rest);
        assert(text.subrange(0, chunk_size as int) + text.skip(chunk_size as int) =~= text);
    }
}

/// Every window holds at most `chunk_size` characters, and at least one when
/// `chunk_size` is positive; a text has windows exactly when it is not empty.
pub proof fn law_chunk_bounds(text: Seq<char>, chunk_size: nat, chunk_overlap: nat)
    ensures
        forall|i: int|
            0 <= i < chunk_windows(text, chunk_size, chunk_overlap).len() ==> {
                let w = #[trigger] chunk_windows(text, chunk_size, chunk_overlap)[i];
                &&& w.len() <= chunk_size
                &&& (chunk_size >= 1 ==> w.len() >= 1)
            },
        (text.len() == 0) <==> (chunk_windows(text, chunk_size, chunk_overlap).len() == 0),
{
    lemma_windows_shape(text, 0, chunk_size, chunk_step(chunk_size, chunk_overlap));
}

proof fn lemma_window_count(chars: Seq<char>, start: nat, size: nat, step: nat)
    requires
        step >= 1,
    ensures
        windows_from(chars, start, size, step).len() <= if start < chars.len() {
            chars.len() - start
        } else {
            0
        },
    decreases (if start < chars.len() { chars.len() - start } else { 0 }),
{
    if start < chars.len() && start + size < chars.len() {
        lemma_window_count(chars, start + step, size, step);
    }
}

/// A text never has more windows than characters, so a text of at most
/// `u32::MAX` characters can always be numbered.
pub proof fn law_chunk_count_bounded(text: Seq<char>, chunk_size: nat, chunk_overlap: nat)
    ensures
        chunk_windows(text, chunk_size, chunk_overlap).len() <= text.len(),
{
    lemma_window_count(text, 0, chunk_size, chunk_step(chunk_size, chunk_overlap));
}

/// Consecutive windows overlap: the first `chunk_size - step` characters of a
/// window are the last ones of the window before it.
pub proof fn law_chunks_overlap(text: Seq<char>, chunk_size: nat, chunk_overlap: nat, i: int)
    requires
        chunk_size >= 1,
        0 <= i,
        i + 1 < chunk_windows(text, chunk_size, chunk_overlap).len(),
    ensures
        ({
            let w = chunk_windows(text, chunk_size, chunk_overlap);
            let k = (chunk_size - chunk_step(chunk_size, chunk_overlap)) as int;
            w[i + 1].take(k) == w[i].skip(chunk_step(chunk_size, chunk_overlap) as int)
        }),
{
    let step = chunk_step(chunk_size, chunk_overlap);
    lemma_windows_overlap(text, 0, chunk_size, step, i);
}

proof fn lemma_windows_overlap(chars: Seq<char>, start: nat, size: nat, step: nat, i: int)
    requires
        1 <= step <= size,
        0 <= i,
        i + 1 < windows_from(chars, start, size, step).len(),
    ensures
        ({
            let w = windows_from(chars, start, size, step);
            w[i + 1].take(size - step) == w[i].skip(step as int)
        }),
    decreases i,
{
    let w = windows_from(chars, start, size, step);
    let rest = windows_from(chars, start + step, size, step);
    assert(start < chars.len() && start + size < chars.len());
    assert(w.drop_first() =~= rest);
    if i == 0 {
        let a = chars.subrange(start as int, (start + size) as int);
        assert(w[0] == a);
        assert(rest.len() >= 1);
        assert(w[1] == rest[0]);
        let nstart = start + step;
        if nstart + size >= chars.len() {
            assert(rest[0] == chars.subrange(nstart as int, chars.len() as int));
        } else {
            assert(rest[0] == chars.subrange(nstart as int, (nstart + size) as int));
        }
        assert(rest[0].take(size - step) =~= a.skip(step as int));
    } else {
        lemma_windows_overlap(chars, start + step, size, step, i - 1);
        assert(w[i + 1] == rest[i]);
        assert(w[i] == rest[i - 1]);
    }
}

} // verus!
