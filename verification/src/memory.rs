//! Shadow memory: one tag for every byte of the interpreter's memory, at the
//! same offsets and with the same rules of growth.

use crate::shadow::{aggregate_of, lemma_aggregate_empty, lemma_aggregate_push, Shadow};
use crate::word::{offset_of, word_offset};
use ethereum_types::U256;
use vstd::prelude::*;

verus! {

/// The width of a machine word in bytes.
pub const WORD_SIZE: usize = 32;

/// Whether `size` bytes from `off` on are a range at all: the range is not
/// empty and its end can be told as an address.
pub open spec fn valid_range(off: usize, size: usize) -> bool {
    size > 0 && off + size <= usize::MAX
}

/// Whether `size` bytes from `off` on are a range inside a memory of
/// `total` bytes.
pub open spec fn holds_range(total: nat, off: usize, size: usize) -> bool {
    valid_range(off, size) && off + size <= total
}

/// A memory set to the length `len`: cut at the end, or filled up with
/// `unknown()`.
pub open spec fn resized<T: Shadow>(tags: Seq<T>, len: nat) -> Seq<T> {
    if len <= tags.len() {
        tags.subrange(0, len as int)
    } else {
        tags + Seq::new((len - tags.len()) as nat, |i: int| T::unknown())
    }
}

/// A memory grown to the length `len` if it was shorter, else as it was.
pub open spec fn expanded<T: Shadow>(tags: Seq<T>, len: nat) -> Seq<T> {
    if len > tags.len() {
        resized(tags, len)
    } else {
        tags
    }
}

/// A memory in which `part` has taken the place of the `len` tags from
/// `off` on.
pub open spec fn spliced<T>(tags: Seq<T>, off: int, len: int, part: Seq<T>) -> Seq<T>
    recommends
        0 <= off,
        0 <= len,
        off + len <= tags.len(),
{
    tags.subrange(0, off) + part + tags.subrange(off + len, tags.len() as int)
}

/// One tag, `count` times.
pub open spec fn repeated<T>(value: T, count: nat) -> Seq<T> {
    Seq::new(count, |i: int| value)
}

/// The tags of the range of `size` bytes from `off` on, or none if that is
/// no range inside the memory.
pub open spec fn span<T>(tags: Seq<T>, off: usize, size: usize) -> Seq<T> {
    if holds_range(tags.len(), off, size) {
        tags.subrange(off as int, off + size)
    } else {
        Seq::empty()
    }
}

/// Where the range that `span` gives starts: at `off`, or at 0 if it is
/// empty.
pub open spec fn span_start(total: nat, off: usize, size: usize) -> int {
    if holds_range(total, off, size) {
        off as int
    } else {
        0
    }
}

/// The tags of the word at `off`.
pub open spec fn word_at<T>(tags: Seq<T>, off: usize) -> Seq<T>
    recommends
        off + WORD_SIZE <= tags.len(),
{
    tags.subrange(off as int, off + WORD_SIZE)
}

/// Checks whether offset and size are a valid memory range. A range of
/// size zero is none: nothing has been expanded for it.
pub fn is_valid_range(off: usize, size: usize) -> (valid: bool)
    ensures
        valid == valid_range(off, size),
{
    size > 0 && off.checked_add(size).is_some()
}

/// Growing after a resize: a memory resized to `n` has length `n`; expanding
/// it to no more than `n` changes nothing; expanding it to `m > n` gives it
/// the length `m`, keeps what it held and fills the rest with `unknown()`.
pub proof fn lemma_resize_then_expand<T: Shadow>(tags: Seq<T>, n: nat, m: nat)
    ensures
        resized(tags, n).len() == n,
        m <= n ==> expanded(resized(tags, n), m) == resized(tags, n),
        m > n ==> {
            &&& expanded(resized(tags, n), m).len() == m
            &&& expanded(resized(tags, n), m).subrange(0, n as int) == resized(tags, n)
            &&& forall|i: int| n <= i < m ==> expanded(resized(tags, n), m)[i] == T::unknown()
        },
{
    if m > n {
        assert(expanded(resized(tags, n), m).subrange(0, n as int) =~= resized(tags, n));
    }
}

/// The aggregate of one tag repeated is that tag.
pub proof fn lemma_aggregate_uniform<T: Shadow>(count: nat, value: T)
    requires
        count > 0,
    ensures
        aggregate_of(repeated(value, count)) == value,
    decreases count,
{
    let front = repeated(value, (count - 1) as nat);
    assert(repeated(value, count) =~= front.push(value));
    lemma_aggregate_push(front, value);
    if count == 1 {
        assert(front =~= Seq::<T>::empty());
        lemma_aggregate_empty::<T>();
        T::join_identity(value);
    } else {
        lemma_aggregate_uniform((count - 1) as nat, value);
        T::join_idempotent(value);
    }
}

/// Reading after writing: a word written with one tag holds that tag at
/// every byte and aggregates to it, and no other byte has changed.
pub proof fn lemma_read_after_write<T: Shadow>(tags: Seq<T>, off: usize, value: T)
    requires
        off + WORD_SIZE <= tags.len(),
    ensures
        ({
            let word = repeated(value, WORD_SIZE as nat);
            let written = spliced(tags, off as int, WORD_SIZE as int, word);
            &&& written.len() == tags.len()
            &&& word_at(written, off) == word
            &&& aggregate_of(word_at(written, off)) == value
            &&& forall|i: int|
                0 <= i < tags.len() && !(off <= i < off + WORD_SIZE) ==> written[i] == tags[i]
        }),
{
    let word = repeated(value, WORD_SIZE as nat);
    let written = spliced(tags, off as int, WORD_SIZE as int, word);
    assert(word_at(written, off) =~= word);
    lemma_aggregate_uniform(WORD_SIZE as nat, value);
}

/// A store of tags that is addressed and grown like the interpreter's
/// memory. Offsets and sizes are machine words, of which the low 64 bits
/// count.
pub trait ShadowMemory<T: Shadow> {
    /// The tags held, by offset.
    spec fn tags(&self) -> Seq<T>;

    /// Retrieve current size of the memory.
    fn size(&self) -> (len: usize)
        ensures
            len == self.tags().len(),
    ;

    /// Resize (shrink or expand) the memory to the specified size. New
    /// places hold the default tag.
    fn resize(&mut self, new_size: usize)
        ensures
            final(self).tags() == resized(old(self).tags(), new_size as nat),
    ;

    /// Resize the memory only if it is smaller.
    fn expand(&mut self, new_size: usize)
        ensures
            final(self).tags() == expanded(old(self).tags(), new_size as nat),
    ;

    /// Write the tag of a single byte. The byte must lie inside the memory.
    fn write_byte(&mut self, offset: U256, value: T)
        requires
            offset_of(offset) < old(self).tags().len(),
        ensures
            final(self).tags() == old(self).tags().update(offset_of(offset) as int, value),
    ;

    /// Write one tag to every byte of a word. Does not resize memory: the
    /// word must lie inside it.
    fn write(&mut self, offset: U256, value: T)
        requires
            offset_of(offset) + WORD_SIZE <= old(self).tags().len(),
        ensures
            final(self).tags() == spliced(
                old(self).tags(),
                offset_of(offset) as int,
                WORD_SIZE as int,
                repeated(value, WORD_SIZE as nat),
            ),
    ;

    /// Read the tags of a word, which must lie inside the memory.
    fn read(&self, offset: U256) -> (word: &[T])
        requires
            offset_of(offset) + WORD_SIZE <= self.tags().len(),
        ensures
            word@ == word_at(self.tags(), offset_of(offset)),
    ;

    /// Read a word, then aggregate its tags.
    fn read_aggregated(&self, offset: U256) -> (tag: T)
        requires
            offset_of(offset) + WORD_SIZE <= self.tags().len(),
        ensures
            tag == aggregate_of(word_at(self.tags(), offset_of(offset))),
    ;

    /// Write a slice of tags to memory. Does not resize memory: a slice
    /// that is empty or does not fit leaves the memory as it is.
    fn write_slice(&mut self, offset: U256, slice: &[T])
        ensures
            final(self).tags() == if slice@.len() > 0 && offset_of(offset) + slice@.len() <= old(
                self,
            ).tags().len() {
                spliced(old(self).tags(), offset_of(offset) as int, slice@.len() as int, slice@)
            } else {
                old(self).tags()
            },
    ;

    /// Retrieve the part of the memory between offset and offset + size;
    /// nothing if that is no range inside the memory.
    fn read_slice(&self, offset: U256, size: U256) -> (part: &[T])
        ensures
            part@ == span(self.tags(), offset_of(offset), offset_of(size)),
    ;

    /// Retrieve a writable part of the memory between offset and
    /// offset + size; an empty part if that is no range inside the memory.
    /// What is written to the part is written to the memory.
    fn writable_slice(&mut self, offset: U256, size: U256) -> (part: &mut [T])
        ensures
            part@ == span(old(self).tags(), offset_of(offset), offset_of(size)),
            final(self).tags() == spliced(
                old(self).tags(),
                span_start(old(self).tags().len(), offset_of(offset), offset_of(size)),
                part@.len() as int,
                final(part)@,
            ),
    ;

    /// Write the tag of a single byte if it lies inside the memory, and say
    /// whether it did.
    fn try_write_byte(&mut self, offset: U256, value: T) -> (done: bool)
        ensures
            done == (offset_of(offset) < old(self).tags().len()),
            final(self).tags() == if done {
                old(self).tags().update(offset_of(offset) as int, value)
            } else {
                old(self).tags()
            },
    {
        if word_offset(&offset) < self.size() {
            self.write_byte(offset, value);
            true
        } else {
            false
        }
    }

    /// Write one tag to every byte of a word if the word lies inside the
    /// memory, and say whether it did.
    fn try_write(&mut self, offset: U256, value: T) -> (done: bool)
        ensures
            done == (offset_of(offset) + WORD_SIZE <= old(self).tags().len()),
            final(self).tags() == if done {
                spliced(
                    old(self).tags(),
                    offset_of(offset) as int,
                    WORD_SIZE as int,
                    repeated(value, WORD_SIZE as nat),
                )
            } else {
                old(self).tags()
            },
    {
        let size = self.size();
        if size >= WORD_SIZE && word_offset(&offset) <= size - WORD_SIZE {
            self.write(offset, value);
            true
        } else {
            false
        }
    }

    /// Read the tags of a word if it lies inside the memory.
    fn try_read(&self, offset: U256) -> (word: Option<&[T]>)
        ensures
            match word {
                Some(tags) => {
                    &&& offset_of(offset) + WORD_SIZE <= self.tags().len()
                    &&& tags@ == word_at(self.tags(), offset_of(offset))
                },
                None => offset_of(offset) + WORD_SIZE > self.tags().len(),
            },
    {
        let size = self.size();
        if size >= WORD_SIZE && word_offset(&offset) <= size - WORD_SIZE {
            Some(self.read(offset))
        } else {
            None
        }
    }

    /// Read a word and aggregate its tags if it lies inside the memory.
    fn try_read_aggregated(&self, offset: U256) -> (tag: Option<T>)
        ensures
            match tag {
                Some(tag) => {
                    &&& offset_of(offset) + WORD_SIZE <= self.tags().len()
                    &&& tag == aggregate_of(word_at(self.tags(), offset_of(offset)))
                },
                None => offset_of(offset) + WORD_SIZE > self.tags().len(),
            },
    {
        let size = self.size();
        if size >= WORD_SIZE && word_offset(&offset) <= size - WORD_SIZE {
            Some(self.read_aggregated(offset))
        } else {
            None
        }
    }
}

impl<T: Shadow> ShadowMemory<T> for Vec<T> {
    open spec fn tags(&self) -> Seq<T> {
        self@
    }

    fn size(&self) -> usize {
        self.len()
    }

    fn resize(&mut self, new_size: usize) {
        proof {
            T::default_is_unknown();
            T::clone_is_exact();
        }
        Vec::resize(self, new_size, T::default());
        assert(self@ =~= resized(old(self)@, new_size as nat));
    }

    fn expand(&mut self, new_size: usize) {
        if new_size > self.len() {
            ShadowMemory::resize(self, new_size)
        }
    }

    fn write_byte(&mut self, offset: U256, value: T) {
        let off = word_offset(&offset);
        self[off] = value;
    }

    fn write(&mut self, offset: U256, value: T) {
        let off = word_offset(&offset);
        proof {
            T::clone_is_exact();
        }
        for i in 0..WORD_SIZE
            invariant
                off + WORD_SIZE <= old(self)@.len() == self.len(),
                self@ == spliced(old(self)@, off as int, i as int, repeated(value, i as nat)),
                forall|tag: T, copy: T| cloned(tag, copy) ==> copy == tag,
        {
            let copy = value.clone();
            assert(cloned(value, copy));
            self[off + i] = copy;
            assert(self@ =~= spliced(old(self)@, off as int, i + 1, repeated(value, (i + 1) as nat)));
        }
    }

    fn read(&self, offset: U256) -> &[T] {
        let off = word_offset(&offset);
        assert(self@.len() == self.len());
        &self[off..off + WORD_SIZE]
    }

    fn read_aggregated(&self, offset: U256) -> T {
        let v = self.read(offset);
        T::aggregate(v)
    }

    fn write_slice(&mut self, offset: U256, slice: &[T]) {
        let off = word_offset(&offset);
        if !slice.is_empty() && slice.len() <= self.len() && off <= self.len() - slice.len() {
            proof {
                T::clone_is_exact();
            }
            for i in 0..slice.len()
                invariant
                    off + slice@.len() <= old(self)@.len() == self.len(),
                    self@ == spliced(old(self)@, off as int, i as int, slice@.subrange(0, i as int)),
                    forall|tag: T, copy: T| cloned(tag, copy) ==> copy == tag,
            {
                let copy = slice[i].clone();
                assert(cloned(slice@[i as int], copy));
                self[off + i] = copy;
                assert(self@ =~= spliced(old(self)@, off as int, i + 1, slice@.subrange(0, i + 1)));
            }
            assert(slice@.subrange(0, slice@.len() as int) =~= slice@);
        }
    }

    fn writable_slice(&mut self, offset: U256, size: U256) -> &mut [T] {
        let off = word_offset(&offset);
        let size = word_offset(&size);
        let whole = self.as_mut_slice();
        if !is_valid_range(off, size) || off + size > whole.len() {
            let (part, _) = whole.split_at_mut(0);
            part
        } else {
            let (_, rest) = whole.split_at_mut(off);
            let (part, _) = rest.split_at_mut(size);
            part
        }
    }

    fn read_slice(&self, offset: U256, size: U256) -> &[T] {
        let off = word_offset(&offset);
        let size = word_offset(&size);
        if !is_valid_range(off, size) || off + size > self.len() {
            &self[0..0]
        } else {
            &self[off..off + size]
        }
    }
}

} // verus!
