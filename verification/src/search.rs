//! Looking for a byte string in a buffer.
//!
//! `search` finds every place where the needle occurs, overlapping ones too,
//! and hands them out in ascending order. `contains` is another thing: it is
//! a single scan that counts matched bytes and starts over from zero at a
//! mismatch, without looking at the mismatched byte again. What that scan
//! finds is stated here exactly, as `scan`.

use vstd::prelude::*;
use crate::bounds::saturated;
use crate::error::Error;

verus! {

/// Whether `needle` occurs in `haystack` at `offset`.
pub open spec fn occurs_at(haystack: Seq<u8>, needle: Seq<u8>, offset: int) -> bool {
    &&& 0 <= offset
    &&& offset + needle.len() <= haystack.len()
    &&& haystack.subrange(offset, offset + needle.len()) == needle
}

/// The offsets below `bound` at which `needle` occurs in `haystack`, in
/// ascending order.
pub open spec fn occurrences_below(haystack: Seq<u8>, needle: Seq<u8>, bound: nat) -> Seq<usize>
    decreases bound,
{
    if bound == 0 {
        Seq::empty()
    } else {
        let before = occurrences_below(haystack, needle, (bound - 1) as nat);
        if occurs_at(haystack, needle, bound - 1) {
            before.push((bound - 1) as usize)
        } else {
            before
        }
    }
}

/// All offsets at which `needle` occurs in `haystack`, in ascending order.
pub open spec fn occurrences(haystack: Seq<u8>, needle: Seq<u8>) -> Seq<usize> {
    occurrences_below(haystack, needle, haystack.len())
}

/// What a search for `needle` in `haystack` gives: out of bounds for a needle
/// that is empty or longer than the haystack, else all its occurrences.
pub open spec fn search_result(haystack: Seq<u8>, needle: Seq<u8>) -> Result<Seq<usize>, Error> {
    if needle.len() == 0 || needle.len() > haystack.len() {
        Err(Error::OutOfBounds(saturated(haystack.len()), saturated(needle.len())))
    } else {
        Ok(occurrences(haystack, needle))
    }
}

/// Those of `candidates` at which `needle` occurs in `haystack`, in the order
/// of `candidates`.
pub open spec fn confirmed(haystack: Seq<u8>, needle: Seq<u8>, candidates: Seq<usize>) -> Seq<
    usize,
>
    decreases candidates.len(),
{
    if candidates.len() == 0 {
        Seq::empty()
    } else {
        let rest = confirmed(haystack, needle, candidates.drop_first());
        if occurs_at(haystack, needle, candidates[0] as int) {
            seq![candidates[0]] + rest
        } else {
            rest
        }
    }
}

/// The offsets below `bound` at which the byte `first` stands in `haystack`,
/// in ascending order.
pub open spec fn positions_below(haystack: Seq<u8>, first: u8, bound: nat) -> Seq<usize>
    decreases bound,
{
    if bound == 0 {
        Seq::empty()
    } else {
        let before = positions_below(haystack, first, (bound - 1) as nat);
        if bound - 1 < haystack.len() && haystack[bound - 1] == first {
            before.push((bound - 1) as usize)
        } else {
            before
        }
    }
}

/// How many bytes of `needle` the scan has matched when it stops, if it
/// stands before the byte at `from` of `haystack` with `matched` bytes
/// matched.
///
/// The scan stops at the end of the haystack or when the whole needle is
/// matched. A byte that equals the next byte of the needle adds one to the
/// count. Any other byte sets the count to zero and is passed over.
pub open spec fn scan(haystack: Seq<u8>, needle: Seq<u8>, from: int, matched: int) -> int
    decreases haystack.len() - from,
{
    if from < 0 || from >= haystack.len() || matched < 0 || matched >= needle.len() {
        matched
    } else if haystack[from] == needle[matched] {
        scan(haystack, needle, from + 1, matched + 1)
    } else {
        scan(haystack, needle, from + 1, 0)
    }
}

/// What `contains` answers: whether the needle is no longer than the
/// haystack and the scan from the start matches all of it.
pub open spec fn scan_finds(haystack: Seq<u8>, needle: Seq<u8>) -> bool {
    needle.len() <= haystack.len() && scan(haystack, needle, 0, 0) == needle.len()
}

/// Every offset in `occurrences_below` is an occurrence below the bound, and
/// every occurrence below the bound is in it.
pub proof fn lemma_occurrences_below(haystack: Seq<u8>, needle: Seq<u8>, bound: nat)
    requires
        bound <= usize::MAX + 1,
    ensures
        forall|i: int|
            0 <= i < occurrences_below(haystack, needle, bound).len() ==> {
                let offset = #[trigger] occurrences_below(haystack, needle, bound)[i];
                offset < bound && occurs_at(haystack, needle, offset as int)
            },
        forall|offset: int|
            0 <= offset < bound && occurs_at(haystack, needle, offset) ==> occurrences_below(
                haystack,
                needle,
                bound,
            ).contains(offset as usize),
        forall|i: int, j: int|
            0 <= i < j < occurrences_below(haystack, needle, bound).len() ==> occurrences_below(
                haystack,
                needle,
                bound,
            )[i] < occurrences_below(haystack, needle, bound)[j],
    decreases bound,
{
    if bound > 0 {
        lemma_occurrences_below(haystack, needle, (bound - 1) as nat);
        let before = occurrences_below(haystack, needle, (bound - 1) as nat);
        let all = occurrences_below(haystack, needle, bound);
        assert forall|offset: int|
            0 <= offset < bound && occurs_at(haystack, needle, offset) implies all.contains(
            offset as usize,
        ) by {
            if offset == bound - 1 {
                assert(all[all.len() - 1] == offset as usize);
            } else {
                assert(before.contains(offset as usize));
                let i = choose|i: int| 0 <= i < before.len() && before[i] == offset as usize;
                assert(all[i] == offset as usize);
            }
        }
    }
}

/// What a search hands out: offsets in strictly ascending order, each of
/// them an occurrence of the needle, and every occurrence among them,
/// whether it overlaps another or not.
pub proof fn lemma_occurrences(haystack: Seq<u8>, needle: Seq<u8>)
    requires
        haystack.len() <= usize::MAX,
    ensures
        forall|i: int, j: int|
            0 <= i < j < occurrences(haystack, needle).len() ==> occurrences(haystack, needle)[i]
                < occurrences(haystack, needle)[j],
        forall|i: int|
            0 <= i < occurrences(haystack, needle).len() ==> occurs_at(
                haystack,
                needle,
                #[trigger] occurrences(haystack, needle)[i] as int,
            ),
        forall|offset: int| #[trigger]
            occurs_at(haystack, needle, offset) && offset < haystack.len() ==> occurrences(
                haystack,
                needle,
            ).contains(offset as usize),
{
    lemma_occurrences_below(haystack, needle, haystack.len());
}

/// Where one scan matches the whole needle, the needle occurs.
pub proof fn lemma_scan_finds_occurrence(haystack: Seq<u8>, needle: Seq<u8>)
    requires
        scan_finds(haystack, needle),
    ensures
        exists|offset: int| occurs_at(haystack, needle, offset),
{
    assert(haystack.subrange(0, 0) =~= needle.subrange(0, 0));
    lemma_scan_sound(haystack, needle, 0, 0);
}

/// Confirming one more candidate adds it at the end, if the needle occurs
/// there.
proof fn lemma_confirmed_push(
    haystack: Seq<u8>,
    needle: Seq<u8>,
    candidates: Seq<usize>,
    last: usize,
)
    ensures
        confirmed(haystack, needle, candidates.push(last)) == if occurs_at(
            haystack,
            needle,
            last as int,
        ) {
            confirmed(haystack, needle, candidates).push(last)
        } else {
            confirmed(haystack, needle, candidates)
        },
    decreases candidates.len(),
{
    let longer = candidates.push(last);
    if candidates.len() == 0 {
        assert(longer.drop_first() =~= Seq::<usize>::empty());
        assert(confirmed(haystack, needle, longer.drop_first()) =~= Seq::<usize>::empty());
        assert(confirmed(haystack, needle, candidates) =~= Seq::<usize>::empty());
        assert(longer[0] == last);
        assert(confirmed(haystack, needle, longer) =~= if occurs_at(haystack, needle, last as int) {
            confirmed(haystack, needle, candidates).push(last)
        } else {
            confirmed(haystack, needle, candidates)
        });
    } else {
        let rest = confirmed(haystack, needle, candidates.drop_first());
        assert(longer.drop_first() =~= candidates.drop_first().push(last));
        assert(longer[0] == candidates[0]);
        lemma_confirmed_push(haystack, needle, candidates.drop_first(), last);
        assert((seq![candidates[0]] + rest).push(last) =~= seq![candidates[0]] + rest.push(last));
    }
}

/// To confirm the places where the first byte of the needle stands is to
/// find the occurrences: the prefilter loses none.
pub proof fn lemma_confirmed_positions(haystack: Seq<u8>, needle: Seq<u8>, bound: nat)
    requires
        needle.len() > 0,
        bound <= usize::MAX + 1,
    ensures
        confirmed(haystack, needle, positions_below(haystack, needle[0], bound))
            == occurrences_below(haystack, needle, bound),
    decreases bound,
{
    if bound > 0 {
        lemma_confirmed_positions(haystack, needle, (bound - 1) as nat);
        let before = positions_below(haystack, needle[0], (bound - 1) as nat);
        let at = bound - 1;
        if at < haystack.len() && haystack[at] == needle[0] {
            lemma_confirmed_push(haystack, needle, before, at as usize);
        } else {
            if occurs_at(haystack, needle, at) {
                assert(haystack.subrange(at, at + needle.len())[0] == needle[0]);
            }
        }
    }
}

/// Past the last place where the needle still fits, there are no more
/// occurrences.
pub proof fn lemma_occurrences_stop(haystack: Seq<u8>, needle: Seq<u8>, bound: nat)
    requires
        needle.len() <= haystack.len(),
        haystack.len() - needle.len() + 1 <= bound,
    ensures
        occurrences_below(haystack, needle, bound) == occurrences_below(
            haystack,
            needle,
            (haystack.len() - needle.len() + 1) as nat,
        ),
    decreases bound,
{
    if bound > haystack.len() - needle.len() + 1 {
        lemma_occurrences_stop(haystack, needle, (bound - 1) as nat);
    }
}

/// Where the scan matches the whole needle, the needle occurs: the bytes
/// just before the place where the scan stopped are the needle.
pub proof fn lemma_scan_sound(haystack: Seq<u8>, needle: Seq<u8>, from: int, matched: int)
    requires
        0 <= matched <= from <= haystack.len(),
        matched <= needle.len(),
        haystack.subrange(from - matched, from) == needle.subrange(0, matched),
        scan(haystack, needle, from, matched) == needle.len(),
    ensures
        exists|offset: int| occurs_at(haystack, needle, offset),
    decreases haystack.len() - from,
{
    if matched >= needle.len() {
        assert(needle.subrange(0, matched) =~= needle);
        assert(occurs_at(haystack, needle, from - matched));
    } else if from >= haystack.len() {
    } else if haystack[from] == needle[matched] {
        assert(haystack.subrange(from - matched, from + 1) =~= needle.subrange(0, matched + 1)) by {
            let a = haystack.subrange(from - matched, from + 1);
            let b = needle.subrange(0, matched + 1);
            assert forall|i: int| 0 <= i < matched + 1 implies a[i] == b[i] by {
                if i < matched {
                    assert(haystack.subrange(from - matched, from)[i] == needle.subrange(
                        0,
                        matched,
                    )[i]);
                }
            }
        }
        lemma_scan_sound(haystack, needle, from + 1, matched + 1);
    } else {
        assert(haystack.subrange(from + 1, from + 1) =~= needle.subrange(0, 0));
        lemma_scan_sound(haystack, needle, from + 1, 0);
    }
}

/// Whether `needle` stands in `haystack` at `offset`, where it fits.
pub fn matches_at(haystack: &[u8], needle: &[u8], offset: usize) -> (found: bool)
    requires
        offset + needle@.len() <= haystack@.len(),
    ensures
        found == occurs_at(haystack@, needle@, offset as int),
{
    let n: usize = needle.len();
    let total: usize = haystack.len();
    let mut i: usize = 0;
    while i < n
        invariant
            i <= n,
            n == needle@.len(),
            offset + n <= haystack@.len() == total,
            forall|j: int| 0 <= j < i ==> haystack@[offset + j] == needle@[j],
        decreases n - i,
    {
        if haystack[offset + i] != needle[i] {
            assert(haystack@.subrange(offset as int, offset + n)[i as int] != needle@[i as int]);
            return false;
        }
        i += 1;
    }
    assert(haystack@.subrange(offset as int, offset + n) =~= needle@);
    true
}

/// The occurrences of a needle in a buffer, handed out one by one.
///
/// When it is made, it notes every place where the first byte of the needle
/// stands. `next` then goes through these places in order and passes over
/// those where the rest of the needle does not follow.
pub struct BufferSearchIter<'a> {
    buffer: &'a [u8],
    term: Vec<u8>,
    offsets: Vec<usize>,
    offset_index: usize,
}

impl<'a> BufferSearchIter<'a> {
    #[verifier::type_invariant]
    closed spec fn well_formed(self) -> bool {
        &&& 0 < self.term@.len() <= self.buffer@.len()
        &&& self.offset_index <= self.offsets@.len()
        &&& forall|i: int|
            0 <= i < self.offsets@.len() ==> #[trigger] self.offsets@[i] + self.term@.len()
                <= self.buffer@.len()
    }

    /// The offsets that are still to come, in the order in which they come.
    pub closed spec fn remaining(&self) -> Seq<usize> {
        confirmed(
            self.buffer@,
            self.term@,
            self.offsets@.subrange(self.offset_index as int, self.offsets@.len() as int),
        )
    }

    /// A search for `term` in `buffer`.
    ///
    /// Fails with `OutOfBounds` if `term` is empty or longer than `buffer`.
    pub fn new(buffer: &'a [u8], term: &[u8]) -> (r: Result<Self, Error>)
        ensures
            match r {
                Ok(search) => search_result(buffer@, term@) == Ok::<Seq<usize>, Error>(
                    search.remaining(),
                ),
                Err(error) => search_result(buffer@, term@) == Err::<Seq<usize>, Error>(error),
            },
    {
        if term.len() == 0 || term.len() > buffer.len() {
            return Err(Error::OutOfBounds(buffer.len(), term.len()));
        }
        let first: u8 = term[0];
        let last: usize = buffer.len() - term.len();
        let mut offsets: Vec<usize> = Vec::new();
        let mut i: usize = 0;
        while i <= last
            invariant
                i <= last + 1,
                last == buffer@.len() - term@.len(),
                0 < term@.len() <= buffer@.len(),
                first == term@[0],
                offsets@ == positions_below(buffer@, first, i as nat),
                forall|j: int|
                    0 <= j < offsets@.len() ==> #[trigger] offsets@[j] + term@.len()
                        <= buffer@.len(),
            decreases last + 1 - i,
        {
            if buffer[i] == first {
                offsets.push(i);
            }
            i += 1;
        }
        let term = vstd::slice::slice_to_vec(term);
        proof {
            lemma_confirmed_positions(buffer@, term@, i as nat);
            lemma_occurrences_stop(buffer@, term@, buffer@.len());
            assert(offsets@.subrange(0, offsets@.len() as int) =~= offsets@);
        }
        Ok(BufferSearchIter { buffer, term, offsets, offset_index: 0 })
    }

    /// The next offset at which the needle occurs, if there is one more.
    pub fn next(&mut self) -> (r: Option<usize>)
        ensures
            match r {
                Some(offset) => {
                    &&& old(self).remaining().len() > 0
                    &&& offset == old(self).remaining()[0]
                    &&& final(self).remaining() == old(self).remaining().drop_first()
                },
                None => {
                    &&& old(self).remaining().len() == 0
                    &&& final(self).remaining().len() == 0
                },
            },
    {
        proof {
            use_type_invariant(&*self);
        }
        while self.offset_index < self.offsets.len()
            invariant
                0 < self.term@.len() <= self.buffer@.len(),
                self.offset_index <= self.offsets@.len(),
                forall|i: int|
                    0 <= i < self.offsets@.len() ==> #[trigger] self.offsets@[i] + self.term@.len()
                        <= self.buffer@.len(),
                self.remaining() == old(self).remaining(),
            decreases self.offsets@.len() - self.offset_index,
        {
            let offset: usize = self.offsets[self.offset_index];
            let ghost candidates = self.offsets@.subrange(
                self.offset_index as int,
                self.offsets@.len() as int,
            );
            proof {
                assert(candidates.drop_first() =~= self.offsets@.subrange(
                    self.offset_index + 1,
                    self.offsets@.len() as int,
                ));
                assert(candidates[0] == offset);
            }
            self.offset_index += 1;
            if matches_at(self.buffer, self.term.as_slice(), offset) {
                proof {
                    let rest = confirmed(self.buffer@, self.term@, candidates.drop_first());
                    assert((seq![offset] + rest).drop_first() =~= rest);
                }
                return Some(offset);
            }
        }
        proof {
            assert(self.offsets@.subrange(
                self.offset_index as int,
                self.offsets@.len() as int,
            ) =~= Seq::<usize>::empty());
        }
        None
    }

    /// All offsets that are still to come, in order.
    pub fn collect(self) -> (offsets: Vec<usize>)
        ensures
            offsets@ == self.remaining(),
    {
        let mut search = self;
        let mut offsets: Vec<usize> = Vec::new();
        loop
            invariant
                offsets@ + search.remaining() == self.remaining(),
            decreases search.remaining().len(),
        {
            let ghost before = search.remaining();
            match search.next() {
                Some(offset) => {
                    proof {
                        assert(offsets@.push(offset) + before.drop_first() =~= offsets@ + before);
                    }
                    offsets.push(offset);
                },
                None => {
                    assert(offsets@ + before =~= offsets@);
                    return offsets;
                },
            }
        }
    }
}

} // verus!
