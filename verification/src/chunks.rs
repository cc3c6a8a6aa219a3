//! Cutting a file into chunks and handing them out.
use vstd::prelude::*;
use crate::manifest::ManifestError;

verus! {

#[derive(Debug, Clone, Copy, PartialEq, Eq, Structural)]
pub struct Chunk {
    pub file_id: u128,
    pub index: u64,
    pub offset: u64,
    pub length: u64,
}

#[derive(Debug, Clone, Copy, PartialEq, Eq, Structural)]
pub enum ChunkState {
    Pending,
    InFlight,
    Completed,
    Failed,
}

/// How many chunks a file has: as many whole ones as fit, and one for the rest.
pub open spec fn chunk_count(file_size: u64, chunk_size: u64) -> nat
    recommends
        chunk_size > 0,
{
    if file_size == 0 {
        0
    } else {
        ((file_size - 1) as nat / chunk_size as nat) + 1
    }
}

/// The chunk at an index: full, unless it is the one at the end of the file.
pub open spec fn chunk_at(file_id: u128, file_size: u64, chunk_size: u64, index: int) -> Chunk {
    let offset = index * chunk_size;
    let rest = file_size - offset;
    Chunk {
        file_id,
        index: index as u64,
        offset: offset as u64,
        length: (if rest < chunk_size {
            rest
        } else {
            chunk_size as int
        }) as u64,
    }
}

pub open spec fn chunks_of(file_id: u128, file_size: u64, chunk_size: u64) -> Seq<Chunk> {
    Seq::new(
        chunk_count(file_size, chunk_size),
        |index: int| chunk_at(file_id, file_size, chunk_size, index),
    )
}

/// The first chunk from `from` on that waits to be handed out.
pub open spec fn first_pending(states: Seq<ChunkState>, from: int) -> Option<int>
    decreases states.len() - from,
{
    if from < 0 || from >= states.len() {
        None
    } else if states[from] == ChunkState::Pending {
        Some(from)
    } else {
        first_pending(states, from + 1)
    }
}

/// What handing out the next waiting chunk comes to: which one it is, how the chunks stand then,
/// and where the search goes on.
pub open spec fn handing_out(states: Seq<ChunkState>, from: int) -> (
    Option<int>,
    Seq<ChunkState>,
    int,
) {
    match first_pending(states, from) {
        Some(i) => (Some(i), states.update(i, ChunkState::InFlight), i + 1),
        None => (None, states, states.len() as int),
    }
}

/// Failed chunks wait again.
pub open spec fn retried(states: Seq<ChunkState>) -> Seq<ChunkState> {
    states.map_values(
        |state: ChunkState|
            if state == ChunkState::Failed {
                ChunkState::Pending
            } else {
                state
            },
    )
}

pub open spec fn completed_in(states: Seq<ChunkState>) -> nat
    decreases states.len(),
{
    if states.len() == 0 {
        0
    } else {
        completed_in(states.drop_last()) + if states.last() == ChunkState::Completed {
            1nat
        } else {
            0nat
        }
    }
}

#[derive(Debug, Clone, PartialEq, Eq)]
pub struct ChunkScheduler {
    chunks: Vec<Chunk>,
    states: Vec<ChunkState>,
    next_index: usize,
}

impl ChunkScheduler {
    pub closed spec fn chunk_seq(self) -> Seq<Chunk> {
        self.chunks@
    }

    pub closed spec fn state_seq(self) -> Seq<ChunkState> {
        self.states@
    }

    /// Where the search for the next chunk starts.
    pub closed spec fn cursor(self) -> int {
        self.next_index as int
    }

    /// Every chunk has a state, and the cursor stays within the chunks.
    pub open spec fn well_formed(self) -> bool {
        &&& self.chunk_seq().len() == self.state_seq().len()
        &&& 0 <= self.cursor() <= self.chunk_seq().len()
    }

    pub fn new(file_id: u128, file_size: u64, chunk_size: u64) -> (result: Result<
        Self,
        ManifestError,
    >)
        ensures
            match result {
                Ok(scheduler) => {
                    &&& chunk_size > 0
                    &&& scheduler.well_formed()
                    &&& scheduler.chunk_seq() == chunks_of(file_id, file_size, chunk_size)
                    &&& scheduler.state_seq() == Seq::new(
                        chunk_count(file_size, chunk_size),
                        |i: int| ChunkState::Pending,
                    )
                    &&& scheduler.cursor() == 0
                },
                Err(error) => chunk_size == 0 && error == ManifestError::InvalidChunkSize,
            },
    {
        if chunk_size == 0 {
            return Err(ManifestError::InvalidChunkSize);
        }
        let count: u64 = if file_size == 0 {
            0
        } else {
            proof {
                vstd::arithmetic::div_mod::lemma_div_is_ordered_by_denominator(
                    (file_size - 1) as int,
                    1,
                    chunk_size as int,
                );
            }
            (file_size - 1) / chunk_size + 1
        };
        let mut chunks: Vec<Chunk> = Vec::new();
        let mut states: Vec<ChunkState> = Vec::new();
        let mut index: u64 = 0;
        while index < count
            invariant
                index <= count,
                chunk_size > 0,
                count as nat == chunk_count(file_size, chunk_size),
                chunks@.len() == index,
                states@.len() == index,
                forall|k: int|
                    0 <= k < index ==> #[trigger] chunks@[k] == chunk_at(
                        file_id,
                        file_size,
                        chunk_size,
                        k,
                    ),
                forall|k: int| 0 <= k < index ==> #[trigger] states@[k] == ChunkState::Pending,
            decreases count - index,
        {
            proof {
                lemma_offset_below_size(file_size, chunk_size, index as int);
            }
            let offset: u64 = index * chunk_size;
            let rest: u64 = file_size - offset;
            let length: u64 = if rest < chunk_size {
                rest
            } else {
                chunk_size
            };
            chunks.push(Chunk { file_id, index, offset, length });
            states.push(ChunkState::Pending);
            index = index + 1;
        }
        assert(chunks@ =~= chunks_of(file_id, file_size, chunk_size));
        assert(states@ =~= Seq::new(
            chunk_count(file_size, chunk_size),
            |i: int| ChunkState::Pending,
        ));
        Ok(Self { chunks, states, next_index: 0 })
    }

    /// Hands out the next waiting chunk.
    pub fn next(&mut self) -> (handed: Option<Chunk>)
        requires
            old(self).well_formed(),
        ensures
            final(self).well_formed(),
            final(self).chunk_seq() == old(self).chunk_seq(),
            match first_pending(old(self).state_seq(), old(self).cursor()) {
                Some(i) => {
                    &&& old(self).cursor() <= i < old(self).state_seq().len()
                    &&& handed == Some(old(self).chunk_seq()[i])
                    &&& final(self).state_seq() == old(self).state_seq().update(
                        i,
                        ChunkState::InFlight,
                    )
                    &&& final(self).cursor() == i + 1
                },
                None => {
                    &&& handed is None
                    &&& final(self).state_seq() == old(self).state_seq()
                    &&& final(self).cursor() == old(self).chunk_seq().len()
                },
            },
            ({
                let (found, states, cursor) = handing_out(
                    old(self).state_seq(),
                    old(self).cursor(),
                );
                &&& handed is Some <==> found is Some
                &&& found matches Some(i) ==> handed == Some(old(self).chunk_seq()[i])
                &&& final(self).state_seq() == states
                &&& final(self).cursor() == cursor
            }),
    {
        while self.next_index < self.chunks.len()
            invariant
                self.chunks@ == old(self).chunks@,
                self.states@ == old(self).states@,
                self.chunks@.len() == self.states@.len(),
                old(self).next_index <= self.next_index <= self.chunks@.len(),
                first_pending(old(self).states@, old(self).next_index as int) == first_pending(
                    self.states@,
                    self.next_index as int,
                ),
            decreases self.chunks@.len() - self.next_index,
        {
            let index: usize = self.next_index;
            self.next_index = index + 1;
            if self.states[index] == ChunkState::Pending {
                self.states.set(index, ChunkState::InFlight);
                return Some(self.chunks[index]);
            }
        }
        None
    }

    pub fn mark_completed(&mut self, index: u64) -> (known: bool)
        requires
            old(self).well_formed(),
        ensures
            final(self).well_formed(),
            final(self).chunk_seq() == old(self).chunk_seq(),
            final(self).cursor() == old(self).cursor(),
            known == ((index as usize) < old(self).state_seq().len()),
            final(self).state_seq() == (if known {
                old(self).state_seq().update((index as usize) as int, ChunkState::Completed)
            } else {
                old(self).state_seq()
            }),
    {
        self.update_state(index, ChunkState::Completed)
    }

    pub fn mark_failed(&mut self, index: u64) -> (known: bool)
        requires
            old(self).well_formed(),
        ensures
            final(self).well_formed(),
            final(self).chunk_seq() == old(self).chunk_seq(),
            final(self).cursor() == old(self).cursor(),
            known == ((index as usize) < old(self).state_seq().len()),
            final(self).state_seq() == (if known {
                old(self).state_seq().update((index as usize) as int, ChunkState::Failed)
            } else {
                old(self).state_seq()
            }),
    {
        self.update_state(index, ChunkState::Failed)
    }

    /// Lets failed chunks wait again and starts the search over.
    pub fn retry_failed(&mut self)
        requires
            old(self).well_formed(),
        ensures
            final(self).well_formed(),
            final(self).chunk_seq() == old(self).chunk_seq(),
            final(self).state_seq() == retried(old(self).state_seq()),
            final(self).cursor() == 0,
    {
        let ghost before = self.states@;
        let mut i: usize = 0;
        while i < self.states.len()
            invariant
                i <= self.states@.len(),
                self.states@.len() == before.len(),
                self.chunks@ == old(self).chunks@,
                before == old(self).states@,
                forall|k: int| 0 <= k < i ==> self.states@[k] == #[trigger] retried(before)[k],
                forall|k: int| i <= k < before.len() ==> self.states@[k] == before[k],
            decreases self.states@.len() - i,
        {
            if self.states[i] == ChunkState::Failed {
                self.states.set(i, ChunkState::Pending);
            }
            i = i + 1;
        }
        assert(self.states@ =~= retried(before));
        self.next_index = 0;
    }

    pub fn chunks(&self) -> (chunks: &[Chunk])
        ensures
            chunks@ == self.chunk_seq(),
    {
        self.chunks.as_slice()
    }

    pub fn state(&self, index: u64) -> (state: Option<ChunkState>)
        ensures
            state == (if (index as usize) < self.state_seq().len() {
                Some(self.state_seq()[(index as usize) as int])
            } else {
                None
            }),
    {
        let i: usize = index as usize;
        if i < self.states.len() {
            Some(self.states[i])
        } else {
            None
        }
    }

    pub fn completed_count(&self) -> (count: usize)
        ensures
            count == completed_in(self.state_seq()),
    {
        let mut count: usize = 0;
        let mut i: usize = 0;
        while i < self.states.len()
            invariant
                i <= self.states@.len(),
                count <= i,
                count == completed_in(self.states@.take(i as int)),
            decreases self.states@.len() - i,
        {
            assert(self.states@.take(i as int + 1).drop_last() =~= self.states@.take(i as int));
            if self.states[i] == ChunkState::Completed {
                count = count + 1;
            }
            i = i + 1;
        }
        assert(self.states@.take(i as int) =~= self.states@);
        count
    }

    fn update_state(&mut self, index: u64, state: ChunkState) -> (known: bool)
        requires
            old(self).well_formed(),
        ensures
            final(self).well_formed(),
            final(self).chunk_seq() == old(self).chunk_seq(),
            final(self).cursor() == old(self).cursor(),
            known == ((index as usize) < old(self).state_seq().len()),
            final(self).state_seq() == (if known {
                old(self).state_seq().update((index as usize) as int, state)
            } else {
                old(self).state_seq()
            }),
    {
        let i: usize = index as usize;
        if i < self.states.len() {
            self.states.set(i, state);
            true
        } else {
            false
        }
    }
}

/// Every chunk starts within the file.
proof fn lemma_offset_below_size(file_size: u64, chunk_size: u64, index: int)
    requires
        chunk_size > 0,
        0 <= index < chunk_count(file_size, chunk_size),
    ensures
        0 <= index * chunk_size < file_size,
{
    let last = (file_size - 1) as nat / chunk_size as nat;
    vstd::arithmetic::div_mod::lemma_fundamental_div_mod(
        (file_size - 1) as int,
        chunk_size as int,
    );
    assert(index * chunk_size <= last * chunk_size) by (nonlinear_arith)
        requires
            index <= last,
            chunk_size > 0,
    ;
    assert(chunk_size * last == last * chunk_size) by (nonlinear_arith);
    assert(0 <= index * chunk_size) by (nonlinear_arith)
        requires
            0 <= index,
            chunk_size > 0,
    ;
}

/// The chunks cover the file without gap or overlap: the first starts at zero, each starts where
/// the one before it ends, none is empty or longer than the chunk size, and the last one ends where
/// the file ends.
pub proof fn law_chunks_partition_the_file(file_id: u128, file_size: u64, chunk_size: u64)
    requires
        chunk_size > 0,
    ensures
        ({
            let chunks = chunks_of(file_id, file_size, chunk_size);
            &&& file_size == 0 <==> chunks.len() == 0
            &&& forall|i: int|
                0 <= i < chunks.len() ==> {
                    &&& 0 < (#[trigger] chunks[i]).length <= chunk_size
                    &&& chunks[i].index == i
                    &&& chunks[i].offset == i * chunk_size
                    &&& chunks[i].offset + chunks[i].length == if i + 1 < chunks.len() {
                        (i + 1) * chunk_size
                    } else {
                        file_size as int
                    }
                }
        }),
{
    let chunks = chunks_of(file_id, file_size, chunk_size);
    assert forall|i: int| 0 <= i < chunks.len() implies {
        &&& 0 < (#[trigger] chunks[i]).length <= chunk_size
        &&& chunks[i].index == i
        &&& chunks[i].offset == i * chunk_size
        &&& chunks[i].offset + chunks[i].length == if i + 1 < chunks.len() {
            (i + 1) * chunk_size
        } else {
            file_size as int
        }
    } by {
        lemma_offset_below_size(file_size, chunk_size, i);
        assert((i + 1) * chunk_size == i * chunk_size + chunk_size) by (nonlinear_arith);
        assert(i <= i * chunk_size) by (nonlinear_arith)
            requires
                0 <= i,
                chunk_size >= 1,
        ;
        if i + 1 < chunks.len() {
            lemma_offset_below_size(file_size, chunk_size, i + 1);
        } else {
            let last = (file_size - 1) as int / chunk_size as int;
            vstd::arithmetic::div_mod::lemma_fundamental_div_mod(
                (file_size - 1) as int,
                chunk_size as int,
            );
            vstd::arithmetic::div_mod::lemma_mod_bound((file_size - 1) as int, chunk_size as int);
            assert(chunk_size * last == last * chunk_size) by (nonlinear_arith);
            assert(i == last);
        }
    }
}

/// Only a waiting chunk is handed out: never one that is under way, completed or failed.
pub proof fn law_only_pending_is_handed_out(states: Seq<ChunkState>, from: int)
    requires
        0 <= from,
    ensures
        match first_pending(states, from) {
            Some(i) => from <= i < states.len() && states[i] == ChunkState::Pending && forall|k: int|
                from <= k < i ==> states[k] != ChunkState::Pending,
            None => forall|k: int| from <= k < states.len() ==> states[k] != ChunkState::Pending,
        },
    decreases states.len() - from,
{
    if from < states.len() && states[from] != ChunkState::Pending {
        law_only_pending_is_handed_out(states, from + 1);
    }
}

/// Retrying touches failed chunks only.
pub proof fn law_retry_keeps_completed(states: Seq<ChunkState>)
    ensures
        retried(states).len() == states.len(),
        completed_in(retried(states)) == completed_in(states),
        forall|i: int|
            0 <= i < states.len() ==> (#[trigger] retried(states)[i] == ChunkState::Pending <==> (
            states[i] == ChunkState::Pending || states[i] == ChunkState::Failed)),
    decreases states.len(),
{
    if states.len() > 0 {
        assert(retried(states).drop_last() =~= retried(states.drop_last()));
        law_retry_keeps_completed(states.drop_last());
    }
}

/// Everything is completed exactly if every chunk is, and each chunk that is completed counts once.
pub proof fn law_completed_chunks_are_counted(states: Seq<ChunkState>, index: int)
    ensures
        completed_in(states) <= states.len(),
        completed_in(states) == states.len() <==> forall|i: int|
            0 <= i < states.len() ==> #[trigger] states[i] == ChunkState::Completed,
        completed_in(states) == 0 <==> forall|i: int|
            0 <= i < states.len() ==> #[trigger] states[i] != ChunkState::Completed,
        0 <= index < states.len() && states[index] != ChunkState::Completed ==> completed_in(
            states.update(index, ChunkState::Completed),
        ) == completed_in(states) + 1,
    decreases states.len(),
{
    if states.len() > 0 {
        let earlier = states.drop_last();
        let last = states.len() - 1;
        law_completed_chunks_are_counted(earlier, index);
        assert(forall|i: int| 0 <= i < last ==> #[trigger] earlier[i] == states[i]);
        assert(states[last] == states.last());
        if completed_in(states) == states.len() {
            assert forall|i: int| 0 <= i < states.len() implies #[trigger] states[i]
                == ChunkState::Completed by {
                if i < last {
                    assert(earlier[i] == states[i]);
                }
            }
        }
        if forall|i: int| 0 <= i < states.len() ==> #[trigger] states[i] == ChunkState::Completed {
            assert(states[last] == ChunkState::Completed);
            assert forall|i: int| 0 <= i < earlier.len() implies #[trigger] earlier[i]
                == ChunkState::Completed by {
                assert(states[i] == ChunkState::Completed);
            }
        }
        if completed_in(states) == 0 {
            assert forall|i: int| 0 <= i < states.len() implies #[trigger] states[i]
                != ChunkState::Completed by {
                if i < last {
                    assert(earlier[i] == states[i]);
                }
            }
        }
        if forall|i: int| 0 <= i < states.len() ==> #[trigger] states[i] != ChunkState::Completed {
            assert(states[last] != ChunkState::Completed);
            assert forall|i: int| 0 <= i < earlier.len() implies #[trigger] earlier[i]
                != ChunkState::Completed by {
                assert(states[i] != ChunkState::Completed);
            }
        }
        if 0 <= index < states.len() && states[index] != ChunkState::Completed {
            let after = states.update(index, ChunkState::Completed);
            if index < last {
                assert(after.drop_last() =~= earlier.update(index, ChunkState::Completed));
            } else {
                assert(after.drop_last() =~= earlier);
            }
        }
    }
}

/// How the chunks stand, and where the search goes on, after a number of chunks were handed out.
pub open spec fn handed_out(states: Seq<ChunkState>, times: nat) -> (Seq<ChunkState>, int)
    decreases times,
{
    if times == 0 {
        (states, 0)
    } else {
        let (before, from) = handed_out(states, (times - 1) as nat);
        let (_, after, next) = handing_out(before, from);
        (after, next)
    }
}

/// Where all chunks wait, they are handed out one after the other, each once and in order; each is
/// under way from then on, and after the last one there is none.
pub proof fn law_chunks_are_handed_out_in_order(count: nat, times: nat)
    requires
        times <= count,
    ensures
        ({
            let waiting = Seq::new(count, |i: int| ChunkState::Pending);
            let (states, from) = handed_out(waiting, times);
            &&& from == times
            &&& states.len() == count
            &&& forall|i: int|
                0 <= i < count ==> #[trigger] states[i] == (if i < times {
                    ChunkState::InFlight
                } else {
                    ChunkState::Pending
                })
            &&& times < count ==> handing_out(states, from).0 == Some(times as int)
            &&& times == count ==> handing_out(states, from).0 is None
        }),
    decreases times,
{
    let waiting = Seq::new(count, |i: int| ChunkState::Pending);
    if times > 0 {
        law_chunks_are_handed_out_in_order(count, (times - 1) as nat);
    }
    let (states, from) = handed_out(waiting, times);
    law_only_pending_is_handed_out(states, from);
    if times < count {
        assert(states[times as int] == ChunkState::Pending);
    }
}

/// A chunk that failed is handed out again once failed chunks wait again, and one that was completed
/// or is under way is not.
pub proof fn law_failed_chunks_are_handed_out_again(states: Seq<ChunkState>)
    ensures
        handing_out(retried(states), 0).0 matches Some(i) ==> 0 <= i < states.len() && (states[i]
            == ChunkState::Failed || states[i] == ChunkState::Pending) && forall|k: int|
            0 <= k < i ==> #[trigger] states[k] == ChunkState::InFlight || states[k]
                == ChunkState::Completed,
        handing_out(retried(states), 0).0 is None <==> forall|k: int|
            0 <= k < states.len() ==> #[trigger] states[k] == ChunkState::InFlight || states[k]
                == ChunkState::Completed,
{
    let again = retried(states);
    law_only_pending_is_handed_out(again, 0);
    law_retry_keeps_completed(states);
    assert forall|k: int| 0 <= k < states.len() implies (#[trigger] states[k]
        == ChunkState::InFlight || states[k] == ChunkState::Completed) == (again[k]
        != ChunkState::Pending) by {}
    if handing_out(again, 0).0 is Some {
        let i = handing_out(again, 0).0->Some_0;
        assert(again[i] == ChunkState::Pending);
    }
}

} // verus!
