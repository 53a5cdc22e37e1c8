//! Pool-owned shared storage for command logs and payload buffers.
//!
//! The pool owns the storage outright and every recorder reaches it through
//! an exclusive borrow, so Rust's borrow rules stand in for the original
//! fail-fast exclusive acquisition: two simultaneous mutating accesses to
//! the same storage cannot be expressed at all.

use vstd::prelude::*;
use crate::command::Command;
use crate::slice::BufferSlice;

verus! {

/// One command log together with its auxiliary buffer of payload scalars.
/// Both grow by appending at the tail; nothing is ever inserted or removed
/// mid-sequence, only a full clear empties them.
#[derive(Debug)]
pub struct OwnedBuffer {
    pub commands: Vec<Command>,
    pub data: Vec<u64>,
}

impl OwnedBuffer {
    /// An empty log/buffer pair.
    pub fn new() -> (r: OwnedBuffer)
        ensures
            r.commands@ == Seq::<Command>::empty(),
            r.data@ == Seq::<u64>::empty(),
    {
        OwnedBuffer { commands: Vec::new(), data: Vec::new() }
    }

    /// Drop every recorded command and payload scalar.
    pub fn clear(&mut self)
        ensures
            final(self).commands@ == Seq::<Command>::empty(),
            final(self).data@ == Seq::<u64>::empty(),
    {
        self.commands.clear();
        self.data.clear();
    }

    /// Append one command at the tail of the log and return the length-one
    /// slice of the new entry.
    pub fn push_command(&mut self, cmd: Command) -> (r: BufferSlice)
        requires
            old(self).commands@.len() < u32::MAX,
        ensures
            final(self).commands@ == old(self).commands@.push(cmd),
            final(self).data@ == old(self).data@,
            r == (BufferSlice { offset: old(self).commands@.len() as u32, size: 1u32 }),
    {
        let offset = self.commands.len() as u32;
        self.commands.push(cmd);
        BufferSlice { offset, size: 1 }
    }

    /// Copy the given scalars to the tail of the data buffer and return the
    /// slice covering them.
    pub fn push_data(&mut self, vals: &Vec<u64>) -> (r: BufferSlice)
        requires
            old(self).data@.len() + vals@.len() <= u32::MAX,
        ensures
            final(self).commands@ == old(self).commands@,
            final(self).data@ == old(self).data@ + vals@,
            r == (BufferSlice {
                offset: old(self).data@.len() as u32,
                size: vals@.len() as u32,
            }),
    {
        let offset = self.data.len() as u32;
        let n = vals.len();
        let mut i: usize = 0;
        while i < n
            invariant
                i <= n,
                n == vals@.len(),
                self.commands@ == old(self).commands@,
                self.data@ == old(self).data@ + vals@.take(i as int),
            decreases n - i,
        {
            self.data.push(vals[i]);
            proof {
                assert(vals@.take(i + 1) =~= vals@.take(i as int).push(vals@[i as int]));
            }
            i = i + 1;
        }
        proof {
            assert(vals@.take(vals@.len() as int) =~= vals@);
        }
        BufferSlice { offset, size: n as u32 }
    }
}

/// The pool's storage, in one of its two reset disciplines. The mode is
/// fixed when the pool is created.
#[derive(Debug)]
pub enum BufferMemory {
    /// One log/buffer pair shared by every recorder of the pool; only the
    /// whole pool can be reset.
    Linear(OwnedBuffer),
    /// One log/buffer pair per recorder, indexed by the recorder's buffer
    /// id; each pair resets independently. Ids are handed out sequentially,
    /// so the next fresh id is the number of pairs.
    Individual { storage: Vec<OwnedBuffer> },
}

impl BufferMemory {
    /// Does each recorder own its own log/buffer pair?
    pub open spec fn is_individual(self) -> bool {
        self is Individual
    }

    /// How many log/buffer pairs the pool holds.
    pub open spec fn buffer_count(self) -> nat {
        match self {
            BufferMemory::Linear(_) => 1,
            BufferMemory::Individual { storage } => storage@.len(),
        }
    }

    /// `id` names a live log/buffer pair. In linear mode every id reaches
    /// the single shared pair.
    pub open spec fn valid_id(self, id: usize) -> bool {
        match self {
            BufferMemory::Linear(_) => true,
            BufferMemory::Individual { storage } => id < storage@.len(),
        }
    }

    /// The command log a recorder with buffer id `id` appends to.
    pub open spec fn log_at(self, id: usize) -> Seq<Command>
        recommends
            self.valid_id(id),
    {
        match self {
            BufferMemory::Linear(buffer) => buffer.commands@,
            BufferMemory::Individual { storage } => storage@[id as int].commands@,
        }
    }

    /// The auxiliary data buffer a recorder with buffer id `id` appends to.
    pub open spec fn data_at(self, id: usize) -> Seq<u64>
        recommends
            self.valid_id(id),
    {
        match self {
            BufferMemory::Linear(buffer) => buffer.data@,
            BufferMemory::Individual { storage } => storage@[id as int].data@,
        }
    }

    /// The pool kept its mode and its set of pairs, and no pair other than
    /// `id`'s changed. In linear mode every id reaches the one shared pair,
    /// so only the mode and pair count are claimed there.
    pub open spec fn isolated_update(pre: BufferMemory, post: BufferMemory, id: usize) -> bool {
        &&& post.is_individual() == pre.is_individual()
        &&& post.buffer_count() == pre.buffer_count()
        &&& pre.is_individual() ==> forall|j: usize|
            pre.valid_id(j) && j != id ==> post.log_at(j) == pre.log_at(j)
                && post.data_at(j) == pre.data_at(j)
    }

    /// How many commands buffer `id`'s log holds.
    pub fn command_count(&self, id: usize) -> (n: usize)
        requires
            self.valid_id(id),
        ensures
            n == self.log_at(id).len(),
    {
        match self {
            BufferMemory::Linear(buffer) => buffer.commands.len(),
            BufferMemory::Individual { storage } => storage[id].commands.len(),
        }
    }

    /// How many payload scalars buffer `id`'s data buffer holds.
    pub fn data_count(&self, id: usize) -> (n: usize)
        requires
            self.valid_id(id),
        ensures
            n == self.data_at(id).len(),
    {
        match self {
            BufferMemory::Linear(buffer) => buffer.data.len(),
            BufferMemory::Individual { storage } => storage[id].data.len(),
        }
    }

    /// Read one command of buffer `id`'s log.
    pub fn command_at(&self, id: usize, i: usize) -> (c: Command)
        requires
            self.valid_id(id),
            i < self.log_at(id).len(),
        ensures
            c == self.log_at(id)[i as int],
    {
        match self {
            BufferMemory::Linear(buffer) => buffer.commands[i],
            BufferMemory::Individual { storage } => storage[id].commands[i],
        }
    }

    /// Read one payload scalar of buffer `id`'s data buffer.
    pub fn data_scalar_at(&self, id: usize, i: usize) -> (v: u64)
        requires
            self.valid_id(id),
            i < self.data_at(id).len(),
        ensures
            v == self.data_at(id)[i as int],
    {
        match self {
            BufferMemory::Linear(buffer) => buffer.data[i],
            BufferMemory::Individual { storage } => storage[id].data[i],
        }
    }

    /// Hand out the log/buffer pair a fresh recorder will append to: the
    /// shared pair in linear mode, a newly inserted empty pair with the
    /// next sequential id in individual mode. Returns the id and whether
    /// that id resets on its own.
    pub fn register_buffer(&mut self) -> (r: (usize, bool))
        requires
            old(self).is_individual() ==> old(self).buffer_count() < usize::MAX,
        ensures
            final(self).is_individual() == old(self).is_individual(),
            r.1 == old(self).is_individual(),
            final(self).valid_id(r.0),
            !old(self).is_individual() ==> r.0 == 0 && *final(self) == *old(self),
            old(self).is_individual() ==> {
                &&& r.0 == old(self).buffer_count()
                &&& final(self).buffer_count() == old(self).buffer_count() + 1
                &&& final(self).log_at(r.0) == Seq::<Command>::empty()
                &&& final(self).data_at(r.0) == Seq::<u64>::empty()
                &&& forall|j: usize|
                    old(self).valid_id(j) ==> final(self).log_at(j) == old(self).log_at(j)
                        && final(self).data_at(j) == old(self).data_at(j)
            },
    {
        match self {
            BufferMemory::Linear(_) => (0, false),
            BufferMemory::Individual { storage } => {
                let id = storage.len();
                storage.push(OwnedBuffer::new());
                (id, true)
            },
        }
    }

    /// Append one command to buffer `id`'s log and return the length-one
    /// slice of the new tail entry.
    pub fn append_command(&mut self, id: usize, cmd: Command) -> (r: BufferSlice)
        requires
            old(self).valid_id(id),
            old(self).log_at(id).len() < u32::MAX,
        ensures
            BufferMemory::isolated_update(*old(self), *final(self), id),
            final(self).log_at(id) == old(self).log_at(id).push(cmd),
            final(self).data_at(id) == old(self).data_at(id),
            r == (BufferSlice { offset: old(self).log_at(id).len() as u32, size: 1u32 }),
    {
        match self {
            BufferMemory::Linear(buffer) => buffer.push_command(cmd),
            BufferMemory::Individual { storage } => storage[id].push_command(cmd),
        }
    }

    /// Copy the given scalars to the tail of buffer `id`'s data buffer and
    /// return the slice covering them.
    pub fn append_data(&mut self, id: usize, vals: &Vec<u64>) -> (r: BufferSlice)
        requires
            old(self).valid_id(id),
            old(self).data_at(id).len() + vals@.len() <= u32::MAX,
        ensures
            BufferMemory::isolated_update(*old(self), *final(self), id),
            final(self).log_at(id) == old(self).log_at(id),
            final(self).data_at(id) == old(self).data_at(id) + vals@,
            r == (BufferSlice {
                offset: old(self).data_at(id).len() as u32,
                size: vals@.len() as u32,
            }),
    {
        match self {
            BufferMemory::Linear(buffer) => buffer.push_data(vals),
            BufferMemory::Individual { storage } => storage[id].push_data(vals),
        }
    }

    /// Empty exactly buffer `id`'s log and data buffer. Only an
    /// individual-mode pool can do this; in a linear pool no single buffer
    /// owns the shared pair.
    pub fn clear_buffer(&mut self, id: usize)
        requires
            old(self).is_individual(),
            old(self).valid_id(id),
        ensures
            BufferMemory::isolated_update(*old(self), *final(self), id),
            final(self).log_at(id) == Seq::<Command>::empty(),
            final(self).data_at(id) == Seq::<u64>::empty(),
    {
        match self {
            BufferMemory::Linear(_) => {},
            BufferMemory::Individual { storage } => {
                storage[id].clear();
            },
        }
    }

    /// Reset the whole pool: empty every log and data buffer it holds,
    /// keeping the mode and the set of buffer ids.
    pub fn reset_all(&mut self)
        ensures
            final(self).is_individual() == old(self).is_individual(),
            final(self).buffer_count() == old(self).buffer_count(),
            forall|j: usize| #[trigger] old(self).valid_id(j) ==>
                final(self).log_at(j) == Seq::<Command>::empty()
                && final(self).data_at(j) == Seq::<u64>::empty(),
    {
        match self {
            BufferMemory::Linear(buffer) => {
                buffer.clear();
            },
            BufferMemory::Individual { storage } => {
                let n = storage.len();
                let mut i: usize = 0;
                while i < n
                    invariant
                        i <= n,
                        storage@.len() == n,
                        forall|j: int| 0 <= j < i ==> storage@[j].commands@
                            == Seq::<Command>::empty() && storage@[j].data@
                            == Seq::<u64>::empty(),
                    decreases n - i,
                {
                    storage[i].clear();
                    i = i + 1;
                }
            },
        }
    }
}

} // verus!
