//! The process registry: which OS process is currently running for a
//! task. It exists only so that a cancel or pause request can find and
//! kill the right process; an entry is present exactly while a task is
//! downloading with a process attached.

use vstd::prelude::*;

use vstd::hash_map::StringHashMap;

verus! {

pub struct ProcessRegistry {
    map: StringHashMap<u32>,
}

impl View for ProcessRegistry {
    type V = Map<Seq<char>, u32>;

    closed spec fn view(&self) -> Map<Seq<char>, u32> {
        self.map@
    }
}

impl ProcessRegistry {
    pub fn new() -> (r: Self)
        ensures
            r@ == Map::<Seq<char>, u32>::empty(),
    {
        ProcessRegistry { map: StringHashMap::new() }
    }

    /// Records the process now running for the task.
    pub fn register(&mut self, id: &str, pid: u32)
        ensures
            final(self)@ == old(self)@.insert(id@, pid),
    {
        self.map.insert(id.to_owned(), pid);
    }

    /// Atomically removes and returns the task's entry, if present.
    pub fn take(&mut self, id: &str) -> (r: Option<u32>)
        ensures
            final(self)@ == old(self)@.remove(id@),
            r == if old(self)@.contains_key(id@) {
                Some(old(self)@[id@])
            } else {
                None::<u32>
            },
    {
        let r = match self.map.get(id) {
            Some(pid) => Some(*pid),
            None => None,
        };
        self.map.remove(id);
        r
    }

    /// Removes the task's entry if present; nothing otherwise.
    pub fn deregister(&mut self, id: &str)
        ensures
            final(self)@ == old(self)@.remove(id@),
    {
        self.map.remove(id);
    }

    pub fn contains(&self, id: &str) -> (r: bool)
        ensures
            r == self@.contains_key(id@),
    {
        self.map.contains_key(id)
    }

    /// How many processes are registered.
    pub fn count(&self) -> (r: usize)
        ensures
            r == self@.len(),
    {
        self.map.len()
    }
}

} // verus!
