//! Point-in-time view of the live processes.
use vstd::prelude::*;

verus! {

/// One live process as seen when a snapshot was taken.
#[derive(Debug, Clone, PartialEq, Eq)]
pub struct ProcessRecord {
    pub pid: u32,
    pub name: String,
    /// Resident memory in bytes.
    pub memory: u64,
    pub parent: Option<u32>,
}

impl ProcessRecord {
    pub fn new(pid: u32, name: String, memory: u64, parent: Option<u32>) -> (r: ProcessRecord)
        ensures
            r.pid == pid,
            r.name == name,
            r.memory == memory,
            r.parent == parent,
    {
        ProcessRecord { pid, name, memory, parent }
    }

    /// A field-by-field copy.
    pub fn copied(&self) -> (r: ProcessRecord)
        ensures
            r == *self,
    {
        ProcessRecord {
            pid: self.pid,
            name: self.name.clone(),
            memory: self.memory,
            parent: self.parent,
        }
    }
}

/// No two records of `recs` carry the same process identifier.
pub open spec fn pids_unique(recs: Seq<ProcessRecord>) -> bool {
    forall|i: int, j: int|
        0 <= i < recs.len() && 0 <= j < recs.len() && i != j ==> #[trigger] recs[i].pid
            != #[trigger] recs[j].pid
}

/// An immutable capture of the live processes, one record per identifier.
pub struct ProcessSnapshot {
    records: Vec<ProcessRecord>,
}

impl View for ProcessSnapshot {
    type V = Seq<ProcessRecord>;

    closed spec fn view(&self) -> Seq<ProcessRecord> {
        self.records@
    }
}

impl ProcessSnapshot {
    #[verifier::type_invariant]
    spec fn unique_pids(self) -> bool {
        pids_unique(self.records@)
    }

    /// Takes the records of one capture; refuses a list that names a process
    /// identifier twice.
    pub fn from_records(records: Vec<ProcessRecord>) -> (r: Option<ProcessSnapshot>)
        ensures
            r is Some <==> pids_unique(records@),
            r matches Some(s) ==> s@ == records@,
    {
        let n = records.len();
        let mut i: usize = 0;
        while i < n
            invariant
                n == records.len(),
                i <= n,
                forall|a: int, b: int|
                    0 <= a < i && 0 <= b < n && a != b ==> #[trigger] records@[a].pid
                        != #[trigger] records@[b].pid,
            decreases n - i,
        {
            let mut j: usize = 0;
            while j < n
                invariant
                    n == records.len(),
                    i < n,
                    j <= n,
                    forall|b: int| 0 <= b < j && b != i ==> records@[i as int].pid != #[trigger] records@[b].pid,
                decreases n - j,
            {
                if j != i && records[i].pid == records[j].pid {
                    return None;
                }
                j += 1;
            }
            i += 1;
        }
        Some(ProcessSnapshot { records })
    }

    pub fn len(&self) -> (r: usize)
        ensures
            r == self@.len(),
            pids_unique(self@),
    {
        proof {
            use_type_invariant(self);
        }
        self.records.len()
    }

    pub fn record(&self, i: usize) -> (r: &ProcessRecord)
        requires
            i < self@.len(),
        ensures
            *r == self@[i as int],
    {
        &self.records[i]
    }
}

} // verus!
