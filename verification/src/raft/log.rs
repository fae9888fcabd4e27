use vstd::prelude::*;

verus! {

/// A command of the key-value state machine, as carried by the replicated log.
#[derive(Debug, Clone)]
pub enum KvCommand {
    Get { key: String },
    Put { key: String, value: String },
    Remove { key: String },
}

/// What the key-value state machine answers to a command.
#[derive(Debug, Clone)]
pub enum KvResponse {
    Get(Option<String>),
    Put(bool),
    Remove(bool),
}

/// One entry of the replicated log: a command and the term in which a leader
/// received it.
#[derive(Debug, Clone)]
pub struct LogEntry {
    pub term: u64,
    pub command: KvCommand,
}

impl LogEntry {
    pub fn new(term: u64, command: KvCommand) -> (entry: LogEntry)
        ensures
            entry.term == term,
            entry.command == command,
    {
        LogEntry { term, command }
    }
}

/// The terms of `entries` strictly increase from the first entry to the last.
pub open spec fn terms_increase(entries: Seq<LogEntry>) -> bool {
    forall|i: int, j: int| 0 <= i < j < entries.len() ==> #[trigger] entries[i].term < #[trigger] entries[j].term
}

/// The term of the last entry of `entries`, 0 for an empty log.
pub open spec fn last_term(entries: Seq<LogEntry>) -> u64 {
    if entries.len() == 0 {
        0
    } else {
        entries.last().term
    }
}

/// An entry of term `term` may follow `entries`: the log is empty or its last
/// term is smaller.
pub open spec fn may_follow(entries: Seq<LogEntry>, term: u64) -> bool {
    entries.len() == 0 || entries.last().term < term
}

/// The replicated log of a node.  Entries are numbered from 1; index 0 stands
/// for "before the first entry".
#[derive(Debug)]
pub struct Log {
    entries: Vec<LogEntry>,
}

impl View for Log {
    type V = Seq<LogEntry>;

    closed spec fn view(&self) -> Seq<LogEntry> {
        self.entries@
    }
}

impl Log {
    #[verifier::type_invariant]
    closed spec fn terms_strictly_increase(self) -> bool {
        self.well_formed()
    }

    /// The terms of the log strictly increase, as they do in every log.
    pub open spec fn well_formed(&self) -> bool {
        terms_increase(self@)
    }

    /// Creates a new `Log`.
    pub fn new() -> (log: Log)
        ensures
            log@ == Seq::<LogEntry>::empty(),
            log.well_formed(),
    {
        Log { entries: Vec::new() }
    }

    /// Appends `entry`.  Its term must be larger than that of the current
    /// last entry.
    pub fn add_entry(&mut self, entry: LogEntry)
        requires
            may_follow(old(self)@, entry.term),
        ensures
            final(self)@ == old(self)@.push(entry),
            final(self).well_formed(),
    {
        proof {
            use_type_invariant(&*self);
            lemma_push_keeps_terms_increasing(self@, entry);
        }
        let mut entries = Vec::new();
        std::mem::swap(&mut entries, &mut self.entries);
        entries.push(entry);
        self.entries = entries;
    }

    /// Returns the index of the last entry in the log.
    /// It's 0 if the log is empty.
    /// Like every log, this one is well formed.
    pub fn last_log_index(&self) -> (index: u64)
        ensures
            index == self@.len(),
            self.well_formed(),
    {
        proof {
            use_type_invariant(self);
        }
        self.entries.len() as u64
    }

    /// Returns the term of the last entry in the log.
    /// It's 0 if the log is empty.
    pub fn last_entry_term(&self) -> (term: u64)
        ensures
            term == last_term(self@),
    {
        let n = self.entries.len();
        if n == 0 {
            0
        } else {
            self.entries[n - 1].term
        }
    }
}

/// The terms of a log with one more entry strictly increase exactly when
/// they did before and the new entry's term exceeds the last one.
pub proof fn lemma_push_terms_increase_iff(entries: Seq<LogEntry>, entry: LogEntry)
    ensures
        terms_increase(entries.push(entry)) <==> (terms_increase(entries) && may_follow(entries, entry.term)),
{
    let s = entries.push(entry);
    if terms_increase(s) {
        assert forall|i: int, j: int| 0 <= i < j < entries.len() implies #[trigger] entries[i].term < #[trigger] entries[j].term by {
            assert(s[i] == entries[i] && s[j] == entries[j]);
        }
        if entries.len() > 0 {
            assert(s[entries.len() - 1] == entries.last());
            assert(s[entries.len() as int] == entry);
        }
    }
    if may_follow(entries, entry.term) {
        lemma_push_keeps_terms_increasing(entries, entry);
    }
}

/// Appending an entry whose term exceeds the last term keeps the terms of a
/// log strictly increasing.
pub proof fn lemma_push_keeps_terms_increasing(entries: Seq<LogEntry>, entry: LogEntry)
    requires
        may_follow(entries, entry.term),
    ensures
        terms_increase(entries) ==> terms_increase(entries.push(entry)),
{
    if terms_increase(entries) {
        let s = entries.push(entry);
        assert forall|i: int, j: int| 0 <= i < j < s.len() implies #[trigger] s[i].term < #[trigger] s[j].term by {
            if j == entries.len() {
                if i < entries.len() - 1 {
                    assert(entries[i].term < entries[entries.len() - 1].term);
                }
            } else {
                assert(s[i] == entries[i] && s[j] == entries[j]);
            }
        }
    }
}

} // verus!
