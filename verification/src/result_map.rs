use vstd::prelude::*;

use crate::commands::McuCommand;
use crate::reading::{outcome_view, CommandError, Reading, ReadingError};

verus! {

/// Per-command outcome mapping produced by one execution run: one entry per
/// requested command, keys unique, insertion order irrelevant.
pub struct ResultMap {
    entries: Vec<(McuCommand, Result<Reading, CommandError>)>,
}

/// Mathematical content of an entry list, later entries shadowing earlier
/// ones (well-formed maps never hold two entries for one command).
pub open spec fn spec_map_of(s: Seq<(McuCommand, Result<Reading, CommandError>)>) -> Map<
    McuCommand,
    Result<Reading, (ReadingError, Seq<char>)>,
>
    decreases s.len(),
{
    if s.len() == 0 {
        Map::empty()
    } else {
        spec_map_of(s.drop_last()).insert(s.last().0, outcome_view(s.last().1))
    }
}

/// No command occurs twice in the entry list.
pub open spec fn keys_unique(s: Seq<(McuCommand, Result<Reading, CommandError>)>) -> bool {
    forall|i: int, j: int| 0 <= i < j < s.len() ==> (#[trigger] s[i]).0 != (#[trigger] s[j]).0
}

/// A key is in the map exactly when some entry carries it.
proof fn lemma_map_of_contains(s: Seq<(McuCommand, Result<Reading, CommandError>)>, k: McuCommand)
    ensures
        spec_map_of(s).contains_key(k) <==> exists|i: int|
            0 <= i < s.len() && (#[trigger] s[i]).0 == k,
    decreases s.len(),
{
    if s.len() > 0 {
        lemma_map_of_contains(s.drop_last(), k);
        if s.last().0 == k {
            assert(s[s.len() - 1].0 == k);
        } else if spec_map_of(s).contains_key(k) {
            let i = choose|i: int| 0 <= i < s.drop_last().len() && (#[trigger] s.drop_last()[i]).0
                == k;
            assert(s[i].0 == k);
        } else {
            assert forall|i: int| 0 <= i < s.len() && (#[trigger] s[i]).0 == k implies false by {
                if i < s.len() - 1 {
                    assert(s.drop_last()[i].0 == k);
                }
            }
        }
    }
}

/// With unique keys, the entry at any index gives the key's mapped value.
proof fn lemma_map_of_index(s: Seq<(McuCommand, Result<Reading, CommandError>)>, i: int)
    requires
        keys_unique(s),
        0 <= i < s.len(),
    ensures
        spec_map_of(s).contains_key(s[i].0),
        spec_map_of(s)[s[i].0] == outcome_view(s[i].1),
    decreases s.len(),
{
    lemma_map_of_contains(s, s[i].0);
    if i < s.len() - 1 {
        assert(s.drop_last()[i] == s[i]);
        lemma_map_of_index(s.drop_last(), i);
        assert(s.last().0 != s[i].0);
    }
}

/// The map's domain is finite, with one element per entry of a unique list.
proof fn lemma_map_of_dom(s: Seq<(McuCommand, Result<Reading, CommandError>)>)
    ensures
        spec_map_of(s).dom().finite(),
        keys_unique(s) ==> spec_map_of(s).dom().len() == s.len(),
    decreases s.len(),
{
    if s.len() > 0 {
        lemma_map_of_dom(s.drop_last());
        if keys_unique(s) {
            assert(keys_unique(s.drop_last())) by {
                assert forall|i: int, j: int|
                    0 <= i < j < s.drop_last().len() implies (#[trigger] s.drop_last()[i]).0 != (
                #[trigger] s.drop_last()[j]).0 by {
                    assert(s[i].0 != s[j].0);
                }
            }
            lemma_map_of_contains(s.drop_last(), s.last().0);
            assert forall|i: int|
                0 <= i < s.drop_last().len() implies (#[trigger] s.drop_last()[i]).0
                != s.last().0 by {
                assert(s[i].0 != s[s.len() - 1].0);
            }
            assert(!spec_map_of(s.drop_last()).contains_key(s.last().0));
        }
    }
}

impl View for ResultMap {
    type V = Map<McuCommand, Result<Reading, (ReadingError, Seq<char>)>>;

    closed spec fn view(&self) -> Map<McuCommand, Result<Reading, (ReadingError, Seq<char>)>> {
        spec_map_of(self.entries@)
    }
}

impl ResultMap {
    /// Internal shape: no command occurs twice in the entry list.
    pub closed spec fn wf(&self) -> bool {
        keys_unique(self.entries@)
    }

    /// The domain of a well-formed map is finite.
    pub proof fn lemma_dom_finite(&self)
        ensures
            self@.dom().finite(),
            self.wf() ==> self@.dom().len() == self.entry_len(),
    {
        lemma_map_of_dom(self.entries@);
    }

    /// An empty result map.
    pub fn new() -> (r: ResultMap)
        ensures
            r.wf(),
            r@ == Map::<McuCommand, Result<Reading, (ReadingError, Seq<char>)>>::empty(),
    {
        ResultMap { entries: Vec::new() }
    }

    /// Number of commands resolved so far.
    pub fn len(&self) -> (n: usize)
        requires
            self.wf(),
        ensures
            n == self@.dom().len(),
    {
        proof {
            self.lemma_dom_finite();
        }
        self.entries.len()
    }

    /// Whether this command already has an entry.
    pub fn contains(&self, cmd: McuCommand) -> (b: bool)
        requires
            self.wf(),
        ensures
            b == self@.contains_key(cmd),
    {
        let n = self.entries.len();
        let mut i: usize = 0;
        while i < n
            invariant
                0 <= i <= n,
                n == self.entries@.len(),
                self.wf(),
                forall|j: int| 0 <= j < i ==> (#[trigger] self.entries@[j]).0 != cmd,
            decreases n - i,
        {
            if self.entries[i].0 == cmd {
                proof {
                    lemma_map_of_index(self.entries@, i as int);
                }
                return true;
            }
            i = i + 1;
        }
        proof {
            lemma_map_of_contains(self.entries@, cmd);
        }
        false
    }

    /// The outcome recorded for a command, if any.
    pub fn get(&self, cmd: McuCommand) -> (r: Option<&Result<Reading, CommandError>>)
        requires
            self.wf(),
        ensures
            r is Some <==> self@.contains_key(cmd),
            r is Some ==> outcome_view(*r->Some_0) == self@[cmd],
    {
        let n = self.entries.len();
        let mut i: usize = 0;
        while i < n
            invariant
                0 <= i <= n,
                n == self.entries@.len(),
                self.wf(),
                forall|j: int| 0 <= j < i ==> (#[trigger] self.entries@[j]).0 != cmd,
            decreases n - i,
        {
            if self.entries[i].0 == cmd {
                proof {
                    lemma_map_of_index(self.entries@, i as int);
                }
                return Some(&self.entries[i].1);
            }
            i = i + 1;
        }
        proof {
            lemma_map_of_contains(self.entries@, cmd);
        }
        None
    }

    /// Records an outcome for a command unless one is already present:
    /// first result wins, so an entry is never overwritten.
    pub fn insert_if_absent(&mut self, cmd: McuCommand, value: Result<Reading, CommandError>)
        requires
            old(self).wf(),
        ensures
            final(self).wf(),
            old(self)@.contains_key(cmd) ==> final(self)@ == old(self)@,
            !old(self)@.contains_key(cmd) ==> final(self)@ == old(self)@.insert(
                cmd,
                outcome_view(value),
            ),
    {
        if self.contains(cmd) {
            return ;
        }
        proof {
            lemma_map_of_contains(self.entries@, cmd);
        }
        self.entries.push((cmd, value));
        proof {
            assert(self.entries@.drop_last() == old(self).entries@);
            assert forall|i: int, j: int| 0 <= i < j < self.entries@.len() implies (
            #[trigger] self.entries@[i]).0 != (#[trigger] self.entries@[j]).0 by {
                if j < self.entries@.len() - 1 {
                    assert(old(self).entries@[i] == self.entries@[i]);
                    assert(old(self).entries@[j] == self.entries@[j]);
                } else {
                    assert(old(self).entries@[i] == self.entries@[i]);
                }
            }
        }
    }

    /// The number of entries, for indexed traversal.
    pub fn entry_count(&self) -> (n: usize)
        ensures
            n == self.entry_len(),
    {
        self.entries.len()
    }

    /// Ghost length of the entry list.
    pub closed spec fn entry_len(&self) -> nat {
        self.entries@.len()
    }

    /// The entry at an index: a command together with its recorded outcome.
    pub fn entry_at(&self, i: usize) -> (r: &(McuCommand, Result<Reading, CommandError>))
        requires
            self.wf(),
            i < self.entry_len(),
        ensures
            self@.contains_key(r.0),
            outcome_view(r.1) == self@[r.0],
    {
        proof {
            lemma_map_of_index(self.entries@, i as int);
        }
        &self.entries[i]
    }
}

} // verus!
