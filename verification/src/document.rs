//! What a document stores and what is handed to it for storing.

use vstd::prelude::*;

verus! {

/// One version of the value under a key, as a scan of the document gives it.
///
/// Entries are never changed. Writing under a key again adds an entry with a
/// later timestamp, and the earlier ones stay in the document.
#[derive(Clone, Debug, PartialEq, Eq)]
pub struct Entry {
    /// The key under which the entry was written.
    pub key: Vec<u8>,
    /// Who wrote the entry.
    pub author: [u8; 32],
    /// The logical time at which the entry was written.
    pub timestamp: u64,
    /// The bytes that the entry refers to, or `None` where they could not be
    /// fetched, as happens while they are still on their way from a peer.
    pub content: Option<Vec<u8>>,
}

/// A value to be written to the document under a key.
#[derive(Clone, Debug, PartialEq, Eq)]
pub struct Write {
    /// The key to write under.
    pub key: Vec<u8>,
    /// The bytes to store.
    pub content: Vec<u8>,
}

impl View for Write {
    type V = (Seq<u8>, Seq<u8>);

    /// The key and the content.
    open spec fn view(&self) -> (Seq<u8>, Seq<u8>) {
        (self.key@, self.content@)
    }
}

impl Write {
    /// The entry that a scan shows once this value has been written by
    /// `author` at `timestamp` and its content is at hand.
    pub fn into_entry(self, author: [u8; 32], timestamp: u64) -> (e: Entry)
        ensures
            e.key@ == self.key@,
            e.author@ == author@,
            e.timestamp == timestamp,
            e.content matches Some(c) && c@ == self.content@,
    {
        Entry { key: self.key, author, timestamp, content: Some(self.content) }
    }
}

/// Whether entry `i` is the one that counts for its key: no entry under the
/// same key is later, and of those written at the same time it comes first.
pub open spec fn wins(entries: Seq<Entry>, i: int) -> bool {
    &&& 0 <= i < entries.len()
    &&& forall|j: int|
        0 <= j < entries.len() && #[trigger] entries[j].key@ == entries[i].key@ ==> {
            ||| entries[j].timestamp < entries[i].timestamp
            ||| (entries[j].timestamp == entries[i].timestamp && i <= j)
        }
}

/// Whether some entry is stored under `key`.
pub open spec fn has_key(entries: Seq<Entry>, key: Seq<u8>) -> bool {
    exists|j: int| 0 <= j < entries.len() && #[trigger] entries[j].key@ == key
}

/// Under each key at most one entry counts.
pub proof fn lemma_one_winner(entries: Seq<Entry>, i: int, j: int)
    requires
        wins(entries, i),
        wins(entries, j),
        entries[i].key@ == entries[j].key@,
    ensures
        i == j,
{
}

/// Under each key that occurs some entry counts.
pub proof fn law_some_entry_counts(entries: Seq<Entry>, key: Seq<u8>)
    requires
        has_key(entries, key),
    ensures
        exists|i: int| wins(entries, i) && #[trigger] entries[i].key@ == key,
    decreases entries.len(),
{
    let last = entries.len() - 1;
    let front = entries.drop_last();
    if has_key(front, key) {
        law_some_entry_counts(front, key);
        let b = choose|b: int| wins(front, b) && #[trigger] front[b].key@ == key;
        if entries[last].key@ == key && entries[last].timestamp > entries[b].timestamp {
            assert(wins(entries, last)) by {
                assert forall|j: int|
                    0 <= j < entries.len() && #[trigger] entries[j].key@ == entries[last].key@ implies (
                    entries[j].timestamp < entries[last].timestamp || (entries[j].timestamp
                        == entries[last].timestamp && last <= j)) by {
                    if j < last {
                        assert(front[j].key@ == front[b].key@);
                    }
                }
            }
        } else {
            assert(wins(entries, b)) by {
                assert forall|j: int|
                    0 <= j < entries.len() && #[trigger] entries[j].key@ == entries[b].key@ implies (
                    entries[j].timestamp < entries[b].timestamp || (entries[j].timestamp
                        == entries[b].timestamp && b <= j)) by {
                    if j < last {
                        assert(front[j].key@ == front[b].key@);
                    }
                }
            }
            assert(entries[b].key@ == key);
        }
    } else {
        let w = choose|j: int| 0 <= j < entries.len() && #[trigger] entries[j].key@ == key;
        if w != last {
            assert(front[w].key@ == key);
        }
        assert(wins(entries, last)) by {
            assert forall|j: int|
                0 <= j < entries.len() && #[trigger] entries[j].key@ == entries[last].key@ implies (
                entries[j].timestamp < entries[last].timestamp || (entries[j].timestamp
                    == entries[last].timestamp && last <= j)) by {
                if j < last {
                    assert(front[j].key@ == key);
                }
            }
        }
    }
}

/// At every moment exactly one entry counts under each key that occurs.
pub proof fn law_exactly_one_entry_counts(entries: Seq<Entry>, key: Seq<u8>)
    requires
        has_key(entries, key),
    ensures
        exists|i: int| wins(entries, i) && #[trigger] entries[i].key@ == key,
        forall|i: int, j: int|
            wins(entries, i) && wins(entries, j) && #[trigger] entries[i].key@ == key
                && #[trigger] entries[j].key@ == key ==> i == j,
{
    law_some_entry_counts(entries, key);
}

/// An entry that is later than every other entry under its key counts, and
/// no other entry under that key does, wherever in the scan they stand.
pub proof fn lemma_latest_wins(entries: Seq<Entry>, i: int)
    requires
        0 <= i < entries.len(),
        forall|j: int|
            0 <= j < entries.len() && j != i && #[trigger] entries[j].key@ == entries[i].key@
                ==> entries[j].timestamp < entries[i].timestamp,
    ensures
        wins(entries, i),
        forall|j: int|
            0 <= j < entries.len() && j != i && #[trigger] entries[j].key@ == entries[i].key@
                ==> !wins(entries, j),
{
    assert forall|j: int|
        0 <= j < entries.len() && j != i && #[trigger] entries[j].key@ == entries[i].key@
        implies !wins(entries, j) by {
        assert(entries[i].key@ == entries[j].key@);
    }
}

} // verus!
