//! Transposition table: a fixed number of slots, each holding at most one
//! search result, found again by the position's hash key.

use vstd::prelude::*;

verus! {

pub const HASH_TYPE_EXACT: u8 = 1;

/// The stored score is an upper bound: the search failed low.
pub const HASH_TYPE_ALPHA: u8 = 2;

/// The stored score is a lower bound: the search failed high.
pub const HASH_TYPE_BETA: u8 = 3;

/// What a probe finds.
#[derive(PartialEq, Eq, Structural, Debug, Clone, Copy)]
pub enum LookupResult {
    /// The position is stored, searched at least as deep as asked: bound
    /// flag, score and move.
    Match(u8, i32, u32),
    /// The position is stored, but searched less deep than asked: only its
    /// move is of use.
    MovOnly(u32),
    NoMatch,
}

/// One slot of the table.
#[derive(Clone, Copy, Debug)]
pub struct TableEntry {
    /// Whether the slot holds a result.
    pub used: bool,
    pub key: u64,
    pub player: u8,
    pub depth: u8,
    pub cas_rights: u8,
    pub enp_sqr: usize,
    pub flag: u8,
    pub score: i32,
    pub mov: u32,
}

pub struct HashTable {
    /// Whether a result gives way to one already stored in its slot that
    /// was searched deeper.
    depth_preferred: bool,
    table: Vec<TableEntry>,
}

/// The empty slot.
pub open spec fn spec_empty_entry() -> TableEntry {
    TableEntry {
        used: false,
        key: 0,
        player: 0,
        depth: 0,
        cas_rights: 0,
        enp_sqr: 0,
        flag: 0,
        score: 0,
        mov: 0,
    }
}

/// Whether a slot holds a result for the position that the key, the player
/// to move, the castling rights and the en-passant square identify.
pub open spec fn entry_is_for(
    entry: TableEntry,
    key: u64,
    player: u8,
    cas_rights: u8,
    enp_sqr: usize,
) -> bool {
    entry.used && entry.key == key && entry.player == player && entry.cas_rights == cas_rights
        && entry.enp_sqr == enp_sqr
}

/// What a probe of one slot finds.
pub open spec fn spec_lookup(
    entry: TableEntry,
    key: u64,
    player: u8,
    depth: u8,
    cas_rights: u8,
    enp_sqr: usize,
) -> LookupResult {
    if entry_is_for(entry, key, player, cas_rights, enp_sqr) {
        if entry.depth >= depth {
            LookupResult::Match(entry.flag, entry.score, entry.mov)
        } else {
            LookupResult::MovOnly(entry.mov)
        }
    } else {
        LookupResult::NoMatch
    }
}

impl HashTable {
    /// The slots, in order.
    pub closed spec fn entries(&self) -> Seq<TableEntry> {
        self.table@
    }

    /// Whether the table keeps the deeper of two results that meet in a
    /// slot.
    pub closed spec fn is_depth_preferred(&self) -> bool {
        self.depth_preferred
    }

    /// The table has at least one slot.
    pub open spec fn wf(&self) -> bool {
        self.entries().len() > 0
    }

    /// Every stored score is between `-limit` and `limit`.
    pub open spec fn scores_within(&self, limit: int) -> bool {
        forall|i: int|
            0 <= i < self.entries().len() ==> -limit <= (#[trigger] self.entries()[i]).score
                <= limit
    }

    /// The slot that a key falls into.
    pub open spec fn slot_of(&self, key: u64) -> int {
        key as int % self.entries().len() as int
    }

    /// What `get` returns.
    pub open spec fn spec_get(
        &self,
        key: u64,
        player: u8,
        depth: u8,
        cas_rights: u8,
        enp_sqr: usize,
    ) -> LookupResult {
        spec_lookup(self.entries()[self.slot_of(key)], key, player, depth, cas_rights, enp_sqr)
    }

    /// Whether `set` stores a result of this depth under this key.
    pub open spec fn accepts(&self, key: u64, depth: u8) -> bool {
        !self.is_depth_preferred() || !self.entries()[self.slot_of(key)].used
            || self.entries()[self.slot_of(key)].depth <= depth
    }

    fn with_policy(size: usize, depth_preferred: bool) -> (r: HashTable)
        requires
            size > 0,
        ensures
            r.wf(),
            r.entries().len() == size,
            r.is_depth_preferred() == depth_preferred,
            forall|i: int| 0 <= i < size ==> r.entries()[i] == spec_empty_entry(),
    {
        let empty = TableEntry {
            used: false,
            key: 0,
            player: 0,
            depth: 0,
            cas_rights: 0,
            enp_sqr: 0,
            flag: 0,
            score: 0,
            mov: 0,
        };
        HashTable { depth_preferred, table: vec![empty; size] }
    }

    /// An empty table of `size` slots in which a new result always takes
    /// its slot.
    pub fn new(size: usize) -> (r: HashTable)
        requires
            size > 0,
        ensures
            r.wf(),
            r.entries().len() == size,
            !r.is_depth_preferred(),
            forall|i: int| 0 <= i < size ==> r.entries()[i] == spec_empty_entry(),
    {
        HashTable::with_policy(size, false)
    }

    /// An empty table of `size` slots in which a result gives way to one
    /// that was searched deeper.
    pub fn new_depth_preferred(size: usize) -> (r: HashTable)
        requires
            size > 0,
        ensures
            r.wf(),
            r.entries().len() == size,
            r.is_depth_preferred(),
            forall|i: int| 0 <= i < size ==> r.entries()[i] == spec_empty_entry(),
    {
        HashTable::with_policy(size, true)
    }

    /// Number of slots.
    pub fn size(&self) -> (r: usize)
        ensures
            r == self.entries().len(),
    {
        self.table.len()
    }

    /// Probes the slot of `key`. The result counts for the position only if
    /// key, player, castling rights and en-passant square all agree with
    /// what is stored; its score counts only if it was searched at least
    /// `depth` deep.
    pub fn get(&self, key: u64, player: u8, depth: u8, cas_rights: u8, enp_sqr: usize) -> (r:
        LookupResult)
        requires
            self.wf(),
        ensures
            r == self.spec_get(key, player, depth, cas_rights, enp_sqr),
    {
        let index: usize = (key % (self.table.len() as u64)) as usize;
        let entry = &self.table[index];
        if entry.used && entry.key == key && entry.player == player && entry.cas_rights
            == cas_rights && entry.enp_sqr == enp_sqr {
            if entry.depth >= depth {
                LookupResult::Match(entry.flag, entry.score, entry.mov)
            } else {
                LookupResult::MovOnly(entry.mov)
            }
        } else {
            LookupResult::NoMatch
        }
    }

    /// Stores a result in the slot of `key` and returns `true`, whatever
    /// the slot held; but a depth-preferred table that holds a deeper
    /// result there keeps it and returns `false`.
    pub fn set(
        &mut self,
        key: u64,
        player: u8,
        depth: u8,
        cas_rights: u8,
        enp_sqr: usize,
        flag: u8,
        score: i32,
        mov: u32,
    ) -> (stored: bool)
        requires
            old(self).wf(),
        ensures
            final(self).wf(),
            final(self).is_depth_preferred() == old(self).is_depth_preferred(),
            stored == old(self).accepts(key, depth),
            stored ==> final(self).entries() == old(self).entries().update(
                old(self).slot_of(key),
                (TableEntry {
                    used: true,
                    key,
                    player,
                    depth,
                    cas_rights,
                    enp_sqr,
                    flag,
                    score,
                    mov,
                }),
            ),
            !stored ==> final(self).entries() == old(self).entries(),
    {
        let index: usize = (key % (self.table.len() as u64)) as usize;
        if self.depth_preferred {
            let entry = &self.table[index];
            if entry.used && entry.depth > depth {
                return false;
            }
        }
        self.table[index] = TableEntry {
            used: true,
            key,
            player,
            depth,
            cas_rights,
            enp_sqr,
            flag,
            score,
            mov,
        };
        true
    }

    /// Empties every slot.
    pub fn clear(&mut self)
        requires
            old(self).wf(),
        ensures
            final(self).wf(),
            final(self).is_depth_preferred() == old(self).is_depth_preferred(),
            final(self).entries().len() == old(self).entries().len(),
            forall|i: int|
                0 <= i < final(self).entries().len() ==> final(self).entries()[i]
                    == spec_empty_entry(),
    {
        let n: usize = self.table.len();
        let mut i: usize = 0;
        while i < n
            invariant
                i <= n,
                n == self.table@.len(),
                self.depth_preferred == old(self).depth_preferred,
                forall|j: int| 0 <= j < i ==> self.table@[j] == spec_empty_entry(),
            decreases n - i,
        {
            self.table[i] = TableEntry {
                used: false,
                key: 0,
                player: 0,
                depth: 0,
                cas_rights: 0,
                enp_sqr: 0,
                flag: 0,
                score: 0,
                mov: 0,
            };
            i += 1;
        }
    }
}

/// A stored result is found again: after `set` has stored a result, a probe
/// for the same position returns that result's bound flag, score and move if
/// it asks for no more depth than was stored, and the move alone if it asks
/// for more.
pub proof fn lemma_set_then_get(
    before: HashTable,
    after: HashTable,
    key: u64,
    player: u8,
    depth: u8,
    cas_rights: u8,
    enp_sqr: usize,
    flag: u8,
    score: i32,
    mov: u32,
    asked: u8,
)
    requires
        before.wf(),
        after.entries() == before.entries().update(
            before.slot_of(key),
            (TableEntry { used: true, key, player, depth, cas_rights, enp_sqr, flag, score, mov }),
        ),
    ensures
        asked <= depth ==> after.spec_get(key, player, asked, cas_rights, enp_sqr)
            == LookupResult::Match(flag, score, mov),
        asked > depth ==> after.spec_get(key, player, asked, cas_rights, enp_sqr)
            == LookupResult::MovOnly(mov),
{
}

/// A probe for another position misses the slot that was just written: if
/// key, player, castling rights or en-passant square differ from what `set`
/// stored and the key falls into the same slot, the probe finds nothing.
pub proof fn lemma_set_then_get_other(
    before: HashTable,
    after: HashTable,
    key: u64,
    player: u8,
    depth: u8,
    cas_rights: u8,
    enp_sqr: usize,
    flag: u8,
    score: i32,
    mov: u32,
    other_key: u64,
    other_player: u8,
    other_cas_rights: u8,
    other_enp_sqr: usize,
    asked: u8,
)
    requires
        before.wf(),
        after.entries() == before.entries().update(
            before.slot_of(key),
            (TableEntry { used: true, key, player, depth, cas_rights, enp_sqr, flag, score, mov }),
        ),
        other_key != key || other_player != player || other_cas_rights != cas_rights
            || other_enp_sqr != enp_sqr,
    ensures
        after.slot_of(other_key) == before.slot_of(key) ==> after.spec_get(
            other_key,
            other_player,
            asked,
            other_cas_rights,
            other_enp_sqr,
        ) == LookupResult::NoMatch,
        after.slot_of(other_key) != before.slot_of(key) ==> after.spec_get(
            other_key,
            other_player,
            asked,
            other_cas_rights,
            other_enp_sqr,
        ) == before.spec_get(other_key, other_player, asked, other_cas_rights, other_enp_sqr),
{
}

/// In a table that held nothing before one result was stored, every probe
/// for another position finds nothing.
pub proof fn lemma_fresh_set_then_get_other(
    before: HashTable,
    after: HashTable,
    key: u64,
    player: u8,
    depth: u8,
    cas_rights: u8,
    enp_sqr: usize,
    flag: u8,
    score: i32,
    mov: u32,
    other_key: u64,
    other_player: u8,
    other_cas_rights: u8,
    other_enp_sqr: usize,
    asked: u8,
)
    requires
        before.wf(),
        forall|i: int| 0 <= i < before.entries().len() ==> !(#[trigger] before.entries()[i]).used,
        after.entries() == before.entries().update(
            before.slot_of(key),
            (TableEntry { used: true, key, player, depth, cas_rights, enp_sqr, flag, score, mov }),
        ),
        other_key != key || other_player != player || other_cas_rights != cas_rights
            || other_enp_sqr != enp_sqr,
    ensures
        after.spec_get(other_key, other_player, asked, other_cas_rights, other_enp_sqr)
            == LookupResult::NoMatch,
{
}

} // verus!
