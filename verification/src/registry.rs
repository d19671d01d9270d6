//! The registry: at most one meeting code per room, each with the time at
//! which it was last written. An entry is live for `EXPIRES_AFTER_N_SECS`
//! seconds after that; nothing sweeps the registry, an entry that has
//! expired stays until its own room is looked up again.
//!
//! Time is a count of whole seconds on a clock that never runs backwards,
//! handed in by the caller with every operation.

use vstd::prelude::*;
use vstd::hash_map::StringHashMap;
use crate::code::is_code_text;

verus! {

/// For how many seconds after it was written a code can be looked up.
pub const EXPIRES_AFTER_N_SECS: u64 = 1_200;

/// What the registry knows of one room, as a mathematical value.
pub struct Entry {
    /// The meeting code.
    pub value: Seq<char>,
    /// When the code was last written, in seconds.
    pub updated: u64,
}

/// An entry written at `updated` can still be looked up at `now`. A `now`
/// before `updated` counts as no time gone by.
pub open spec fn is_live(updated: u64, now: u64) -> bool {
    now - updated <= EXPIRES_AFTER_N_SECS
}

/// The code that a lookup of `room` at `now` finds in `rooms`.
pub open spec fn live_code(rooms: Map<Seq<char>, Entry>, room: Seq<char>, now: u64) -> Option<
    Seq<char>,
> {
    if rooms.contains_key(room) && is_live(rooms[room].updated, now) {
        Some(rooms[room].value)
    } else {
        None
    }
}

/// What a lookup of `room` at `now` leaves of `rooms`: the entry of `room`
/// goes if it has expired, and nothing else changes.
pub open spec fn after_lookup(rooms: Map<Seq<char>, Entry>, room: Seq<char>, now: u64) -> Map<
    Seq<char>,
    Entry,
> {
    if rooms.contains_key(room) && !is_live(rooms[room].updated, now) {
        rooms.remove(room)
    } else {
        rooms
    }
}

/// What writing `code` for `room` at `now` makes of `rooms`.
pub open spec fn after_store(
    rooms: Map<Seq<char>, Entry>,
    room: Seq<char>,
    code: Seq<char>,
    now: u64,
) -> Map<Seq<char>, Entry> {
    rooms.insert(room, Entry { value: code, updated: now })
}

/// Every entry of `rooms` holds a text of the shape of a meeting code.
pub open spec fn holds_only_codes(rooms: Map<Seq<char>, Entry>) -> bool {
    forall|room: Seq<char>| rooms.contains_key(room) ==> is_code_text(#[trigger] rooms[room].value)
}

/// The characters of a string that may be absent.
pub open spec fn text_of(s: Option<String>) -> Option<Seq<char>> {
    match s {
        Some(s) => Some(s@),
        None => None,
    }
}

/// A meeting code with the time of its last write.
pub struct Code {
    pub value: String,
    pub updated: u64,
}

impl View for Code {
    type V = Entry;

    open spec fn view(&self) -> Entry {
        Entry { value: self.value@, updated: self.updated }
    }
}

impl Code {
    /// Whether this code can still be looked up at `now`.
    pub fn is_live_at(&self, now: u64) -> (live: bool)
        ensures
            live == is_live(self.updated, now),
    {
        now <= self.updated || now - self.updated <= EXPIRES_AFTER_N_SECS
    }
}

/// The registry of rooms.
pub struct Rooms {
    entries: StringHashMap<Code>,
}

impl View for Rooms {
    type V = Map<Seq<char>, Entry>;

    closed spec fn view(&self) -> Map<Seq<char>, Entry> {
        self.entries@.map_values(|code: Code| code@)
    }
}

impl Rooms {
    /// A registry that knows no room.
    pub fn new() -> (rooms: Rooms)
        ensures
            rooms@ == Map::<Seq<char>, Entry>::empty(),
    {
        let rooms = Rooms { entries: StringHashMap::new() };
        assert(rooms@ =~= Map::<Seq<char>, Entry>::empty());
        rooms
    }

    /// The number of entries held, expired ones included.
    pub fn len(&self) -> (n: usize)
        ensures
            n == self@.len(),
    {
        proof {
            lemma_map_values_len(self.entries@);
        }
        self.entries.len()
    }

    /// Whether an entry is held for `room`, live or expired.
    pub fn holds(&self, room: &str) -> (held: bool)
        ensures
            held == self@.contains_key(room@),
    {
        self.entries.contains_key(room)
    }

    /// Looks `room` up at time `now`. A live entry is left as it is and a
    /// copy of its code is returned: reading does not renew it. An expired
    /// entry is removed in the same step, and nothing is returned.
    pub fn lookup(&mut self, room: &str, now: u64) -> (found: Option<String>)
        ensures
            text_of(found) == live_code(old(self)@, room@, now),
            final(self)@ == after_lookup(old(self)@, room@, now),
    {
        let found = match self.entries.get(room) {
            Some(entry) => {
                if entry.is_live_at(now) {
                    Some(entry.value.clone())
                } else {
                    None
                }
            },
            None => { return None; },
        };
        if found.is_none() {
            self.entries.remove(room);
            assert(self@ =~= old(self)@.remove(room@));
        }
        found
    }

    /// Writes `code` for `room` at time `now`, in place of whatever the
    /// registry held for that room.
    pub fn store(&mut self, room: String, code: String, now: u64)
        ensures
            final(self)@ == after_store(old(self)@, room@, code@, now),
    {
        let ghost entry = Entry { value: code@, updated: now };
        self.entries.insert(room, Code { value: code, updated: now });
        assert(self@ =~= old(self)@.insert(room@, entry));
    }
}

/// What `rooms` becomes when the codes of `writes`, each with its time, are
/// written for `room` one after the other, in the order of the sequence.
pub open spec fn after_stores(
    rooms: Map<Seq<char>, Entry>,
    room: Seq<char>,
    writes: Seq<(Seq<char>, u64)>,
) -> Map<Seq<char>, Entry>
    decreases writes.len(),
{
    if writes.len() == 0 {
        rooms
    } else {
        let last = writes.last();
        after_store(after_stores(rooms, room, writes.drop_last()), room, last.0, last.1)
    }
}

/// A code that was written is found for as long as it is live, and the
/// lookup that finds it changes nothing.
pub proof fn lemma_stored_code_is_found(
    rooms: Map<Seq<char>, Entry>,
    room: Seq<char>,
    code: Seq<char>,
    written: u64,
    now: u64,
)
    requires
        now - written <= EXPIRES_AFTER_N_SECS,
    ensures
        live_code(after_store(rooms, room, code, written), room, now) == Some(code),
        after_lookup(after_store(rooms, room, code, written), room, now) == after_store(
            rooms,
            room,
            code,
            written,
        ),
{
}

/// Once more than the lifetime has gone by since a code was written, a
/// lookup finds nothing and leaves no entry for the room behind.
pub proof fn lemma_expired_code_is_evicted(
    rooms: Map<Seq<char>, Entry>,
    room: Seq<char>,
    code: Seq<char>,
    written: u64,
    now: u64,
)
    requires
        now - written > EXPIRES_AFTER_N_SECS,
    ensures
        live_code(after_store(rooms, room, code, written), room, now) is None,
        !after_lookup(after_store(rooms, room, code, written), room, now).contains_key(room),
        after_lookup(after_store(rooms, room, code, written), room, now) == rooms.remove(room),
{
    assert(after_store(rooms, room, code, written).remove(room) =~= rooms.remove(room));
}

/// Of two writes to one room the second wins: the registry is as if the
/// first had never been made.
pub proof fn lemma_last_writer_wins(
    rooms: Map<Seq<char>, Entry>,
    room: Seq<char>,
    first: Seq<char>,
    first_at: u64,
    second: Seq<char>,
    second_at: u64,
)
    ensures
        after_store(after_store(rooms, room, first, first_at), room, second, second_at)
            == after_store(rooms, room, second, second_at),
{
    assert(after_store(after_store(rooms, room, first, first_at), room, second, second_at)
        =~= after_store(rooms, room, second, second_at));
}

/// Looking up a room that holds no entry finds nothing and changes nothing,
/// however often it is done.
pub proof fn lemma_miss_changes_nothing(rooms: Map<Seq<char>, Entry>, room: Seq<char>, now: u64)
    requires
        !rooms.contains_key(room),
    ensures
        live_code(rooms, room, now) is None,
        after_lookup(rooms, room, now) == rooms,
{
}

/// A lookup never brings an entry back: after it, the same room looked up
/// at the same time gives the same answer and changes nothing more.
pub proof fn lemma_lookup_is_idempotent(rooms: Map<Seq<char>, Entry>, room: Seq<char>, now: u64)
    ensures
        live_code(after_lookup(rooms, room, now), room, now) == live_code(rooms, room, now),
        after_lookup(after_lookup(rooms, room, now), room, now) == after_lookup(rooms, room, now),
{
}

/// Writing to one room changes neither what a lookup of another room finds
/// nor what that lookup leaves of the other room's entry.
pub proof fn lemma_store_leaves_other_rooms(
    rooms: Map<Seq<char>, Entry>,
    written: Seq<char>,
    code: Seq<char>,
    at: u64,
    other: Seq<char>,
    now: u64,
)
    requires
        written != other,
    ensures
        live_code(after_store(rooms, written, code, at), other, now) == live_code(
            rooms,
            other,
            now,
        ),
        after_lookup(after_store(rooms, written, code, at), other, now) == after_store(
            after_lookup(rooms, other, now),
            written,
            code,
            at,
        ),
{
    assert(after_lookup(after_store(rooms, written, code, at), other, now) =~= after_store(
        after_lookup(rooms, other, now),
        written,
        code,
        at,
    ));
}

/// Looking one room up changes nothing for any other room.
pub proof fn lemma_lookup_leaves_other_rooms(
    rooms: Map<Seq<char>, Entry>,
    looked_up: Seq<char>,
    at: u64,
    other: Seq<char>,
)
    requires
        looked_up != other,
    ensures
        after_lookup(rooms, looked_up, at).contains_key(other) == rooms.contains_key(other),
        rooms.contains_key(other) ==> after_lookup(rooms, looked_up, at)[other] == rooms[other],
{
}

/// However many writes are made to one room, and in whatever order they
/// take effect, the registry ends as if only the last of them had been
/// made: the room holds that one code, whole, and the other rooms are as
/// they were.
pub proof fn lemma_writes_leave_the_last(
    rooms: Map<Seq<char>, Entry>,
    room: Seq<char>,
    writes: Seq<(Seq<char>, u64)>,
)
    requires
        writes.len() > 0,
    ensures
        after_stores(rooms, room, writes) == after_store(
            rooms,
            room,
            writes.last().0,
            writes.last().1,
        ),
        after_stores(rooms, room, writes).dom() == rooms.dom().insert(room),
    decreases writes.len(),
{
    let before = after_stores(rooms, room, writes.drop_last());
    if writes.len() > 1 {
        lemma_writes_leave_the_last(rooms, room, writes.drop_last());
        let earlier = writes.drop_last().last();
        lemma_last_writer_wins(rooms, room, earlier.0, earlier.1, writes.last().0, writes.last().1);
    } else {
        assert(writes.drop_last().len() == 0);
        assert(before == rooms);
    }
    assert(after_stores(rooms, room, writes).dom() =~= rooms.dom().insert(room));
}

/// A registry that holds only codes still does after a code is written
/// and after any lookup, and what a lookup finds in it is a code.
pub proof fn lemma_codes_stay_codes(
    rooms: Map<Seq<char>, Entry>,
    room: Seq<char>,
    code: Seq<char>,
    now: u64,
)
    requires
        holds_only_codes(rooms),
    ensures
        is_code_text(code) ==> holds_only_codes(after_store(rooms, room, code, now)),
        holds_only_codes(after_lookup(rooms, room, now)),
        live_code(rooms, room, now) matches Some(found) ==> is_code_text(found),
{
}

/// Mapping the values of a map keeps the number of its keys.
proof fn lemma_map_values_len(m: Map<Seq<char>, Code>)
    ensures
        m.map_values(|code: Code| code@).len() == m.len(),
{
    assert(m.map_values(|code: Code| code@).dom() =~= m.dom());
}

} // verus!
