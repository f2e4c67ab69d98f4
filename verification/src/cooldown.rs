//! The cooldown that keeps the extra-info facet of one server from being
//! fetched again too soon.

use vstd::prelude::*;
use vstd::string::StringExecFns;

verus! {

/// Seconds that have to pass before a server's extra info is fetched again.
pub const EXTRA_INFO_COOLDOWN_SECS: u64 = 3;

/// Whether a fetch at `last` is too recent at `now`. A `last` that lies after
/// `now` is not.
pub open spec fn within_cooldown(last: u64, now: u64) -> bool {
    last <= now && now - last < EXTRA_INFO_COOLDOWN_SECS
}

/// Whether a fetch for `target` and `port` may go ahead at `now`, given the
/// times of the last fetches.
pub open spec fn permitted(
    fetched: Map<(Seq<char>, i32), u64>,
    target: Seq<char>,
    port: i32,
    now: u64,
) -> bool {
    !(fetched.contains_key((target, port)) && within_cooldown(fetched[(target, port)], now))
}

/// The times of the last fetches after the cooldown was asked at `now`: `now` is
/// noted for `target` and `port` exactly if the fetch may go ahead.
pub open spec fn after_permit(
    fetched: Map<(Seq<char>, i32), u64>,
    target: Seq<char>,
    port: i32,
    now: u64,
) -> Map<(Seq<char>, i32), u64> {
    if permitted(fetched, target, port, now) {
        fetched.insert((target, port), now)
    } else {
        fetched
    }
}

struct LastFetch {
    target: String,
    port: i32,
    at: u64,
}

/// The index of the first entry for `target` and `port` from `from` on.
spec fn find_from(entries: Seq<LastFetch>, target: Seq<char>, port: i32, from: int) -> Option<int>
    decreases entries.len() - from,
{
    if from < 0 || from >= entries.len() {
        None
    } else if entries[from].target@ == target && entries[from].port == port {
        Some(from)
    } else {
        find_from(entries, target, port, from + 1)
    }
}

/// The times of the last fetches that `entries` record.
spec fn fetched_of(entries: Seq<LastFetch>) -> Map<(Seq<char>, i32), u64> {
    Map::new(
        |key: (Seq<char>, i32)| find_from(entries, key.0, key.1, 0) is Some,
        |key: (Seq<char>, i32)| entries[find_from(entries, key.0, key.1, 0)->0].at,
    )
}

proof fn find_from_is_in_range(entries: Seq<LastFetch>, target: Seq<char>, port: i32, from: int)
    ensures
        find_from(entries, target, port, from) matches Some(i) ==> from <= i < entries.len()
            && entries[i].target@ == target && entries[i].port == port,
    decreases entries.len() - from,
{
    if 0 <= from < entries.len() && !(entries[from].target@ == target && entries[from].port
        == port) {
        find_from_is_in_range(entries, target, port, from + 1);
    }
}

/// Entries with the same keys at the same places are searched alike.
proof fn find_from_same_keys(
    before: Seq<LastFetch>,
    after: Seq<LastFetch>,
    target: Seq<char>,
    port: i32,
    from: int,
)
    requires
        before.len() == after.len(),
        forall|i: int|
            0 <= i < before.len() ==> (#[trigger] before[i]).target@ == after[i].target@
                && before[i].port == after[i].port,
    ensures
        find_from(before, target, port, from) == find_from(after, target, port, from),
    decreases before.len() - from,
{
    if 0 <= from < before.len() {
        assert(before[from].target@ == after[from].target@);
        if !(before[from].target@ == target && before[from].port == port) {
            find_from_same_keys(before, after, target, port, from + 1);
        }
    }
}

/// What a search finds after one entry more was put at the end.
proof fn find_from_pushed(
    before: Seq<LastFetch>,
    entry: LastFetch,
    target: Seq<char>,
    port: i32,
    from: int,
)
    requires
        0 <= from <= before.len(),
    ensures
        find_from(before.push(entry), target, port, from) == if find_from(
            before,
            target,
            port,
            from,
        ) is Some {
            find_from(before, target, port, from)
        } else if entry.target@ == target && entry.port == port {
            Some(before.len() as int)
        } else {
            None
        },
    decreases before.len() - from,
{
    let after = before.push(entry);
    if from < before.len() {
        assert(after[from] == before[from]);
        if !(before[from].target@ == target && before[from].port == port) {
            find_from_pushed(before, entry, target, port, from + 1);
        }
    } else {
        assert(after[from] == entry);
        assert(find_from(after, target, port, from + 1) is None);
    }
}

/// When each server's extra info was last fetched.
pub struct ExtraInfoCooldown {
    entries: Vec<LastFetch>,
}

impl View for ExtraInfoCooldown {
    type V = Map<(Seq<char>, i32), u64>;

    closed spec fn view(&self) -> Map<(Seq<char>, i32), u64> {
        fetched_of(self.entries@)
    }
}

impl ExtraInfoCooldown {
    /// A cooldown that has seen no fetch.
    pub fn new() -> (cooldown: ExtraInfoCooldown)
        ensures
            cooldown@ == Map::<(Seq<char>, i32), u64>::empty(),
    {
        let cooldown = ExtraInfoCooldown { entries: Vec::new() };
        assert(cooldown@ =~= Map::<(Seq<char>, i32), u64>::empty());
        cooldown
    }

    /// Asks whether the extra info of `target` and `port` may be fetched at
    /// `now`, and notes `now` as the time of its last fetch if it may. The
    /// check and the note are one step.
    pub fn permit(&mut self, target: &str, port: i32, now: u64) -> (go: bool)
        ensures
            go == permitted(old(self)@, target@, port, now),
            final(self)@ == after_permit(old(self)@, target@, port, now),
    {
        let key = String::from_str(target);
        let mut at: usize = 0;
        while at < self.entries.len()
            invariant
                at <= self.entries@.len(),
                self.entries@ == old(self).entries@,
                key@ == target@,
                find_from(self.entries@, target@, port, at as int) == find_from(
                    self.entries@,
                    target@,
                    port,
                    0,
                ),
            decreases self.entries@.len() - at,
        {
            if self.entries[at].port == port && self.entries[at].target == key {
                let last: u64 = self.entries[at].at;
                if last <= now && now - last < EXTRA_INFO_COOLDOWN_SECS {
                    return false;
                }
                let ghost before = self.entries@;
                self.entries.set(at, LastFetch { target: key, port, at: now });
                proof {
                    let after = self.entries@;
                    assert forall|k: (Seq<char>, i32)|
                        find_from(before, k.0, k.1, 0) == #[trigger] find_from(
                            after,
                            k.0,
                            k.1,
                            0,
                        ) by {
                        find_from_same_keys(before, after, k.0, k.1, 0);
                    }
                    assert forall|k: (Seq<char>, i32)| #[trigger]
                        find_from(before, k.0, k.1, 0) is Some implies ({
                        let i = find_from(before, k.0, k.1, 0)->0;
                        0 <= i < before.len() && before[i].target@ == k.0 && before[i].port
                            == k.1
                    }) by {
                        find_from_is_in_range(before, k.0, k.1, 0);
                    }
                    assert(fetched_of(after) =~= fetched_of(before).insert((target@, port), now));
                }
                return true;
            }
            at = at + 1;
        }
        let ghost before = self.entries@;
        let entry = LastFetch { target: key, port, at: now };
        self.entries.push(entry);
        proof {
            let after = self.entries@;
            assert forall|k: (Seq<char>, i32)|
                #[trigger] find_from(after, k.0, k.1, 0) == if find_from(before, k.0, k.1, 0)
                    is Some {
                    find_from(before, k.0, k.1, 0)
                } else if k == (target@, port) {
                    Some(before.len() as int)
                } else {
                    None
                } by {
                find_from_pushed(before, entry, k.0, k.1, 0);
            }
            assert forall|k: (Seq<char>, i32)| #[trigger]
                find_from(before, k.0, k.1, 0) is Some implies 0 <= find_from(
                    before,
                    k.0,
                    k.1,
                    0,
                )->0 < before.len() by {
                find_from_is_in_range(before, k.0, k.1, 0);
            }
            assert(fetched_of(after) =~= fetched_of(before).insert((target@, port), now));
        }
        true
    }
}

/// Of two fetches for one server, the first of which went ahead, the second
/// goes ahead exactly if it comes three seconds or more after the first.
pub proof fn second_fetch_waits(
    fetched: Map<(Seq<char>, i32), u64>,
    target: Seq<char>,
    port: i32,
    first: u64,
    second: u64,
)
    requires
        permitted(fetched, target, port, first),
        first <= second,
    ensures
        permitted(after_permit(fetched, target, port, first), target, port, second) <==> second
            - first >= EXTRA_INFO_COOLDOWN_SECS,
{
}

/// A fetch that is held back leaves the cooldown as it was, and a fetch for one
/// server never holds back another server's.
pub proof fn cooldown_is_per_server(
    fetched: Map<(Seq<char>, i32), u64>,
    target: Seq<char>,
    port: i32,
    now: u64,
    other: Seq<char>,
    other_port: i32,
    later: u64,
)
    requires
        (other, other_port) != (target, port),
    ensures
        !permitted(fetched, target, port, now) ==> after_permit(fetched, target, port, now)
            == fetched,
        permitted(after_permit(fetched, target, port, now), other, other_port, later) == permitted(
            fetched,
            other,
            other_port,
            later,
        ),
{
}

} // verus!
