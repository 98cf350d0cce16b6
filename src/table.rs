use std::collections::HashMap;
use vstd::prelude::*;

verus! {

/// The map after a delivered alert for `pid` at `now`: one record, overwritten.
pub open spec fn stamped(m: Map<u64, u64>, pid: u64, now: u64) -> Map<u64, u64> {
    m.insert(pid, now)
}

/// Whether an alert sent at `at` is at least five cooldowns old at `now`.
pub open spec fn is_stale(at: u64, cooldown: u64, now: u64) -> bool {
    now - at >= 5 * cooldown
}

/// The map without the records that are stale at `now`.
pub open spec fn swept(m: Map<u64, u64>, cooldown: u64, now: u64) -> Map<u64, u64> {
    Map::new(|k: u64| m.contains_key(k) && !is_stale(m[k], cooldown, now), |k: u64| m[k])
}

/// The alert table: for each process id under cooldown, the time of its last
/// delivered alert, in seconds since the Unix epoch.
pub struct AlertTable {
    stamps: HashMap<u64, u64>,
}

impl View for AlertTable {
    type V = Map<u64, u64>;

    closed spec fn view(&self) -> Map<u64, u64> {
        self.stamps@
    }
}

impl AlertTable {
    pub fn new() -> (r: AlertTable)
        ensures
            r@ == Map::<u64, u64>::empty(),
    {
        broadcast use vstd::std_specs::hash::group_hash_axioms;
        AlertTable { stamps: HashMap::new() }
    }

    /// Number of records held.
    pub fn len(&self) -> (r: usize)
        ensures
            r == self@.dom().len(),
    {
        broadcast use vstd::std_specs::hash::group_hash_axioms;
        self.stamps.len()
    }

    /// The time of the last delivered alert for `pid`.
    pub fn last_alert(&self, pid: u64) -> (r: Option<u64>)
        ensures
            r == (if self@.contains_key(pid) { Some(self@[pid]) } else { None::<u64> }),
    {
        broadcast use vstd::std_specs::hash::group_hash_axioms;
        match self.stamps.get(&pid) {
            Some(at) => Some(*at),
            None => None,
        }
    }

    /// Records a delivered alert for `pid` at `now`, replacing any earlier one.
    pub fn record(&mut self, pid: u64, now: u64)
        ensures
            final(self)@ == stamped(old(self)@, pid, now),
    {
        broadcast use vstd::std_specs::hash::group_hash_axioms;
        self.stamps.insert(pid, now);
    }

    /// Removes every record whose alert is at least five cooldowns old at
    /// `now`; records stamped after `now` stay.
    pub fn sweep(&mut self, cooldown: u64, now: u64)
        ensures
            final(self)@ == swept(old(self)@, cooldown, now),
    {
        broadcast use vstd::std_specs::hash::group_hash_axioms;
        let ghost before = self.stamps@;
        let mut stale: Vec<u64> = Vec::new();
        for k in it: self.stamps.keys()
            invariant
                self.stamps@ == before,
                forall|i: int| 0 <= i < stale@.len() ==> before.contains_key(#[trigger] stale@[i]) && is_stale(before[stale@[i]], cooldown, now),
                forall|j: int| 0 <= j < it.index() && is_stale(before[*it.seq()[j]], cooldown, now) ==> stale@.contains(*#[trigger] it.seq()[j]),
        {
            let ghost prev = stale@;
            let at = *self.stamps.get(k).unwrap();
            if at <= now && (now - at) as u128 >= 5 * (cooldown as u128) {
                stale.push(*k);
                proof {
                    assert(stale@[prev.len() as int] == *k);
                }
            }
            proof {
                assert forall|x: u64| prev.contains(x) implies stale@.contains(x) by {
                    let j = choose|j: int| 0 <= j < prev.len() && prev[j] == x;
                    assert(stale@[j] == x);
                }
            }
        }
        assert(forall|k: u64| before.contains_key(k) && is_stale(before[k], cooldown, now) ==> stale@.contains(k));
        let mut i: usize = 0;
        while i < stale.len()
            invariant
                i <= stale@.len(),
                forall|j: int| 0 <= j < stale@.len() ==> before.contains_key(#[trigger] stale@[j]) && is_stale(before[stale@[j]], cooldown, now),
                forall|k: u64| before.contains_key(k) && is_stale(before[k], cooldown, now) ==> stale@.contains(k),
                self.stamps@ == before.remove_keys(stale@.take(i as int).to_set()),
            decreases stale@.len() - i,
        {
            self.stamps.remove(&stale[i]);
            proof {
                assert(stale@.take(i + 1) =~= stale@.take(i as int).push(stale@[i as int]));
                stale@.take(i as int).lemma_push_to_set_commute(stale@[i as int]);
                assert(self.stamps@ =~= before.remove_keys(stale@.take(i + 1).to_set()));
            }
            i = i + 1;
        }
        proof {
            assert(stale@.take(i as int) =~= stale@);
            assert forall|k: u64| #[trigger] stale@.to_set().contains(k) implies before.contains_key(k) && is_stale(before[k], cooldown, now) by {
                let j = choose|j: int| 0 <= j < stale@.len() && stale@[j] == k;
            }
            assert(self.stamps@ =~= swept(before, cooldown, now));
        }
    }
}

} // verus!
