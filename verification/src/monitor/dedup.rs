//! Suppression of repeated events for the same container and action.
use crate::clock::SteadyClock;
use crate::keyed::{
    has_key, keys_distinct, lemma_to_map_dom, lemma_to_map_index, lemma_to_map_keep_step,
    lemma_to_map_push, lemma_to_map_update, map_keep, to_map,
};
use crate::restarter::engine::{elapsed_nanos, NANOS_PER_SEC};
use vstd::prelude::*;

verus! {

/// Seconds that an entry outlives the window before a cleanup drops it.
pub const DEDUP_CLEANUP_GRACE_SECS: u128 = 10;

/// A container id together with an event action.
pub type EventKey = (Seq<char>, Seq<char>);

/// Remembers when each (container, action) pair was last let through.
pub struct EventDedup {
    recent: Vec<((String, String), u128)>,
    window: u128,
    clock: SteadyClock,
}

pub open spec fn key_pairs(v: Seq<((String, String), u128)>) -> Seq<(EventKey, u128)> {
    v.map_values(|e: ((String, String), u128)| ((e.0.0@, e.0.1@), e.1))
}

/// One dedup check at time `now`: with a zero window nothing is a duplicate and nothing is
/// remembered; an event seen less than a window ago is a duplicate and changes nothing;
/// any other event is let through and its time remembered.
pub open spec fn dedup_step(m: Map<EventKey, u128>, window: u128, key: EventKey, now: u128) -> (Map<EventKey, u128>, bool) {
    if window == 0 {
        (m, false)
    } else if m.contains_key(key) && elapsed_nanos(now, m[key]) < window {
        (m, true)
    } else {
        (m.insert(key, now), false)
    }
}

/// An entry survives a cleanup while it is younger than the window plus ten seconds.
pub open spec fn keeps_recent(last: u128, window: u128, now: u128) -> bool {
    elapsed_nanos(now, last) < window + DEDUP_CLEANUP_GRACE_SECS * NANOS_PER_SEC
}

/// The pairs that a cleanup at `now` keeps.
pub open spec fn after_dedup_cleanup(m: Map<EventKey, u128>, window: u128, now: u128) -> Map<EventKey, u128> {
    map_keep(m, |last: u128| keeps_recent(last, window, now))
}

/// An event let through at `t` makes the same event at `t2` a duplicate exactly when the window
/// is not zero and less than a window lies between them.
pub proof fn law_repeat_within_window(m: Map<EventKey, u128>, window: u128, key: EventKey, t: u128, t2: u128)
    requires
        !dedup_step(m, window, key, t).1,
    ensures
        dedup_step(dedup_step(m, window, key, t).0, window, key, t2).1 == (window > 0 && elapsed_nanos(t2, t) < window),
{
}

impl View for EventDedup {
    type V = Map<EventKey, u128>;

    closed spec fn view(&self) -> Map<EventKey, u128> {
        to_map(key_pairs(self.recent@))
    }
}

impl EventDedup {
    /// Each (container, action) pair is remembered at most once.
    #[verifier::type_invariant]
    spec fn wf(&self) -> bool {
        keys_distinct(key_pairs(self.recent@))
    }

    /// The window, in nanoseconds.
    pub closed spec fn window(&self) -> u128 {
        self.window
    }

    /// The latest clock reading the dedup has made, in nanoseconds since it was created.
    pub closed spec fn last_reading(&self) -> u128 {
        self.clock.last_reading()
    }

    pub fn new(window_secs: u64) -> (d: Self)
        ensures
            d@ == Map::<EventKey, u128>::empty(),
            d.window() == window_secs * NANOS_PER_SEC,
            d.last_reading() == 0,
    {
        let d = EventDedup { recent: Vec::new(), window: (window_secs as u128) * NANOS_PER_SEC, clock: SteadyClock::start() };
        assert(key_pairs(d.recent@) =~= Seq::<(EventKey, u128)>::empty());
        d
    }

    /// The dedup check at time `now`.
    pub fn is_duplicate_at(&mut self, container_id: &str, action: &str, now: u128) -> (dup: bool)
        ensures
            final(self).window() == old(self).window(),
            final(self).last_reading() == old(self).last_reading(),
            (final(self)@, dup) == dedup_step(old(self)@, old(self).window(), (container_id@, action@), now),
    {
        proof {
            use_type_invariant(&*self);
        }
        if self.window == 0 {
            return false;
        }
        let id = container_id.to_owned();
        let act = action.to_owned();
        let ghost key: EventKey = (container_id@, action@);
        let ghost s = key_pairs(self.recent@);
        let mut i: usize = 0;
        while i < self.recent.len()
            invariant
                s == key_pairs(self.recent@),
                keys_distinct(s),
                key == (id@, act@),
                i <= self.recent@.len(),
                forall|j: int| 0 <= j < i ==> s[j].0 != key,
            ensures
                i <= self.recent@.len(),
                forall|j: int| 0 <= j < i ==> s[j].0 != key,
                i < self.recent@.len() ==> s[i as int].0 == key,
            decreases self.recent@.len() - i,
        {
            if self.recent[i].0.0 == id && self.recent[i].0.1 == act {
                assert(s[i as int].0 == key);
                break;
            }
            i = i + 1;
        }
        if i < self.recent.len() {
            assert(s[i as int].0 == key);
            proof {
                lemma_to_map_index(s, i as int);
            }
            let last = self.recent[i].1;
            let elapsed: u128 = if now >= last {
                now - last
            } else {
                0
            };
            if elapsed < self.window {
                return true;
            }
            let k = (self.recent[i].0.0.clone(), self.recent[i].0.1.clone());
            let mut recent: Vec<((String, String), u128)> = Vec::new();
            std::mem::swap(&mut recent, &mut self.recent);
            recent.set(i, (k, now));
            proof {
                lemma_to_map_update(s, i as int, now);
                assert(key_pairs(recent@) =~= s.update(i as int, (s[i as int].0, now)));
            }
            self.recent = recent;
            false
        } else {
            proof {
                lemma_to_map_dom(s, key);
                lemma_to_map_push(s, key, now);
            }
            let mut recent: Vec<((String, String), u128)> = Vec::new();
            std::mem::swap(&mut recent, &mut self.recent);
            recent.push(((id, act), now));
            assert(key_pairs(recent@) =~= s.push((key, now)));
            self.recent = recent;
            false
        }
    }

    /// The current time on the clock this dedup measures against, in nanoseconds since it was
    /// created; never earlier than its last reading.
    pub fn now(&mut self) -> (t: u128)
        ensures
            final(self)@ == old(self)@,
            final(self).window() == old(self).window(),
            t >= old(self).last_reading(),
            final(self).last_reading() == t,
    {
        proof {
            use_type_invariant(&*self);
        }
        let mut clock = self.clock;
        let t = clock.read();
        self.clock = clock;
        t
    }

    /// Whether the dedup check at time `now` would suppress the event; nothing is recorded.
    pub fn suppresses_at(&self, container_id: &str, action: &str, now: u128) -> (dup: bool)
        ensures
            dup == dedup_step(self@, self.window(), (container_id@, action@), now).1,
    {
        proof {
            use_type_invariant(self);
        }
        if self.window == 0 {
            return false;
        }
        let id = container_id.to_owned();
        let act = action.to_owned();
        let ghost key: EventKey = (container_id@, action@);
        let ghost s = key_pairs(self.recent@);
        let mut i: usize = 0;
        while i < self.recent.len()
            invariant
                key == (container_id@, action@),
                self.window != 0,
                s == key_pairs(self.recent@),
                keys_distinct(s),
                key == (id@, act@),
                i <= self.recent@.len(),
                forall|j: int| 0 <= j < i ==> s[j].0 != key,
            decreases self.recent@.len() - i,
        {
            if self.recent[i].0.0 == id && self.recent[i].0.1 == act {
                assert(s[i as int].0 == key);
                proof {
                    lemma_to_map_index(s, i as int);
                }
                let last = self.recent[i].1;
                let elapsed: u128 = if now >= last {
                    now - last
                } else {
                    0
                };
                return elapsed < self.window;
            }
            i = i + 1;
        }
        proof {
            lemma_to_map_dom(s, key);
        }
        false
    }

    /// Whether the event was let through less than a window ago; if not, it is let through now.
    pub fn is_duplicate(&mut self, container_id: &str, action: &str) -> (dup: bool)
        ensures
            final(self).window() == old(self).window(),
            final(self).last_reading() >= old(self).last_reading(),
            (final(self)@, dup) == dedup_step(old(self)@, old(self).window(), (container_id@, action@), final(self).last_reading()),
    {
        if self.window == 0 {
            return false;
        }
        let now = self.now();
        self.is_duplicate_at(container_id, action, now)
    }

    /// Forgets the pairs last let through at least the window plus ten seconds before `now`.
    pub fn cleanup_at(&mut self, now: u128)
        requires
            old(self).window() <= (u64::MAX - DEDUP_CLEANUP_GRACE_SECS) * NANOS_PER_SEC,
        ensures
            final(self).window() == old(self).window(),
            final(self).last_reading() == old(self).last_reading(),
            final(self)@ == after_dedup_cleanup(old(self)@, old(self).window(), now),
    {
        proof {
            use_type_invariant(&*self);
        }
        let ghost s = key_pairs(self.recent@);
        let w = self.window;
        let ghost keep = |last: u128| keeps_recent(last, w, now);
        let limit: u128 = w + DEDUP_CLEANUP_GRACE_SECS * NANOS_PER_SEC;
        let mut kept: Vec<((String, String), u128)> = Vec::new();
        let mut i: usize = 0;
        let n = self.recent.len();
        assert(s.take(0) =~= Seq::<(EventKey, u128)>::empty());
        assert(to_map(key_pairs(kept@)) =~= map_keep(to_map(s.take(0)), keep));
        while i < n
            invariant
                n == self.recent@.len(),
                s == key_pairs(self.recent@),
                keys_distinct(s),
                forall|t: u128| #[trigger] keep(t) == keeps_recent(t, w, now),
                limit == w + DEDUP_CLEANUP_GRACE_SECS * NANOS_PER_SEC,
                i <= n,
                keys_distinct(key_pairs(kept@)),
                forall|j: int| 0 <= j < kept@.len() ==> has_key(s.take(i as int), #[trigger] key_pairs(kept@)[j].0),
                to_map(key_pairs(kept@)) == map_keep(to_map(s.take(i as int)), keep),
            decreases n - i,
        {
            let ghost kv = key_pairs(kept@);
            proof {
                lemma_to_map_keep_step(s, kv, i as int, keep);
            }
            let last = self.recent[i].1;
            let elapsed: u128 = if now >= last {
                now - last
            } else {
                0
            };
            let keep_it = elapsed < limit;
            assert(s[i as int].1 == last);
            assert(keep_it == keep(s[i as int].1));
            if keep_it {
                let k = (self.recent[i].0.0.clone(), self.recent[i].0.1.clone());
                kept.push((k, last));
                assert(key_pairs(kept@) =~= kv.push(s[i as int]));
            }
            i = i + 1;
        }
        assert(s.take(n as int) =~= s);
        self.recent = kept;
    }

    /// Forgets the pairs last let through at least the window plus ten seconds ago.
    pub fn cleanup(&mut self)
        requires
            old(self).window() <= (u64::MAX - DEDUP_CLEANUP_GRACE_SECS) * NANOS_PER_SEC,
        ensures
            final(self).window() == old(self).window(),
            final(self).last_reading() >= old(self).last_reading(),
            final(self)@ == after_dedup_cleanup(old(self)@, old(self).window(), final(self).last_reading()),
    {
        let now = self.now();
        self.cleanup_at(now);
    }
}

} // verus!
