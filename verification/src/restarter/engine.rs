//! Per-container restart bookkeeping: attempt limits, cooldown and backoff.
use crate::clock::{duration_nanos, nanos_of, SteadyClock};
use crate::keyed::{
    has_key, keys_distinct, lemma_to_map_dom, lemma_to_map_index, lemma_to_map_keep_step,
    lemma_to_map_push, lemma_to_map_remove, lemma_to_map_update, map_keep, to_map,
};
use std::time::Duration;
use vstd::prelude::*;

verus! {

/// Nanoseconds in one second.
pub const NANOS_PER_SEC: u128 = 1_000_000_000;

/// Upper bound of an exponential backoff delay, in seconds.
pub const MAX_BACKOFF_DELAY_SECS: u64 = 300;

/// Largest power of two that the backoff multiplies the base delay by.
pub const MAX_BACKOFF_EXPONENT: u32 = 6;

/// What the tracker remembers of one container.
#[derive(Clone, Copy, Debug)]
pub struct ContainerState {
    /// Restarts granted since the counter was last cleared.
    pub attempts: u32,
    /// When the last restart was granted, in nanoseconds since the tracker was created.
    pub last_restart: Option<u128>,
}

/// The settings a tracker was created with.
#[derive(Clone, Copy, Debug)]
pub struct RestartPolicy {
    pub max_restarts: u32,
    pub base_delay_secs: u64,
    pub backoff: bool,
    pub cooldown_secs: u64,
    pub dry_run: bool,
}

/// What `plan_restart` decided for a dead container.
#[derive(Clone, Copy, Debug)]
pub enum RestartPlan {
    /// The container has used up its restarts.
    GiveUp,
    /// Dry-run mode: the restart is only reported.
    DryRun { attempt: u32, delay_secs: u64 },
    /// Restart after waiting `delay_secs`.
    Restart { attempt: u32, delay_secs: u64 },
}

pub open spec fn fresh_state() -> ContainerState {
    ContainerState { attempts: 0, last_restart: None }
}

/// Time from `since` to `now`, or zero if `since` is later.
pub open spec fn elapsed_nanos(now: u128, since: u128) -> int {
    if now >= since {
        now - since
    } else {
        0
    }
}

/// The limit in force: the per-container override if there is one, else the global one.
pub open spec fn effective_max(default_max: u32, max_override: Option<u32>) -> u32 {
    match max_override {
        Some(m) => m,
        None => default_max,
    }
}

/// A container whose last restart lies at least `cooldown_secs` back is forgotten
/// (a cooldown of zero disables this).
pub open spec fn after_cooldown(
    m: Map<Seq<char>, ContainerState>,
    id: Seq<char>,
    cooldown_secs: u64,
    now: u128,
) -> Map<Seq<char>, ContainerState> {
    if cooldown_secs != 0 && m.contains_key(id) && match m[id].last_restart {
        Some(t) => elapsed_nanos(now, t) >= cooldown_secs * NANOS_PER_SEC,
        None => false,
    } {
        m.remove(id)
    } else {
        m
    }
}

/// Grants a restart while fewer than `limit` were granted; records the attempt and its time.
/// A container seen for the first time is recorded even when nothing is granted.
pub open spec fn decide_restart(
    m: Map<Seq<char>, ContainerState>,
    id: Seq<char>,
    limit: u32,
    now: u128,
) -> (Map<Seq<char>, ContainerState>, bool) {
    let st = if m.contains_key(id) {
        m[id]
    } else {
        fresh_state()
    };
    if st.attempts >= limit {
        (m.insert(id, st), false)
    } else {
        (m.insert(id, ContainerState { attempts: (st.attempts + 1) as u32, last_restart: Some(now) }), true)
    }
}

/// The whole `should_restart` step: cooldown first, then the decision.
pub open spec fn restart_step(
    m: Map<Seq<char>, ContainerState>,
    policy: RestartPolicy,
    id: Seq<char>,
    max_override: Option<u32>,
    now: u128,
) -> (Map<Seq<char>, ContainerState>, bool) {
    decide_restart(
        after_cooldown(m, id, policy.cooldown_secs, now),
        id,
        effective_max(policy.max_restarts, max_override),
        now,
    )
}

/// `2^k`.
pub open spec fn pow2(k: nat) -> nat
    decreases k,
{
    if k == 0 {
        1
    } else {
        2 * pow2((k - 1) as nat)
    }
}

proof fn lemma_pow2_at_most_64(k: nat)
    requires
        k <= 6,
    ensures
        pow2(k) <= 64,
    decreases 6 - k,
{
    if k < 6 {
        lemma_pow2_at_most_64(k + 1);
    } else {
        reveal_with_fuel(pow2, 7);
    }
}

/// `a * b`, or `u64::MAX` if that does not fit.
pub open spec fn saturating_product(a: u64, b: nat) -> u64 {
    if a * b > u64::MAX {
        u64::MAX
    } else {
        (a * b) as u64
    }
}

/// Delay before restart number `attempt`: the base delay, or with backoff from the second
/// attempt on `base * 2^min(attempt - 1, 6)`, saturated and capped at five minutes.
pub open spec fn restart_delay(policy: RestartPolicy, attempt: u32) -> u64 {
    if policy.backoff && attempt > 1 {
        let k: nat = if attempt - 1 <= MAX_BACKOFF_EXPONENT {
            (attempt - 1) as nat
        } else {
            MAX_BACKOFF_EXPONENT as nat
        };
        let d = saturating_product(policy.base_delay_secs, pow2(k));
        if d <= MAX_BACKOFF_DELAY_SECS {
            d
        } else {
            MAX_BACKOFF_DELAY_SECS
        }
    } else {
        policy.base_delay_secs
    }
}

/// An entry survives a stale cleanup if it never restarted or restarted less than `max_age` ago.
pub open spec fn keeps_entry(st: ContainerState, max_age: u128, now: u128) -> bool {
    match st.last_restart {
        None => true,
        Some(t) => elapsed_nanos(now, t) < max_age,
    }
}

pub open spec fn after_cleanup(
    m: Map<Seq<char>, ContainerState>,
    max_age: u128,
    now: u128,
) -> Map<Seq<char>, ContainerState> {
    map_keep(m, |st: ContainerState| keeps_entry(st, max_age, now))
}

/// The plan `plan_restart` makes from the outcome of the restart step.
pub open spec fn plan_of(
    m: Map<Seq<char>, ContainerState>,
    policy: RestartPolicy,
    id: Seq<char>,
    granted: bool,
) -> RestartPlan {
    if !granted {
        RestartPlan::GiveUp
    } else {
        let attempt = m[id].attempts;
        if policy.dry_run {
            RestartPlan::DryRun { attempt, delay_secs: restart_delay(policy, attempt) }
        } else {
            RestartPlan::Restart { attempt, delay_secs: restart_delay(policy, attempt) }
        }
    }
}

/// The entries with their ids read as character sequences.
pub open spec fn entry_pairs(v: Seq<(String, ContainerState)>) -> Seq<(Seq<char>, ContainerState)> {
    v.map_values(|e: (String, ContainerState)| (e.0@, e.1))
}

/// The attempts recorded for `id` before the decision, after the cooldown has been applied.
pub open spec fn prior_attempts(m: Map<Seq<char>, ContainerState>, policy: RestartPolicy, id: Seq<char>, now: u128) -> u32 {
    let c = after_cooldown(m, id, policy.cooldown_secs, now);
    if c.contains_key(id) {
        c[id].attempts
    } else {
        0
    }
}

/// A restart is granted exactly when fewer than the effective limit were granted before;
/// a grant counts one more attempt, stamped with the current time, and never takes the count
/// past the limit; a refusal leaves the count as it was.
pub proof fn law_restart_limit(
    m: Map<Seq<char>, ContainerState>,
    policy: RestartPolicy,
    id: Seq<char>,
    max_override: Option<u32>,
    now: u128,
)
    ensures
        ({
            let (m2, granted) = restart_step(m, policy, id, max_override, now);
            let limit = effective_max(policy.max_restarts, max_override);
            let prior = prior_attempts(m, policy, id, now);
            &&& m2.contains_key(id)
            &&& granted <==> prior < limit
            &&& granted ==> m2[id].attempts == prior + 1 && m2[id].attempts <= limit
                && m2[id].last_restart == Some(now)
            &&& !granted ==> m2[id].attempts == prior
        }),
{
}

/// Deciding about one container leaves every other container's record as it was.
pub proof fn law_containers_independent(
    m: Map<Seq<char>, ContainerState>,
    policy: RestartPolicy,
    id: Seq<char>,
    other: Seq<char>,
    max_override: Option<u32>,
    now: u128,
)
    requires
        other != id,
    ensures
        ({
            let m2 = restart_step(m, policy, id, max_override, now).0;
            &&& m2.contains_key(other) == m.contains_key(other)
            &&& m.contains_key(other) ==> m2[other] == m[other]
        }),
{
}

/// After a reset the next decision grants a restart whenever the limit is not zero,
/// and counts it as the first attempt.
pub proof fn law_reset_grants_fresh_restart(
    m: Map<Seq<char>, ContainerState>,
    policy: RestartPolicy,
    id: Seq<char>,
    max_override: Option<u32>,
    now: u128,
)
    ensures
        ({
            let (m2, granted) = restart_step(m.remove(id), policy, id, max_override, now);
            &&& granted == (effective_max(policy.max_restarts, max_override) > 0)
            &&& granted ==> m2[id].attempts == 1
        }),
{
    assert(!m.remove(id).contains_key(id));
    assert(after_cooldown(m.remove(id), id, policy.cooldown_secs, now) == m.remove(id));
}

/// A container whose last granted restart lies at least the cooldown back starts over:
/// the next decision grants a restart whenever the limit is not zero, as its first attempt.
pub proof fn law_cooldown_restores_budget(
    m: Map<Seq<char>, ContainerState>,
    policy: RestartPolicy,
    id: Seq<char>,
    t: u128,
    max_override: Option<u32>,
    now: u128,
)
    requires
        policy.cooldown_secs > 0,
        m.contains_key(id),
        m[id].last_restart == Some(t),
        elapsed_nanos(now, t) >= policy.cooldown_secs * NANOS_PER_SEC,
    ensures
        ({
            let (m2, granted) = restart_step(m, policy, id, max_override, now);
            &&& granted == (effective_max(policy.max_restarts, max_override) > 0)
            &&& granted ==> m2[id].attempts == 1
        }),
{
    assert(after_cooldown(m, id, policy.cooldown_secs, now) == m.remove(id));
}

pub proof fn lemma_pow2_monotone(a: nat, b: nat)
    requires
        a <= b,
    ensures
        pow2(a) <= pow2(b),
    decreases b - a,
{
    if a < b {
        lemma_pow2_monotone(a, (b - 1) as nat);
    }
}

/// Without backoff every restart waits the base delay; with backoff the delay from the
/// second attempt on never exceeds five minutes and never shrinks as attempts grow.
pub proof fn law_backoff_delay(policy: RestartPolicy, a: u32, b: u32)
    ensures
        !policy.backoff ==> restart_delay(policy, a) == policy.base_delay_secs,
        policy.backoff && a > 1 ==> restart_delay(policy, a) <= MAX_BACKOFF_DELAY_SECS,
        policy.backoff && 1 < a <= b ==> restart_delay(policy, a) <= restart_delay(policy, b),
{
    if policy.backoff && 1 < a <= b {
        let ka: nat = if a - 1 <= MAX_BACKOFF_EXPONENT { (a - 1) as nat } else { MAX_BACKOFF_EXPONENT as nat };
        let kb: nat = if b - 1 <= MAX_BACKOFF_EXPONENT { (b - 1) as nat } else { MAX_BACKOFF_EXPONENT as nat };
        lemma_pow2_monotone(ka, kb);
        let x = policy.base_delay_secs as int;
        let pa = pow2(ka) as int;
        let pb = pow2(kb) as int;
        assert(x * pa <= x * pb) by (nonlinear_arith)
            requires
                0 <= x,
                0 <= pa <= pb,
        ;
    }
}

/// With backoff, the first restart waits the base delay and each further one waits twice the
/// delay before it, capped at five minutes, until the seventh; from then on the delay stays
/// as it is.
pub proof fn law_backoff_doubles(policy: RestartPolicy, a: u32)
    ensures
        a <= 1 ==> restart_delay(policy, a) == policy.base_delay_secs,
        policy.backoff && 1 <= a <= 6 ==> restart_delay(policy, (a + 1) as u32) == (if 2 * restart_delay(policy, a) <= 300 {
            2 * restart_delay(policy, a)
        } else {
            300
        }),
        policy.backoff && 7 <= a < u32::MAX ==> restart_delay(policy, (a + 1) as u32) == restart_delay(policy, a),
{
    if policy.backoff && 1 <= a <= 6 {
        let x = policy.base_delay_secs as int;
        let k = a as nat;
        assert(pow2(k) == 2 * pow2((k - 1) as nat));
        let p = pow2((k - 1) as nat) as int;
        assert(x * (2 * p) == 2 * (x * p)) by (nonlinear_arith);
        assert(x * p >= 0) by (nonlinear_arith)
            requires
                x >= 0,
                p >= 0,
        ;
        if a == 1 {
            assert(pow2(0) == 1);
            assert(x * 2 == 2 * x);
        }
    }
}

/// In dry-run mode a granted restart is only ever reported, never carried out, whatever the
/// attempt number; outside dry-run mode a granted restart is carried out; a refused one is
/// given up. A plan carries the attempt count recorded for the container.
pub proof fn law_dry_run_never_restarts(
    m: Map<Seq<char>, ContainerState>,
    policy: RestartPolicy,
    id: Seq<char>,
    granted: bool,
)
    ensures
        policy.dry_run ==> !(plan_of(m, policy, id, granted) is Restart),
        granted && policy.dry_run ==> plan_of(m, policy, id, granted) is DryRun,
        granted && !policy.dry_run ==> plan_of(m, policy, id, granted) is Restart,
        !granted <==> plan_of(m, policy, id, granted) is GiveUp,
        plan_of(m, policy, id, granted) matches RestartPlan::DryRun { attempt, delay_secs }
            ==> attempt == m[id].attempts && delay_secs == restart_delay(policy, attempt),
        plan_of(m, policy, id, granted) matches RestartPlan::Restart { attempt, delay_secs }
            ==> attempt == m[id].attempts && delay_secs == restart_delay(policy, attempt),
{
}

/// A cleanup keeps exactly the records that never restarted or restarted less than
/// `max_age` ago, unchanged; with a zero age only the never-restarted ones remain.
pub proof fn law_cleanup_keeps_recent(m: Map<Seq<char>, ContainerState>, max_age: u128, now: u128, id: Seq<char>)
    ensures
        after_cleanup(m, max_age, now).contains_key(id) <==> (m.contains_key(id) && keeps_entry(m[id], max_age, now)),
        after_cleanup(m, max_age, now).contains_key(id) ==> after_cleanup(m, max_age, now)[id] == m[id],
        after_cleanup(m, 0, now).contains_key(id) <==> (m.contains_key(id) && m[id].last_restart is None),
{
}

/// Tracks restart attempts per container id.
pub struct RestartTracker {
    containers: Vec<(String, ContainerState)>,
    policy: RestartPolicy,
    clock: SteadyClock,
}

impl View for RestartTracker {
    type V = Map<Seq<char>, ContainerState>;

    closed spec fn view(&self) -> Map<Seq<char>, ContainerState> {
        to_map(self.pairs())
    }
}

impl RestartTracker {
    closed spec fn pairs(&self) -> Seq<(Seq<char>, ContainerState)> {
        entry_pairs(self.containers@)
    }

    /// Each container id is tracked at most once.
    #[verifier::type_invariant]
    spec fn wf(&self) -> bool {
        keys_distinct(self.pairs())
    }

    pub closed spec fn policy(&self) -> RestartPolicy {
        self.policy
    }

    /// The latest clock reading the tracker has made, in nanoseconds since it was created.
    pub closed spec fn last_reading(&self) -> u128 {
        self.clock.last_reading()
    }

    pub fn new(
        max_restarts: u32,
        base_delay_secs: u64,
        backoff: bool,
        cooldown_secs: u64,
        dry_run: bool,
    ) -> (t: Self)
        ensures
            t@ == Map::<Seq<char>, ContainerState>::empty(),
            t.policy() == (RestartPolicy { max_restarts, base_delay_secs, backoff, cooldown_secs, dry_run }),
            t.last_reading() == 0,
    {
        let t = RestartTracker {
            containers: Vec::new(),
            policy: RestartPolicy { max_restarts, base_delay_secs, backoff, cooldown_secs, dry_run },
            clock: SteadyClock::start(),
        };
        assert(t.pairs() =~= Seq::<(Seq<char>, ContainerState)>::empty());
        t
    }

    fn find(&self, key: &String) -> (r: Option<usize>)
        ensures
            match r {
                Some(i) => i < self.containers@.len() && self.pairs()[i as int].0 == key@,
                None => !has_key(self.pairs(), key@),
            },
    {
        let mut i: usize = 0;
        while i < self.containers.len()
            invariant
                i <= self.containers@.len(),
                forall|j: int| 0 <= j < i ==> self.pairs()[j].0 != key@,
            decreases self.containers@.len() - i,
        {
            if self.containers[i].0 == *key {
                return Some(i);
            }
            i = i + 1;
        }
        None
    }

    proof fn lemma_view_at(&self, i: int)
        requires
            self.wf(),
            0 <= i < self.containers@.len(),
        ensures
            self@.contains_key(self.containers@[i].0@),
            self@[self.containers@[i].0@] == self.containers@[i].1,
    {
        lemma_to_map_index(self.pairs(), i);
    }

    /// Drops the record at position `i`.
    fn remove_at(&mut self, i: usize)
        requires
            i < old(self).containers@.len(),
        ensures
            final(self).policy == old(self).policy,
            final(self).clock == old(self).clock,
            final(self).pairs() == old(self).pairs().remove(i as int),
            final(self)@ == old(self)@.remove(old(self).pairs()[i as int].0),
    {
        proof {
            use_type_invariant(&*self);
            lemma_to_map_remove(self.pairs(), i as int);
        }
        let ghost before = self.pairs();
        let mut containers: Vec<(String, ContainerState)> = Vec::new();
        std::mem::swap(&mut containers, &mut self.containers);
        containers.remove(i);
        assert(entry_pairs(containers@) =~= before.remove(i as int));
        self.containers = containers;
    }

    /// Reads the tracker's clock.
    fn read_clock(&mut self) -> (now: u128)
        ensures
            final(self)@ == old(self)@,
            final(self).policy() == old(self).policy(),
            now >= old(self).last_reading(),
            final(self).last_reading() == now,
    {
        proof {
            use_type_invariant(&*self);
        }
        let mut clock = self.clock;
        let now = clock.read();
        self.clock = clock;
        now
    }

    /// Forgets `id` if its last restart lies at least the cooldown back.
    fn apply_cooldown_at(&mut self, id: &String, now: u128)
        ensures
            final(self).policy() == old(self).policy(),
            final(self).clock == old(self).clock,
            final(self)@ == after_cooldown(old(self)@, id@, old(self).policy.cooldown_secs, now),
    {
        proof {
            use_type_invariant(&*self);
        }
        if self.policy.cooldown_secs == 0 {
            return;
        }
        match self.find(id) {
            None => {
                proof {
                    lemma_to_map_dom(self.pairs(), id@);
                }
            },
            Some(i) => {
                proof {
                    self.lemma_view_at(i as int);
                }
                match self.containers[i].1.last_restart {
                    None => {},
                    Some(last) => {
                        let elapsed: u128 = if now >= last {
                            now - last
                        } else {
                            0
                        };
                        if elapsed >= (self.policy.cooldown_secs as u128) * NANOS_PER_SEC {
                            self.remove_at(i);
                        }
                    },
                }
            },
        }
    }

    /// The decision at time `now`, with the clock reading passed in.
    pub fn should_restart_at(
        &mut self,
        container_id: &str,
        container_name: &str,
        max_override: Option<u32>,
        now: u128,
    ) -> (granted: bool)
        ensures
            final(self).policy() == old(self).policy(),
            final(self).last_reading() == old(self).last_reading(),
            (final(self)@, granted) == restart_step(old(self)@, old(self).policy(), container_id@, max_override, now),
    {
        let key = container_id.to_owned();
        self.apply_cooldown_at(&key, now);
        proof {
            use_type_invariant(&*self);
        }
        let ghost cooled = self@;
        let limit = match max_override {
            Some(m) => m,
            None => self.policy.max_restarts,
        };
        let idx = match self.find(&key) {
            Some(i) => {
                proof {
                    self.lemma_view_at(i as int);
                }
                if self.containers[i].1.attempts >= limit {
                    assert(cooled.insert(key@, cooled[key@]) =~= cooled);
                    return false;
                }
                i
            },
            None => {
                let ghost before = self.pairs();
                proof {
                    lemma_to_map_dom(before, key@);
                    lemma_to_map_push(before, key@, fresh_state());
                }
                let mut containers: Vec<(String, ContainerState)> = Vec::new();
                std::mem::swap(&mut containers, &mut self.containers);
                containers.push((key.clone(), ContainerState { attempts: 0, last_restart: None }));
                assert(entry_pairs(containers@) =~= before.push((key@, fresh_state())));
                self.containers = containers;
                let i = self.containers.len() - 1;
                proof {
                    self.lemma_view_at(i as int);
                }
                if limit == 0 {
                    return false;
                }
                i
            },
        };
        let st = self.containers[idx].1;
        let ghost before = self.pairs();
        let ghost mid = self@;
        let new_state = ContainerState { attempts: st.attempts + 1, last_restart: Some(now) };
        let k = self.containers[idx].0.clone();
        proof {
            lemma_to_map_update(before, idx as int, new_state);
        }
        let mut containers: Vec<(String, ContainerState)> = Vec::new();
        std::mem::swap(&mut containers, &mut self.containers);
        containers.set(idx, (k, new_state));
        assert(entry_pairs(containers@) =~= before.update(idx as int, (before[idx as int].0, new_state)));
        self.containers = containers;
        proof {
            assert(mid.insert(key@, new_state) =~= cooled.insert(key@, new_state));
        }
        true
    }

    /// Whether `container_id` may be restarted now; a granted restart is counted.
    pub fn should_restart(
        &mut self,
        container_id: &str,
        container_name: &str,
        max_override: Option<u32>,
    ) -> (granted: bool)
        ensures
            final(self).policy() == old(self).policy(),
            final(self).last_reading() >= old(self).last_reading(),
            (final(self)@, granted) == restart_step(old(self)@, old(self).policy(), container_id@, max_override, final(self).last_reading()),
    {
        let now = self.read_clock();
        self.should_restart_at(container_id, container_name, max_override, now)
    }

    /// The global restart limit.
    pub fn max_restarts(&self) -> (m: u32)
        ensures
            m == self.policy().max_restarts,
    {
        self.policy.max_restarts
    }

    /// Forgets everything about `container_id`.
    pub fn reset(&mut self, container_id: &str)
        ensures
            final(self).policy() == old(self).policy(),
            final(self).last_reading() == old(self).last_reading(),
            final(self)@ == old(self)@.remove(container_id@),
    {
        proof {
            use_type_invariant(&*self);
        }
        let key = container_id.to_owned();
        match self.find(&key) {
            None => {
                proof {
                    lemma_to_map_dom(self.pairs(), key@);
                    assert(self@ =~= self@.remove(key@));
                }
            },
            Some(i) => {
                self.remove_at(i);
            },
        }
    }

    /// Restarts granted to `container_id` since its counter was last cleared.
    pub fn restart_count(&self, container_id: &str) -> (n: u32)
        ensures
            n == (if self@.contains_key(container_id@) {
                self@[container_id@].attempts
            } else {
                0
            }),
    {
        proof {
            use_type_invariant(self);
        }
        let key = container_id.to_owned();
        match self.find(&key) {
            None => {
                proof {
                    lemma_to_map_dom(self.pairs(), key@);
                }
                0
            },
            Some(i) => {
                proof {
                    self.lemma_view_at(i as int);
                }
                self.containers[i].1.attempts
            },
        }
    }

    /// The delay before restart number `attempt`.
    pub fn compute_delay(&self, attempt: u32) -> (d: u64)
        ensures
            d == restart_delay(self.policy(), attempt),
    {
        if self.policy.backoff && attempt > 1 {
            let k: u32 = if attempt - 1 <= MAX_BACKOFF_EXPONENT {
                attempt - 1
            } else {
                MAX_BACKOFF_EXPONENT
            };
            let mut factor: u64 = 1;
            let mut j: u32 = 0;
            while j < k
                invariant
                    j <= k <= MAX_BACKOFF_EXPONENT,
                    factor == pow2(j as nat),
                    factor <= 64,
                decreases k - j,
            {
                proof {
                    lemma_pow2_at_most_64((j + 1) as nat);
                }
                factor = factor * 2;
                j = j + 1;
            }
            let d = match self.policy.base_delay_secs.checked_mul(factor) {
                Some(v) => v,
                None => u64::MAX,
            };
            if d <= MAX_BACKOFF_DELAY_SECS {
                d
            } else {
                MAX_BACKOFF_DELAY_SECS
            }
        } else {
            self.policy.base_delay_secs
        }
    }

    /// Drops every entry whose last restart lies `max_age` or more back, at time `now`.
    pub fn cleanup_stale_at(&mut self, max_age: u128, now: u128)
        ensures
            final(self).policy() == old(self).policy(),
            final(self).last_reading() == old(self).last_reading(),
            final(self)@ == after_cleanup(old(self)@, max_age, now),
    {
        proof {
            use_type_invariant(&*self);
        }
        let ghost s = self.pairs();
        let ghost keep = |st: ContainerState| keeps_entry(st, max_age, now);
        let mut kept: Vec<(String, ContainerState)> = Vec::new();
        let mut i: usize = 0;
        let n = self.containers.len();
        proof {
            assert(s.take(0) =~= Seq::<(Seq<char>, ContainerState)>::empty());
            assert(to_map(Seq::<(Seq<char>, ContainerState)>::empty()) =~= map_keep(to_map(s.take(0)), keep));
        }
        while i < n
            invariant
                n == self.containers@.len(),
                s == self.pairs(),
                forall|st: ContainerState| #[trigger] keep(st) == keeps_entry(st, max_age, now),
                keys_distinct(s),
                i <= n,
                keys_distinct(entry_pairs(kept@)),
                forall|j: int| 0 <= j < kept@.len() ==> has_key(s.take(i as int), #[trigger] entry_pairs(kept@)[j].0),
                to_map(entry_pairs(kept@)) == map_keep(to_map(s.take(i as int)), keep),
            decreases n - i,
        {
            let ghost kv = entry_pairs(kept@);
            proof {
                lemma_to_map_keep_step(s, kv, i as int, keep);
            }
            let st = self.containers[i].1;
            let keep_it = match st.last_restart {
                None => true,
                Some(t) => {
                    let elapsed: u128 = if now >= t {
                        now - t
                    } else {
                        0
                    };
                    elapsed < max_age
                },
            };
            assert(s[i as int].1 == st);
            assert(keep_it == keep(s[i as int].1));
            if keep_it {
                let k = self.containers[i].0.clone();
                kept.push((k, st));
                proof {
                    assert(entry_pairs(kept@) =~= kv.push(s[i as int]));
                }
            }
            i = i + 1;
        }
        proof {
            assert(s.take(n as int) =~= s);
        }
        self.containers = kept;
    }

    /// Drops every entry whose last restart lies `max_age` or more back.
    pub fn cleanup_stale(&mut self, max_age: Duration)
        ensures
            final(self).policy() == old(self).policy(),
            final(self).last_reading() >= old(self).last_reading(),
            final(self)@ == after_cleanup(old(self)@, nanos_of(max_age), final(self).last_reading()),
    {
        let age = duration_nanos(max_age);
        let now = self.read_clock();
        self.cleanup_stale_at(age, now);
    }

    /// The restart decision for a dead container at time `now`: give up, only report
    /// (dry run), or restart after the computed delay.
    pub fn plan_restart_at(
        &mut self,
        container_id: &str,
        container_name: &str,
        max_override: Option<u32>,
        now: u128,
    ) -> (plan: RestartPlan)
        ensures
            final(self).policy() == old(self).policy(),
            final(self).last_reading() == old(self).last_reading(),
            final(self)@ == restart_step(old(self)@, old(self).policy(), container_id@, max_override, now).0,
            plan == plan_of(final(self)@, old(self).policy(), container_id@,
                restart_step(old(self)@, old(self).policy(), container_id@, max_override, now).1),
    {
        if !self.should_restart_at(container_id, container_name, max_override, now) {
            return RestartPlan::GiveUp;
        }
        let attempt = self.restart_count(container_id);
        let delay_secs = self.compute_delay(attempt);
        if self.policy.dry_run {
            RestartPlan::DryRun { attempt, delay_secs }
        } else {
            RestartPlan::Restart { attempt, delay_secs }
        }
    }

    /// The restart decision for a dead container, read against the clock now.
    pub fn plan_restart(
        &mut self,
        container_id: &str,
        container_name: &str,
        max_override: Option<u32>,
    ) -> (plan: RestartPlan)
        ensures
            final(self).policy() == old(self).policy(),
            final(self).last_reading() >= old(self).last_reading(),
            final(self)@ == restart_step(old(self)@, old(self).policy(), container_id@, max_override, final(self).last_reading()).0,
            plan == plan_of(final(self)@, old(self).policy(), container_id@,
                restart_step(old(self)@, old(self).policy(), container_id@, max_override, final(self).last_reading()).1),
    {
        let now = self.read_clock();
        self.plan_restart_at(container_id, container_name, max_override, now)
    }
}

} // verus!
