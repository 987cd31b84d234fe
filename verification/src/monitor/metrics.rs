//! Crash counts per container name and the periodic summary line.
use crate::keyed::{has_key, keys_distinct, lemma_to_map_push, lemma_to_map_update};
use crate::text::{decimal, join, push_decimal, same_text};
use vstd::prelude::*;

verus! {

/// How many containers the summary names at most.
pub const TOP_CONTAINERS: usize = 10;

/// Counts crashes per container name, in the order the names first crashed.
pub struct CrashMetrics {
    crashes: Vec<(String, u32)>,
}

pub open spec fn name_pairs(v: Seq<(String, u32)>) -> Seq<(Seq<char>, u32)> {
    v.map_values(|e: (String, u32)| (e.0@, e.1))
}

impl View for CrashMetrics {
    type V = Seq<(Seq<char>, u32)>;

    closed spec fn view(&self) -> Seq<(Seq<char>, u32)> {
        name_pairs(self.crashes@)
    }
}

/// The position of name `k` in `s`.
pub open spec fn key_index(s: Seq<(Seq<char>, u32)>, k: Seq<char>) -> int {
    choose|i: int| 0 <= i < s.len() && s[i].0 == k
}

/// The crashes counted for `name`.
pub open spec fn crash_count(s: Seq<(Seq<char>, u32)>, name: Seq<char>) -> nat {
    if has_key(s, name) {
        s[key_index(s, name)].1 as nat
    } else {
        0
    }
}

/// `s` with one more crash of `name`: its count grows by one, or it is added with one.
pub open spec fn with_crash(s: Seq<(Seq<char>, u32)>, name: Seq<char>) -> Seq<(Seq<char>, u32)> {
    if has_key(s, name) {
        let i = key_index(s, name);
        s.update(i, (name, (s[i].1 + 1) as u32))
    } else {
        s.push((name, 1u32))
    }
}

/// All crashes counted.
pub open spec fn total_crashes(s: Seq<(Seq<char>, u32)>) -> nat
    decreases s.len(),
{
    if s.len() == 0 {
        0
    } else {
        total_crashes(s.drop_last()) + s.last().1 as nat
    }
}

/// Entry `i` comes before entry `j` in the summary: more crashes, or as many and an earlier
/// first crash.
pub open spec fn outranks(s: Seq<(Seq<char>, u32)>, i: int, j: int) -> bool {
    s[i].1 > s[j].1 || (s[i].1 == s[j].1 && i < j)
}

/// `order` lists every entry of `s` once, by decreasing crash count, ties in first-crash order.
pub open spec fn is_ranking(s: Seq<(Seq<char>, u32)>, order: Seq<int>) -> bool {
    &&& order.len() == s.len()
    &&& forall|k: int| 0 <= k < order.len() ==> 0 <= #[trigger] order[k] < s.len()
    &&& forall|k: int, l: int| 0 <= k < l < order.len() ==> outranks(s, #[trigger] order[k], #[trigger] order[l])
}

/// `name=count`.
pub open spec fn entry_text(e: (Seq<char>, u32)) -> Seq<char> {
    e.0 + "="@ + decimal(e.1 as nat)
}

/// The first (at most ten) entries of the ranking, as text.
pub open spec fn top_entries(s: Seq<(Seq<char>, u32)>, order: Seq<int>) -> Seq<Seq<char>> {
    let m = if s.len() < TOP_CONTAINERS {
        s.len()
    } else {
        TOP_CONTAINERS as nat
    };
    Seq::new(m, |k: int| entry_text(s[order[k]]))
}

/// The summary line for counts `s` ranked by `order`.
pub open spec fn summary_line(s: Seq<(Seq<char>, u32)>, order: Seq<int>) -> Seq<char> {
    if s.len() == 0 {
        "[METRICS] No container crashes recorded."@
    } else {
        "[METRICS] Total crashes: "@ + decimal(total_crashes(s)) + ". Top containers: ["@ + join(
            top_entries(s, order),
            ", "@,
        ) + "]"@
    }
}

proof fn lemma_total_prefix(s: Seq<(Seq<char>, u32)>, i: int, j: int)
    requires
        0 <= i <= j <= s.len(),
    ensures
        total_crashes(s.take(i)) <= total_crashes(s.take(j)),
    decreases j - i,
{
    if i < j {
        lemma_total_prefix(s, i, j - 1);
        assert(s.take(j).drop_last() =~= s.take(j - 1));
    }
}

proof fn lemma_total_update(s: Seq<(Seq<char>, u32)>, i: int, e: (Seq<char>, u32))
    requires
        0 <= i < s.len(),
    ensures
        total_crashes(s.update(i, e)) == total_crashes(s) - s[i].1 + e.1,
    decreases s.len(),
{
    if i < s.len() - 1 {
        lemma_total_update(s.drop_last(), i, e);
        assert(s.update(i, e).drop_last() =~= s.drop_last().update(i, e));
    } else {
        assert(s.update(i, e).drop_last() =~= s.drop_last());
    }
}

/// Recording a crash raises the total by one and the count of that name by one.
pub proof fn law_record_crash_counts(s: Seq<(Seq<char>, u32)>, name: Seq<char>)
    requires
        keys_distinct(s),
        crash_count(s, name) < u32::MAX,
    ensures
        total_crashes(with_crash(s, name)) == total_crashes(s) + 1,
        crash_count(with_crash(s, name), name) == crash_count(s, name) + 1,
        keys_distinct(with_crash(s, name)),
{
    if has_key(s, name) {
        let i = key_index(s, name);
        lemma_total_update(s, i, (name, (s[i].1 + 1) as u32));
        let t = with_crash(s, name);
        lemma_to_map_update(s, i, (s[i].1 + 1) as u32);
        assert(t[i].0 == name);
        let j = key_index(t, name);
        assert(t[j].0 == name);
        assert(j == i);
    } else {
        assert(s.push((name, 1u32)).drop_last() =~= s);
        lemma_to_map_push(s, name, 1u32);
        let t = with_crash(s, name);
        assert(t[s.len() as int].0 == name);
        let j = key_index(t, name);
        assert(j == s.len());
    }
}

proof fn lemma_join_step(t: Seq<Seq<char>>, k: int, sep: Seq<char>)
    requires
        0 <= k < t.len(),
    ensures
        join(t.take(k + 1), sep) == if k == 0 {
            t[0]
        } else {
            join(t.take(k), sep) + sep + t[k]
        },
{
    assert(t.take(k + 1).drop_last() =~= t.take(k));
}

proof fn lemma_ranking_covers(s: Seq<(Seq<char>, u32)>, o: Seq<int>, x: int)
    requires
        is_ranking(s, o),
        0 <= x < s.len(),
    ensures
        o.contains(x),
{
    assert(o.no_duplicates()) by {
        assert forall|i: int, j: int| 0 <= i < o.len() && 0 <= j < o.len() && i != j implies o[i] != o[j] by {
            if i < j {
                assert(outranks(s, o[i], o[j]));
            } else {
                assert(outranks(s, o[j], o[i]));
            }
        }
    }
    o.unique_seq_to_set();
    vstd::seq_lib::seq_to_set_is_finite(o);
    vstd::set_lib::lemma_int_range(0, s.len() as int);
    let range = vstd::set_lib::set_int_range(0, s.len() as int);
    assert(o.to_set().subset_of(range)) by {
        assert forall|v: int| o.to_set().contains(v) implies range.contains(v) by {
            let k = choose|k: int| 0 <= k < o.len() && o[k] == v;
            assert(0 <= o[k] < s.len());
        }
    }
    vstd::set_lib::lemma_subset_equality(o.to_set(), range);
    assert(range.contains(x));
    assert(o.to_set().contains(x));
}

proof fn lemma_rankings_agree_below(s: Seq<(Seq<char>, u32)>, o1: Seq<int>, o2: Seq<int>, k: int)
    requires
        is_ranking(s, o1),
        is_ranking(s, o2),
        0 <= k <= s.len(),
    ensures
        forall|j: int| 0 <= j < k ==> o1[j] == o2[j],
    decreases k,
{
    if k > 0 {
        lemma_rankings_agree_below(s, o1, o2, k - 1);
        let k1 = k - 1;
        let a = o1[k1];
        let b = o2[k1];
        if a != b {
            lemma_ranking_covers(s, o2, a);
            lemma_ranking_covers(s, o1, b);
            let j = choose|j: int| 0 <= j < o2.len() && o2[j] == a;
            let i = choose|i: int| 0 <= i < o1.len() && o1[i] == b;
            if j < k1 {
                assert(o1[j] == a);
                assert(outranks(s, o1[j], o1[k1]));
            }
            if i < k1 {
                assert(o2[i] == b);
                assert(outranks(s, o2[i], o2[k1]));
            }
            assert(j > k1 && i > k1);
            assert(outranks(s, o2[k1], o2[j]));
            assert(outranks(s, o1[k1], o1[i]));
            assert(false);
        }
    }
}

/// There is exactly one ranking of the crash counts, so the summary line is determined by
/// the counts alone.
pub proof fn law_summary_is_determined(s: Seq<(Seq<char>, u32)>, o1: Seq<int>, o2: Seq<int>)
    requires
        is_ranking(s, o1),
        is_ranking(s, o2),
    ensures
        o1 == o2,
        summary_line(s, o1) == summary_line(s, o2),
{
    lemma_rankings_agree_below(s, o1, o2, s.len() as int);
    assert(o1 =~= o2);
}

impl CrashMetrics {
    /// Each name is counted in one entry.
    #[verifier::type_invariant]
    pub open spec fn wf(&self) -> bool {
        keys_distinct(self@)
    }

    pub fn new() -> (m: Self)
        ensures
            m@ == Seq::<(Seq<char>, u32)>::empty(),
    {
        let m = CrashMetrics { crashes: Vec::new() };
        assert(m@ =~= Seq::<(Seq<char>, u32)>::empty());
        m
    }

    /// Where `name` is counted, if it is.
    fn position(&self, name: &str) -> (r: Option<usize>)
        ensures
            match r {
                Some(i) => i < self@.len() && self@[i as int].0 == name@,
                None => !has_key(self@, name@),
            },
    {
        let mut i: usize = 0;
        while i < self.crashes.len()
            invariant
                i <= self.crashes@.len(),
                forall|j: int| 0 <= j < i ==> self@[j].0 != name@,
            decreases self.crashes@.len() - i,
        {
            if same_text(self.crashes[i].0.as_str(), name) {
                return Some(i);
            }
            i = i + 1;
        }
        None
    }

    /// Counts one more crash of `container_name`.
    pub fn record_crash(&mut self, container_name: &str)
        requires
            crash_count(old(self)@, container_name@) < u32::MAX,
        ensures
            final(self)@ == with_crash(old(self)@, container_name@),
    {
        proof {
            use_type_invariant(&*self);
        }
        let ghost s = self@;
        let mut crashes: Vec<(String, u32)> = Vec::new();
        match self.position(container_name) {
            Some(i) => {
                proof {
                    let j = key_index(s, container_name@);
                    assert(s[j].0 == container_name@);
                    assert(j == i);
                }
                std::mem::swap(&mut crashes, &mut self.crashes);
                let count = crashes[i].1;
                let k = crashes[i].0.clone();
                crashes.set(i, (k, count + 1));
                proof {
                    lemma_to_map_update(s, i as int, (count + 1) as u32);
                    assert(name_pairs(crashes@) =~= s.update(i as int, (container_name@, (count + 1) as u32)));
                }
                self.crashes = crashes;
            },
            None => {
                std::mem::swap(&mut crashes, &mut self.crashes);
                crashes.push((container_name.to_owned(), 1u32));
                proof {
                    lemma_to_map_push(s, container_name@, 1u32);
                    assert(name_pairs(crashes@) =~= s.push((container_name@, 1u32)));
                }
                self.crashes = crashes;
            },
        }
    }

    /// The crashes counted for `container_name`.
    pub fn count_of(&self, container_name: &str) -> (n: u32)
        ensures
            n == crash_count(self@, container_name@),
    {
        proof {
            use_type_invariant(self);
        }
        match self.position(container_name) {
            Some(i) => {
                proof {
                    let j = key_index(self@, container_name@);
                    assert(self@[j].0 == container_name@);
                    assert(j == i);
                }
                self.crashes[i].1
            },
            None => 0,
        }
    }

    /// All crashes counted, if the sum fits in a `u32`.
    pub fn total(&self) -> (t: Option<u32>)
        ensures
            t == (if total_crashes(self@) <= u32::MAX { Some(total_crashes(self@) as u32) } else { None }),
    {
        let ghost s = self@;
        let n = self.crashes.len();
        let mut total: u64 = 0;
        let mut i: usize = 0;
        assert(s.take(0) =~= Seq::<(Seq<char>, u32)>::empty());
        while i < n
            invariant
                s == self@,
                n == s.len(),
                i <= n,
                total == total_crashes(s.take(i as int)),
                total <= i * 0xffff_ffffu64,
            decreases n - i,
        {
            assert(s.take(i + 1).drop_last() =~= s.take(i as int));
            if total > u32::MAX as u64 {
                proof {
                    lemma_total_prefix(s, i as int, n as int);
                    assert(s.take(n as int) =~= s);
                }
                return None;
            }
            total = total + self.crashes[i].1 as u64;
            i = i + 1;
        }
        assert(s.take(n as int) =~= s);
        if total > u32::MAX as u64 {
            None
        } else {
            Some(total as u32)
        }
    }

    /// The summary line that the heartbeat logs: the total and the (at most ten) names with
    /// the most crashes, most first, ties in the order the names first crashed.
    pub fn log_summary(&self) -> (line: String)
        requires
            total_crashes(self@) <= u32::MAX,
        ensures
            exists|order: Seq<int>| #[trigger] is_ranking(self@, order) && line@ == summary_line(self@, order),
    {
        let ghost s = self@;
        let n = self.crashes.len();
        if n == 0 {
            let line = "[METRICS] No container crashes recorded.".to_owned();
            assert(is_ranking(s, Seq::<int>::empty()));
            return line;
        }
        let mut total: u32 = 0;
        let mut i: usize = 0;
        assert(s.take(0) =~= Seq::<(Seq<char>, u32)>::empty());
        while i < n
            invariant
                s == self@,
                n == s.len(),
                total_crashes(s) <= u32::MAX,
                i <= n,
                total == total_crashes(s.take(i as int)),
            decreases n - i,
        {
            proof {
                lemma_total_prefix(s, i + 1, n as int);
                assert(s.take(n as int) =~= s);
                assert(s.take(i + 1).drop_last() =~= s.take(i as int));
            }
            total = total + self.crashes[i].1;
            i = i + 1;
        }
        assert(s.take(n as int) =~= s);
        let mut order: Vec<usize> = Vec::new();
        let mut i: usize = 0;
        while i < n
            invariant
                s == self@,
                n == s.len(),
                i <= n,
                order@.len() == i,
                forall|k: int| 0 <= k < order@.len() ==> #[trigger] order@[k] < i,
                forall|k: int, l: int| 0 <= k < l < order@.len() ==> outranks(s, #[trigger] order@[k] as int, #[trigger] order@[l] as int),
            decreases n - i,
        {
            let c = self.crashes[i].1;
            assert(c == s[i as int].1);
            let mut p: usize = 0;
            while p < order.len() && self.crashes[order[p]].1 >= c
                invariant
                    s == self@,
                    n == s.len(),
                    i < n,
                    c == s[i as int].1,
                    p <= order@.len(),
                    forall|k: int| 0 <= k < order@.len() ==> #[trigger] order@[k] < i,
                    forall|q: int| 0 <= q < p ==> s[#[trigger] order@[q] as int].1 >= c,
                decreases order@.len() - p,
            {
                p = p + 1;
            }
            let ghost old_order = order@;
            proof {
                assert forall|l: int| p <= l < old_order.len() implies s[#[trigger] old_order[l] as int].1 < c by {
                    if l > p {
                        assert(outranks(s, old_order[p as int] as int, old_order[l] as int));
                    }
                }
            }
            order.insert(p, i);
            proof {
                let o = order@;
                assert(o =~= old_order.insert(p as int, i));
                assert forall|k: int| 0 <= k < o.len() implies #[trigger] o[k] < i + 1 by {
                    if k < p {
                        assert(o[k] == old_order[k]);
                    } else if k > p {
                        assert(o[k] == old_order[k - 1]);
                    }
                }
                assert forall|k: int, l: int| 0 <= k < l < o.len() implies outranks(s, #[trigger] o[k] as int, #[trigger] o[l] as int) by {
                    if k < p {
                        assert(o[k] == old_order[k]);
                        if l < p {
                            assert(o[l] == old_order[l]);
                        } else if l == p {
                            assert(o[l] == i);
                            assert(s[old_order[k] as int].1 >= c);
                        } else {
                            assert(o[l] == old_order[l - 1]);
                        }
                    } else if k == p {
                        assert(o[k] == i);
                        assert(o[l] == old_order[l - 1]);
                        assert(s[old_order[l - 1] as int].1 < c);
                    } else {
                        assert(o[k] == old_order[k - 1]);
                        assert(o[l] == old_order[l - 1]);
                    }
                }
            }
            i = i + 1;
        }
        let ghost ord = order@.map_values(|x: usize| x as int);
        assert(is_ranking(s, ord)) by {
            assert forall|k: int, l: int| 0 <= k < l < ord.len() implies outranks(s, #[trigger] ord[k], #[trigger] ord[l]) by {
                assert(ord[k] == order@[k] as int);
                assert(ord[l] == order@[l] as int);
            }
        }
        let ghost top = top_entries(s, ord);
        let mut line = "[METRICS] Total crashes: ".to_owned();
        push_decimal(&mut line, total as u64);
        line.append(". Top containers: [");
        let ghost head = line@;
        let m: usize = if n < TOP_CONTAINERS {
            n
        } else {
            TOP_CONTAINERS
        };
        let mut k: usize = 0;
        assert(top.take(0) =~= Seq::<Seq<char>>::empty());
        while k < m
            invariant
                s == self@,
                n == s.len(),
                m == top.len(),
                m <= n,
                k <= m,
                order@.len() == n,
                forall|q: int| 0 <= q < order@.len() ==> #[trigger] order@[q] < n,
                top == top_entries(s, ord),
                ord == order@.map_values(|x: usize| x as int),
                line@ == head + join(top.take(k as int), ", "@),
            decreases m - k,
        {
            proof {
                lemma_join_step(top, k as int, ", "@);
            }
            if k > 0 {
                line.append(", ");
            }
            let idx = order[k];
            line.append(self.crashes[idx].0.as_str());
            line.append("=");
            push_decimal(&mut line, self.crashes[idx].1 as u64);
            proof {
                assert(top[k as int] == entry_text(s[idx as int]));
            }
            k = k + 1;
        }
        assert(top.take(m as int) =~= top);
        line.append("]");
        assert(line@ =~= summary_line(s, ord));
        line
    }
}

} // verus!
