use vstd::prelude::*;

use crate::status::MonitorStatus;

verus! {

/// Most results kept per check; older ones are evicted first.
pub const RESULT_LIMIT: usize = 100;

/// Outcome of one execution of a probe or a story.
#[derive(Debug, Clone, PartialEq, Eq)]
pub struct CheckResult {
    /// Name of the definition that produced it.
    pub name: String,
    pub status: MonitorStatus,
    /// When the execution completed, in milliseconds since the Unix epoch.
    pub timestamp_ms: i64,
    /// Protocol status code, 0 if the request itself failed.
    pub status_code: u16,
    /// Execution-specific payload (a response body, a failure message).
    pub detail: Option<String>,
}

impl CheckResult {
    /// A copy of this result.
    pub fn duplicate(&self) -> (r: CheckResult)
        ensures
            r == *self,
    {
        let detail = match &self.detail {
            Some(d) => Some(d.clone()),
            None => None,
        };
        CheckResult {
            name: self.name.clone(),
            status: self.status,
            timestamp_ms: self.timestamp_ms,
            status_code: self.status_code,
            detail,
        }
    }
}

/// `h` after appending `r` and evicting from the front down to the limit.
pub open spec fn push_bounded(h: Seq<CheckResult>, r: CheckResult) -> Seq<CheckResult> {
    let t = h.push(r);
    if t.len() > RESULT_LIMIT {
        t.subrange(t.len() - RESULT_LIMIT, t.len() as int)
    } else {
        t
    }
}

/// History built by recording `rs`, in order, on an empty history.
pub open spec fn record_all(rs: Seq<CheckResult>) -> Seq<CheckResult>
    decreases rs.len(),
{
    if rs.len() == 0 {
        Seq::empty()
    } else {
        push_bounded(record_all(rs.drop_last()), rs.last())
    }
}

/// Number of results kept after `n` have been recorded.
pub open spec fn kept(n: nat) -> nat {
    if n < RESULT_LIMIT {
        n
    } else {
        RESULT_LIMIT as nat
    }
}

/// After any number of recorded results a history holds exactly the
/// most recent ones, at most the limit, in the order they were recorded.
pub proof fn lemma_bounded_history(rs: Seq<CheckResult>)
    ensures
        record_all(rs).len() == kept(rs.len()),
        record_all(rs) == rs.subrange(rs.len() - kept(rs.len()), rs.len() as int),
    decreases rs.len(),
{
    if rs.len() > 0 {
        let prev = rs.drop_last();
        lemma_bounded_history(prev);
        let n = rs.len() as int;
        let m = kept(prev.len()) as int;
        let t = record_all(prev).push(rs.last());
        assert(t =~= rs.subrange(n - 1 - m, n));
        if t.len() > RESULT_LIMIT {
            assert(t.subrange(t.len() - RESULT_LIMIT, t.len() as int) =~= rs.subrange(
                n - RESULT_LIMIT,
                n,
            ));
        }
    } else {
        assert(rs.subrange(0, 0) =~= Seq::<CheckResult>::empty());
    }
}

/// The history of `name` in `m`; empty where it has none.
pub open spec fn history_of(m: Map<Seq<char>, Seq<CheckResult>>, name: Seq<char>) -> Seq<
    CheckResult,
> {
    if m.contains_key(name) {
        m[name]
    } else {
        Seq::empty()
    }
}

/// The names of `v`, as plain sequences.
pub open spec fn string_views(v: Seq<String>) -> Seq<Seq<char>> {
    v.map_values(|s: String| s@)
}

/// Whether `name` is one of `v`.
fn contains_name(v: &Vec<String>, name: &String) -> (r: bool)
    ensures
        r == string_views(v@).to_set().contains(name@),
{
    let mut i: usize = 0;
    while i < v.len()
        invariant
            i <= v@.len(),
            forall|a: int| 0 <= a < i ==> v@[a]@ != name@,
        decreases v@.len() - i,
    {
        if v[i].eq(name) {
            assert(string_views(v@)[i as int] == name@);
            return true;
        }
        i = i + 1;
    }
    assert(!string_views(v@).contains(name@));
    false
}

/// The results of one check, oldest first.
pub struct HistoryEntry {
    pub name: String,
    pub results: Vec<CheckResult>,
}

/// Bounded FIFO history of results, one per check name.
pub struct ResultStore {
    entries: Vec<HistoryEntry>,
}

pub open spec fn names_unique(s: Seq<HistoryEntry>) -> bool {
    forall|a: int, b: int|
        0 <= a < s.len() && 0 <= b < s.len() && a != b ==> s[a].name@ != s[b].name@
}

pub open spec fn has_name(s: Seq<HistoryEntry>, k: Seq<char>) -> bool {
    exists|a: int| 0 <= a < s.len() && s[a].name@ == k
}

pub open spec fn entries_view(s: Seq<HistoryEntry>) -> Map<Seq<char>, Seq<CheckResult>> {
    Map::new(
        |k: Seq<char>| has_name(s, k),
        |k: Seq<char>| s[choose|a: int| 0 <= a < s.len() && s[a].name@ == k].results@,
    )
}

proof fn lemma_entries_view_at(s: Seq<HistoryEntry>, a: int)
    requires
        names_unique(s),
        0 <= a < s.len(),
    ensures
        entries_view(s).contains_key(s[a].name@),
        entries_view(s)[s[a].name@] == s[a].results@,
{
    let k = s[a].name@;
    assert(has_name(s, k));
    let b = choose|b: int| 0 <= b < s.len() && s[b].name@ == k;
    assert(b == a);
}

impl View for ResultStore {
    type V = Map<Seq<char>, Seq<CheckResult>>;

    closed spec fn view(&self) -> Map<Seq<char>, Seq<CheckResult>> {
        entries_view(self.entries@)
    }
}

impl ResultStore {
    /// Names are unique and no history is over the limit.
    pub closed spec fn wf(&self) -> bool {
        &&& names_unique(self.entries@)
        &&& forall|a: int|
            0 <= a < self.entries@.len() ==> #[trigger] self.entries@[a].results@.len()
                <= RESULT_LIMIT
    }

    /// Every history in the store is within the limit.
    pub proof fn lemma_bounded(&self, name: Seq<char>)
        requires
            self.wf(),
        ensures
            history_of(self@, name).len() <= RESULT_LIMIT,
    {
        if self@.contains_key(name) {
            let s = self.entries@;
            let a = choose|a: int| 0 <= a < s.len() && s[a].name@ == name;
            lemma_entries_view_at(s, a);
        }
    }

    pub fn new() -> (r: ResultStore)
        ensures
            r.wf(),
            r@ == Map::<Seq<char>, Seq<CheckResult>>::empty(),
    {
        let r = ResultStore { entries: Vec::new() };
        assert(r@ =~= Map::<Seq<char>, Seq<CheckResult>>::empty());
        r
    }

    fn find(&self, name: &String) -> (r: Option<usize>)
        requires
            self.wf(),
        ensures
            match r {
                Some(i) => i < self.entries@.len() && self.entries@[i as int].name@ == name@,
                None => !has_name(self.entries@, name@),
            },
    {
        let mut i: usize = 0;
        while i < self.entries.len()
            invariant
                i <= self.entries@.len(),
                forall|a: int| 0 <= a < i ==> self.entries@[a].name@ != name@,
            decreases self.entries@.len() - i,
        {
            if self.entries[i].name.eq(name) {
                return Some(i);
            }
            i = i + 1;
        }
        None
    }

    /// Appends `result` to the history of `name`, creating it if absent,
    /// and evicts the oldest results down to the limit.
    pub fn record(&mut self, name: String, result: CheckResult)
        requires
            old(self).wf(),
        ensures
            final(self).wf(),
            final(self)@ == old(self)@.insert(
                name@,
                push_bounded(history_of(old(self)@, name@), result),
            ),
    {
        let ghost s0 = self.entries@;
        match self.find(&name) {
            Some(i) => {
                proof {
                    lemma_entries_view_at(s0, i as int);
                }
                self.entries[i].results.push(result);
                if self.entries[i].results.len() > RESULT_LIMIT {
                    self.entries[i].results.remove(0);
                }
                proof {
                    let s1 = self.entries@;
                    assert(s1[i as int].results@ =~= push_bounded(s0[i as int].results@, result));
                    assert forall|k: Seq<char>|
                        #[trigger] entries_view(s1).contains_key(k) == entries_view(
                            s0,
                        ).insert(name@, push_bounded(history_of(old(self)@, name@), result)).contains_key(k)
                        by {
                        if has_name(s0, k) {
                            let a = choose|a: int| 0 <= a < s0.len() && s0[a].name@ == k;
                            assert(s1[a].name@ == k);
                        }
                        if has_name(s1, k) {
                            let a = choose|a: int| 0 <= a < s1.len() && s1[a].name@ == k;
                            assert(s0[a].name@ == k);
                        }
                    }
                    assert forall|a: int| 0 <= a < s1.len() implies entries_view(s1)[s1[a].name@]
                        == entries_view(s0).insert(
                        name@,
                        push_bounded(history_of(old(self)@, name@), result),
                    )[s1[a].name@] by {
                        lemma_entries_view_at(s1, a);
                        lemma_entries_view_at(s0, a);
                    }
                    assert(entries_view(s1) =~= entries_view(s0).insert(
                        name@,
                        push_bounded(history_of(old(self)@, name@), result),
                    ));
                }
            },
            None => {
                let ghost key = name@;
                let mut results = Vec::new();
                results.push(result);
                self.entries.push(HistoryEntry { name, results });
                proof {
                    let s1 = self.entries@;
                    let n = s0.len() as int;
                    assert(s1[n].results@ =~= push_bounded(Seq::empty(), result));
                    assert forall|k: Seq<char>|
                        #[trigger] entries_view(s1).contains_key(k) == entries_view(
                            s0,
                        ).insert(key, push_bounded(history_of(old(self)@, key), result)).contains_key(k)
                        by {
                        if has_name(s0, k) {
                            let a = choose|a: int| 0 <= a < s0.len() && s0[a].name@ == k;
                            assert(s1[a].name@ == k);
                        }
                        if k == key {
                            assert(s1[n].name@ == k);
                        }
                        if has_name(s1, k) {
                            let a = choose|a: int| 0 <= a < s1.len() && s1[a].name@ == k;
                            if a < n {
                                assert(s0[a].name@ == k);
                            }
                        }
                    }
                    assert forall|a: int| 0 <= a < s1.len() implies entries_view(s1)[s1[a].name@]
                        == entries_view(s0).insert(
                        key,
                        push_bounded(history_of(old(self)@, key), result),
                    )[s1[a].name@] by {
                        lemma_entries_view_at(s1, a);
                        if a < n {
                            lemma_entries_view_at(s0, a);
                        }
                    }
                    assert(entries_view(s1) =~= entries_view(s0).insert(
                        key,
                        push_bounded(history_of(old(self)@, key), result),
                    ));
                }
            },
        }
    }

    /// A copy of the history of `name`, oldest first; empty where it has none.
    pub fn snapshot(&self, name: &String) -> (r: Vec<CheckResult>)
        requires
            self.wf(),
        ensures
            r@ == history_of(self@, name@),
    {
        let mut r: Vec<CheckResult> = Vec::new();
        match self.find(name) {
            Some(i) => {
                proof {
                    lemma_entries_view_at(self.entries@, i as int);
                }
                let h = &self.entries[i].results;
                let mut j: usize = 0;
                while j < h.len()
                    invariant
                        j <= h@.len(),
                        r@ == h@.subrange(0, j as int),
                    decreases h@.len() - j,
                {
                    r.push(h[j].duplicate());
                    j = j + 1;
                    assert(r@ =~= h@.subrange(0, j as int));
                }
                assert(h@.subrange(0, h@.len() as int) =~= h@);
            },
            None => {
                assert(r@ =~= Seq::<CheckResult>::empty());
            },
        }
        r
    }

    /// Removes every history whose name is not in `allowed`; the others
    /// are kept as they are.
    pub fn retain_names(&mut self, allowed: &Vec<String>)
        requires
            old(self).wf(),
        ensures
            final(self).wf(),
            final(self)@ == old(self)@.restrict(string_views(allowed@).to_set()),
    {
        let ghost s0 = self.entries@;
        let ghost keep_set = string_views(allowed@).to_set();
        let ghost mut j: int = 0;
        let ghost mut idx: Seq<int> = Seq::empty();
        let mut i: usize = 0;
        while i < self.entries.len()
            invariant
                s0 == old(self).entries@,
                keep_set == string_views(allowed@).to_set(),
                0 <= j <= s0.len(),
                i <= self.entries@.len(),
                self.entries@.len() - i == s0.len() - j,
                self.entries@.subrange(i as int, self.entries@.len() as int) == s0.subrange(
                    j,
                    s0.len() as int,
                ),
                idx.len() == i,
                forall|a: int|
                    0 <= a < i ==> 0 <= #[trigger] idx[a] < j && self.entries@[a] == s0[idx[a]]
                        && keep_set.contains(s0[idx[a]].name@),
                forall|a: int, c: int| 0 <= a < c < i ==> idx[a] < idx[c],
                forall|b: int|
                    0 <= b < j && keep_set.contains(#[trigger] s0[b].name@) ==> exists|a: int|
                        0 <= a < i && #[trigger] idx[a] == b,
            decreases self.entries@.len() - i,
        {
            let keep = contains_name(allowed, &self.entries[i].name);
            let ghost pre = self.entries@;
            let ghost pre_idx = idx;
            proof {
                assert(pre.subrange(i as int, pre.len() as int)[0] == s0[j]);
                assert(pre[i as int] == s0[j]);
                assert(keep == keep_set.contains(s0[j].name@));
            }
            if keep {
                proof {
                    idx = idx.push(j);
                    assert forall|a: int| 0 <= a < i implies idx[a] == pre_idx[a] by {}
                }
                i = i + 1;
                proof {
                    assert(self.entries@.subrange(i as int, self.entries@.len() as int) =~= s0.subrange(
                        j + 1,
                        s0.len() as int,
                    )) by {
                        assert forall|t: int| 0 <= t < s0.len() - j - 1 implies #[trigger] self.entries@.subrange(
                            i as int,
                            self.entries@.len() as int,
                        )[t] == s0.subrange(j + 1, s0.len() as int)[t] by {
                            assert(pre.subrange(i - 1, pre.len() as int)[t + 1] == s0.subrange(
                                j,
                                s0.len() as int,
                            )[t + 1]);
                        }
                    }
                }
            } else {
                self.entries.remove(i);
                proof {
                    assert forall|a: int| 0 <= a < i implies self.entries@[a] == pre[a] by {}
                    assert(self.entries@.subrange(i as int, self.entries@.len() as int) =~= s0.subrange(
                        j + 1,
                        s0.len() as int,
                    )) by {
                        assert forall|t: int| 0 <= t < s0.len() - j - 1 implies #[trigger] self.entries@.subrange(
                            i as int,
                            self.entries@.len() as int,
                        )[t] == s0.subrange(j + 1, s0.len() as int)[t] by {
                            assert(pre.subrange(i as int, pre.len() as int)[t + 1] == s0.subrange(
                                j,
                                s0.len() as int,
                            )[t + 1]);
                        }
                    }
                }
            }
            proof {
                let ni = i as int;
                assert forall|a: int| 0 <= a < ni implies 0 <= #[trigger] idx[a] < j + 1
                    && self.entries@[a] == s0[idx[a]] && keep_set.contains(s0[idx[a]].name@) by {
                    if a < ni - 1 || !keep {
                        assert(pre_idx[a] == idx[a]);
                    } else {
                        assert(idx[a] == j);
                        assert(pre[a] == s0[j]);
                    }
                }
                assert forall|b: int|
                    0 <= b < j + 1 && keep_set.contains(#[trigger] s0[b].name@) implies exists|a: int|
                    0 <= a < ni && #[trigger] idx[a] == b by {
                    if b < j {
                        let a = choose|a: int| 0 <= a < pre_idx.len() && #[trigger] pre_idx[a] == b;
                        assert(idx[a] == b);
                    } else {
                        assert(keep);
                        assert(idx[ni - 1] == b);
                    }
                }
                j = j + 1;
            }
        }
        proof {
            let s1 = self.entries@;
            assert forall|a: int, c: int|
                0 <= a < s1.len() && 0 <= c < s1.len() && a != c implies s1[a].name@
                != s1[c].name@ by {
                if a < c {
                    assert(idx[a] < idx[c]);
                } else {
                    assert(idx[c] < idx[a]);
                }
            }
            assert forall|a: int| 0 <= a < s1.len() implies #[trigger] s1[a].results@.len()
                <= RESULT_LIMIT by {
                assert(s1[a] == s0[idx[a]]);
            }
            let target = entries_view(s0).restrict(keep_set);
            assert forall|k: Seq<char>|
                #[trigger] entries_view(s1).contains_key(k) == target.contains_key(k) by {
                if has_name(s1, k) {
                    let a = choose|a: int| 0 <= a < s1.len() && s1[a].name@ == k;
                    assert(s0[idx[a]].name@ == k);
                }
                if has_name(s0, k) && keep_set.contains(k) {
                    let b = choose|b: int| 0 <= b < s0.len() && s0[b].name@ == k;
                    assert(keep_set.contains(s0[b].name@));
                    let a = choose|a: int| 0 <= a < s1.len() && #[trigger] idx[a] == b;
                    assert(s1[a].name@ == k);
                }
            }
            assert forall|a: int| 0 <= a < s1.len() implies entries_view(s1)[s1[a].name@]
                == target[s1[a].name@] by {
                lemma_entries_view_at(s1, a);
                lemma_entries_view_at(s0, idx[a]);
            }
            assert(entries_view(s1) =~= target);
        }
    }
}

} // verus!
