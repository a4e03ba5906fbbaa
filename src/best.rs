//! Per-block table of the best adjusted deadline submitted for each account.
use std::collections::HashMap;
use vstd::prelude::*;

verus! {

broadcast use vstd::std_specs::hash::group_hash_axioms;

/// The stored deadline of `account` in `entries`: the first entry for it.
pub open spec fn lookup(entries: Seq<(u64, u64)>, account: u64) -> Option<u64>
    decreases entries.len(),
{
    if entries.len() == 0 {
        None
    } else if entries[0].0 == account {
        Some(entries[0].1)
    } else {
        lookup(entries.drop_first(), account)
    }
}

/// `entries` without its first entry for `account`.
pub open spec fn without(entries: Seq<(u64, u64)>, account: u64) -> Seq<(u64, u64)>
    decreases entries.len(),
{
    if entries.len() == 0 {
        entries
    } else if entries[0].0 == account {
        entries.drop_first()
    } else {
        seq![entries[0]] + without(entries.drop_first(), account)
    }
}

/// At most one entry per account.
pub open spec fn accounts_unique(entries: Seq<(u64, u64)>) -> bool {
    forall|i: int, j: int|
        0 <= i < entries.len() && 0 <= j < entries.len() && i != j ==> #[trigger] entries[i].0
            != #[trigger] entries[j].0
}

/// Entries recorded for a block height; empty where none are.
pub open spec fn entries_at(table: Map<u32, Seq<(u64, u64)>>, height: u32) -> Seq<(u64, u64)> {
    if table.contains_key(height) {
        table[height]
    } else {
        Seq::empty()
    }
}

/// Best deadline of `account` at `height`, or `u64::MAX` where none is stored.
pub open spec fn best_at(table: Map<u32, Seq<(u64, u64)>>, height: u32, account: u64) -> u64 {
    match lookup(entries_at(table, height), account) {
        Some(d) => d,
        None => u64::MAX,
    }
}

/// The table after recording `deadline` as the best of `account` at `height`: its entry
/// moves to the end of that block's sequence.
pub open spec fn updated(
    table: Map<u32, Seq<(u64, u64)>>,
    height: u32,
    account: u64,
    deadline: u64,
) -> Map<u32, Seq<(u64, u64)>> {
    table.insert(height, without(entries_at(table, height), account).push((account, deadline)))
}

/// Every block holds at most one entry per account.
pub open spec fn table_wf(table: Map<u32, Seq<(u64, u64)>>) -> bool {
    forall|h: u32| #[trigger] table.contains_key(h) ==> accounts_unique(table[h])
}

pub proof fn lemma_lookup_none_means_absent(entries: Seq<(u64, u64)>, account: u64, i: int)
    requires
        lookup(entries, account) is None,
        0 <= i < entries.len(),
    ensures
        entries[i].0 != account,
    decreases entries.len(),
{
    if i > 0 {
        lemma_lookup_none_means_absent(entries.drop_first(), account, i - 1);
    }
}

pub proof fn lemma_without_contents(entries: Seq<(u64, u64)>, account: u64)
    requires
        accounts_unique(entries),
    ensures
        accounts_unique(without(entries, account)),
        lookup(without(entries, account), account) is None,
        forall|other: u64|
            other != account ==> lookup(without(entries, account), other) == lookup(
                entries,
                other,
            ),
        forall|x: (u64, u64)| #[trigger]
            without(entries, account).contains(x) ==> entries.contains(x),
    decreases entries.len(),
{
    if entries.len() > 0 {
        let rest = entries.drop_first();
        assert(accounts_unique(rest)) by {
            assert forall|i: int, j: int|
                0 <= i < rest.len() && 0 <= j < rest.len() && i != j implies #[trigger] rest[i].0
                != #[trigger] rest[j].0 by {
                assert(entries[i + 1].0 != entries[j + 1].0);
            }
        }
        lemma_without_contents(rest, account);
        assert forall|other: u64| other != entries[0].0 implies lookup(entries, other) == lookup(
            rest,
            other,
        ) by {}
        if entries[0].0 == account {
            assert(lookup(rest, account) is None) by {
                if lookup(rest, account) is Some {
                    lemma_lookup_some_found(rest, account);
                    let k = choose|k: int| 0 <= k < rest.len() && rest[k].0 == account;
                    assert(entries[k + 1].0 != entries[0].0);
                }
            }
            assert forall|x: (u64, u64)| #[trigger] rest.contains(x) implies entries.contains(
                x,
            ) by {
                let k = choose|k: int| 0 <= k < rest.len() && rest[k] == x;
                assert(entries[k + 1] == x);
            }
        } else {
            let w = without(entries, account);
            let wr = without(rest, account);
            assert(w == seq![entries[0]] + wr);
            assert(w.drop_first() == wr);
            assert forall|other: u64| other != account implies lookup(w, other) == lookup(
                entries,
                other,
            ) by {
                assert(w[0] == entries[0]);
            }
            assert forall|x: (u64, u64)| #[trigger] w.contains(x) implies entries.contains(x) by {
                let k = choose|k: int| 0 <= k < w.len() && w[k] == x;
                if k == 0 {
                    assert(entries[0] == x);
                } else {
                    assert(wr[k - 1] == x);
                    assert(wr.contains(x));
                    let m = choose|m: int| 0 <= m < rest.len() && rest[m] == x;
                    assert(entries[m + 1] == x);
                }
            }
            assert(accounts_unique(w)) by {
                assert forall|i: int, j: int|
                    0 <= i < w.len() && 0 <= j < w.len() && i != j implies #[trigger] w[i].0
                    != #[trigger] w[j].0 by {
                    if i == 0 && j > 0 {
                        assert(wr.contains(w[j]));
                        let m = choose|m: int| 0 <= m < rest.len() && rest[m] == w[j];
                        assert(entries[m + 1] == w[j]);
                        assert(entries[0].0 != entries[m + 1].0);
                    } else if j == 0 && i > 0 {
                        assert(wr.contains(w[i]));
                        let m = choose|m: int| 0 <= m < rest.len() && rest[m] == w[i];
                        assert(entries[m + 1] == w[i]);
                        assert(entries[0].0 != entries[m + 1].0);
                    } else if i > 0 && j > 0 {
                        assert(wr[i - 1].0 != wr[j - 1].0);
                    }
                }
            }
        }
    }
}

pub proof fn lemma_lookup_some_found(entries: Seq<(u64, u64)>, account: u64)
    requires
        lookup(entries, account) is Some,
    ensures
        exists|k: int| 0 <= k < entries.len() && #[trigger] entries[k].0 == account,
    decreases entries.len(),
{
    if entries[0].0 != account {
        lemma_lookup_some_found(entries.drop_first(), account);
        let k = choose|k: int|
            0 <= k < entries.drop_first().len() && #[trigger] entries.drop_first()[k].0 == account;
        assert(entries[k + 1].0 == account);
    }
}

pub proof fn lemma_without_absent(entries: Seq<(u64, u64)>, account: u64)
    requires
        forall|k: int| 0 <= k < entries.len() ==> #[trigger] entries[k].0 != account,
    ensures
        without(entries, account) == entries,
    decreases entries.len(),
{
    if entries.len() > 0 {
        let rest = entries.drop_first();
        assert forall|k: int| 0 <= k < rest.len() implies #[trigger] rest[k].0 != account by {
            assert(entries[k + 1].0 != account);
        }
        lemma_without_absent(rest, account);
        assert(seq![entries[0]] + rest =~= entries);
    }
}

pub proof fn lemma_without_first(entries: Seq<(u64, u64)>, account: u64, first: int)
    requires
        0 <= first < entries.len(),
        entries[first].0 == account,
        forall|k: int| 0 <= k < first ==> #[trigger] entries[k].0 != account,
    ensures
        without(entries, account) == entries.remove(first),
    decreases entries.len(),
{
    if first > 0 {
        let rest = entries.drop_first();
        assert forall|k: int| 0 <= k < first - 1 implies #[trigger] rest[k].0 != account by {
            assert(entries[k + 1].0 != account);
        }
        lemma_without_first(rest, account, first - 1);
        assert(seq![entries[0]] + rest.remove(first - 1) =~= entries.remove(first));
    } else {
        assert(entries.drop_first() =~= entries.remove(0));
    }
}

pub proof fn lemma_lookup_push(entries: Seq<(u64, u64)>, e: (u64, u64), account: u64)
    ensures
        lookup(entries.push(e), account) == (match lookup(entries, account) {
            Some(d) => Some(d),
            None => if e.0 == account {
                Some(e.1)
            } else {
                None
            },
        }),
    decreases entries.len(),
{
    if entries.len() == 0 {
        assert(entries.push(e).drop_first() =~= entries);
    } else {
        assert(entries.push(e).drop_first() == entries.drop_first().push(e));
        lemma_lookup_push(entries.drop_first(), e, account);
    }
}

/// Recording a deadline keeps every block free of duplicate accounts, makes it the
/// stored best of its (height, account), and leaves every other pair as it was.
pub proof fn lemma_updated(table: Map<u32, Seq<(u64, u64)>>, height: u32, account: u64, deadline: u64)
    requires
        table_wf(table),
    ensures
        table_wf(updated(table, height, account, deadline)),
        best_at(updated(table, height, account, deadline), height, account) == deadline,
        forall|h: u32, a: u64|
            (h != height || a != account) ==> #[trigger] best_at(
                updated(table, height, account, deadline),
                h,
                a,
            ) == best_at(table, h, a),
{
    let old_entries = entries_at(table, height);
    let w = without(old_entries, account);
    let n = w.push((account, deadline));
    lemma_without_contents(old_entries, account);
    assert forall|other: u64| #[trigger] lookup(n, other) == (if other == account {
        Some(deadline)
    } else {
        lookup(old_entries, other)
    }) by {
        lemma_lookup_push(w, (account, deadline), other);
    }
    assert(accounts_unique(n)) by {
        assert forall|i: int, j: int|
            0 <= i < n.len() && 0 <= j < n.len() && i != j implies #[trigger] n[i].0
            != #[trigger] n[j].0 by {
            if i == w.len() as int {
                lemma_lookup_none_means_absent(w, account, j);
            } else if j == w.len() as int {
                lemma_lookup_none_means_absent(w, account, i);
            } else {
                assert(w[i].0 != w[j].0);
            }
        }
    }
    let u = updated(table, height, account, deadline);
    assert forall|h: u32| #[trigger] u.contains_key(h) implies accounts_unique(u[h]) by {
        if h != height {
            assert(table.contains_key(h));
        }
    }
}

/// An update that the submission gate accepts (its deadline is no worse than the stored
/// best) never raises the best deadline of its (height, account), and no other
/// (height, account) pair changes.
pub proof fn lemma_best_deadline_never_increases(
    table: Map<u32, Seq<(u64, u64)>>,
    height: u32,
    account: u64,
    deadline: u64,
)
    requires
        table_wf(table),
        deadline <= best_at(table, height, account),
    ensures
        best_at(updated(table, height, account, deadline), height, account) <= best_at(
            table,
            height,
            account,
        ),
        forall|h: u32, a: u64|
            #[trigger] best_at(updated(table, height, account, deadline), h, a) <= best_at(
                table,
                h,
                a,
            ),
{
    lemma_updated(table, height, account, deadline);
}

/// Best adjusted deadlines per block height and account.
pub struct BestDeadlineTable {
    table: HashMap<u32, Vec<(u64, u64)>>,
}

impl View for BestDeadlineTable {
    type V = Map<u32, Seq<(u64, u64)>>;

    closed spec fn view(&self) -> Map<u32, Seq<(u64, u64)>> {
        self.table@.map_values(|v: Vec<(u64, u64)>| v@)
    }
}

fn copy_entries(v: &Vec<(u64, u64)>) -> (r: Vec<(u64, u64)>)
    ensures
        r@ == v@,
{
    let mut r: Vec<(u64, u64)> = Vec::new();
    let mut i: usize = 0;
    while i < v.len()
        invariant
            i <= v.len(),
            r@ == v@.subrange(0, i as int),
        decreases v.len() - i,
    {
        r.push(v[i]);
        i = i + 1;
    }
    assert(v@.subrange(0, v.len() as int) == v@);
    r
}

impl BestDeadlineTable {
    pub open spec fn wf(&self) -> bool {
        table_wf(self@)
    }

    /// An empty table.
    pub fn new() -> (r: Self)
        ensures
            r@ == Map::<u32, Seq<(u64, u64)>>::empty(),
            r.wf(),
    {
        let r = BestDeadlineTable { table: HashMap::new() };
        assert(r@ == Map::<u32, Seq<(u64, u64)>>::empty());
        r
    }

    /// A copy of the whole table.
    pub fn get_best_deadlines(&self) -> (r: HashMap<u32, Vec<(u64, u64)>>)
        ensures
            r@.map_values(|v: Vec<(u64, u64)>| v@) == self@,
    {
        self.table.clone()
    }

    /// The entries recorded for a block, in the order of their last update; `None`
    /// where the block has none.
    pub fn get_best_deadlines_for_block(&self, block_height: u32) -> (r: Option<Vec<(u64, u64)>>)
        ensures
            r is Some <==> self@.contains_key(block_height),
            r is Some ==> r->0@ == self@[block_height],
    {
        match self.table.get(&block_height) {
            Some(v) => Some(copy_entries(v)),
            None => None,
        }
    }

    /// Best deadline of `account_id` at `block_height`; `u64::MAX` where none is stored.
    pub fn get_best_deadline(&self, block_height: u32, account_id: u64) -> (r: u64)
        ensures
            r == best_at(self@, block_height, account_id),
    {
        match self.table.get(&block_height) {
            Some(v) => {
                let mut i: usize = 0;
                assert(v@.subrange(0, v.len() as int) =~= v@);
                while i < v.len()
                    invariant
                        i <= v.len(),
                        self@.contains_key(block_height),
                        self@[block_height] == v@,
                        lookup(v@, account_id) == lookup(v@.subrange(i as int, v.len() as int), account_id),
                    decreases v.len() - i,
                {
                    let ghost rest = v@.subrange(i as int, v.len() as int);
                    assert(rest[0] == v@[i as int]);
                    if v[i].0 == account_id {
                        return v[i].1;
                    }
                    assert(rest.drop_first() == v@.subrange(i + 1, v.len() as int));
                    i = i + 1;
                }
                u64::MAX
            },
            None => u64::MAX,
        }
    }

    /// Records `deadline` as the best of `account_id` at `block_height`.
    pub fn update_best_deadline(&mut self, block_height: u32, account_id: u64, deadline: u64)
        requires
            old(self).wf(),
        ensures
            final(self).wf(),
            final(self)@ == updated(old(self)@, block_height, account_id, deadline),
    {
        proof {
            lemma_updated(self@, block_height, account_id, deadline);
        }
        let mut entries: Vec<(u64, u64)> = Vec::new();
        match self.table.get(&block_height) {
            Some(v) => {
                let mut found = false;
                let ghost mut first: int = 0;
                let mut i: usize = 0;
                while i < v.len()
                    invariant
                        i <= v.len(),
                        self@.contains_key(block_height),
                        self@[block_height] == v@,
                        !found ==> entries@ == v@.subrange(0, i as int),
                        !found ==> forall|k: int| 0 <= k < i ==> #[trigger] v@[k].0 != account_id,
                        found ==> 0 <= first < i,
                        found ==> v@[first].0 == account_id,
                        found ==> forall|k: int| 0 <= k < first ==> #[trigger] v@[k].0 != account_id,
                        found ==> entries@ == v@.subrange(0, i as int).remove(first),
                    decreases v.len() - i,
                {
                    if !found && v[i].0 == account_id {
                        found = true;
                        proof {
                            first = i as int;
                        }
                        assert(v@.subrange(0, i + 1).remove(first) =~= v@.subrange(0, i as int));
                    } else {
                        entries.push(v[i]);
                        if found {
                            assert(v@.subrange(0, i + 1).remove(first) =~= v@.subrange(
                                0,
                                i as int,
                            ).remove(first).push(v@[i as int]));
                        } else {
                            assert(v@.subrange(0, i + 1) =~= v@.subrange(0, i as int).push(
                                v@[i as int],
                            ));
                        }
                    }
                    i = i + 1;
                }
                assert(v@.subrange(0, v.len() as int) =~= v@);
                proof {
                    if found {
                        lemma_without_first(v@, account_id, first);
                    } else {
                        lemma_without_absent(v@, account_id);
                    }
                }
            },
            None => {},
        }
        entries.push((account_id, deadline));
        self.table.insert(block_height, entries);
        assert(self@ == updated(old(self)@, block_height, account_id, deadline));
    }
}

} // verus!
