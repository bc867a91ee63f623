//! Selection and order of the functions shown in a per-function breakdown report.

use vstd::multiset::Multiset;
use vstd::prelude::*;

use crate::output::{lookup_function, BreakdownView, CachegrindFunction, CachegrindOutput, FunctionKey};

verus! {

broadcast use vstd::seq_lib::group_to_multiset_ensures;

/// A function shown in a breakdown: its instructions now, and before where there is a previous
/// run (zero where the function did not show up there).
#[derive(Debug)]
pub struct BreakdownItem {
    pub function: CachegrindFunction,
    pub current: u64,
    pub prev: Option<u64>,
}

/// Model of an item: function, current instructions, previous instructions.
pub type ItemView = (FunctionKey, u64, Option<u64>);

impl BreakdownItem {
    pub open spec fn spec_view(&self) -> ItemView {
        (self.function@, self.current, self.prev)
    }
}

pub open spec fn item_views(v: Seq<BreakdownItem>) -> Seq<ItemView> {
    Seq::new(v.len(), |i: int| v[i].spec_view())
}

/// `a` orders before `b` in `Option`'s order: `None` first.
pub open spec fn opt_lt(a: Option<u64>, b: Option<u64>) -> bool {
    match (a, b) {
        (None, Some(_)) => true,
        (Some(x), Some(y)) => x < y,
        _ => false,
    }
}

/// Item `a` has a smaller key `(current, prev)` than item `b`.
pub open spec fn key_lt(a: ItemView, b: ItemView) -> bool {
    a.1 < b.1 || (a.1 == b.1 && opt_lt(a.2, b.2))
}

/// Keys do not increase along `s`.
pub open spec fn sorted_desc(s: Seq<ItemView>) -> bool {
    forall|i: int, j: int| 0 <= i < j < s.len() ==> !key_lt(#[trigger] s[i], #[trigger] s[j])
}

/// Previous instructions of function `f`: none without a previous run, else its count there,
/// zero where it is absent.
pub open spec fn prev_count(prev: Option<BreakdownView>, f: FunctionKey) -> Option<u64> {
    match prev {
        None => None,
        Some(p) => Some(
            match lookup_function(p, f) {
                Some(s) => s.spec_total_instructions(),
                None => 0,
            },
        ),
    }
}

/// Notable functions among the first `n` of the current breakdown: those above the current
/// threshold now, or above the previous threshold before.
pub open spec fn current_items(
    cur: BreakdownView,
    prev: Option<BreakdownView>,
    current_threshold: u64,
    prev_threshold: u64,
    n: int,
) -> Seq<ItemView>
    decreases n,
{
    if n <= 0 {
        seq![]
    } else {
        let before = current_items(cur, prev, current_threshold, prev_threshold, n - 1);
        let e = cur[n - 1];
        let now = e.1.spec_total_instructions();
        let p = prev_count(prev, e.0);
        if now > current_threshold || (p is Some && p->0 > prev_threshold) {
            before.push((e.0, now, p))
        } else {
            before
        }
    }
}

/// Functions among the first `n` of the previous breakdown that were above the previous
/// threshold and are gone from the current one.
pub open spec fn gone_items(prev: BreakdownView, cur: BreakdownView, prev_threshold: u64, n: int) -> Seq<
    ItemView,
>
    decreases n,
{
    if n <= 0 {
        seq![]
    } else {
        let before = gone_items(prev, cur, prev_threshold, n - 1);
        let e = prev[n - 1];
        let then = e.1.spec_total_instructions();
        if then > prev_threshold && lookup_function(cur, e.0) is None {
            before.push((e.0, 0, Some(then)))
        } else {
            before
        }
    }
}

/// All items shown, before ordering.
pub open spec fn selected_items(
    cur: BreakdownView,
    prev: Option<BreakdownView>,
    current_threshold: u64,
    prev_threshold: u64,
) -> Seq<ItemView> {
    current_items(cur, prev, current_threshold, prev_threshold, cur.len() as int) + match prev {
        Some(p) => gone_items(p, cur, prev_threshold, p.len() as int),
        None => seq![],
    }
}

pub open spec fn opt_model(prev: Option<&CachegrindOutput>) -> Option<BreakdownView> {
    match prev {
        Some(p) => Some(p.breakdown_model()),
        None => None,
    }
}

/// Inserts `item` before the first item with a smaller key.
fn insert_sorted(items: &mut Vec<BreakdownItem>, item: BreakdownItem)
    requires
        sorted_desc(item_views(old(items)@)),
    ensures
        sorted_desc(item_views(final(items)@)),
        item_views(final(items)@).to_multiset() == item_views(old(items)@).to_multiset().insert(
            item.spec_view(),
        ),
{
    let ghost s = item_views(items@);
    let ghost e = item.spec_view();
    let mut p: usize = 0;
    let mut stop = false;
    while p < items.len() && !stop
        invariant
            p <= items.len(),
            s == item_views(items@),
            e == item.spec_view(),
            sorted_desc(s),
            forall|k: int| 0 <= k < p ==> !key_lt(#[trigger] s[k], e),
            stop ==> p < s.len() && key_lt(s[p as int], e),
        decreases items.len() - p + (if stop { 0int } else { 1int }),
    {
        assert(s[p as int] == items@[p as int].spec_view());
        let smaller = items[p].current < item.current || (items[p].current == item.current
            && match (items[p].prev, item.prev) {
            (None, Some(_)) => true,
            (Some(x), Some(y)) => x < y,
            _ => false,
        });
        if smaller {
            stop = true;
        } else {
            p = p + 1;
        }
    }
    assert(p < s.len() ==> key_lt(s[p as int], e));
    items.insert(p, item);
    let ghost t = item_views(items@);
    assert(t =~= s.insert(p as int, e));
    assert forall|i: int, j: int| 0 <= i < j < t.len() implies !key_lt(
        #[trigger] t[i],
        #[trigger] t[j],
    ) by {
        if j < p {
            assert(t[i] == s[i] && t[j] == s[j]);
        } else if j == p {
            assert(t[i] == s[i]);
        } else if i == p {
            assert(t[j] == s[j - 1]);
            assert(!key_lt(s[p as int], s[j - 1]) || j - 1 == p);
        } else if i < p {
            assert(t[i] == s[i] && t[j] == s[j - 1]);
        } else {
            assert(t[i] == s[i - 1] && t[j] == s[j - 1]);
        }
    }
    proof {
        vstd::seq_lib::to_multiset_insert(s, p as int, e);
    }
}

/// Items of a breakdown report, largest current instruction count first (ties broken by the
/// previous count). The thresholds are instruction counts: a function is notable when above
/// `current_threshold` now or above `prev_threshold` in the previous run.
pub fn breakdown_items(
    stats: &CachegrindOutput,
    prev: Option<&CachegrindOutput>,
    current_threshold: u64,
    prev_threshold: u64,
) -> (r: Vec<BreakdownItem>)
    ensures
        sorted_desc(item_views(r@)),
        item_views(r@).to_multiset() == selected_items(
            stats.breakdown_model(),
            opt_model(prev),
            current_threshold,
            prev_threshold,
        ).to_multiset(),
{
    let ghost cur = stats.breakdown_model();
    let ghost pm = opt_model(prev);
    let mut chosen: Vec<BreakdownItem> = Vec::new();
    let mut i: usize = 0;
    while i < stats.breakdown.len()
        invariant
            i <= stats.breakdown.len(),
            cur == stats.breakdown_model(),
            pm == opt_model(prev),
            item_views(chosen@) == current_items(cur, pm, current_threshold, prev_threshold, i as int),
        decreases stats.breakdown.len() - i,
    {
        let f = &stats.breakdown[i].0;
        let now = stats.breakdown[i].1.total_instructions();
        assert(cur[i as int] == (f@, stats.breakdown@[i as int].1));
        let p = match prev {
            None => None,
            Some(po) => Some(
                match po.get(f) {
                    Some(s) => s.total_instructions(),
                    None => 0,
                },
            ),
        };
        let notable = now > current_threshold || match p {
            Some(x) => x > prev_threshold,
            None => false,
        };
        if notable {
            let ghost before = item_views(chosen@);
            chosen.push(BreakdownItem { function: f.duplicate(), current: now, prev: p });
            assert(item_views(chosen@) =~= before.push((f@, now, p)));
        }
        i = i + 1;
    }
    let ghost first = item_views(chosen@);
    match prev {
        None => {},
        Some(po) => {
            let ghost pv = po.breakdown_model();
            let mut j: usize = 0;
            while j < po.breakdown.len()
                invariant
                    j <= po.breakdown.len(),
                    cur == stats.breakdown_model(),
                    pv == po.breakdown_model(),
                    item_views(chosen@) == first + gone_items(pv, cur, prev_threshold, j as int),
                decreases po.breakdown.len() - j,
            {
                let f = &po.breakdown[j].0;
                let then = po.breakdown[j].1.total_instructions();
                assert(pv[j as int] == (f@, po.breakdown@[j as int].1));
                if then > prev_threshold && stats.get(f).is_none() {
                    let ghost before = item_views(chosen@);
                    chosen.push(BreakdownItem { function: f.duplicate(), current: 0, prev: Some(then) });
                    assert(item_views(chosen@) =~= before.push((f@, 0, Some(then))));
                    assert(first + gone_items(pv, cur, prev_threshold, j + 1) =~= (first
                        + gone_items(pv, cur, prev_threshold, j as int)).push((f@, 0, Some(then))));
                }
                j = j + 1;
            }
        },
    }
    let ghost all = item_views(chosen@);
    assert(all =~= selected_items(cur, pm, current_threshold, prev_threshold));
    let mut out: Vec<BreakdownItem> = Vec::new();
    assert(item_views(out@) =~= Seq::<ItemView>::empty());
    let mut rest = chosen;
    while rest.len() > 0
        invariant
            sorted_desc(item_views(out@)),
            item_views(out@).to_multiset().add(item_views(rest@).to_multiset()) == all.to_multiset(),
        decreases rest.len(),
    {
        let ghost rv = item_views(rest@);
        let item = rest.pop().unwrap();
        let ghost ov = item_views(out@);
        assert(rv =~= item_views(rest@).push(item.spec_view()));
        insert_sorted(&mut out, item);
        assert(item_views(out@).to_multiset().add(item_views(rest@).to_multiset())
            =~= ov.to_multiset().add(rv.to_multiset()));
    }
    assert(item_views(rest@).to_multiset() =~= Multiset::<ItemView>::empty());
    assert(item_views(out@).to_multiset() =~= all.to_multiset());
    out
}

} // verus!
