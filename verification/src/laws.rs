//! The widget's general laws, stated and proved over the spec-level model in
//! [`crate::checkbox`].

use vstd::prelude::*;

verus! {

use vstd::arithmetic::div_mod::lemma_add_mod_noop;
use vstd::arithmetic::div_mod::lemma_mod_multiples_vanish;
use vstd::arithmetic::div_mod::lemma_small_mod;
use crate::checkbox::all_real_selected;
use crate::checkbox::move_down;
use crate::checkbox::selection_of;
use crate::checkbox::toggle_flags;

/// Pressing the space bar on any entry of a list with at least one real
/// entry leaves the "select all" flag equal to the conjunction of the real
/// entries' flags — whatever the flags were before. Since a fresh session
/// starts all false, every reachable selection vector obeys this rule.
pub proof fn lemma_toggle_restores_sync(flags: Seq<bool>, p: int)
    requires
        flags.len() >= 2,
        0 <= p < flags.len(),
    ensures
        toggle_flags(flags, p)[0] == all_real_selected(toggle_flags(flags, p)),
{
    let after = toggle_flags(flags, p);
    if p == 0 {
        if flags[0] {
            assert(!all_real_selected(after)) by {
                assert(!after[1]);
            }
        }
    } else {
        let flipped = flags.update(p, !flags[p]);
        assert(all_real_selected(after) == all_real_selected(flipped)) by {
            assert(forall|j: int| 1 <= j < after.len() ==> after[j] == flipped[j]);
        }
    }
}

/// Pressing the space bar on the "select all" entry is a bulk set: entry 0
/// flips, and afterwards every entry carries entry 0's new value, whatever
/// the individual flags were before.
pub proof fn lemma_toggle_all_fans_out(flags: Seq<bool>)
    requires
        flags.len() >= 1,
    ensures
        toggle_flags(flags, 0).len() == flags.len(),
        toggle_flags(flags, 0)[0] == !flags[0],
        forall|i: int|
            0 <= i < flags.len() ==> #[trigger] toggle_flags(flags, 0)[i] == !flags[0],
{
}

/// The cursor position after `k` consecutive down moves from `cursor` in a
/// list of `n` entries.
pub open spec fn down_times(cursor: int, n: int, k: nat) -> int
    decreases k,
{
    if k == 0 {
        cursor
    } else {
        move_down(down_times(cursor, n, (k - 1) as nat), n)
    }
}

proof fn lemma_down_times_mod(cursor: int, n: int, k: nat)
    requires
        n >= 1,
        0 <= cursor < n,
    ensures
        down_times(cursor, n, k) == (cursor + k) % n,
    decreases k,
{
    if k == 0 {
        lemma_small_mod(cursor as nat, n as nat);
    } else {
        lemma_down_times_mod(cursor, n, (k - 1) as nat);
        lemma_add_mod_noop(cursor + k - 1, 1, n as int);
        if n >= 2 {
            lemma_small_mod(1, n as nat);
        }
    }
}

/// Wraparound closure: from any cursor position, `n` consecutive down moves
/// lead back to the same position.
pub proof fn lemma_down_wraps(cursor: int, n: int)
    requires
        n >= 1,
        0 <= cursor < n,
    ensures
        down_times(cursor, n, n as nat) == cursor,
{
    lemma_down_times_mod(cursor, n, n as nat);
    lemma_mod_multiples_vanish(1, cursor, n);
    assert(n * 1 + cursor == cursor + n);
    lemma_small_mod(cursor as nat, n as nat);
}

/// The confirmed result lists exactly the selected real entries, renumbered
/// to the caller's labels: it is strictly ascending, and it contains an
/// index `k` exactly when entry `k + 1` of the widget is selected.
pub proof fn lemma_selection_exact(flags: Seq<bool>)
    ensures
        forall|a: int, b: int|
            0 <= a < b < selection_of(flags).len() ==> selection_of(flags)[a] < selection_of(
                flags,
            )[b],
        forall|k: int| #[trigger]
            selection_of(flags).contains(k) <==> (0 <= k < flags.len() - 1 && flags[k + 1]),
    decreases flags.len(),
{
    let s = selection_of(flags);
    if flags.len() <= 1 {
        assert(s.len() == 0);
    } else {
        let prefix = flags.drop_last();
        let sp = selection_of(prefix);
        lemma_selection_exact(prefix);
        assert forall|e: int| 0 <= e < sp.len() implies 0 <= #[trigger] sp[e] < prefix.len()
            - 1 by {
            assert(sp.contains(sp[e]));
        }
        assert forall|k: int| #[trigger]
            s.contains(k) implies (0 <= k < flags.len() - 1 && flags[k + 1]) by {
            let i = choose|i: int| 0 <= i < s.len() && s[i] == k;
            if i < sp.len() {
                assert(sp.contains(k)) by {
                    assert(sp[i] == k);
                }
                assert(prefix[k + 1] == flags[k + 1]);
            }
        }
        assert forall|k: int| (0 <= k < flags.len() - 1 && flags[k + 1]) implies #[trigger]
            s.contains(k) by {
            if k < flags.len() - 2 {
                assert(prefix[k + 1] == flags[k + 1]);
                assert(sp.contains(k));
                let i = choose|i: int| 0 <= i < sp.len() && sp[i] == k;
                assert(s[i] == k);
            } else {
                assert(flags.last());
                assert(s[s.len() - 1] == k);
            }
        }
    }
}

} // verus!
