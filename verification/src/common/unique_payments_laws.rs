//! What holds of the bag of payments: how each operation changes the
//! amount held of each asset, and how the operations undo and commute
//! with each other.

use vstd::prelude::*;

use crate::common::unique_payments::{
    lemma_add_to_is_bag, add_to, balance_of, deduct_all, deduct_from, find_asset, is_bag,
    lemma_find_asset, lemma_find_asset_is, merged, unique_assets, PaymentView,
};

verus! {

/// The amount of `p` if it is in the given asset, else nothing.
pub open spec fn amount_in(p: PaymentView, token_identifier: Seq<u8>, token_nonce: u64) -> nat {
    if p.is_asset(token_identifier, token_nonce) {
        p.amount
    } else {
        0
    }
}

/// What a list of payments holds of an asset changes with one entry by
/// the difference of the amounts, if the entry keeps its asset.
pub proof fn lemma_balance_update(
    s: Seq<PaymentView>,
    i: int,
    amount: nat,
    token_identifier: Seq<u8>,
    token_nonce: u64,
)
    requires
        0 <= i < s.len(),
    ensures
        balance_of(s.update(i, s[i].with_amount(amount)), token_identifier, token_nonce) + amount_in(
            s[i],
            token_identifier,
            token_nonce,
        ) == balance_of(s, token_identifier, token_nonce) + amount_in(
            s[i].with_amount(amount),
            token_identifier,
            token_nonce,
        ),
    decreases s.len(),
{
    let t = s.update(i, s[i].with_amount(amount));
    if i == s.len() - 1 {
        assert(t.drop_last() =~= s.drop_last());
    } else {
        assert(t.drop_last() =~= s.drop_last().update(i, s.drop_last()[i].with_amount(amount)));
        lemma_balance_update(s.drop_last(), i, amount, token_identifier, token_nonce);
    }
}

/// What a list of payments holds of an asset falls by the amount of an
/// entry that is removed.
pub proof fn lemma_balance_remove(s: Seq<PaymentView>, i: int, token_identifier: Seq<u8>, token_nonce: u64)
    requires
        0 <= i < s.len(),
    ensures
        balance_of(s.remove(i), token_identifier, token_nonce) + amount_in(
            s[i],
            token_identifier,
            token_nonce,
        ) == balance_of(s, token_identifier, token_nonce),
    decreases s.len(),
{
    let t = s.remove(i);
    if i == s.len() - 1 {
        assert(t =~= s.drop_last());
    } else {
        assert(t.drop_last() =~= s.drop_last().remove(i));
        assert(t.last() == s.last());
        lemma_balance_remove(s.drop_last(), i, token_identifier, token_nonce);
    }
}

/// A list without an entry in the asset holds nothing of it.
pub proof fn lemma_balance_absent(s: Seq<PaymentView>, token_identifier: Seq<u8>, token_nonce: u64)
    requires
        forall|j: int| 0 <= j < s.len() ==> !(#[trigger] s[j]).is_asset(token_identifier, token_nonce),
    ensures
        balance_of(s, token_identifier, token_nonce) == 0,
    decreases s.len(),
{
    if s.len() > 0 {
        assert forall|j: int| 0 <= j < s.drop_last().len() implies !(#[trigger] s.drop_last()[j]).is_asset(
            token_identifier,
            token_nonce,
        ) by {
            assert(s.drop_last()[j] == s[j]);
        }
        lemma_balance_absent(s.drop_last(), token_identifier, token_nonce);
        assert(!s[s.len() - 1].is_asset(token_identifier, token_nonce));
    }
}

/// A bag holds of an asset what its entry in that asset says, and
/// nothing if it has no such entry.
pub proof fn law_balance_is_entry(s: Seq<PaymentView>, token_identifier: Seq<u8>, token_nonce: u64)
    requires
        unique_assets(s),
    ensures
        balance_of(s, token_identifier, token_nonce) == if find_asset(s, token_identifier, token_nonce)
            < s.len() {
            s[find_asset(s, token_identifier, token_nonce)].amount
        } else {
            0
        },
{
    lemma_find_asset(s, token_identifier, token_nonce);
    let i = find_asset(s, token_identifier, token_nonce);
    if i < s.len() {
        let t = s.remove(i);
        assert forall|j: int| 0 <= j < t.len() implies !(#[trigger] t[j]).is_asset(
            token_identifier,
            token_nonce,
        ) by {
            let j0 = if j < i { j } else { j + 1 };
            assert(t[j] == s[j0]);
            if j0 < i {
                assert(!s[j0].can_merge_with(s[i]));
            } else {
                assert(!s[i].can_merge_with(s[j0]));
            }
        }
        lemma_balance_absent(t, token_identifier, token_nonce);
        lemma_balance_remove(s, i, token_identifier, token_nonce);
    } else {
        lemma_balance_absent(s, token_identifier, token_nonce);
    }
}

/// Adding a payment raises what is held of its asset by its amount, and
/// leaves every other asset as it was.
pub proof fn law_add_raises_balance(
    s: Seq<PaymentView>,
    p: PaymentView,
    token_identifier: Seq<u8>,
    token_nonce: u64,
)
    ensures
        balance_of(add_to(s, p), token_identifier, token_nonce) == balance_of(
            s,
            token_identifier,
            token_nonce,
        ) + amount_in(p, token_identifier, token_nonce),
{
    lemma_find_asset(s, p.token_identifier, p.token_nonce);
    let i = find_asset(s, p.token_identifier, p.token_nonce);
    if p.amount == 0 {
    } else if i < s.len() {
        lemma_balance_update(s, i, s[i].amount + p.amount, token_identifier, token_nonce);
    } else {
        assert(s.push(p).drop_last() =~= s);
    }
}

/// A deduction that succeeds lowers what is held of its asset by its
/// amount, and leaves every other asset as it was.
pub proof fn law_deduct_lowers_balance(
    s: Seq<PaymentView>,
    p: PaymentView,
    token_identifier: Seq<u8>,
    token_nonce: u64,
)
    requires
        deduct_from(s, p) is Some,
    ensures
        balance_of(deduct_from(s, p)->0, token_identifier, token_nonce) + amount_in(
            p,
            token_identifier,
            token_nonce,
        ) == balance_of(s, token_identifier, token_nonce),
{
    lemma_find_asset(s, p.token_identifier, p.token_nonce);
    let i = find_asset(s, p.token_identifier, p.token_nonce);
    if p.amount == 0 {
    } else if s[i].amount == p.amount {
        lemma_balance_remove(s, i, token_identifier, token_nonce);
    } else {
        lemma_balance_update(s, i, (s[i].amount - p.amount) as nat, token_identifier, token_nonce);
    }
}

/// A deduction from a bag fails exactly where the bag holds less of the
/// asset than is asked for.
pub proof fn law_deduct_fails_iff_short(s: Seq<PaymentView>, p: PaymentView)
    requires
        is_bag(s),
    ensures
        deduct_from(s, p) is None <==> balance_of(s, p.token_identifier, p.token_nonce) < p.amount,
{
    law_balance_is_entry(s, p.token_identifier, p.token_nonce);
    lemma_find_asset(s, p.token_identifier, p.token_nonce);
}

/// Merging keeps the invariant of a bag, whatever is merged in.
pub proof fn law_merge_keeps_bag(s: Seq<PaymentView>, other: Seq<PaymentView>)
    requires
        is_bag(s),
    ensures
        is_bag(merged(s, other)),
    decreases other.len(),
{
    if other.len() > 0 {
        law_merge_keeps_bag(s, other.drop_last());
        lemma_add_to_is_bag(merged(s, other.drop_last()), other.last());
    }
}

/// Merging raises what is held of each asset by what the other list
/// holds of it.
pub proof fn law_merge_adds_balances(
    s: Seq<PaymentView>,
    other: Seq<PaymentView>,
    token_identifier: Seq<u8>,
    token_nonce: u64,
)
    ensures
        balance_of(merged(s, other), token_identifier, token_nonce) == balance_of(
            s,
            token_identifier,
            token_nonce,
        ) + balance_of(other, token_identifier, token_nonce),
    decreases other.len(),
{
    if other.len() > 0 {
        law_merge_adds_balances(s, other.drop_last(), token_identifier, token_nonce);
        law_add_raises_balance(merged(s, other.drop_last()), other.last(), token_identifier, token_nonce);
    }
}

/// Merging is commutative: whichever bag is merged into the other, the
/// result holds the same of every asset.
pub proof fn law_merge_commutes(a: Seq<PaymentView>, b: Seq<PaymentView>)
    ensures
        forall|token_identifier: Seq<u8>, token_nonce: u64| #[trigger]
            balance_of(merged(a, b), token_identifier, token_nonce) == balance_of(
                merged(b, a),
                token_identifier,
                token_nonce,
            ),
{
    assert forall|token_identifier: Seq<u8>, token_nonce: u64| #[trigger]
        balance_of(merged(a, b), token_identifier, token_nonce) == balance_of(
            merged(b, a),
            token_identifier,
            token_nonce,
        ) by {
        law_merge_adds_balances(a, b, token_identifier, token_nonce);
        law_merge_adds_balances(b, a, token_identifier, token_nonce);
    }
}

/// Merging is associative: however three bags are merged, the result
/// holds the same of every asset.
pub proof fn law_merge_associates(a: Seq<PaymentView>, b: Seq<PaymentView>, c: Seq<PaymentView>)
    ensures
        forall|token_identifier: Seq<u8>, token_nonce: u64| #[trigger]
            balance_of(merged(merged(a, b), c), token_identifier, token_nonce) == balance_of(
                merged(a, merged(b, c)),
                token_identifier,
                token_nonce,
            ),
{
    assert forall|token_identifier: Seq<u8>, token_nonce: u64| #[trigger]
        balance_of(merged(merged(a, b), c), token_identifier, token_nonce) == balance_of(
            merged(a, merged(b, c)),
            token_identifier,
            token_nonce,
        ) by {
        law_merge_adds_balances(a, b, token_identifier, token_nonce);
        law_merge_adds_balances(merged(a, b), c, token_identifier, token_nonce);
        law_merge_adds_balances(b, c, token_identifier, token_nonce);
        law_merge_adds_balances(a, merged(b, c), token_identifier, token_nonce);
    }
}

/// Two bags that hold the same of every asset have the same entries,
/// though not always in the same order.
pub proof fn law_equal_balances_equal_entries(a: Seq<PaymentView>, b: Seq<PaymentView>)
    requires
        is_bag(a),
        is_bag(b),
        forall|token_identifier: Seq<u8>, token_nonce: u64| #[trigger]
            balance_of(a, token_identifier, token_nonce) == balance_of(b, token_identifier, token_nonce),
    ensures
        forall|i: int| 0 <= i < a.len() ==> b.contains(#[trigger] a[i]),
        forall|j: int| 0 <= j < b.len() ==> a.contains(#[trigger] b[j]),
{
    assert forall|i: int| 0 <= i < a.len() implies b.contains(#[trigger] a[i]) by {
        lemma_same_entry(a, b, i);
    }
    assert forall|j: int| 0 <= j < b.len() implies a.contains(#[trigger] b[j]) by {
        lemma_same_entry(b, a, j);
    }
}

/// The entries of a bag are all different.
pub proof fn lemma_bag_has_no_duplicates(s: Seq<PaymentView>)
    requires
        is_bag(s),
    ensures
        s.no_duplicates(),
{
    assert forall|i: int, j: int| 0 <= i < s.len() && 0 <= j < s.len() && i != j implies s[i] != s[j] by {
        if i < j {
            assert(!s[i].can_merge_with(s[j]));
        } else {
            assert(!s[j].can_merge_with(s[i]));
        }
    }
}

/// Merging is commutative up to the order of the entries: whichever bag
/// is merged into the other, the result has the same entries, and as
/// many.
pub proof fn law_merge_commutes_up_to_order(a: Seq<PaymentView>, b: Seq<PaymentView>)
    requires
        is_bag(a),
        is_bag(b),
    ensures
        merged(a, b).to_set() == merged(b, a).to_set(),
        merged(a, b).len() == merged(b, a).len(),
{
    let ab = merged(a, b);
    let ba = merged(b, a);
    law_merge_keeps_bag(a, b);
    law_merge_keeps_bag(b, a);
    law_merge_commutes(a, b);
    law_equal_balances_equal_entries(ab, ba);
    assert forall|p: PaymentView| ab.contains(p) <==> ba.contains(p) by {
        if ab.contains(p) {
            let i = choose|i: int| 0 <= i < ab.len() && ab[i] == p;
            assert(ba.contains(ab[i]));
        }
        if ba.contains(p) {
            let j = choose|j: int| 0 <= j < ba.len() && ba[j] == p;
            assert(ab.contains(ba[j]));
        }
    }
    assert(ab.to_set() =~= ba.to_set());
    lemma_bag_has_no_duplicates(ab);
    lemma_bag_has_no_duplicates(ba);
    ab.unique_seq_to_set();
    ba.unique_seq_to_set();
}

/// An entry of a bag is an entry of every bag that holds as much of the
/// asset of that entry.
pub proof fn lemma_same_entry(a: Seq<PaymentView>, b: Seq<PaymentView>, i: int)
    requires
        is_bag(a),
        is_bag(b),
        0 <= i < a.len(),
        balance_of(a, a[i].token_identifier, a[i].token_nonce) == balance_of(
            b,
            a[i].token_identifier,
            a[i].token_nonce,
        ),
    ensures
        b.contains(a[i]),
{
    let token_identifier = a[i].token_identifier;
    let token_nonce = a[i].token_nonce;
    law_balance_is_entry(a, token_identifier, token_nonce);
    law_balance_is_entry(b, token_identifier, token_nonce);
    lemma_find_asset(a, token_identifier, token_nonce);
    lemma_find_asset(b, token_identifier, token_nonce);
    let ia = find_asset(a, token_identifier, token_nonce);
    let ib = find_asset(b, token_identifier, token_nonce);
    if ia < i {
        assert(!a[ia].can_merge_with(a[i]));
    } else if ia > i {
        assert(!a[i].is_asset(token_identifier, token_nonce));
    }
    assert(ia == i);
    assert(a[i].amount > 0);
    assert(ib < b.len());
    assert(b[ib] == a[i]);
}

/// Merging the empty bag into a bag changes nothing.
pub proof fn law_merge_empty(s: Seq<PaymentView>)
    ensures
        merged(s, Seq::empty()) == s,
{
}

/// Merging a bag into the empty bag gives that bag.
pub proof fn law_merge_into_empty(other: Seq<PaymentView>)
    requires
        is_bag(other),
    ensures
        merged(Seq::empty(), other) == other,
    decreases other.len(),
{
    if other.len() > 0 {
        let init = other.drop_last();
        assert(is_bag(init)) by {
            assert forall|i: int, j: int| 0 <= i < j < init.len() implies !(#[trigger] init[i]).can_merge_with(
                #[trigger] init[j],
            ) by {
                assert(!other[i].can_merge_with(other[j]));
            }
            assert forall|i: int| 0 <= i < init.len() implies (#[trigger] init[i]).amount > 0 by {
                assert(other[i].amount > 0);
            }
        }
        law_merge_into_empty(init);
        let last = other.last();
        assert(other[other.len() - 1].amount > 0);
        assert forall|j: int| 0 <= j < init.len() implies !(#[trigger] init[j]).is_asset(
            last.token_identifier,
            last.token_nonce,
        ) by {
            assert(!other[j].can_merge_with(other[other.len() - 1]));
        }
        lemma_find_asset_is(init, last.token_identifier, last.token_nonce, init.len() as int);
        assert(init.push(last) =~= other);
    }
}

/// Deducting a payment right after adding it gives the bag back.
pub proof fn law_deduct_undoes_add(s: Seq<PaymentView>, p: PaymentView)
    requires
        is_bag(s),
    ensures
        deduct_from(add_to(s, p), p) == Some(s),
{
    lemma_find_asset(s, p.token_identifier, p.token_nonce);
    let i = find_asset(s, p.token_identifier, p.token_nonce);
    let t = add_to(s, p);
    if p.amount == 0 {
    } else if i < s.len() {
        assert forall|j: int| 0 <= j < i implies !(#[trigger] t[j]).is_asset(
            p.token_identifier,
            p.token_nonce,
        ) by {
            assert(!s[j].is_asset(p.token_identifier, p.token_nonce));
        }
        lemma_find_asset_is(t, p.token_identifier, p.token_nonce, i);
        assert(s[i].amount > 0);
        assert(t.update(i, t[i].with_amount((t[i].amount - p.amount) as nat)) =~= s);
    } else {
        assert forall|j: int| 0 <= j < s.len() implies !(#[trigger] t[j]).is_asset(
            p.token_identifier,
            p.token_nonce,
        ) by {
            assert(!s[j].is_asset(p.token_identifier, p.token_nonce));
        }
        lemma_find_asset_is(t, p.token_identifier, p.token_nonce, s.len() as int);
        assert(t.remove(s.len() as int) =~= s);
    }
}

/// Deducting two lists of payments one after the other is deducting them
/// as one list.
pub proof fn law_deduct_all_in_turn(s: Seq<PaymentView>, first: Seq<PaymentView>, second: Seq<PaymentView>)
    ensures
        deduct_all(s, first + second) == match deduct_all(s, first) {
            Some(rest) => deduct_all(rest, second),
            None => None,
        },
    decreases second.len(),
{
    if second.len() == 0 {
        assert(first + second =~= first);
    } else {
        law_deduct_all_in_turn(s, first, second.drop_last());
        assert((first + second).drop_last() =~= first + second.drop_last());
        assert((first + second).last() == second.last());
    }
}

/// Adding back what was deducted restores what is held of every asset:
/// a refund undoes a debit.
pub proof fn law_refund_restores_balances(
    s: Seq<PaymentView>,
    payments: Seq<PaymentView>,
    token_identifier: Seq<u8>,
    token_nonce: u64,
)
    requires
        deduct_all(s, payments) is Some,
    ensures
        balance_of(merged(deduct_all(s, payments)->0, payments), token_identifier, token_nonce)
            == balance_of(s, token_identifier, token_nonce),
{
    lemma_deduct_all_balance(s, payments, token_identifier, token_nonce);
    law_merge_adds_balances(deduct_all(s, payments)->0, payments, token_identifier, token_nonce);
}

/// Deductions that succeed lower what is held of each asset by what the
/// deducted payments hold of it.
pub proof fn lemma_deduct_all_balance(
    s: Seq<PaymentView>,
    payments: Seq<PaymentView>,
    token_identifier: Seq<u8>,
    token_nonce: u64,
)
    requires
        deduct_all(s, payments) is Some,
    ensures
        balance_of(deduct_all(s, payments)->0, token_identifier, token_nonce) + balance_of(
            payments,
            token_identifier,
            token_nonce,
        ) == balance_of(s, token_identifier, token_nonce),
    decreases payments.len(),
{
    if payments.len() > 0 {
        lemma_deduct_all_balance(s, payments.drop_last(), token_identifier, token_nonce);
        law_deduct_lowers_balance(
            deduct_all(s, payments.drop_last())->0,
            payments.last(),
            token_identifier,
            token_nonce,
        );
    }
}

} // verus!
