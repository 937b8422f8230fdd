//! Payments and the de-duplicating bag of payments that holds a balance.

use vstd::prelude::*;

use crate::amount::BigUint;
use crate::bytes::{bytes_clone, bytes_eq};

verus! {

/// An amount of one asset. An asset is named by its token identifier and nonce.
#[derive(Clone, Debug, PartialEq, Eq)]
pub struct EsdtTokenPayment {
    pub token_identifier: Vec<u8>,
    pub token_nonce: u64,
    pub amount: BigUint,
}

/// A list of payments, in which an asset may occur more than once.
pub type PaymentsVec = Vec<EsdtTokenPayment>;

/// What a payment says: the asset and how much of it.
pub struct PaymentView {
    pub token_identifier: Seq<u8>,
    pub token_nonce: u64,
    pub amount: nat,
}

impl View for EsdtTokenPayment {
    type V = PaymentView;

    open spec fn view(&self) -> PaymentView {
        PaymentView {
            token_identifier: self.token_identifier@,
            token_nonce: self.token_nonce,
            amount: self.amount@,
        }
    }
}

/// The views of a sequence of payments, in order.
pub open spec fn payments_view(payments: Seq<EsdtTokenPayment>) -> Seq<PaymentView> {
    payments.map_values(|p: EsdtTokenPayment| p@)
}

impl PaymentView {
    /// Whether this payment is in the asset `(token_identifier, token_nonce)`.
    pub open spec fn is_asset(self, token_identifier: Seq<u8>, token_nonce: u64) -> bool {
        self.token_identifier == token_identifier && self.token_nonce == token_nonce
    }

    /// Whether two payments are in the same asset, so that they can be merged.
    pub open spec fn can_merge_with(self, other: PaymentView) -> bool {
        self.is_asset(other.token_identifier, other.token_nonce)
    }

    /// The same asset with another amount.
    pub open spec fn with_amount(self, amount: nat) -> PaymentView {
        PaymentView { amount, ..self }
    }
}

/// The index of the first entry of `s` in the given asset, or `s.len()` if there is none.
pub open spec fn find_asset(s: Seq<PaymentView>, token_identifier: Seq<u8>, token_nonce: u64) -> int
    decreases s.len(),
{
    if s.len() == 0 {
        0
    } else if s[0].is_asset(token_identifier, token_nonce) {
        0
    } else {
        1 + find_asset(s.drop_first(), token_identifier, token_nonce)
    }
}

/// Each asset occurs at most once.
pub open spec fn unique_assets(s: Seq<PaymentView>) -> bool {
    forall|i: int, j: int| 0 <= i < j < s.len() ==> !(#[trigger] s[i]).can_merge_with(#[trigger] s[j])
}

/// No entry has amount zero.
pub open spec fn all_positive(s: Seq<PaymentView>) -> bool {
    forall|i: int| 0 <= i < s.len() ==> (#[trigger] s[i]).amount > 0
}

/// The invariant of a bag: each asset occurs at most once and no entry is empty.
pub open spec fn is_bag(s: Seq<PaymentView>) -> bool {
    unique_assets(s) && all_positive(s)
}

/// How much of an asset a sequence of payments holds in total.
pub open spec fn balance_of(s: Seq<PaymentView>, token_identifier: Seq<u8>, token_nonce: u64) -> nat
    decreases s.len(),
{
    if s.len() == 0 {
        0
    } else {
        balance_of(s.drop_last(), token_identifier, token_nonce) + if s.last().is_asset(
            token_identifier,
            token_nonce,
        ) {
            s.last().amount
        } else {
            0
        }
    }
}

/// The bag after a payment was added: a payment of zero changes nothing, a
/// payment in an asset that the bag holds raises that entry, and any other
/// payment becomes the last entry.
pub open spec fn add_to(s: Seq<PaymentView>, p: PaymentView) -> Seq<PaymentView> {
    let i = find_asset(s, p.token_identifier, p.token_nonce);
    if p.amount == 0 {
        s
    } else if i < s.len() {
        s.update(i, s[i].with_amount(s[i].amount + p.amount))
    } else {
        s.push(p)
    }
}

/// The bag after a payment was deducted, or `None` where the bag does not
/// hold enough of the asset. A payment of zero changes nothing; an entry
/// that reaches zero leaves the bag.
pub open spec fn deduct_from(s: Seq<PaymentView>, p: PaymentView) -> Option<Seq<PaymentView>> {
    let i = find_asset(s, p.token_identifier, p.token_nonce);
    if p.amount == 0 {
        Some(s)
    } else if i >= s.len() || s[i].amount < p.amount {
        None
    } else if s[i].amount == p.amount {
        Some(s.remove(i))
    } else {
        Some(s.update(i, s[i].with_amount((s[i].amount - p.amount) as nat)))
    }
}

/// The bag after each payment of `other` was added in turn.
pub open spec fn merged(s: Seq<PaymentView>, other: Seq<PaymentView>) -> Seq<PaymentView>
    decreases other.len(),
{
    if other.len() == 0 {
        s
    } else {
        add_to(merged(s, other.drop_last()), other.last())
    }
}

/// The bag after each payment of `payments` was deducted in turn, or `None`
/// where one of the deductions is not covered.
pub open spec fn deduct_all(s: Seq<PaymentView>, payments: Seq<PaymentView>) -> Option<Seq<PaymentView>>
    decreases payments.len(),
{
    if payments.len() == 0 {
        Some(s)
    } else {
        match deduct_all(s, payments.drop_last()) {
            Some(rest) => deduct_from(rest, payments.last()),
            None => None,
        }
    }
}

/// `find_asset` returns the first index of the asset.
pub proof fn lemma_find_asset(s: Seq<PaymentView>, token_identifier: Seq<u8>, token_nonce: u64)
    ensures
        0 <= find_asset(s, token_identifier, token_nonce) <= s.len(),
        find_asset(s, token_identifier, token_nonce) < s.len() ==> s[find_asset(
            s,
            token_identifier,
            token_nonce,
        )].is_asset(token_identifier, token_nonce),
        forall|j: int|
            0 <= j < find_asset(s, token_identifier, token_nonce) ==> !(#[trigger] s[j]).is_asset(
                token_identifier,
                token_nonce,
            ),
    decreases s.len(),
{
    if s.len() == 0 {
    } else if s[0].is_asset(token_identifier, token_nonce) {
    } else {
        let rest = s.drop_first();
        lemma_find_asset(rest, token_identifier, token_nonce);
        let k = find_asset(rest, token_identifier, token_nonce);
        assert forall|j: int| 0 <= j < 1 + k implies !(#[trigger] s[j]).is_asset(
            token_identifier,
            token_nonce,
        ) by {
            if j > 0 {
                assert(s[j] == rest[j - 1]);
            }
        }
        if k < rest.len() {
            assert(s[1 + k] == rest[k]);
        }
    }
}

/// An index that holds the asset, with none before it, is what `find_asset` returns.
pub proof fn lemma_find_asset_is(s: Seq<PaymentView>, token_identifier: Seq<u8>, token_nonce: u64, i: int)
    requires
        0 <= i <= s.len(),
        i < s.len() ==> s[i].is_asset(token_identifier, token_nonce),
        forall|j: int| 0 <= j < i ==> !(#[trigger] s[j]).is_asset(token_identifier, token_nonce),
    ensures
        find_asset(s, token_identifier, token_nonce) == i,
{
    lemma_find_asset(s, token_identifier, token_nonce);
    let k = find_asset(s, token_identifier, token_nonce);
    if k < i {
        assert(!s[k].is_asset(token_identifier, token_nonce));
    } else if k > i {
        assert(!s[i].is_asset(token_identifier, token_nonce));
    }
}

/// Adding a payment keeps the invariant of a bag.
pub proof fn lemma_add_to_is_bag(s: Seq<PaymentView>, p: PaymentView)
    requires
        is_bag(s),
    ensures
        is_bag(add_to(s, p)),
{
    lemma_find_asset(s, p.token_identifier, p.token_nonce);
    let i = find_asset(s, p.token_identifier, p.token_nonce);
    let t = add_to(s, p);
    if p.amount == 0 {
    } else if i < s.len() {
        assert forall|a: int, b: int| 0 <= a < b < t.len() implies !(#[trigger] t[a]).can_merge_with(
            #[trigger] t[b],
        ) by {
            assert(!s[a].can_merge_with(s[b]));
        }
        assert forall|a: int| 0 <= a < t.len() implies (#[trigger] t[a]).amount > 0 by {
            assert(s[a].amount > 0);
        }
    } else {
        assert forall|a: int, b: int| 0 <= a < b < t.len() implies !(#[trigger] t[a]).can_merge_with(
            #[trigger] t[b],
        ) by {
            if b < s.len() {
                assert(!s[a].can_merge_with(s[b]));
            } else {
                assert(!s[a].is_asset(p.token_identifier, p.token_nonce));
            }
        }
        assert forall|a: int| 0 <= a < t.len() implies (#[trigger] t[a]).amount > 0 by {
            if a < s.len() {
                assert(s[a].amount > 0);
            }
        }
    }
}

/// Deducting a payment keeps the invariant of a bag.
pub proof fn lemma_deduct_from_is_bag(s: Seq<PaymentView>, p: PaymentView)
    requires
        is_bag(s),
        deduct_from(s, p) is Some,
    ensures
        is_bag(deduct_from(s, p)->0),
{
    lemma_find_asset(s, p.token_identifier, p.token_nonce);
    let i = find_asset(s, p.token_identifier, p.token_nonce);
    let t = deduct_from(s, p)->0;
    if p.amount == 0 {
    } else if s[i].amount == p.amount {
        assert forall|a: int, b: int| 0 <= a < b < t.len() implies !(#[trigger] t[a]).can_merge_with(
            #[trigger] t[b],
        ) by {
            let a0 = if a < i { a } else { a + 1 };
            let b0 = if b < i { b } else { b + 1 };
            assert(!s[a0].can_merge_with(s[b0]));
        }
        assert forall|a: int| 0 <= a < t.len() implies (#[trigger] t[a]).amount > 0 by {
            let a0 = if a < i { a } else { a + 1 };
            assert(s[a0].amount > 0);
        }
    } else {
        assert forall|a: int, b: int| 0 <= a < b < t.len() implies !(#[trigger] t[a]).can_merge_with(
            #[trigger] t[b],
        ) by {
            assert(!s[a].can_merge_with(s[b]));
        }
        assert forall|a: int| 0 <= a < t.len() implies (#[trigger] t[a]).amount > 0 by {
            assert(s[a].amount > 0);
        }
    }
}

/// A copy of a payment.
pub fn clone_payment(payment: &EsdtTokenPayment) -> (r: EsdtTokenPayment)
    ensures
        r@ == payment@,
{
    EsdtTokenPayment {
        token_identifier: bytes_clone(&payment.token_identifier),
        token_nonce: payment.token_nonce,
        amount: payment.amount.duplicate(),
    }
}

/// A copy of a list of payments.
pub fn clone_payments(payments: &Vec<EsdtTokenPayment>) -> (r: Vec<EsdtTokenPayment>)
    ensures
        payments_view(r@) == payments_view(payments@),
{
    let mut r: Vec<EsdtTokenPayment> = Vec::new();
    let mut i: usize = 0;
    while i < payments.len()
        invariant
            i <= payments@.len(),
            r@.len() == i,
            forall|j: int| 0 <= j < i ==> r@[j]@ == payments@[j]@,
        decreases payments@.len() - i,
    {
        r.push(clone_payment(&payments[i]));
        i += 1;
    }
    assert(payments_view(r@) =~= payments_view(payments@));
    r
}

impl EsdtTokenPayment {
    /// The payment of `amount` in the asset `(token_identifier, token_nonce)`.
    pub fn new(token_identifier: Vec<u8>, token_nonce: u64, amount: BigUint) -> (r: Self)
        ensures
            r.token_identifier == token_identifier,
            r.token_nonce == token_nonce,
            r.amount == amount,
    {
        EsdtTokenPayment { token_identifier, token_nonce, amount }
    }

    /// Whether two payments are in the same asset.
    pub fn can_merge_with(&self, other: &EsdtTokenPayment) -> (r: bool)
        ensures
            r == self@.can_merge_with(other@),
    {
        self.token_nonce == other.token_nonce && bytes_eq(
            &self.token_identifier,
            &other.token_identifier,
        )
    }
}

/// A balance: payments in which each asset occurs at most once and no entry
/// is empty.
#[derive(Clone, Debug, PartialEq, Eq)]
pub struct UniquePayments {
    payments: Vec<EsdtTokenPayment>,
}

impl View for UniquePayments {
    type V = Seq<PaymentView>;

    closed spec fn view(&self) -> Seq<PaymentView> {
        payments_view(self.payments@)
    }
}

impl UniquePayments {
    /// The invariant: the entries form a bag.
    pub open spec fn wf(&self) -> bool {
        is_bag(self@)
    }

    /// The empty balance.
    pub fn new() -> (r: Self)
        ensures
            r.wf(),
            r@ == Seq::<PaymentView>::empty(),
    {
        let r = UniquePayments { payments: Vec::new() };
        assert(r@ =~= Seq::<PaymentView>::empty());
        r
    }

    /// Takes over payments that already form a bag.
    pub fn new_from_unique_payments(payments: Vec<EsdtTokenPayment>) -> (r: Self)
        requires
            is_bag(payments_view(payments@)),
        ensures
            r.wf(),
            r@ == payments_view(payments@),
    {
        UniquePayments { payments }
    }

    /// The balance that holds the given payments, equal assets added up.
    pub fn new_from_payments(payments: Vec<EsdtTokenPayment>) -> (r: Self)
        ensures
            r.wf(),
            r@ == merged(Seq::empty(), payments_view(payments@)),
    {
        let mut merged_payments = Self::new();
        merged_payments.add_payments(&payments);
        merged_payments
    }

    /// The index of the entry in the given asset, or the number of entries
    /// if there is none.
    fn position(&self, token_identifier: &Vec<u8>, token_nonce: u64) -> (i: usize)
        ensures
            i == find_asset(self@, token_identifier@, token_nonce),
            i <= self@.len(),
            self@.len() == self.payments@.len(),
    {
        let mut i: usize = 0;
        while i < self.payments.len()
            invariant
                i <= self.payments@.len(),
                self@.len() == self.payments@.len(),
                forall|j: int| 0 <= j < i ==> !(#[trigger] self@[j]).is_asset(token_identifier@, token_nonce),
            decreases self.payments@.len() - i,
        {
            if self.payments[i].token_nonce == token_nonce && bytes_eq(
                &self.payments[i].token_identifier,
                token_identifier,
            ) {
                proof {
                    lemma_find_asset_is(self@, token_identifier@, token_nonce, i as int);
                }
                return i;
            }
            i += 1;
        }
        proof {
            lemma_find_asset_is(self@, token_identifier@, token_nonce, i as int);
        }
        i
    }

    /// Adds a payment to the balance.
    pub fn add_payment(&mut self, new_payment: EsdtTokenPayment)
        requires
            old(self).wf(),
        ensures
            final(self).wf(),
            final(self)@ == add_to(old(self)@, new_payment@),
    {
        proof {
            lemma_add_to_is_bag(self@, new_payment@);
            lemma_find_asset(self@, new_payment@.token_identifier, new_payment@.token_nonce);
        }
        if new_payment.amount.is_zero() {
            return;
        }
        let i = self.position(&new_payment.token_identifier, new_payment.token_nonce);
        if i < self.payments.len() {
            let raised = EsdtTokenPayment {
                token_identifier: new_payment.token_identifier,
                token_nonce: new_payment.token_nonce,
                amount: self.payments[i].amount.plus(&new_payment.amount),
            };
            self.payments.set(i, raised);
            assert(self@ =~= add_to(old(self)@, new_payment@));
        } else {
            self.payments.push(new_payment);
            assert(self@ =~= add_to(old(self)@, new_payment@));
        }
    }

    /// Deducts a payment from the balance, or fails and leaves the balance
    /// as it was where it does not hold enough of the asset.
    pub fn deduct_payment(&mut self, payment: &EsdtTokenPayment) -> (r: Result<(), ()>)
        requires
            old(self).wf(),
        ensures
            final(self).wf(),
            match deduct_from(old(self)@, payment@) {
                Some(rest) => r is Ok && final(self)@ == rest,
                None => r is Err && final(self)@ == old(self)@,
            },
    {
        proof {
            lemma_find_asset(self@, payment@.token_identifier, payment@.token_nonce);
            if deduct_from(self@, payment@) is Some {
                lemma_deduct_from_is_bag(self@, payment@);
            }
        }
        if payment.amount.is_zero() {
            return Ok(());
        }
        let i = self.position(&payment.token_identifier, payment.token_nonce);
        if i >= self.payments.len() {
            return Err(());
        }
        if self.payments[i].amount.less_than(&payment.amount) {
            return Err(());
        }
        let left = self.payments[i].amount.minus(&payment.amount);
        if left.is_zero() {
            let _ = self.payments.remove(i);
            assert(self@ =~= old(self)@.remove(i as int));
        } else {
            let lowered = EsdtTokenPayment {
                token_identifier: bytes_clone(&payment.token_identifier),
                token_nonce: payment.token_nonce,
                amount: left,
            };
            self.payments.set(i, lowered);
            assert(self@ =~= deduct_from(old(self)@, payment@)->0);
        }
        Ok(())
    }

    /// Adds each of the payments to the balance, in order.
    pub fn add_payments(&mut self, payments: &PaymentsVec)
        requires
            old(self).wf(),
        ensures
            final(self).wf(),
            final(self)@ == merged(old(self)@, payments_view(payments@)),
    {
        let ghost all = payments_view(payments@);
        let mut i: usize = 0;
        while i < payments.len()
            invariant
                i <= payments@.len(),
                all == payments_view(payments@),
                self.wf(),
                self@ == merged(old(self)@, all.take(i as int)),
            decreases payments@.len() - i,
        {
            assert(all.take(i + 1).drop_last() =~= all.take(i as int));
            self.add_payment(clone_payment(&payments[i]));
            i += 1;
        }
        assert(all.take(all.len() as int) =~= all);
    }

    /// Adds every entry of another balance to this one.
    pub fn merge_with(&mut self, other: Self)
        requires
            old(self).wf(),
        ensures
            final(self).wf(),
            final(self)@ == merged(old(self)@, other@),
    {
        self.add_payments(&other.payments);
    }

    /// Whether the entries form a bag. A balance that was made and
    /// changed by the functions of this type always does.
    pub fn is_well_formed(&self) -> (r: bool)
        ensures
            r == self.wf(),
    {
        let mut j: usize = 0;
        while j < self.payments.len()
            invariant
                j <= self.payments@.len(),
                self@.len() == self.payments@.len(),
                forall|a: int| 0 <= a < j ==> (#[trigger] self@[a]).amount > 0,
                forall|a: int, b: int|
                    0 <= a < b < j ==> !(#[trigger] self@[a]).can_merge_with(#[trigger] self@[b]),
            decreases self.payments@.len() - j,
        {
            if self.payments[j].amount.is_zero() {
                assert(self@[j as int].amount == 0);
                return false;
            }
            let mut i: usize = 0;
            while i < j
                invariant
                    i <= j < self.payments@.len(),
                    self@.len() == self.payments@.len(),
                    forall|a: int| 0 <= a < i ==> !(#[trigger] self@[a]).can_merge_with(self@[j as int]),
                decreases j - i,
            {
                if self.payments[i].can_merge_with(&self.payments[j]) {
                    assert(self@[i as int].can_merge_with(self@[j as int]));
                    return false;
                }
                i += 1;
            }
            j += 1;
        }
        true
    }

    /// Whether the balance holds nothing.
    pub fn is_empty(&self) -> (r: bool)
        ensures
            r == (self@.len() == 0),
    {
        self.payments.len() == 0
    }

    /// A copy of the balance.
    pub fn duplicate(&self) -> (r: Self)
        ensures
            r@ == self@,
    {
        UniquePayments { payments: clone_payments(&self.payments) }
    }

    /// The entries of the balance, in order.
    pub fn into_payments(self) -> (r: Vec<EsdtTokenPayment>)
        ensures
            payments_view(r@) == self@,
    {
        self.payments
    }
}

} // verus!
