//! User balances: per user, per asset, what is available, locked in resting
//! orders, and reserved for orders on their way to a market.
use vstd::prelude::*;
use crate::amount::{Dec, dadd_ok, dec_add, dec_sub, dec_valid, dsub_ok, lemma_dadd, lemma_dsub, radd, rsub, val, valid};
use crate::matching::{BalanceOps, EngineFault, OpView, UpdateBalance, UpdateView, op_view};
use crate::strmap::StrMap;
use crate::types::UserBalance;

verus! {

/// All users' balances: user id, then asset name, to balance.
#[derive(Debug)]
pub struct Balances {
    users: StrMap<StrMap<UserBalance>>,
}

/// Every field of a balance is a `Decimal`.
pub open spec fn balance_ok(b: UserBalance) -> bool {
    valid(b.available_balance) && valid(b.locked_balance) && valid(b.reserve_balance)
}

/// Every balance of a user's map is a `Decimal` value.
pub open spec fn balances_ok(m: Map<Seq<char>, UserBalance>) -> bool {
    forall|a: Seq<char>| #[trigger] m.contains_key(a) ==> balance_ok(m[a])
}

impl View for Balances {
    type V = Map<Seq<char>, Map<Seq<char>, UserBalance>>;

    closed spec fn view(&self) -> Map<Seq<char>, Map<Seq<char>, UserBalance>> {
        Map::new(|u: Seq<char>| self.users.map().contains_key(u), |u: Seq<char>| self.users.map()[u].map())
    }
}

impl Balances {
    /// The maps are sound and every balance is a `Decimal` value.
    #[verifier::type_invariant]
    spec fn wf(&self) -> bool {
        &&& self.users.wf()
        &&& forall|i: int| 0 <= i < self.users.vals@.len() ==> (#[trigger] self.users.vals@[i]).wf()
        &&& forall|u: Seq<char>, a: Seq<char>|
            #[trigger] self@.contains_key(u) && self@[u].contains_key(a) ==> balance_ok(#[trigger] self@[u][a])
    }

    /// Every balance held is a `Decimal` value.
    proof fn lemma_balances_ok(&self)
        requires
            self.wf(),
        ensures
            forall|u: Seq<char>| #[trigger] self@.contains_key(u) ==> balances_ok(self@[u]),
    {
        assert forall|u: Seq<char>| #[trigger] self@.contains_key(u) implies balances_ok(self@[u]) by {
            assert forall|a: Seq<char>| #[trigger] self@[u].contains_key(a) implies balance_ok(self@[u][a]) by {
                assert(self@.contains_key(u) && self@[u].contains_key(a));
            }
        }
    }

    /// No user has a balance yet.
    pub fn new() -> (b: Balances)
        ensures
            b@ == Map::<Seq<char>, Map<Seq<char>, UserBalance>>::empty(),
    {
        let b = Balances { users: StrMap::new() };
        assert(b@ =~= Map::<Seq<char>, Map<Seq<char>, UserBalance>>::empty());
        b
    }

    /// The balances of one user, if it has any.
    pub fn user(&self, user: &String) -> (r: Option<&StrMap<UserBalance>>)
        ensures
            r is Some <==> self@.contains_key(user@),
            r matches Some(m) ==> m.wf() && m.map() == self@[user@] && balances_ok(m.map()),
    {
        proof {
            use_type_invariant(self);
            self.lemma_balances_ok();
        }
        match self.users.index_of(user) {
            Some(i) => {
                proof {
                    self.users.lemma_at(i as int);
                    assert(self.users.vals@[i as int].wf());
                    assert(self@.contains_key(user@));
                    assert(self@[user@] == self.users.vals@[i as int].map());
                }
                Some(&self.users.vals[i])
            },
            None => None,
        }
    }

    /// One user's balance of one asset, if it has one.
    pub fn account(&self, user: &String, asset: &String) -> (r: Option<UserBalance>)
        ensures
            r is Some <==> self@.contains_key(user@) && self@[user@].contains_key(asset@),
            r matches Some(b) ==> b == self@[user@][asset@] && balance_ok(b),
    {
        match self.user(user) {
            Some(m) => match m.get(asset) {
                Some(b) => Some(*b),
                None => None,
            },
            None => None,
        }
    }

    /// Sets the balances of one user.
    pub fn set_user(&mut self, user: String, m: StrMap<UserBalance>)
        requires
            m.wf(),
            balances_ok(m.map()),
        ensures
            final(self)@ == old(self)@.insert(user@, m.map()),
    {
        proof {
            use_type_invariant(&*self);
        }
        let ghost u = user@;
        let ghost mm = m.map();
        let ghost b0 = self@;
        let mut users: StrMap<StrMap<UserBalance>> = StrMap::new();
        std::mem::swap(&mut users, &mut self.users);
        let ghost old_users = users;
        proof {
            assert forall|i: int| 0 <= i < old_users.vals@.len() implies (#[trigger] old_users.vals@[i]).wf() by {}
        }
        match users.index_of(&user) {
            Some(i) => {
                users.set_at(i, m);
            },
            None => {
                users.insert(user, m);
            },
        }
        let ghost nb = Balances { users };
        proof {
            assert forall|i: int| 0 <= i < users.vals@.len() implies (#[trigger] users.vals@[i]).wf() by {
                users.lemma_at(i);
                let k = users.keys@[i]@;
                if k != u {
                    assert(old_users.map().contains_key(k));
                    let j = choose|j: int| 0 <= j < old_users.keys@.len() && (#[trigger] old_users.keys@[j])@ == k;
                    old_users.lemma_at(j);
                }
            }
            assert(nb@ =~= b0.insert(u, mm));
            assert forall|v: Seq<char>, a: Seq<char>| #[trigger] nb@.contains_key(v) && nb@[v].contains_key(a)
                implies balance_ok(#[trigger] nb@[v][a]) by {
                if v != u {
                    assert(b0.contains_key(v) && b0[v].contains_key(a));
                }
            }
        }
        self.users = users;
        assert(self@ =~= b0.insert(u, mm));
    }

    /// Sets one user's balance of one asset; the user must have balances.
    pub fn set_account(&mut self, user: &String, asset: &String, b: UserBalance)
        requires
            old(self)@.contains_key(user@),
            balance_ok(b),
        ensures
            final(self)@ == old(self)@.insert(user@, old(self)@[user@].insert(asset@, b)),
    {
        let mm = match self.user(user) {
            Some(m0) => {
                let mut m = m0.duplicate();
                m.insert(asset.clone(), b);
                m
            },
            None => {
                return;
            },
        };
        proof {
            use_type_invariant(&*self);
            self.lemma_balances_ok();
            assert(mm.map() == old(self)@[user@].insert(asset@, b));
            assert forall|a: Seq<char>| #[trigger] mm.map().contains_key(a) implies balance_ok(mm.map()[a]) by {
                if a != asset@ {
                    assert(old(self)@[user@].contains_key(a));
                }
            }
        }
        self.set_user(user.clone(), mm);
    }
}

/// A balance field after a change, as `Decimal` computes it (rounded where
/// `Decimal` rounds).
pub open spec fn apply_op(v: Dec, o: Option<OpView>) -> Dec {
    match o {
        Some(OpView::Increase(d)) => radd(v, d).unwrap(),
        Some(OpView::Decrease(d)) => rsub(v, d).unwrap(),
        None => v,
    }
}

/// A change's amount is a `Decimal` and `Decimal` applies it without
/// overflow.
pub open spec fn op_fits(v: Dec, o: Option<OpView>) -> bool {
    match o {
        Some(OpView::Increase(d)) => valid(d) && radd(v, d) is Some,
        Some(OpView::Decrease(d)) => valid(d) && rsub(v, d) is Some,
        None => true,
    }
}

/// `Decimal` applies a change at the larger scale, without rounding.
pub open spec fn op_exact(v: Dec, o: Option<OpView>) -> bool {
    match o {
        Some(OpView::Increase(d)) => dadd_ok(v, d),
        Some(OpView::Decrease(d)) => dsub_ok(v, d),
        None => true,
    }
}

/// A field after a change, as `Decimal` computes it.
fn field_after(v: Dec, o: Option<BalanceOps>) -> (r: Option<Dec>)
    requires
        valid(v),
    ensures
        r is Some <==> op_fits(v, op_view(o)),
        r matches Some(x) ==> x == apply_op(v, op_view(o)) && valid(x),
{
    match o {
        Some(BalanceOps::Increase(d)) => if dec_valid(d) {
            proof {
                crate::amount::lemma_rounded_valid(v, d);
            }
            dec_add(v, d)
        } else {
            None
        },
        Some(BalanceOps::Decrease(d)) => if dec_valid(d) {
            proof {
                crate::amount::lemma_rounded_valid(v, d);
            }
            dec_sub(v, d)
        } else {
            None
        },
        None => Some(v),
    }
}

/// Whether a balance change applies: the account exists and `Decimal`
/// applies every field change without overflow.
pub open spec fn update_applies(bal: Map<Seq<char>, Map<Seq<char>, UserBalance>>, u: UpdateView) -> bool {
    &&& bal.contains_key(u.user_id)
    &&& bal[u.user_id].contains_key(u.asset)
    &&& op_fits(bal[u.user_id][u.asset].available_balance, u.available)
    &&& op_fits(bal[u.user_id][u.asset].locked_balance, u.locked)
    &&& op_fits(bal[u.user_id][u.asset].reserve_balance, u.reserved)
}

/// A balance after a change: each field changed as the change says.
pub open spec fn applied(b: UserBalance, u: UpdateView) -> UserBalance {
    UserBalance {
        available_balance: apply_op(b.available_balance, u.available),
        locked_balance: apply_op(b.locked_balance, u.locked),
        reserve_balance: apply_op(b.reserve_balance, u.reserved),
    }
}

/// All balances after a change.
pub open spec fn spec_apply_update(
    bal: Map<Seq<char>, Map<Seq<char>, UserBalance>>,
    u: UpdateView,
) -> Map<Seq<char>, Map<Seq<char>, UserBalance>> {
    bal.insert(u.user_id, bal[u.user_id].insert(u.asset, applied(bal[u.user_id][u.asset], u)))
}

/// Applies a balance change to one user's balance of one asset. Fails,
/// changing nothing, where the user or the asset has no balance
/// (`UnknownAccount`) or a field change overflows `Decimal`
/// (`Unprocessable`).
pub fn update_user_balance(balance: &mut Balances, req: &UpdateBalance) -> (r: Result<(), EngineFault>)
    ensures
        r is Ok <==> update_applies(old(balance)@, req@),
        r is Ok ==> final(balance)@ == spec_apply_update(old(balance)@, req@),
        r is Err ==> final(balance)@ == old(balance)@,
        r matches Err(e) ==> (e == EngineFault::UnknownAccount <==> !(old(balance)@.contains_key(req@.user_id)
            && old(balance)@[req@.user_id].contains_key(req@.asset))),
{
    let b = match balance.account(&req.user_id, &req.asset) {
        Some(b) => b,
        None => {
            return Err(EngineFault::UnknownAccount);
        },
    };
    let available_balance = match field_after(b.available_balance, req.available_balance) {
        Some(x) => x,
        None => {
            return Err(EngineFault::Unprocessable);
        },
    };
    let locked_balance = match field_after(b.locked_balance, req.locked_balance) {
        Some(x) => x,
        None => {
            return Err(EngineFault::Unprocessable);
        },
    };
    let reserve_balance = match field_after(b.reserve_balance, req.reserved_balance) {
        Some(x) => x,
        None => {
            return Err(EngineFault::Unprocessable);
        },
    };
    let nb = UserBalance { available_balance, locked_balance, reserve_balance };
    balance.set_account(&req.user_id, &req.asset, nb);
    Ok(())
}

} // verus!

verus! {

/// What a user holds of an asset, available, locked and reserved together
/// (in units of 10^-28).
pub open spec fn holding(b: UserBalance) -> int {
    val(b.available_balance) + val(b.locked_balance) + val(b.reserve_balance)
}

/// The change that undoes a change: every increase a decrease by as much,
/// and the reverse.
pub open spec fn inverse_op(o: Option<OpView>) -> Option<OpView> {
    match o {
        Some(OpView::Increase(d)) => Some(OpView::Decrease(d)),
        Some(OpView::Decrease(d)) => Some(OpView::Increase(d)),
        None => None,
    }
}

/// The balance change that undoes `u`.
pub open spec fn inverse_update(u: UpdateView) -> UpdateView {
    UpdateView {
        user_id: u.user_id,
        asset: u.asset,
        available: inverse_op(u.available),
        locked: inverse_op(u.locked),
        reserved: inverse_op(u.reserved),
    }
}

/// Whether `Decimal` applies every field change of `u` without rounding.
pub open spec fn update_exact(bal: Map<Seq<char>, Map<Seq<char>, UserBalance>>, u: UpdateView) -> bool {
    &&& op_exact(bal[u.user_id][u.asset].available_balance, u.available)
    &&& op_exact(bal[u.user_id][u.asset].locked_balance, u.locked)
    &&& op_exact(bal[u.user_id][u.asset].reserve_balance, u.reserved)
}

/// The value a field change adds, where `Decimal` does not round it.
proof fn lemma_apply_op(v: Dec, o: Option<OpView>)
    requires
        valid(v),
        op_fits(v, o),
        op_exact(v, o),
    ensures
        valid(apply_op(v, o)),
        val(apply_op(v, o)) == val(v) + crate::match_laws::op_delta(o),
{
    match o {
        Some(OpView::Increase(d)) => lemma_dadd(v, d),
        Some(OpView::Decrease(d)) => lemma_dsub(v, d),
        None => {},
    }
}

/// A balance change that `Decimal` does not round changes the holding of its
/// account by its net amount (the sum of its field changes); it leaves every
/// other account as it was.
pub proof fn law_update_changes_holding(bal: Map<Seq<char>, Map<Seq<char>, UserBalance>>, u: UpdateView)
    requires
        update_applies(bal, u),
        update_exact(bal, u),
        balance_ok(bal[u.user_id][u.asset]),
    ensures
        holding(spec_apply_update(bal, u)[u.user_id][u.asset]) == holding(bal[u.user_id][u.asset])
            + crate::match_laws::op_delta(u.available) + crate::match_laws::op_delta(u.locked)
            + crate::match_laws::op_delta(u.reserved),
        balance_ok(spec_apply_update(bal, u)[u.user_id][u.asset]),
        forall|v: Seq<char>, a: Seq<char>|
            (v != u.user_id || a != u.asset) && bal.contains_key(v) && bal[v].contains_key(a) ==> (
            #[trigger] spec_apply_update(bal, u)[v][a]) == bal[v][a],
{
    let b = bal[u.user_id][u.asset];
    lemma_apply_op(b.available_balance, u.available);
    lemma_apply_op(b.locked_balance, u.locked);
    lemma_apply_op(b.reserve_balance, u.reserved);
}

/// One change undoes another: where `Decimal` applies a change and then its
/// inverse without rounding, every field of the account gets back its value,
/// and every other account is as it was.
pub proof fn law_update_inverse_restores(bal: Map<Seq<char>, Map<Seq<char>, UserBalance>>, u: UpdateView)
    requires
        update_applies(bal, u),
        update_exact(bal, u),
        balance_ok(bal[u.user_id][u.asset]),
        update_applies(spec_apply_update(bal, u), inverse_update(u)),
        update_exact(spec_apply_update(bal, u), inverse_update(u)),
    ensures
        ({
            let b = bal[u.user_id][u.asset];
            let b2 = spec_apply_update(spec_apply_update(bal, u), inverse_update(u))[u.user_id][u.asset];
            &&& val(b2.available_balance) == val(b.available_balance)
            &&& val(b2.locked_balance) == val(b.locked_balance)
            &&& val(b2.reserve_balance) == val(b.reserve_balance)
        }),
        forall|v: Seq<char>, a: Seq<char>|
            (v != u.user_id || a != u.asset) && bal.contains_key(v) && bal[v].contains_key(a) ==> (
            #[trigger] spec_apply_update(spec_apply_update(bal, u), inverse_update(u))[v][a]) == bal[v][a],
{
    let b = bal[u.user_id][u.asset];
    let bal1 = spec_apply_update(bal, u);
    let b1 = bal1[u.user_id][u.asset];
    lemma_apply_op(b.available_balance, u.available);
    lemma_apply_op(b.locked_balance, u.locked);
    lemma_apply_op(b.reserve_balance, u.reserved);
    lemma_apply_op(b1.available_balance, inverse_op(u.available));
    lemma_apply_op(b1.locked_balance, inverse_op(u.locked));
    lemma_apply_op(b1.reserve_balance, inverse_op(u.reserved));
}

} // verus!

verus! {

/// Two balance changes to different accounts commute: each still applies
/// after the other, and in either order they leave the same balances.
pub proof fn law_updates_commute(bal: Map<Seq<char>, Map<Seq<char>, UserBalance>>, u1: UpdateView, u2: UpdateView)
    requires
        u1.user_id != u2.user_id || u1.asset != u2.asset,
        update_applies(bal, u1),
        update_applies(bal, u2),
    ensures
        update_applies(spec_apply_update(bal, u1), u2),
        update_applies(spec_apply_update(bal, u2), u1),
        spec_apply_update(spec_apply_update(bal, u1), u2) == spec_apply_update(spec_apply_update(bal, u2), u1),
{
    let b1 = spec_apply_update(bal, u1);
    let b2 = spec_apply_update(bal, u2);
    assert(b1[u2.user_id][u2.asset] == bal[u2.user_id][u2.asset]);
    assert(b2[u1.user_id][u1.asset] == bal[u1.user_id][u1.asset]);
    let b12 = spec_apply_update(b1, u2);
    let b21 = spec_apply_update(b2, u1);
    if u1.user_id == u2.user_id {
        assert(b12[u1.user_id] =~= b21[u1.user_id]);
    }
    assert(b12 =~= b21);
}

} // verus!

verus! {

/// Two balance changes to the same account commute in value: where
/// `Decimal` rounds neither in either order, every field of the account ends
/// with the same value, and every other account is as it was.
pub proof fn law_updates_commute_same_account(
    bal: Map<Seq<char>, Map<Seq<char>, UserBalance>>,
    u1: UpdateView,
    u2: UpdateView,
)
    requires
        u1.user_id == u2.user_id,
        u1.asset == u2.asset,
        balance_ok(bal[u1.user_id][u1.asset]),
        update_applies(bal, u1),
        update_exact(bal, u1),
        update_applies(spec_apply_update(bal, u1), u2),
        update_exact(spec_apply_update(bal, u1), u2),
        update_applies(bal, u2),
        update_exact(bal, u2),
        update_applies(spec_apply_update(bal, u2), u1),
        update_exact(spec_apply_update(bal, u2), u1),
    ensures
        ({
            let x = spec_apply_update(spec_apply_update(bal, u1), u2)[u1.user_id][u1.asset];
            let y = spec_apply_update(spec_apply_update(bal, u2), u1)[u1.user_id][u1.asset];
            &&& val(x.available_balance) == val(y.available_balance)
            &&& val(x.locked_balance) == val(y.locked_balance)
            &&& val(x.reserve_balance) == val(y.reserve_balance)
        }),
        forall|v: Seq<char>, a: Seq<char>|
            (v != u1.user_id || a != u1.asset) && bal.contains_key(v) && bal[v].contains_key(a) ==> (
            #[trigger] spec_apply_update(spec_apply_update(bal, u1), u2)[v][a]) == bal[v][a]
                && spec_apply_update(spec_apply_update(bal, u2), u1)[v][a] == bal[v][a],
{
    let b = bal[u1.user_id][u1.asset];
    let b1 = spec_apply_update(bal, u1)[u1.user_id][u1.asset];
    let b2 = spec_apply_update(bal, u2)[u1.user_id][u1.asset];
    lemma_apply_op(b.available_balance, u1.available);
    lemma_apply_op(b.locked_balance, u1.locked);
    lemma_apply_op(b.reserve_balance, u1.reserved);
    lemma_apply_op(b.available_balance, u2.available);
    lemma_apply_op(b.locked_balance, u2.locked);
    lemma_apply_op(b.reserve_balance, u2.reserved);
    lemma_apply_op(b1.available_balance, u2.available);
    lemma_apply_op(b1.locked_balance, u2.locked);
    lemma_apply_op(b1.reserve_balance, u2.reserved);
    lemma_apply_op(b2.available_balance, u1.available);
    lemma_apply_op(b2.locked_balance, u1.locked);
    lemma_apply_op(b2.reserve_balance, u1.reserved);
}

} // verus!
