use vstd::prelude::*;
use crate::error::ExchangeError;
use crate::game::{Game, Gamer};
use crate::state::{
    actions_of, apply_action, first_with_id, nonces_chained, registers, undo_actions, ExchangeState, PoolState,
    UserAction,
};
use crate::types::{InputCoin, OutputCoin, Txid};

verus! {

/// `after` is `before` with one register candidate committed, under the register
/// fee `fee`.
pub open spec fn register_step(before: ExchangeState, after: ExchangeState, fee: u64) -> bool {
    &&& before.states@.len() > 0
    &&& before.game.gamer_register_fee == fee
    &&& exists|c: PoolState, txid: Txid, received: (Seq<u8>, u32), a: String|
        #[trigger] before.register_candidate(c, txid, received, a) && after.states@
            == before.states@.push(c)
}

/// Over any run of committed registrations under the fee `fee`, each commit raises
/// the head's nonce by exactly one and the head's satoshis by exactly `fee`.
pub proof fn lemma_register_run(hist: Seq<ExchangeState>, fee: u64)
    requires
        hist.len() > 1,
        forall|i: int| 0 <= i < hist.len() - 1 ==> #[trigger] register_step(hist[i], hist[i + 1], fee),
    ensures
        hist.last().head().nonce == hist[0].head().nonce + (hist.len() - 1),
        hist.last().head().utxo.sats == hist[0].head().utxo.sats + (hist.len() - 1) * fee,
    decreases hist.len(),
{
    let n: int = hist.len() - 1;
    assert(register_step(hist[n - 1], hist[(n - 1) + 1], fee));
    let (c, txid, received, a) = choose|c: PoolState, txid: Txid, received: (Seq<u8>, u32), a: String|
        #[trigger] hist[n - 1].register_candidate(c, txid, received, a) && hist[n].states@
            == hist[n - 1].states@.push(c);
    assert(hist[n].head() == c);
    if n > 1 {
        let prefix = hist.drop_last();
        assert forall|i: int| 0 <= i < prefix.len() - 1 implies #[trigger] register_step(
            prefix[i],
            prefix[i + 1],
            fee,
        ) by {
            assert(prefix[i] == hist[i] && prefix[i + 1] == hist[i + 1]);
            assert(register_step(hist[i], hist[i + 1], fee));
        }
        lemma_register_run(prefix, fee);
        assert(prefix.last() == hist[n - 1]);
        assert(prefix[0] == hist[0]);
        let f = fee as int;
        assert(prefix.len() - 1 == n - 1);
        assert(hist[n - 1].head().utxo.sats == hist[0].head().utxo.sats + (n - 1) * f);
        assert(hist[n].head().utxo.sats == hist[n - 1].head().utxo.sats + f);
        assert((n - 1) * f + f == n * f) by (nonlinear_arith);
        assert(hist.last() == hist[n]);
    } else {
        assert(hist.len() == 2);
        assert(hist.last() == hist[1]);
        assert(hist[1].head().utxo.sats == hist[0].head().utxo.sats + fee);
        assert(n * (fee as int) == fee as int) by (nonlinear_arith)
            requires
                n == 1,
        ;
    }
}

/// Finalizing the first state keeps the ledger as it is; finalizing the state at
/// index `k` leaves `len - k` states, the first of which is the old state at `k`.
pub proof fn lemma_finalize_shape(before: Seq<PoolState>, after: Seq<PoolState>, t: Seq<u8>, k: int)
    requires
        first_with_id(before, t, k),
        after == before.subrange(k, before.len() as int),
    ensures
        k == 0 ==> after == before,
        after.len() == before.len() - k,
        after[0] == before[k],
        after.last() == before.last(),
{
    if k == 0 {
        assert(after =~= before);
    }
}

proof fn lemma_undo_shrinks(g: Map<Seq<char>, Gamer>, acts: Seq<UserAction>)
    requires
        undo_actions(g, acts) is Ok,
    ensures
        undo_actions(g, acts)->Ok_0.dom().subset_of(g.dom()),
    decreases acts.len(),
{
    if acts.len() > 0 {
        match acts.last() {
            UserAction::Init => {},
            UserAction::Register(a) => {
                lemma_undo_shrinks(g.remove(a@), acts.drop_last());
            },
            UserAction::Withdraw(a) => {
                lemma_undo_shrinks(
                    g.insert(a@, Gamer { is_withdrawn: false, ..g[a@] }),
                    acts.drop_last(),
                );
            },
        }
    }
}

/// A successful undo of `acts` leaves no gamer entry for any address that one of
/// them registered.
pub proof fn lemma_undo_unregisters(g: Map<Seq<char>, Gamer>, acts: Seq<UserAction>)
    requires
        undo_actions(g, acts) is Ok,
    ensures
        forall|j: int, a: Seq<char>|
            0 <= j < acts.len() && #[trigger] registers(acts[j], a) ==> !undo_actions(
                g,
                acts,
            )->Ok_0.contains_key(a),
    decreases acts.len(),
{
    if acts.len() > 0 {
        let m = undo_actions(g, acts)->Ok_0;
        let n = acts.len() - 1;
        match acts.last() {
            UserAction::Init => {},
            UserAction::Register(a) => {
                lemma_undo_shrinks(g.remove(a@), acts.drop_last());
                lemma_undo_unregisters(g.remove(a@), acts.drop_last());
            },
            UserAction::Withdraw(a) => {
                lemma_undo_unregisters(
                    g.insert(a@, Gamer { is_withdrawn: false, ..g[a@] }),
                    acts.drop_last(),
                );
            },
        }
        assert forall|j: int, b: Seq<char>|
            0 <= j < acts.len() && #[trigger] registers(acts[j], b) implies !m.contains_key(b) by {
            if j < n {
                assert(acts.drop_last()[j] == acts[j]);
            }
        }
    }
}

/// After a rollback to index `k` succeeds, no address that a state at index `k` or
/// later registered has a gamer entry.
pub proof fn lemma_rollback_unregisters(before: ExchangeState, after: ExchangeState, k: int)
    requires
        0 < k <= before.states@.len(),
        undo_actions(
            before.game.gamer_view(),
            actions_of(before.states@.subrange(k, before.states@.len() as int)),
        ) == Ok::<Map<Seq<char>, Gamer>, ExchangeError>(after.game.gamer_view()),
    ensures
        forall|j: int, a: Seq<char>|
            k <= j < before.states@.len() && #[trigger] registers(before.states@[j].user_action, a)
                ==> !after.game.gamer_view().contains_key(a),
{
    let acts = actions_of(before.states@.subrange(k, before.states@.len() as int));
    lemma_undo_unregisters(before.game.gamer_view(), acts);
    assert forall|j: int, a: Seq<char>|
        k <= j < before.states@.len() && #[trigger] registers(before.states@[j].user_action, a)
            implies !after.game.gamer_view().contains_key(a) by {
        assert(acts[j - k] == before.states@[j].user_action);
    }
}

/// The gamers after the effects of `acts` on `g`, the first action first.
pub open spec fn apply_actions(g: Map<Seq<char>, Gamer>, acts: Seq<UserAction>) -> Map<
    Seq<char>,
    Gamer,
>
    decreases acts.len(),
{
    if acts.len() == 0 {
        g
    } else {
        apply_action(apply_actions(g, acts.drop_last()), acts.last())
    }
}

/// `acts` registers only, each a distinct address that `g` does not hold.
pub open spec fn fresh_registrations(g: Map<Seq<char>, Gamer>, acts: Seq<UserAction>) -> bool {
    &&& forall|i: int| 0 <= i < acts.len() ==> #[trigger] acts[i] is Register
    &&& forall|i: int, a: Seq<char>|
        0 <= i < acts.len() && #[trigger] registers(acts[i], a) ==> !g.contains_key(a)
    &&& forall|i: int, j: int, a: Seq<char>|
        0 <= i < j < acts.len() && #[trigger] registers(acts[i], a) ==> !#[trigger] registers(
            acts[j],
            a,
        )
}

proof fn lemma_apply_domain(g: Map<Seq<char>, Gamer>, acts: Seq<UserAction>, k: Seq<char>)
    requires
        forall|i: int| 0 <= i < acts.len() ==> #[trigger] acts[i] is Register,
    ensures
        apply_actions(g, acts).contains_key(k) <==> g.contains_key(k) || exists|i: int|
            0 <= i < acts.len() && #[trigger] registers(acts[i], k),
    decreases acts.len(),
{
    if acts.len() > 0 {
        let p = acts.drop_last();
        assert forall|i: int| 0 <= i < p.len() implies #[trigger] p[i] is Register by {
            assert(p[i] == acts[i]);
        }
        lemma_apply_domain(g, p, k);
        let n = acts.len() - 1;
        assert(acts[n] is Register);
        assert(acts.last() == acts[n]);
        let x = acts[n]->Register_0;
        if x@ == k {
            assert(registers(acts[n], k));
        }
        if exists|i: int| 0 <= i < p.len() && #[trigger] registers(p[i], k) {
            let i = choose|i: int| 0 <= i < p.len() && #[trigger] registers(p[i], k);
            assert(registers(acts[i], k));
        }
        if exists|i: int| 0 <= i < acts.len() && #[trigger] registers(acts[i], k) {
            let i = choose|i: int| 0 <= i < acts.len() && #[trigger] registers(acts[i], k);
            if i < n {
                assert(registers(p[i], k));
            }
        }
    }
}

/// Undoing a run of fresh registrations gives back the gamers exactly as they were
/// before the run.
pub proof fn lemma_undo_inverts_registrations(g: Map<Seq<char>, Gamer>, acts: Seq<UserAction>)
    requires
        fresh_registrations(g, acts),
    ensures
        undo_actions(apply_actions(g, acts), acts) == Ok::<Map<Seq<char>, Gamer>, ExchangeError>(g),
    decreases acts.len(),
{
    if acts.len() > 0 {
        let p = acts.drop_last();
        let n = acts.len() - 1;
        assert(acts[n] is Register);
        let x = acts[n]->Register_0;
        assert(registers(acts[n], x@));
        assert(fresh_registrations(g, p)) by {
            assert forall|i: int| 0 <= i < p.len() implies #[trigger] p[i] is Register by {
                assert(p[i] == acts[i]);
            }
            assert forall|i: int, a: Seq<char>|
                0 <= i < p.len() && #[trigger] registers(p[i], a) implies !g.contains_key(a) by {
                assert(p[i] == acts[i]);
            }
            assert forall|i: int, j: int, a: Seq<char>|
                0 <= i < j < p.len() && #[trigger] registers(p[i], a) implies !#[trigger] registers(
                p[j],
                a,
            ) by {
                assert(p[i] == acts[i] && p[j] == acts[j]);
            }
        }
        lemma_undo_inverts_registrations(g, p);
        lemma_apply_domain(g, p, x@);
        if exists|i: int| 0 <= i < p.len() && #[trigger] registers(p[i], x@) {
            let i = choose|i: int| 0 <= i < p.len() && #[trigger] registers(p[i], x@);
            assert(registers(acts[i], x@));
        }
        let before = apply_actions(g, p);
        assert(!before.contains_key(x@));
        assert(before.insert(x@, Gamer::spec_new()).remove(x@) =~= before);
    }
}

/// Whether `act` marks the address `a` as withdrawn.
pub open spec fn withdraws(act: UserAction, a: Seq<char>) -> bool {
    act matches UserAction::Withdraw(x) && x@ == a
}

/// Undoing fails where an action to undo is the genesis, or withdraws an address
/// that the gamers do not hold.
pub proof fn lemma_undo_fails(g: Map<Seq<char>, Gamer>, acts: Seq<UserAction>, i: int, a: Seq<char>)
    requires
        0 <= i < acts.len(),
        acts[i] is Init || (withdraws(acts[i], a) && !g.contains_key(a)),
    ensures
        undo_actions(g, acts) is Err,
    decreases acts.len(),
{
    let n = acts.len() - 1;
    assert(acts.last() == acts[n]);
    if i == n {
        if !(acts[i] is Init) {
            assert(!g.contains_key(acts[n]->Withdraw_0@));
        }
    } else {
        let p = acts.drop_last();
        assert(p[i] == acts[i]);
        match acts.last() {
            UserAction::Init => {},
            UserAction::Register(x) => {
                lemma_undo_fails(g.remove(x@), p, i, a);
            },
            UserAction::Withdraw(x) => {
                if g.contains_key(x@) {
                    lemma_undo_fails(g.insert(x@, Gamer { is_withdrawn: false, ..g[x@] }), p, i, a);
                }
            },
        }
    }
}

/// A rollback to index `k` fails, leaving everything as it was, where a state at
/// `k` or later is the genesis, or withdraws an address that has no gamer entry.
pub proof fn lemma_rollback_fails(before: ExchangeState, k: int, j: int, a: Seq<char>)
    requires
        0 < k <= j < before.states@.len(),
        before.states@[j].user_action is Init || (withdraws(before.states@[j].user_action, a)
            && !before.game.gamer_view().contains_key(a)),
    ensures
        undo_actions(
            before.game.gamer_view(),
            actions_of(before.states@.subrange(k, before.states@.len() as int)),
        ) is Err,
{
    let acts = actions_of(before.states@.subrange(k, before.states@.len() as int));
    assert(acts[j - k] == before.states@[j].user_action);
    lemma_undo_fails(before.game.gamer_view(), acts, j - k, a);
}

/// In a ledger whose nonces are chained, the nonce of each state exceeds that of
/// every earlier one by the distance between them, so no two states share a nonce
/// and no head output is spent twice.
pub proof fn lemma_nonces_distinct(ss: Seq<PoolState>)
    requires
        nonces_chained(ss),
    ensures
        forall|i: int, j: int|
            0 <= i <= j < ss.len() ==> #[trigger] ss[j].nonce == #[trigger] ss[i].nonce + (j - i),
        forall|i: int, j: int|
            0 <= i < j < ss.len() ==> #[trigger] ss[i].nonce != #[trigger] ss[j].nonce,
    decreases ss.len(),
{
    if ss.len() > 0 {
        let p = ss.drop_last();
        assert forall|i: int| 0 < i < p.len() implies #[trigger] p[i].nonce == p[i - 1].nonce + 1 by {
            assert(p[i] == ss[i] && p[i - 1] == ss[i - 1]);
        }
        lemma_nonces_distinct(p);
        let n = ss.len() - 1;
        assert forall|i: int, j: int|
            0 <= i <= j < ss.len() implies #[trigger] ss[j].nonce == #[trigger] ss[i].nonce + (j - i) by {
            if j < n {
                assert(p[i] == ss[i] && p[j] == ss[j]);
            } else if i < n {
                assert(ss[n].nonce == ss[n - 1].nonce + 1);
                assert(p[i] == ss[i] && p[n - 1] == ss[n - 1]);
            }
        }
    }
}

/// Once a gamer has claimed at `t1`, a claim at any `t2` before the cooldown has
/// passed is refused.
pub proof fn lemma_no_claim_within_cooldown(g1: Game, g2: Game, a: Seq<char>, t1: u64, t2: u64)
    requires
        g1.claim_error(a, t1) is None,
        g2.same_rules(&g1),
        g2.gamer_view().contains_key(a),
        g2.gamer_view()[a].last_click_time == t1,
        t2 < t1 + g1.claim_cooling_down,
    ensures
        g2.claim_error(a, t2) matches Some(e) && (e is CoolingDown || e is RewardPoolExhausted),
{
}

/// Once a candidate built on the head is committed, every intent that presents
/// the old head's nonce is refused, so no two commits share a nonce.
pub proof fn lemma_commit_stales_nonce(
    before: ExchangeState,
    after: ExchangeState,
    c: PoolState,
    spent: Option<Option<(Seq<u8>, u32)>>,
    received: Option<Option<(Seq<u8>, u32)>>,
    ins: Seq<InputCoin>,
    outs: Seq<OutputCoin>,
    a: Seq<char>,
)
    requires
        before.states@.len() > 0,
        c.nonce == before.head().nonce + 1,
        after.states@ == before.states@.push(c),
    ensures
        after.register_error(before.head().nonce, spent, received, ins, outs, a) == Some(
            ExchangeError::StaleNonce(c.nonce),
        ) || after.register_error(before.head().nonce, spent, received, ins, outs, a) == Some(
            ExchangeError::InvalidIntent,
        ),
{
    assert(after.head() == c);
}

} // verus!
