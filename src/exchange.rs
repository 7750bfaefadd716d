use vstd::prelude::*;
use crate::error::ExchangeError;
use crate::game::Gamer;
use crate::state::{
    actions_of, first_with_id, has_id, last_outpoint, undo_actions, ExchangeState,
    PoolState, UserAction,
};
use crate::types::{CoinBalance, CoinId, InputCoin, OutputCoin, Txid, Utxo};
use vstd::string::StringExecFns;

verus! {

/// The address that principal `p` registered with last, if any.
pub open spec fn linked_address(m: Seq<(String, String)>, p: Seq<char>) -> Option<Seq<char>>
    decreases m.len(),
{
    if m.len() == 0 {
        None
    } else if m.last().0@ == p {
        Some(m.last().1@)
    } else {
        linked_address(m.drop_last(), p)
    }
}

/// Fails with `UnsupportedIntent` unless `action` is `register`, the one action
/// this pool offers.
pub fn ensure_supported_action(action: &String) -> (r: Result<(), ExchangeError>)
    ensures
        r is Ok <==> action@ == "register"@,
        r matches Err(e) ==> e == ExchangeError::UnsupportedIntent,
{
    let register = <String as StringExecFns>::from_str("register");
    if *action == register {
        Ok(())
    } else {
        Err(ExchangeError::UnsupportedIntent)
    }
}

impl ExchangeState {
    /// Fails with `AccessDenied` unless `caller` is the orchestrator.
    pub fn ensure_orchestrator(&self, caller: &String) -> (r: Result<(), ExchangeError>)
        ensures
            r is Ok <==> caller@ == self.orchestrator@,
            r matches Err(e) ==> e == ExchangeError::AccessDenied,
    {
        if *caller == self.orchestrator {
            Ok(())
        } else {
            Err(ExchangeError::AccessDenied)
        }
    }

    /// Fails unless the pool has a key and it is `pool_key`.
    pub fn ensure_pool_key(&self, pool_key: &String) -> (r: Result<(), ExchangeError>)
        ensures
            self.key is None ==> r == Err::<(), ExchangeError>(ExchangeError::NotInitialized),
            self.key matches Some(k) ==> (r is Ok <==> k@ == pool_key@),
            self.key matches Some(k) && k@ != pool_key@ ==> r == Err::<(), ExchangeError>(
                ExchangeError::PoolMismatch,
            ),
    {
        match &self.key {
            None => Err(ExchangeError::NotInitialized),
            Some(k) => if *k == *pool_key {
                Ok(())
            } else {
                Err(ExchangeError::PoolMismatch)
            },
        }
    }

    /// Fails unless the pool has an address and it is `pool_address`.
    pub fn ensure_pool_address(&self, pool_address: &String) -> (r: Result<(), ExchangeError>)
        ensures
            self.address is None ==> r == Err::<(), ExchangeError>(ExchangeError::NotInitialized),
            self.address matches Some(a) ==> (r is Ok <==> a@ == pool_address@),
            self.address matches Some(a) && a@ != pool_address@ ==> r == Err::<(), ExchangeError>(
                ExchangeError::PoolMismatch,
            ),
    {
        match &self.address {
            None => Err(ExchangeError::NotInitialized),
            Some(a) => if *a == *pool_address {
                Ok(())
            } else {
                Err(ExchangeError::PoolMismatch)
            },
        }
    }

    /// Admits a register intent: the orchestrator `caller` asks this pool, at
    /// `pool_address`, to let `initiator` register through transaction `txid`. The
    /// intent is validated against the head; on success the candidate holds the
    /// admission until `complete_register` or `abandon_register`, and the head's
    /// output that the transaction consumes is returned for signing.
    pub fn begin_register(
        &mut self,
        caller: &String,
        pool_address: &String,
        txid: Txid,
        nonce: u64,
        pool_utxo_spend: Vec<String>,
        pool_utxo_receive: Vec<String>,
        input_coins: Vec<InputCoin>,
        output_coins: Vec<OutputCoin>,
        initiator: String,
    ) -> (r: Result<Utxo, ExchangeError>)
        requires
            old(self).wf(),
        ensures
            final(self).wf(),
            final(self).same_setup(old(self)),
            final(self).states@ == old(self).states@,
            final(self).game.gamer_view() == old(self).game.gamer_view(),
            final(self).address_principal_map@ == old(self).address_principal_map@,
            r is Err ==> final(self).pending == old(self).pending,
            caller@ != old(self).orchestrator@ ==> r == Err::<Utxo, ExchangeError>(
                ExchangeError::AccessDenied,
            ),
            caller@ == old(self).orchestrator@ && old(self).address is None ==> r == Err::<
                Utxo,
                ExchangeError,
            >(ExchangeError::NotInitialized),
            caller@ == old(self).orchestrator@ ==> (old(self).address matches Some(a) && a@
                != pool_address@ ==> r == Err::<Utxo, ExchangeError>(ExchangeError::PoolMismatch)),
            caller@ == old(self).orchestrator@ ==> (old(self).address matches Some(a) && a@
                == pool_address@ ==> {
                let err = old(self).register_error(
                    nonce,
                    last_outpoint(pool_utxo_spend@),
                    last_outpoint(pool_utxo_receive@),
                    input_coins@,
                    output_coins@,
                    initiator@,
                );
                &&& old(self).pending is Some ==> r == Err::<Utxo, ExchangeError>(
                    ExchangeError::PoolBusy,
                )
                &&& old(self).pending is None ==> {
                    &&& r is Err <==> err is Some
                    &&& r matches Err(e) ==> err == Some(e)
                    &&& r matches Ok(consumed) ==> {
                        &&& consumed == old(self).head().utxo
                        &&& final(self).pending matches Some(c) && old(self).register_candidate(
                            c,
                            txid,
                            last_outpoint(pool_utxo_receive@)->0->0,
                            initiator,
                        )
                    }
                }
            }),
    {
        match self.ensure_orchestrator(caller) {
            Ok(()) => {},
            Err(e) => return Err(e),
        }
        match self.ensure_pool_address(pool_address) {
            Ok(()) => {},
            Err(e) => return Err(e),
        }
        if self.pending.is_some() {
            return Err(ExchangeError::PoolBusy);
        }
        match self.validate_register(
            txid,
            nonce,
            pool_utxo_spend,
            pool_utxo_receive,
            input_coins,
            output_coins,
            initiator,
        ) {
            Ok((candidate, consumed)) => {
                self.pending = Some(candidate);
                Ok(consumed)
            },
            Err(e) => Err(e),
        }
    }

    /// The signed transaction is out and `principal` is the identity of the
    /// candidate's initiator: the candidate is committed, its gamer registered, the
    /// principal linked to the initiator's address, and the admission released.
    pub fn complete_register(&mut self, principal: String) -> (r: Result<(), ExchangeError>)
        requires
            old(self).wf(),
        ensures
            final(self).wf(),
            final(self).same_setup(old(self)),
            final(self).pending is None,
            old(self).pending is None ==> r == Err::<(), ExchangeError>(
                ExchangeError::NothingPending,
            ) && final(self).states@ == old(self).states@ && final(self).game.gamer_view()
                == old(self).game.gamer_view() && final(self).address_principal_map@
                == old(self).address_principal_map@,
            old(self).pending matches Some(c) ==> {
                &&& r is Ok
                &&& final(self).states@ == old(self).states@.push(c)
                &&& final(self).game.gamer_view() == crate::state::apply_action(
                    old(self).game.gamer_view(),
                    c.user_action,
                )
                &&& c.user_action matches UserAction::Register(a)
                    ==> final(self).address_principal_map@ == old(self).address_principal_map@.push(
                    (principal, a),
                )
            },
    {
        let candidate = match self.pending.take() {
            None => return Err(ExchangeError::NothingPending),
            Some(c) => c,
        };
        let link = match &candidate.user_action {
            UserAction::Register(a) => Some((principal, a.clone())),
            _ => None,
        };
        self.commit(candidate);
        match link {
            Some(l) => self.address_principal_map.push(l),
            None => {},
        }
        Ok(())
    }

    /// Gives up the admitted candidate, if any, leaving the ledger as it was.
    pub fn abandon_register(&mut self)
        requires
            old(self).wf(),
        ensures
            final(self).wf(),
            final(self).same_setup(old(self)),
            final(self).pending is None,
            final(self).states@ == old(self).states@,
            final(self).game.gamer_view() == old(self).game.gamer_view(),
            final(self).address_principal_map@ == old(self).address_principal_map@,
    {
        self.pending = None;
    }

    /// The orchestrator `caller` reports that `txid` of the pool keyed `pool_key`
    /// is confirmed; see `finalize`.
    pub fn finalize_tx(&mut self, caller: &String, pool_key: &String, txid: Txid) -> (r: Result<
        (),
        ExchangeError,
    >)
        requires
            old(self).wf(),
        ensures
            final(self).wf(),
            final(self).same_setup(old(self)),
            final(self).pending == old(self).pending,
            final(self).game.gamer_view() == old(self).game.gamer_view(),
            final(self).address_principal_map@ == old(self).address_principal_map@,
            r is Err ==> final(self).states@ == old(self).states@,
            caller@ != old(self).orchestrator@ ==> r == Err::<(), ExchangeError>(
                ExchangeError::AccessDenied,
            ),
            caller@ == old(self).orchestrator@ && old(self).key is None ==> r == Err::<
                (),
                ExchangeError,
            >(ExchangeError::NotInitialized),
            caller@ == old(self).orchestrator@ ==> (old(self).key matches Some(k) && k@
                != pool_key@ ==> r == Err::<(), ExchangeError>(ExchangeError::PoolMismatch)),
            caller@ == old(self).orchestrator@ ==> (old(self).key matches Some(k) && k@ == pool_key@
                ==> {
                &&& (forall|i: int| 0 <= i < old(self).states@.len() ==> !has_id(
                    #[trigger] old(self).states@[i],
                    txid@,
                )) ==> r == Err::<(), ExchangeError>(ExchangeError::UnknownTransaction)
                &&& forall|k: int| #[trigger]
                    first_with_id(old(self).states@, txid@, k) ==> r is Ok && final(self).states@
                        == old(self).states@.subrange(k, old(self).states@.len() as int)
            }),
    {
        match self.ensure_orchestrator(caller) {
            Ok(()) => {},
            Err(e) => return Err(e),
        }
        match self.ensure_pool_key(pool_key) {
            Ok(()) => {},
            Err(e) => return Err(e),
        }
        self.finalize(txid)
    }

    /// The orchestrator `caller` reports that `txid` of the pool keyed `pool_key`
    /// is rejected; see `rollback`.
    pub fn rollback_tx(&mut self, caller: &String, pool_key: &String, txid: Txid) -> (r: Result<
        (),
        ExchangeError,
    >)
        requires
            old(self).wf(),
        ensures
            final(self).wf(),
            final(self).same_setup(old(self)),
            final(self).pending == old(self).pending,
            final(self).address_principal_map@ == old(self).address_principal_map@,
            r is Err ==> final(self).states@ == old(self).states@ && final(self).game.gamer_view()
                == old(self).game.gamer_view(),
            caller@ != old(self).orchestrator@ ==> r == Err::<(), ExchangeError>(
                ExchangeError::AccessDenied,
            ),
            caller@ == old(self).orchestrator@ && old(self).key is None ==> r == Err::<
                (),
                ExchangeError,
            >(ExchangeError::NotInitialized),
            caller@ == old(self).orchestrator@ ==> (old(self).key matches Some(k) && k@
                != pool_key@ ==> r == Err::<(), ExchangeError>(ExchangeError::PoolMismatch)),
            caller@ == old(self).orchestrator@ ==> (old(self).key matches Some(k) && k@ == pool_key@
                ==> {
                &&& old(self).pending is Some ==> r == Err::<(), ExchangeError>(
                    ExchangeError::PoolBusy,
                )
                &&& old(self).pending is None && (forall|i: int|
                    0 <= i < old(self).states@.len() ==> !has_id(
                        #[trigger] old(self).states@[i],
                        txid@,
                    )) ==> r == Err::<(), ExchangeError>(ExchangeError::UnknownTransaction)
                &&& old(self).pending is None && first_with_id(old(self).states@, txid@, 0) ==> r
                    == Err::<(), ExchangeError>(ExchangeError::CannotRollbackRoot)
                &&& forall|k: int|
                    #![trigger first_with_id(old(self).states@, txid@, k)]
                    old(self).pending is None && 0 < k && first_with_id(old(self).states@, txid@, k)
                        ==> match undo_actions(
                        old(self).game.gamer_view(),
                        actions_of(old(self).states@.subrange(k, old(self).states@.len() as int)),
                    ) {
                        Ok(m) => r is Ok && final(self).states@ == old(self).states@.subrange(0, k)
                            && final(self).game.gamer_view() == m,
                        Err(e) => r == Err::<(), ExchangeError>(e),
                    }
            }),
    {
        match self.ensure_orchestrator(caller) {
            Ok(()) => {},
            Err(e) => return Err(e),
        }
        match self.ensure_pool_key(pool_key) {
            Ok(()) => {},
            Err(e) => return Err(e),
        }
        self.rollback(txid)
    }

    /// The principal `principal` claims a reward at `now`, as the gamer whose
    /// address it registered with.
    pub fn claim(&mut self, principal: &String, now: u64) -> (r: Result<u128, ExchangeError>)
        requires
            old(self).wf(),
        ensures
            final(self).wf(),
            final(self).same_identity(old(self)),
            final(self).game.same_rules(&old(self).game),
            final(self).states@ == old(self).states@,
            final(self).pending == old(self).pending,
            final(self).address_principal_map@ == old(self).address_principal_map@,
            linked_address(old(self).address_principal_map@, principal@) is None ==> r == Err::<
                u128,
                ExchangeError,
            >(ExchangeError::GamerNotFound) && final(self).game.gamer_view()
                == old(self).game.gamer_view() && final(self).game.claimed_cookies
                == old(self).game.claimed_cookies,
            linked_address(old(self).address_principal_map@, principal@) matches Some(a) ==> {
                let err = old(self).game.claim_error(a, now);
                let g = old(self).game.gamer_view()[a];
                &&& r is Err <==> err is Some
                &&& r matches Err(e) ==> err == Some(e) && final(self).game.gamer_view()
                    == old(self).game.gamer_view() && final(self).game.claimed_cookies
                    == old(self).game.claimed_cookies
                &&& r matches Ok(b) ==> {
                    &&& b == g.cookies + old(self).game.cookie_amount_per_claim
                    &&& final(self).game.claimed_cookies == old(self).game.claimed_cookies
                        + old(self).game.cookie_amount_per_claim
                    &&& final(self).game.gamer_view() == old(self).game.gamer_view().insert(
                        a,
                        Gamer { cookies: b, last_click_time: now, is_withdrawn: g.is_withdrawn },
                    )
                }
            },
    {
        let address = match self.address_of(principal) {
            Some(a) => a,
            None => return Err(ExchangeError::GamerNotFound),
        };
        self.game.claim(&address, now)
    }

    /// Sets the pool's key and address once; where an address is set already, it
    /// is returned and nothing changes. Returns the pool's address.
    pub fn init_key(&mut self, key: String, address: String) -> (r: Result<String, ExchangeError>)
        requires
            old(self).wf(),
        ensures
            final(self).wf(),
            final(self).same_config(old(self)),
            final(self).game.same_rules(&old(self).game),
            final(self).game.claimed_cookies == old(self).game.claimed_cookies,
            final(self).address_principal_map@ == old(self).address_principal_map@,
            final(self).states@ == old(self).states@,
            final(self).game.gamer_view() == old(self).game.gamer_view(),
            final(self).pending == old(self).pending,
            old(self).address matches Some(a) ==> r matches Ok(x) && x@ == a@ && *final(self)
                == *old(self),
            old(self).address is None ==> match old(self).status.key_ready() {
                Ok(st) => r matches Ok(x) && x@ == address@ && final(self).key == Some(key)
                    && final(self).address == Some(address) && final(self).status == st,
                Err(e) => r == Err::<String, ExchangeError>(e) && *final(self) == *old(self),
            },
    {
        match &self.address {
            Some(a) => return Ok(a.clone()),
            None => {},
        }
        let status = match self.status.key_ready() {
            Ok(st) => st,
            Err(e) => return Err(e),
        };
        let result = address.clone();
        self.key = Some(key);
        self.address = Some(address);
        self.status = status;
        Ok(result)
    }

    /// Funds the pool at `now`: `rune_utxo` carries `runes`, which must be the
    /// whole reward pool, and `btc_utxo` is the pool's bitcoin. The genesis state
    /// becomes the ledger's first and the game starts.
    pub fn deposit(&mut self, rune_utxo: Utxo, runes: CoinBalance, btc_utxo: Utxo, now: u64) -> (r:
        Result<(), ExchangeError>)
        requires
            old(self).wf(),
        ensures
            final(self).wf(),
            final(self).same_config(old(self)),
            final(self).key == old(self).key,
            final(self).address == old(self).address,
            final(self).game.same_terms(&old(self).game),
            final(self).game.claimed_cookies == old(self).game.claimed_cookies,
            final(self).address_principal_map@ == old(self).address_principal_map@,
            final(self).pending == old(self).pending,
            final(self).game.gamer_view() == old(self).game.gamer_view(),
            runes.id == CoinId::spec_btc() ==> r == Err::<(), ExchangeError>(
                ExchangeError::InvalidIntent,
            ),
            runes.id != CoinId::spec_btc() && old(self).states@.len() > 0 ==> r == Err::<
                (),
                ExchangeError,
            >(ExchangeError::AlreadyFunded),
            runes.id != CoinId::spec_btc() && old(self).states@.len() == 0 && runes.value
                != old(self).game.max_cookies ==> r == Err::<(), ExchangeError>(
                ExchangeError::FundingMismatch,
            ),
            runes.id != CoinId::spec_btc() && old(self).states@.len() == 0 && runes.value
                == old(self).game.max_cookies ==> match old(self).status.funding_ready() {
                Ok(st) => {
                    &&& r is Ok
                    &&& final(self).status == st
                    &&& final(self).game.game_start_time == now
                    &&& final(self).states@ == seq![
                        PoolState {
                            id: None,
                            nonce: 0,
                            utxo: btc_utxo,
                            rune_utxo: Some(rune_utxo),
                            rune_balance: runes.value,
                            user_action: UserAction::Init,
                        },
                    ]
                },
                Err(e) => r == Err::<(), ExchangeError>(e),
            },
            r is Err ==> final(self).states@ == old(self).states@ && final(self).same_setup(
                old(self),
            ) && final(self).game.game_start_time == old(self).game.game_start_time,
    {
        if runes.id.is_btc() {
            return Err(ExchangeError::InvalidIntent);
        }
        if self.states.len() > 0 {
            return Err(ExchangeError::AlreadyFunded);
        }
        if runes.value != self.game.max_cookies {
            return Err(ExchangeError::FundingMismatch);
        }
        let status = match self.status.funding_ready() {
            Ok(st) => st,
            Err(e) => return Err(e),
        };
        self.status = status;
        self.game.game_start_time = now;
        self.states.push(
            PoolState {
                id: None,
                nonce: 0,
                utxo: btc_utxo,
                rune_utxo: Some(rune_utxo),
                rune_balance: runes.value,
                user_action: UserAction::Init,
            },
        );
        assert(self.states@ =~= seq![
            PoolState {
                id: None,
                nonce: 0,
                utxo: btc_utxo,
                rune_utxo: Some(rune_utxo),
                rune_balance: runes.value,
                user_action: UserAction::Init,
            },
        ]);
        Ok(())
    }

    /// The address that `principal` registered with, if any.
    pub fn address_of(&self, principal: &String) -> (r: Option<String>)
        ensures
            r is None <==> linked_address(self.address_principal_map@, principal@) is None,
            r matches Some(a) ==> linked_address(self.address_principal_map@, principal@) == Some(
                a@,
            ),
    {
        let mut i = self.address_principal_map.len();
        proof {
            assert(self.address_principal_map@.subrange(0, i as int) =~= self.address_principal_map@);
        }
        while i > 0
            invariant
                i <= self.address_principal_map@.len(),
                linked_address(self.address_principal_map@, principal@) == linked_address(
                    self.address_principal_map@.subrange(0, i as int),
                    principal@,
                ),
            decreases i,
        {
            let ghost m = self.address_principal_map@.subrange(0, i as int);
            proof {
                assert(m.drop_last() =~= self.address_principal_map@.subrange(0, i - 1));
            }
            let entry = &self.address_principal_map[i - 1];
            if entry.0 == *principal {
                return Some(entry.1.clone());
            }
            i = i - 1;
        }
        None
    }
}

} // verus!

verus! {

/// Relies on `ic_cdk::api::time`: the current time of the chain, in nanoseconds
/// since the epoch. Nothing is known of its value.
#[verifier::external_body]
fn chain_time_nanos() -> (r: u64) {
    ic_cdk::api::time()
}

/// The whole seconds in `nanos` nanoseconds.
pub fn seconds_of(nanos: u64) -> (r: u64)
    ensures
        r == nanos / 1_000_000_000,
{
    nanos / 1_000_000_000
}

/// The current time of the chain, in whole seconds since the epoch.
pub fn get_chain_second_timestamp() -> (r: u64)
    ensures
        r <= u64::MAX / 1_000_000_000,
{
    seconds_of(chain_time_nanos())
}

} // verus!
