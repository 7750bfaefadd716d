use vstd::prelude::*;
use crate::error::ExchangeError;
use crate::game::{Game, Gamer};
use crate::status::GameStatus;
use crate::types::{parse_outpoint, outpoint_from_text, CoinId, InputCoin, OutPoint, OutputCoin, Txid, Utxo};

verus! {

/// The side effect on the reward game that a pool state caused.
#[derive(Clone, Debug)]
pub enum UserAction {
    /// The pool was funded.
    Init,
    /// The address became a gamer.
    Register(String),
    /// The address took out its reward.
    Withdraw(String),
}

impl UserAction {
    /// A copy that equals the original.
    pub fn duplicate(&self) -> (r: UserAction)
        ensures
            r == *self,
    {
        match self {
            UserAction::Init => UserAction::Init,
            UserAction::Register(a) => UserAction::Register(a.clone()),
            UserAction::Withdraw(a) => UserAction::Withdraw(a.clone()),
        }
    }
}

/// One node of the pool's chain of pending states.
#[derive(Clone, Debug)]
pub struct PoolState {
    /// The transaction that led to this state; `None` for the state made at funding.
    pub id: Option<Txid>,
    pub nonce: u64,
    /// The pool's bitcoin output after this state.
    pub utxo: Utxo,
    /// The output that carries the pool's runes, if any.
    pub rune_utxo: Option<Utxo>,
    /// The runes the pool holds.
    pub rune_balance: u128,
    pub user_action: UserAction,
}

impl PoolState {
    /// The satoshis of the pool's bitcoin output.
    pub fn btc_balance(&self) -> (r: u64)
        ensures
            r == self.utxo.sats,
    {
        self.utxo.sats
    }

    /// A copy that equals the original.
    pub fn duplicate(&self) -> (r: PoolState)
        ensures
            r == *self,
    {
        PoolState {
            id: self.id,
            nonce: self.nonce,
            utxo: self.utxo,
            rune_utxo: self.rune_utxo,
            rune_balance: self.rune_balance,
            user_action: self.user_action.duplicate(),
        }
    }
}

/// Whether the state came from the transaction whose id is `t`.
pub open spec fn has_id(s: PoolState, t: Seq<u8>) -> bool {
    s.id matches Some(x) && x@ == t
}

/// `i` is the first index of `ss` whose state has the id `t`.
pub open spec fn first_with_id(ss: Seq<PoolState>, t: Seq<u8>, i: int) -> bool {
    &&& 0 <= i < ss.len()
    &&& has_id(ss[i], t)
    &&& forall|j: int| 0 <= j < i ==> !has_id(#[trigger] ss[j], t)
}

/// Each state's nonce is one more than the one before it.
pub open spec fn nonces_chained(ss: Seq<PoolState>) -> bool {
    forall|i: int| 0 < i < ss.len() ==> #[trigger] ss[i].nonce == ss[i - 1].nonce + 1
}

/// The actions that the states record, in order.
pub open spec fn actions_of(ss: Seq<PoolState>) -> Seq<UserAction> {
    ss.map_values(|s: PoolState| s.user_action)
}

/// Whether `act` registers the address `a`.
pub open spec fn registers(act: UserAction, a: Seq<char>) -> bool {
    act matches UserAction::Register(x) && x@ == a
}

/// The gamers after the effect of `act` on `g`.
pub open spec fn apply_action(g: Map<Seq<char>, Gamer>, act: UserAction) -> Map<Seq<char>, Gamer> {
    match act {
        UserAction::Init => g,
        UserAction::Register(a) => g.insert(a@, Gamer::spec_new()),
        UserAction::Withdraw(a) => if g.contains_key(a@) {
            g.insert(a@, Gamer { is_withdrawn: true, ..g[a@] })
        } else {
            g
        },
    }
}

/// The gamers after undoing `acts` on `g`, the last action first, or the error
/// that stops it.
pub open spec fn undo_actions(g: Map<Seq<char>, Gamer>, acts: Seq<UserAction>) -> Result<
    Map<Seq<char>, Gamer>,
    ExchangeError,
>
    decreases acts.len(),
{
    if acts.len() == 0 {
        Ok(g)
    } else {
        match acts.last() {
            UserAction::Init => Err(ExchangeError::CannotRollbackGenesis),
            UserAction::Register(a) => undo_actions(g.remove(a@), acts.drop_last()),
            UserAction::Withdraw(a) => if g.contains_key(a@) {
                undo_actions(g.insert(a@, Gamer { is_withdrawn: false, ..g[a@] }), acts.drop_last())
            } else {
                Err(ExchangeError::GamerNotFound)
            },
        }
    }
}

/// The view of an outpoint that was looked for: `None` where there was none to
/// look at, `Some(None)` where the text was no outpoint.
pub open spec fn found_view(p: Option<Option<OutPoint>>) -> Option<Option<(Seq<u8>, u32)>> {
    match p {
        None => None,
        Some(None) => Some(None),
        Some(Some(o)) => Some(Some(o@)),
    }
}

/// What the last text of `v` denotes as an outpoint, as `found_view` has it.
pub open spec fn last_outpoint(v: Seq<String>) -> Option<Option<(Seq<u8>, u32)>> {
    if v.len() == 0 {
        None
    } else {
        Some(outpoint_from_text(v.last()@))
    }
}

/// The outpoint that the last text of `v` denotes, as `found_view` has it.
fn last_parsed(v: &Vec<String>) -> (r: Option<Option<OutPoint>>)
    ensures
        found_view(r) == last_outpoint(v@),
{
    let n = v.len();
    if n == 0 {
        None
    } else {
        Some(parse_outpoint(&v[n - 1]))
    }
}

/// The pool: its identity, its reward game, its chain of pending states and the
/// candidate state, if any, that holds the admission between validation and commit.
#[derive(Debug)]
pub struct ExchangeState {
    pub rune_id: CoinId,
    pub symbol: String,
    /// The pool's public key, as text.
    pub key: Option<String>,
    /// The pool's bitcoin address.
    pub address: Option<String>,
    pub game: Game,
    /// The only caller that may execute, finalize and roll back, as principal text.
    pub orchestrator: String,
    /// The pending states, oldest first; the last one is the head.
    pub states: Vec<PoolState>,
    /// The identity service, as principal text.
    pub ii_canister: String,
    /// Which address each principal (as text) registered with.
    pub address_principal_map: Vec<(String, String)>,
    /// The validated state that waits for its signature.
    pub pending: Option<PoolState>,
    pub status: GameStatus,
}

impl ExchangeState {
    pub open spec fn wf(&self) -> bool {
        &&& self.game.wf()
        &&& nonces_chained(self.states@)
        &&& self.pending matches Some(c) ==> {
            &&& self.states@.len() > 0
            &&& c.nonce == self.head().nonce + 1
            &&& c.user_action !is Init
        }
    }

    /// The head of the ledger.
    pub open spec fn head(&self) -> PoolState {
        self.states@.last()
    }

    /// Everything but the ledger and the gamers is that of `other`.
    pub open spec fn same_setup(&self, other: &ExchangeState) -> bool {
        &&& self.same_identity(other)
        &&& self.game.same_rules(&other.game)
        &&& self.game.claimed_cookies == other.game.claimed_cookies
    }

    /// The pool's identity, key, address and status are those of `other`.
    pub open spec fn same_identity(&self, other: &ExchangeState) -> bool {
        &&& self.same_config(other)
        &&& self.key == other.key
        &&& self.address == other.address
        &&& self.status == other.status
    }

    /// The pool's rune, symbol, orchestrator and identity service are those of `other`.
    pub open spec fn same_config(&self, other: &ExchangeState) -> bool {
        &&& self.rune_id == other.rune_id
        &&& self.symbol == other.symbol
        &&& self.orchestrator == other.orchestrator
        &&& self.ii_canister == other.ii_canister
    }

    /// The error that a register intent meets, if any. `spent` and `received` are
    /// the last outpoints the intent spends and creates, as `found_view` has them.
    pub open spec fn register_error(
        &self,
        nonce: u64,
        spent: Option<Option<(Seq<u8>, u32)>>,
        received: Option<Option<(Seq<u8>, u32)>>,
        ins: Seq<InputCoin>,
        outs: Seq<OutputCoin>,
        a: Seq<char>,
    ) -> Option<ExchangeError> {
        let head = self.head();
        if !(ins.len() == 1 && outs.len() == 0 && ins[0].coin.id == CoinId::spec_btc()
            && ins[0].coin.value >= self.game.gamer_register_fee) {
            Some(ExchangeError::InvalidIntent)
        } else if self.states@.len() == 0 {
            Some(ExchangeError::LastStateNotFound)
        } else if head.nonce != nonce {
            Some(ExchangeError::StaleNonce(head.nonce))
        } else if self.game.gamer_view().contains_key(a) {
            Some(ExchangeError::GamerAlreadyExists)
        } else if spent != Some(Some(head.utxo.outpoint@)) {
            Some(ExchangeError::SpendMismatch)
        } else if received is None {
            Some(ExchangeError::InvalidIntent)
        } else if head.utxo.sats + self.game.gamer_register_fee > u64::MAX {
            Some(ExchangeError::Overflow)
        } else if received == Some(None::<(Seq<u8>, u32)>) {
            Some(ExchangeError::InvalidIntent)
        } else if head.nonce + 1 > u64::MAX {
            Some(ExchangeError::Overflow)
        } else {
            None
        }
    }

    /// `c` is the state that a register intent by `a` in transaction `txid` leads to,
    /// creating the outpoint `received`.
    pub open spec fn register_candidate(
        &self,
        c: PoolState,
        txid: Txid,
        received: (Seq<u8>, u32),
        a: String,
    ) -> bool {
        let head = self.head();
        &&& c.id == Some(txid)
        &&& c.nonce == head.nonce + 1
        &&& c.utxo.outpoint@ == received
        &&& c.utxo.sats == head.utxo.sats + self.game.gamer_register_fee
        &&& c.rune_utxo == head.rune_utxo
        &&& c.rune_balance == head.rune_balance
        &&& c.user_action == UserAction::Register(a)
    }

    /// Checks a register intent by `address` in transaction `txid` against the head,
    /// given the last outpoints that the intent spends and creates (`None` where it
    /// names none, `Some(None)` where its text is no outpoint). On success returns
    /// the candidate state and the head's output that the transaction consumes.
    pub fn validate_register_outpoints(
        &self,
        txid: Txid,
        nonce: u64,
        spent: Option<Option<OutPoint>>,
        received: Option<Option<OutPoint>>,
        input_coins: &Vec<InputCoin>,
        output_coins: &Vec<OutputCoin>,
        address: String,
    ) -> (r: Result<(PoolState, Utxo), ExchangeError>)
        requires
            self.wf(),
        ensures
            ({
                let err = self.register_error(
                    nonce,
                    found_view(spent),
                    found_view(received),
                    input_coins@,
                    output_coins@,
                    address@,
                );
                &&& r is Err <==> err is Some
                &&& r matches Err(e) ==> err == Some(e)
                &&& r matches Ok((c, consumed)) ==> {
                    &&& self.register_candidate(c, txid, found_view(received)->0->0, address)
                    &&& consumed == self.head().utxo
                }
            }),
    {
        if !(input_coins.len() == 1 && output_coins.len() == 0 && input_coins[0].coin.id.is_btc()
            && input_coins[0].coin.value >= self.game.gamer_register_fee as u128) {
            return Err(ExchangeError::InvalidIntent);
        }
        let head = match self.last_state() {
            Ok(h) => h,
            Err(e) => return Err(e),
        };
        if head.nonce != nonce {
            return Err(ExchangeError::StaleNonce(head.nonce));
        }
        if self.game.get(&address).is_some() {
            return Err(ExchangeError::GamerAlreadyExists);
        }
        let spent_point = match spent {
            None => return Err(ExchangeError::SpendMismatch),
            Some(p) => p,
        };
        match spent_point {
            Some(o) => {
                if !o.same(&head.utxo.outpoint) {
                    return Err(ExchangeError::SpendMismatch);
                }
            },
            None => return Err(ExchangeError::SpendMismatch),
        }
        let received_point = match received {
            None => return Err(ExchangeError::InvalidIntent),
            Some(p) => p,
        };
        if head.utxo.sats > u64::MAX - self.game.gamer_register_fee {
            return Err(ExchangeError::Overflow);
        }
        let sats = head.utxo.sats + self.game.gamer_register_fee;
        let outpoint = match received_point {
            None => return Err(ExchangeError::InvalidIntent),
            Some(o) => o,
        };
        if head.nonce == u64::MAX {
            return Err(ExchangeError::Overflow);
        }
        let candidate = PoolState {
            id: Some(txid),
            nonce: head.nonce + 1,
            utxo: Utxo { outpoint, sats },
            rune_utxo: head.rune_utxo,
            rune_balance: head.rune_balance,
            user_action: UserAction::Register(address),
        };
        Ok((candidate, head.utxo))
    }

    /// Checks a register intent as `validate_register_outpoints` does, reading the
    /// last outpoint text of `pool_utxo_spend` and of `pool_utxo_receive`.
    pub fn validate_register(
        &self,
        txid: Txid,
        nonce: u64,
        pool_utxo_spend: Vec<String>,
        pool_utxo_receive: Vec<String>,
        input_coins: Vec<InputCoin>,
        output_coins: Vec<OutputCoin>,
        address: String,
    ) -> (r: Result<(PoolState, Utxo), ExchangeError>)
        requires
            self.wf(),
        ensures
            ({
                let err = self.register_error(
                    nonce,
                    last_outpoint(pool_utxo_spend@),
                    last_outpoint(pool_utxo_receive@),
                    input_coins@,
                    output_coins@,
                    address@,
                );
                &&& r is Err <==> err is Some
                &&& r matches Err(e) ==> err == Some(e)
                &&& r matches Ok((c, consumed)) ==> {
                    &&& self.register_candidate(
                        c,
                        txid,
                        last_outpoint(pool_utxo_receive@)->0->0,
                        address,
                    )
                    &&& consumed == self.head().utxo
                }
            }),
    {
        let spent = last_parsed(&pool_utxo_spend);
        let received = last_parsed(&pool_utxo_receive);
        self.validate_register_outpoints(
            txid,
            nonce,
            spent,
            received,
            &input_coins,
            &output_coins,
            address,
        )
    }

    /// A pool with the given game rules, no key, no address, no gamers and an empty
    /// ledger.
    pub fn init(
        rune_id: CoinId,
        symbol: String,
        game_duration: u64,
        gamer_register_fee: u64,
        claim_cooling_down: u64,
        claimed_cookies_per_click: u128,
        max_cookies: u128,
        orchestrator: String,
        ii_canister: String,
    ) -> (r: ExchangeState)
        ensures
            r.wf(),
            r.rune_id == rune_id,
            r.symbol == symbol,
            r.key is None,
            r.address is None,
            r.orchestrator == orchestrator,
            r.ii_canister == ii_canister,
            r.states@.len() == 0,
            r.address_principal_map@.len() == 0,
            r.pending is None,
            r.status == (GameStatus::Initializing { key_ready: false, funding_ready: false }),
            r.game.game_duration == game_duration,
            r.game.game_start_time == u64::MAX,
            r.game.gamer_register_fee == gamer_register_fee,
            r.game.claim_cooling_down == claim_cooling_down,
            r.game.cookie_amount_per_claim == claimed_cookies_per_click,
            r.game.max_cookies == max_cookies,
            r.game.claimed_cookies == 0,
            r.game.gamer_view() == Map::<Seq<char>, Gamer>::empty(),
    {
        ExchangeState {
            rune_id,
            symbol,
            key: None,
            address: None,
            game: Game::init(
                game_duration,
                gamer_register_fee,
                claim_cooling_down,
                claimed_cookies_per_click,
                max_cookies,
            ),
            orchestrator,
            states: Vec::new(),
            ii_canister,
            address_principal_map: Vec::new(),
            pending: None,
            status: GameStatus::new(),
        }
    }

    /// Appends `state` to the ledger and applies its action to the gamers.
    pub fn commit(&mut self, state: PoolState)
        requires
            old(self).wf(),
            old(self).states@.len() > 0,
            state.nonce == old(self).head().nonce + 1,
            state.user_action !is Init,
            old(self).pending is None,
        ensures
            final(self).wf(),
            final(self).same_setup(old(self)),
            final(self).address_principal_map@ == old(self).address_principal_map@,
            final(self).pending is None,
            final(self).states@ == old(self).states@.push(state),
            final(self).game.gamer_view() == apply_action(
                old(self).game.gamer_view(),
                state.user_action,
            ),
    {
        match &state.user_action {
            UserAction::Init => {},
            UserAction::Register(a) => {
                self.game.register_new_gamer(a);
            },
            UserAction::Withdraw(a) => {
                let _ = self.game.set_withdrawn(a, true);
            },
        }
        self.states.push(state);
        proof {
            let ss = self.states@;
            assert forall|i: int| 0 < i < ss.len() implies #[trigger] ss[i].nonce == ss[i - 1].nonce
                + 1 by {
                if i < ss.len() - 1 {
                    assert(ss[i] == old(self).states@[i]);
                    assert(ss[i - 1] == old(self).states@[i - 1]);
                }
            }
        }
    }

    /// The transaction `txid` is confirmed: every state before its state is
    /// dropped, so that its state becomes the first.
    pub fn finalize(&mut self, txid: Txid) -> (r: Result<(), ExchangeError>)
        requires
            old(self).wf(),
        ensures
            final(self).wf(),
            final(self).same_setup(old(self)),
            final(self).address_principal_map@ == old(self).address_principal_map@,
            final(self).pending == old(self).pending,
            final(self).game.gamer_view() == old(self).game.gamer_view(),
            r is Err ==> final(self).states@ == old(self).states@,
            (forall|i: int| 0 <= i < old(self).states@.len() ==> !has_id(
                #[trigger] old(self).states@[i],
                txid@,
            )) ==> r == Err::<(), ExchangeError>(ExchangeError::UnknownTransaction)
                && final(self).states@ == old(self).states@,
            forall|k: int| #[trigger]
                first_with_id(old(self).states@, txid@, k) ==> r is Ok && final(self).states@
                    == old(self).states@.subrange(k, old(self).states@.len() as int),
    {
        let idx = match self.position(&txid) {
            Some(i) => i,
            None => return Err(ExchangeError::UnknownTransaction),
        };
        if idx == 0 {
            assert(self.states@ =~= self.states@.subrange(0, self.states@.len() as int));
            return Ok(());
        }
        let kept = self.states.split_off(idx);
        self.states = kept;
        proof {
            let ss = self.states@;
            let os = old(self).states@;
            assert forall|i: int| 0 < i < ss.len() implies #[trigger] ss[i].nonce == ss[i - 1].nonce
                + 1 by {
                assert(ss[i] == os[i + idx]);
                assert(ss[i - 1] == os[i - 1 + idx]);
            }
        }
        Ok(())
    }

    /// The transaction `txid` is rejected: its state and every later one are
    /// removed, the latest first, and the action of each is undone on the gamers.
    /// Where an undo fails, nothing changes. The first state is never rolled back,
    /// nor anything while a candidate holds the admission.
    pub fn rollback(&mut self, txid: Txid) -> (r: Result<(), ExchangeError>)
        requires
            old(self).wf(),
        ensures
            final(self).wf(),
            final(self).same_setup(old(self)),
            final(self).address_principal_map@ == old(self).address_principal_map@,
            final(self).pending == old(self).pending,
            r is Err ==> final(self).states@ == old(self).states@ && final(self).game.gamer_view()
                == old(self).game.gamer_view(),
            old(self).pending is Some ==> r == Err::<(), ExchangeError>(ExchangeError::PoolBusy),
            old(self).pending is None && (forall|i: int|
                0 <= i < old(self).states@.len() ==> !has_id(
                    #[trigger] old(self).states@[i],
                    txid@,
                )) ==> r == Err::<(), ExchangeError>(ExchangeError::UnknownTransaction),
            old(self).pending is None && first_with_id(old(self).states@, txid@, 0) ==> r == Err::<
                (),
                ExchangeError,
            >(ExchangeError::CannotRollbackRoot),
            forall|k: int|
                #![trigger first_with_id(old(self).states@, txid@, k)]
                old(self).pending is None && 0 < k && first_with_id(old(self).states@, txid@, k)
                    ==> match undo_actions(
                    old(self).game.gamer_view(),
                    actions_of(old(self).states@.subrange(k, old(self).states@.len() as int)),
                ) {
                    Ok(m) => r is Ok && final(self).states@ == old(self).states@.subrange(0, k)
                        && final(self).game.gamer_view() == m,
                    Err(e) => r == Err::<(), ExchangeError>(e),
                },
    {
        if self.pending.is_some() {
            return Err(ExchangeError::PoolBusy);
        }
        let idx = match self.position(&txid) {
            Some(i) => i,
            None => return Err(ExchangeError::UnknownTransaction),
        };
        if idx == 0 {
            return Err(ExchangeError::CannotRollbackRoot);
        }
        let saved = self.game.copy_gamers();
        let n = self.states.len();
        let mut j = n;
        while j > idx
            invariant
                idx <= j <= n,
                n == self.states@.len(),
                self.states@ == old(self).states@,
                self.pending is None,
                self.game.wf(),
                self.game.same_rules(&old(self).game),
                self.game.claimed_cookies == old(self).game.claimed_cookies,
                self.rune_id == old(self).rune_id,
                self.symbol == old(self).symbol,
                self.key == old(self).key,
                self.address == old(self).address,
                self.orchestrator == old(self).orchestrator,
                self.ii_canister == old(self).ii_canister,
                self.status == old(self).status,
                self.address_principal_map@ == old(self).address_principal_map@,
                saved@ == old(self).game.gamers@,
                old(self).wf(),
                old(self).pending is None,
                first_with_id(old(self).states@, txid@, idx as int),
                !first_with_id(old(self).states@, txid@, 0),
                undo_actions(
                    self.game.gamer_view(),
                    actions_of(self.states@.subrange(idx as int, j as int)),
                ) == undo_actions(
                    old(self).game.gamer_view(),
                    actions_of(old(self).states@.subrange(idx as int, n as int)),
                ),
            decreases j,
        {
            proof {
                let acts = actions_of(self.states@.subrange(idx as int, j as int));
                assert(acts.last() == self.states@[j - 1].user_action);
                assert(acts.drop_last() =~= actions_of(
                    self.states@.subrange(idx as int, j - 1),
                ));
            }
            let act = self.states[j - 1].user_action.duplicate();
            match &act {
                UserAction::Init => {
                    self.game.gamers = saved;
                    return Err(ExchangeError::CannotRollbackGenesis);
                },
                UserAction::Register(a) => {
                    self.game.remove(a);
                },
                UserAction::Withdraw(a) => {
                    if self.game.set_withdrawn(a, false).is_err() {
                        self.game.gamers = saved;
                        return Err(ExchangeError::GamerNotFound);
                    }
                },
            }
            j = j - 1;
        }
        proof {
            assert(actions_of(self.states@.subrange(idx as int, idx as int)).len() == 0);
        }
        self.states.truncate(idx);
        proof {
            let ss = self.states@;
            let os = old(self).states@;
            assert forall|i: int| 0 < i < ss.len() implies #[trigger] ss[i].nonce == ss[i - 1].nonce
                + 1 by {
                assert(ss[i] == os[i]);
                assert(ss[i - 1] == os[i - 1]);
            }
        }
        Ok(())
    }

    /// Where the first state of the transaction `txid` stands, if any.
    pub fn position(&self, txid: &Txid) -> (r: Option<usize>)
        ensures
            r is None <==> forall|i: int| 0 <= i < self.states@.len() ==> !has_id(
                #[trigger] self.states@[i],
                txid@,
            ),
            r matches Some(k) ==> first_with_id(self.states@, txid@, k as int),
            forall|k: int| #[trigger] first_with_id(self.states@, txid@, k) ==> r == Some(k as usize),
    {
        let mut i: usize = 0;
        while i < self.states.len()
            invariant
                0 <= i <= self.states@.len(),
                forall|j: int| 0 <= j < i ==> !has_id(#[trigger] self.states@[j], txid@),
            decreases self.states@.len() - i,
        {
            let found = match &self.states[i].id {
                Some(x) => x.same(txid),
                None => false,
            };
            if found {
                proof {
                    assert forall|k: int| #[trigger] first_with_id(self.states@, txid@, k) implies k
                        == i by {
                        if k < i {
                            assert(!has_id(self.states@[k], txid@));
                        } else if k > i {
                            assert(!has_id(self.states@[i as int], txid@));
                        }
                    }
                }
                return Some(i);
            }
            i = i + 1;
        }
        None
    }

    /// Whether the pool's invariant holds, as after reading it back from storage.
    pub fn is_well_formed(&self) -> (r: bool)
        ensures
            r == self.wf(),
    {
        if !self.game.is_well_formed() {
            return false;
        }
        let n = self.states.len();
        let mut i: usize = 1;
        while i < n
            invariant
                n == self.states@.len(),
                1 <= i,
                i <= n || n == 0,
                forall|x: int| 0 < x < i && x < n ==> #[trigger] self.states@[x].nonce
                    == self.states@[x - 1].nonce + 1,
            decreases n - i,
        {
            if self.states[i - 1].nonce == u64::MAX || self.states[i].nonce != self.states[i
                - 1].nonce + 1 {
                assert(self.states@[i as int].nonce != self.states@[i - 1].nonce + 1);
                return false;
            }
            i = i + 1;
        }
        match &self.pending {
            None => true,
            Some(c) => {
                if n == 0 || self.states[n - 1].nonce == u64::MAX {
                    return false;
                }
                c.nonce == self.states[n - 1].nonce + 1 && !matches!(c.user_action, UserAction::Init)
            },
        }
    }

    /// The head of the ledger, or `LastStateNotFound` where it is empty.
    pub fn last_state(&self) -> (r: Result<PoolState, ExchangeError>)
        ensures
            self.states@.len() == 0 <==> r is Err,
            r matches Err(e) ==> e == ExchangeError::LastStateNotFound,
            r matches Ok(s) ==> s == self.head(),
    {
        let n = self.states.len();
        if n == 0 {
            Err(ExchangeError::LastStateNotFound)
        } else {
            Ok(self.states[n - 1].duplicate())
        }
    }
}

} // verus!
