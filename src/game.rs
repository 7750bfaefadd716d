use vstd::prelude::*;
use crate::error::ExchangeError;

verus! {

/// One player's standing in the reward game.
#[derive(Clone, Copy, Debug, PartialEq, Eq, Structural)]
pub struct Gamer {
    /// Reward units claimed so far.
    pub cookies: u128,
    /// When the gamer last claimed, in seconds.
    pub last_click_time: u64,
    /// Whether the gamer has taken the reward out.
    pub is_withdrawn: bool,
}

impl Gamer {
    pub open spec fn spec_new() -> Gamer {
        Gamer { cookies: 0, last_click_time: 0, is_withdrawn: false }
    }

    /// A gamer who has claimed nothing yet.
    pub fn new() -> (r: Gamer)
        ensures
            r == Gamer::spec_new(),
    {
        Gamer { cookies: 0, last_click_time: 0, is_withdrawn: false }
    }
}

/// A gamer together with the address that identifies them.
#[derive(Debug)]
pub struct GamerEntry {
    pub address: String,
    pub gamer: Gamer,
}

/// Whether some entry of `es` has the address `a`.
pub open spec fn has_address(es: Seq<GamerEntry>, a: Seq<char>) -> bool {
    exists|i: int| 0 <= i < es.len() && #[trigger] es[i].address@ == a
}

/// No two entries share an address.
pub open spec fn unique_addresses(es: Seq<GamerEntry>) -> bool {
    forall|i: int, j: int|
        0 <= i < es.len() && 0 <= j < es.len() && i != j ==> es[i].address@ != es[j].address@
}

/// The entries as a map from address to gamer.
pub open spec fn gamer_map(es: Seq<GamerEntry>) -> Map<Seq<char>, Gamer> {
    Map::new(
        |a: Seq<char>| has_address(es, a),
        |a: Seq<char>| es[choose|i: int| 0 <= i < es.len() && #[trigger] es[i].address@ == a].gamer,
    )
}

proof fn lemma_map_at(es: Seq<GamerEntry>, i: int)
    requires
        unique_addresses(es),
        0 <= i < es.len(),
    ensures
        gamer_map(es).contains_key(es[i].address@),
        gamer_map(es)[es[i].address@] == es[i].gamer,
{
    let a = es[i].address@;
    assert(has_address(es, a));
    let j = choose|j: int| 0 <= j < es.len() && #[trigger] es[j].address@ == a;
    assert(j == i);
}

proof fn lemma_map_update(es: Seq<GamerEntry>, i: int, e: GamerEntry)
    requires
        unique_addresses(es),
        0 <= i < es.len(),
        e.address@ == es[i].address@,
    ensures
        unique_addresses(es.update(i, e)),
        gamer_map(es.update(i, e)) =~= gamer_map(es).insert(e.address@, e.gamer),
{
    let ns = es.update(i, e);
    assert(unique_addresses(ns)) by {
        assert forall|x: int, y: int|
            0 <= x < ns.len() && 0 <= y < ns.len() && x != y implies ns[x].address@ != ns[y].address@ by {
            assert(ns[x].address@ == es[x].address@);
            assert(ns[y].address@ == es[y].address@);
        }
    }
    let m = gamer_map(es).insert(e.address@, e.gamer);
    assert forall|a: Seq<char>| #[trigger] gamer_map(ns).contains_key(a) <==> m.contains_key(a) by {
        if has_address(ns, a) {
            let x = choose|x: int| 0 <= x < ns.len() && #[trigger] ns[x].address@ == a;
            if x != i {
                assert(es[x].address@ == a);
            }
        }
        if has_address(es, a) {
            let x = choose|x: int| 0 <= x < es.len() && #[trigger] es[x].address@ == a;
            assert(ns[x].address@ == a);
        }
        if a == e.address@ {
            assert(ns[i].address@ == a);
        }
    }
    assert forall|a: Seq<char>| #[trigger] gamer_map(ns).contains_key(a) implies gamer_map(ns)[a] == m[a] by {
        let x = choose|x: int| 0 <= x < ns.len() && #[trigger] ns[x].address@ == a;
        lemma_map_at(ns, x);
        if x != i {
            assert(es[x] == ns[x]);
            lemma_map_at(es, x);
        }
    }
}

proof fn lemma_map_push(es: Seq<GamerEntry>, e: GamerEntry)
    requires
        unique_addresses(es),
        !has_address(es, e.address@),
    ensures
        unique_addresses(es.push(e)),
        gamer_map(es.push(e)) =~= gamer_map(es).insert(e.address@, e.gamer),
{
    let ns = es.push(e);
    let n = es.len() as int;
    assert(unique_addresses(ns)) by {
        assert forall|x: int, y: int|
            0 <= x < ns.len() && 0 <= y < ns.len() && x != y implies ns[x].address@ != ns[y].address@ by {
            if x < n && y < n {
                assert(ns[x] == es[x] && ns[y] == es[y]);
            } else if x < n {
                assert(ns[x] == es[x]);
            } else {
                assert(ns[y] == es[y]);
            }
        }
    }
    let m = gamer_map(es).insert(e.address@, e.gamer);
    assert forall|a: Seq<char>| #[trigger] gamer_map(ns).contains_key(a) <==> m.contains_key(a) by {
        if has_address(ns, a) {
            let x = choose|x: int| 0 <= x < ns.len() && #[trigger] ns[x].address@ == a;
            if x < n {
                assert(es[x].address@ == a);
            }
        }
        if has_address(es, a) {
            let x = choose|x: int| 0 <= x < es.len() && #[trigger] es[x].address@ == a;
            assert(ns[x].address@ == a);
        }
        if a == e.address@ {
            assert(ns[n].address@ == a);
        }
    }
    assert forall|a: Seq<char>| #[trigger] gamer_map(ns).contains_key(a) implies gamer_map(ns)[a] == m[a] by {
        let x = choose|x: int| 0 <= x < ns.len() && #[trigger] ns[x].address@ == a;
        lemma_map_at(ns, x);
        if x < n {
            assert(es[x] == ns[x]);
            lemma_map_at(es, x);
        }
    }
}

proof fn lemma_map_remove(es: Seq<GamerEntry>, i: int)
    requires
        unique_addresses(es),
        0 <= i < es.len(),
    ensures
        unique_addresses(es.remove(i)),
        gamer_map(es.remove(i)) =~= gamer_map(es).remove(es[i].address@),
{
    let ns = es.remove(i);
    let r = es[i].address@;
    assert(forall|x: int| 0 <= x < ns.len() ==> #[trigger] ns[x] == es[if x < i { x } else { x + 1 }]);
    assert(unique_addresses(ns)) by {
        assert forall|x: int, y: int|
            0 <= x < ns.len() && 0 <= y < ns.len() && x != y implies ns[x].address@ != ns[y].address@ by {
            assert(ns[x] == es[if x < i { x } else { x + 1 }]);
            assert(ns[y] == es[if y < i { y } else { y + 1 }]);
        }
    }
    let m = gamer_map(es).remove(r);
    assert forall|a: Seq<char>| #[trigger] gamer_map(ns).contains_key(a) <==> m.contains_key(a) by {
        if has_address(ns, a) {
            let x = choose|x: int| 0 <= x < ns.len() && #[trigger] ns[x].address@ == a;
            let ox = if x < i { x } else { x + 1 };
            assert(es[ox].address@ == a);
        }
        if has_address(es, a) && a != r {
            let x = choose|x: int| 0 <= x < es.len() && #[trigger] es[x].address@ == a;
            let nx = if x < i { x } else { x - 1 };
            assert(ns[nx] == es[x]);
            assert(ns[nx].address@ == a);
        }
    }
    assert forall|a: Seq<char>| #[trigger] gamer_map(ns).contains_key(a) implies gamer_map(ns)[a] == m[a] by {
        let x = choose|x: int| 0 <= x < ns.len() && #[trigger] ns[x].address@ == a;
        lemma_map_at(ns, x);
        let ox = if x < i { x } else { x + 1 };
        assert(ns[x] == es[ox]);
        lemma_map_at(es, ox);
    }
}

/// The reward game: its rules, the pool-wide count of claimed rewards and the gamers.
#[derive(Debug)]
pub struct Game {
    /// How long the game runs, in seconds.
    pub game_duration: u64,
    /// When the game started, in seconds; `u64::MAX` until it starts.
    pub game_start_time: u64,
    /// The satoshis a gamer pays to register.
    pub gamer_register_fee: u64,
    /// The seconds a gamer waits between claims.
    pub claim_cooling_down: u64,
    /// The reward units one claim gives.
    pub cookie_amount_per_claim: u128,
    /// The reward units that all claims together may give.
    pub max_cookies: u128,
    /// The reward units claimed so far, over all gamers.
    pub claimed_cookies: u128,
    /// The gamers, one entry per address.
    pub gamers: Vec<GamerEntry>,
}

impl Game {
    pub open spec fn wf(&self) -> bool {
        &&& unique_addresses(self.gamers@)
        &&& self.claimed_cookies <= self.max_cookies
    }

    /// The gamers by address.
    pub open spec fn gamer_view(&self) -> Map<Seq<char>, Gamer> {
        gamer_map(self.gamers@)
    }

    /// The game's rules are those of `other`.
    pub open spec fn same_rules(&self, other: &Game) -> bool {
        &&& self.same_terms(other)
        &&& self.game_start_time == other.game_start_time
    }

    /// The game's rules, but for its start time, are those of `other`.
    pub open spec fn same_terms(&self, other: &Game) -> bool {
        &&& self.game_duration == other.game_duration
        &&& self.gamer_register_fee == other.gamer_register_fee
        &&& self.claim_cooling_down == other.claim_cooling_down
        &&& self.cookie_amount_per_claim == other.cookie_amount_per_claim
        &&& self.max_cookies == other.max_cookies
    }

    pub open spec fn spec_is_end(&self, now: u64) -> bool {
        now > self.game_start_time + self.game_duration
    }

    pub open spec fn remaining(&self) -> int {
        self.max_cookies - self.claimed_cookies
    }

    /// When `g` may claim again.
    pub open spec fn retry_time(&self, g: Gamer) -> int {
        g.last_click_time + self.claim_cooling_down
    }

    /// The error that a claim by `a` at `now` meets, if any.
    pub open spec fn claim_error(&self, a: Seq<char>, now: u64) -> Option<ExchangeError> {
        if self.remaining() < self.cookie_amount_per_claim {
            Some(ExchangeError::RewardPoolExhausted(self.remaining() as u128))
        } else if !self.gamer_view().contains_key(a) {
            Some(ExchangeError::GamerNotFound)
        } else if now < self.retry_time(self.gamer_view()[a]) {
            Some(ExchangeError::CoolingDown(self.retry_time(self.gamer_view()[a]) as u128))
        } else if self.gamer_view()[a].cookies + self.cookie_amount_per_claim > u128::MAX {
            Some(ExchangeError::Overflow)
        } else {
            None
        }
    }

    /// A game that has not started, with no gamers and nothing claimed.
    pub fn init(
        game_duration: u64,
        gamer_register_fee: u64,
        claim_cooling_down: u64,
        claimed_cookies_per_click: u128,
        max_cookies: u128,
    ) -> (r: Game)
        ensures
            r.wf(),
            r.game_duration == game_duration,
            r.game_start_time == u64::MAX,
            r.gamer_register_fee == gamer_register_fee,
            r.claim_cooling_down == claim_cooling_down,
            r.cookie_amount_per_claim == claimed_cookies_per_click,
            r.max_cookies == max_cookies,
            r.claimed_cookies == 0,
            r.gamer_view() == Map::<Seq<char>, Gamer>::empty(),
    {
        let r = Game {
            game_duration,
            game_start_time: u64::MAX,
            gamer_register_fee,
            claim_cooling_down,
            cookie_amount_per_claim: claimed_cookies_per_click,
            max_cookies,
            claimed_cookies: 0,
            gamers: Vec::new(),
        };
        assert(r.gamer_view() =~= Map::<Seq<char>, Gamer>::empty());
        r
    }

    /// Where the entry of `a` stands, if there is one.
    pub fn find(&self, a: &String) -> (r: Option<usize>)
        ensures
            r is None <==> !has_address(self.gamers@, a@),
            r matches Some(i) ==> i < self.gamers@.len() && self.gamers@[i as int].address@ == a@,
    {
        let mut i: usize = 0;
        while i < self.gamers.len()
            invariant
                0 <= i <= self.gamers@.len(),
                forall|j: int| 0 <= j < i ==> #[trigger] self.gamers@[j].address@ != a@,
            decreases self.gamers@.len() - i,
        {
            if self.gamers[i].address == *a {
                return Some(i);
            }
            i = i + 1;
        }
        None
    }

    /// The gamer registered under `a`, if any.
    pub fn get(&self, a: &String) -> (r: Option<Gamer>)
        requires
            self.wf(),
        ensures
            r is None <==> !self.gamer_view().contains_key(a@),
            r matches Some(g) ==> g == self.gamer_view()[a@],
    {
        match self.find(a) {
            Some(i) => {
                proof {
                    lemma_map_at(self.gamers@, i as int);
                }
                Some(self.gamers[i].gamer)
            },
            None => None,
        }
    }

    /// Sets the gamer under `a`, adding an entry if there is none.
    fn put(&mut self, a: &String, g: Gamer)
        requires
            old(self).wf(),
        ensures
            final(self).wf(),
            final(self).same_rules(old(self)),
            final(self).claimed_cookies == old(self).claimed_cookies,
            final(self).gamer_view() == old(self).gamer_view().insert(a@, g),
    {
        let e = GamerEntry { address: a.clone(), gamer: g };
        match self.find(a) {
            Some(i) => {
                proof {
                    lemma_map_update(self.gamers@, i as int, e);
                }
                self.gamers.set(i, e);
            },
            None => {
                proof {
                    lemma_map_push(self.gamers@, e);
                }
                self.gamers.push(e);
            },
        }
    }

    /// Deletes the gamer under `a`, if there is one.
    pub fn remove(&mut self, a: &String)
        requires
            old(self).wf(),
        ensures
            final(self).wf(),
            final(self).same_rules(old(self)),
            final(self).claimed_cookies == old(self).claimed_cookies,
            final(self).gamer_view() == old(self).gamer_view().remove(a@),
    {
        match self.find(a) {
            Some(i) => {
                proof {
                    lemma_map_remove(self.gamers@, i as int);
                }
                self.gamers.remove(i);
            },
            None => {
                assert(self.gamer_view() =~= self.gamer_view().remove(a@));
            },
        }
    }

    /// Sets the withdrawn flag of `a`'s entry.
    pub fn set_withdrawn(&mut self, a: &String, flag: bool) -> (r: Result<(), ExchangeError>)
        requires
            old(self).wf(),
        ensures
            final(self).wf(),
            final(self).same_rules(old(self)),
            final(self).claimed_cookies == old(self).claimed_cookies,
            r is Err <==> !old(self).gamer_view().contains_key(a@),
            r matches Err(e) ==> e == ExchangeError::GamerNotFound && final(self).gamer_view()
                == old(self).gamer_view(),
            r is Ok ==> final(self).gamer_view() == old(self).gamer_view().insert(
                a@,
                Gamer { is_withdrawn: flag, ..old(self).gamer_view()[a@] },
            ),
    {
        match self.get(a) {
            Some(g) => {
                self.put(a, Gamer { is_withdrawn: flag, ..g });
                Ok(())
            },
            None => Err(ExchangeError::GamerNotFound),
        }
    }

    /// A copy of the gamer entries.
    pub fn copy_gamers(&self) -> (r: Vec<GamerEntry>)
        ensures
            r@ == self.gamers@,
    {
        let mut r: Vec<GamerEntry> = Vec::new();
        let mut i: usize = 0;
        while i < self.gamers.len()
            invariant
                0 <= i <= self.gamers@.len(),
                r@ == self.gamers@.subrange(0, i as int),
            decreases self.gamers@.len() - i,
        {
            let e = &self.gamers[i];
            r.push(GamerEntry { address: e.address.clone(), gamer: e.gamer });
            proof {
                assert(r@ =~= self.gamers@.subrange(0, i + 1));
            }
            i = i + 1;
        }
        proof {
            assert(r@ =~= self.gamers@);
        }
        r
    }

    /// Whether the game's invariant holds.
    pub fn is_well_formed(&self) -> (r: bool)
        ensures
            r == self.wf(),
    {
        if self.claimed_cookies > self.max_cookies {
            return false;
        }
        let n = self.gamers.len();
        let mut i: usize = 0;
        while i < n
            invariant
                n == self.gamers@.len(),
                0 <= i <= n,
                forall|x: int, y: int|
                    0 <= x < i && 0 <= y < n && x != y ==> self.gamers@[x].address@
                        != self.gamers@[y].address@,
            decreases n - i,
        {
            let mut j: usize = 0;
            while j < n
                invariant
                    n == self.gamers@.len(),
                    0 <= i < n,
                    0 <= j <= n,
                    forall|x: int, y: int|
                        0 <= x < i && 0 <= y < n && x != y ==> self.gamers@[x].address@
                            != self.gamers@[y].address@,
                    forall|y: int| 0 <= y < j && y != i ==> self.gamers@[i as int].address@
                        != self.gamers@[y].address@,
                decreases n - j,
            {
                if j != i && self.gamers[i].address == self.gamers[j].address {
                    return false;
                }
                j = j + 1;
            }
            i = i + 1;
        }
        true
    }

    /// Enters `a` as a gamer who has claimed nothing; an earlier entry is replaced.
    pub fn register_new_gamer(&mut self, a: &String)
        requires
            old(self).wf(),
        ensures
            final(self).wf(),
            final(self).same_rules(old(self)),
            final(self).claimed_cookies == old(self).claimed_cookies,
            final(self).gamer_view() == old(self).gamer_view().insert(a@, Gamer::spec_new()),
    {
        self.put(a, Gamer::new());
    }

    /// Whether the game is over at `now`.
    pub fn is_end(&self, now: u64) -> (r: bool)
        ensures
            r == self.spec_is_end(now),
    {
        now as u128 > self.game_start_time as u128 + self.game_duration as u128
    }

    /// Whether the game has started at `now`.
    pub fn is_start(&self, now: u64) -> (r: bool)
        ensures
            r == (now > self.game_start_time),
    {
        now > self.game_start_time
    }

    /// Whether `a` may claim at `now`, and if not, why.
    pub fn able_claim(&self, a: &String, now: u64) -> (r: Result<Gamer, ExchangeError>)
        requires
            self.wf(),
        ensures
            r is Err <==> self.claim_error(a@, now) is Some,
            r matches Err(e) ==> self.claim_error(a@, now) == Some(e),
            r matches Ok(g) ==> g == self.gamer_view()[a@],
    {
        let remaining = self.max_cookies - self.claimed_cookies;
        if remaining < self.cookie_amount_per_claim {
            return Err(ExchangeError::RewardPoolExhausted(remaining));
        }
        match self.get(a) {
            None => Err(ExchangeError::GamerNotFound),
            Some(g) => {
                let retry = g.last_click_time as u128 + self.claim_cooling_down as u128;
                if (now as u128) < retry {
                    Err(ExchangeError::CoolingDown(retry))
                } else if g.cookies > u128::MAX - self.cookie_amount_per_claim {
                    Err(ExchangeError::Overflow)
                } else {
                    Ok(g)
                }
            },
        }
    }

    /// `a` claims one reward at `now`: the gamer's balance and the pool-wide count
    /// grow by one claim's amount, and the claim time is recorded. Returns the new
    /// balance.
    pub fn claim(&mut self, a: &String, now: u64) -> (r: Result<u128, ExchangeError>)
        requires
            old(self).wf(),
        ensures
            final(self).wf(),
            final(self).same_rules(old(self)),
            r is Err <==> old(self).claim_error(a@, now) is Some,
            r matches Err(e) ==> old(self).claim_error(a@, now) == Some(e)
                && final(self).claimed_cookies == old(self).claimed_cookies
                && final(self).gamer_view() == old(self).gamer_view(),
            r matches Ok(b) ==> {
                let g = old(self).gamer_view()[a@];
                &&& b == g.cookies + old(self).cookie_amount_per_claim
                &&& final(self).claimed_cookies == old(self).claimed_cookies
                    + old(self).cookie_amount_per_claim
                &&& final(self).gamer_view() == old(self).gamer_view().insert(
                    a@,
                    Gamer { cookies: b, last_click_time: now, is_withdrawn: g.is_withdrawn },
                )
            },
    {
        let g = match self.able_claim(a, now) {
            Ok(g) => g,
            Err(e) => return Err(e),
        };
        let cookies = g.cookies + self.cookie_amount_per_claim;
        self.claimed_cookies = self.claimed_cookies + self.cookie_amount_per_claim;
        self.put(a, Gamer { cookies, last_click_time: now, is_withdrawn: g.is_withdrawn });
        Ok(cookies)
    }

    /// `a` takes out the reward once the game is over. Returns the balance.
    pub fn withdraw(&mut self, a: &String, now: u64) -> (r: Result<u128, ExchangeError>)
        requires
            old(self).wf(),
        ensures
            final(self).wf(),
            final(self).same_rules(old(self)),
            final(self).claimed_cookies == old(self).claimed_cookies,
            !old(self).gamer_view().contains_key(a@) ==> r == Err::<u128, ExchangeError>(
                ExchangeError::GamerNotFound,
            ),
            old(self).gamer_view().contains_key(a@) && !old(self).spec_is_end(now) ==> r
                == Err::<u128, ExchangeError>(ExchangeError::GameNotEnded),
            old(self).gamer_view().contains_key(a@) && old(self).spec_is_end(now)
                && old(self).gamer_view()[a@].is_withdrawn ==> r == Err::<u128, ExchangeError>(
                ExchangeError::AlreadyWithdrawn,
            ),
            old(self).gamer_view().contains_key(a@) && old(self).spec_is_end(now)
                && !old(self).gamer_view()[a@].is_withdrawn ==> r is Ok,
            r is Err ==> final(self).gamer_view() == old(self).gamer_view(),
            r matches Ok(b) ==> {
                let g = old(self).gamer_view()[a@];
                &&& old(self).gamer_view().contains_key(a@)
                &&& old(self).spec_is_end(now)
                &&& !g.is_withdrawn
                &&& b == g.cookies
                &&& final(self).gamer_view() == old(self).gamer_view().insert(
                    a@,
                    Gamer { is_withdrawn: true, ..g },
                )
            },
    {
        let g = match self.get(a) {
            Some(g) => g,
            None => return Err(ExchangeError::GamerNotFound),
        };
        if !self.is_end(now) {
            return Err(ExchangeError::GameNotEnded);
        }
        if g.is_withdrawn {
            return Err(ExchangeError::AlreadyWithdrawn);
        }
        self.put(a, Gamer { is_withdrawn: true, ..g });
        Ok(g.cookies)
    }
}

} // verus!
