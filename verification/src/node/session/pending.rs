use std::collections::HashMap;
use vstd::prelude::*;
use crate::node::session::types::{PendingPlayer, PlayerToken};

verus! {

broadcast use vstd::std_specs::hash::group_hash_axioms;

/// The pending registrations as a mathematical value: the record behind each
/// outstanding token, and the one token that each player holds.
pub struct PendingView {
    pub tokens: Map<u128, PendingPlayer>,
    pub by_player: Map<i32, u128>,
}

impl PendingView {
    pub open spec fn empty() -> PendingView {
        PendingView { tokens: Map::empty(), by_player: Map::empty() }
    }

    /// Tokens and players stand in one-to-one correspondence: every player with
    /// a token is the player of that token's record, and every record's player
    /// holds exactly that token.
    pub open spec fn wf(self) -> bool {
        &&& forall|p: i32| #[trigger]
            self.by_player.contains_key(p) ==> self.tokens.contains_key(self.by_player[p])
                && self.tokens[self.by_player[p]].player_id == p
        &&& forall|t: u128| #[trigger]
            self.tokens.contains_key(t) ==> self.by_player.contains_key(self.tokens[t].player_id)
                && self.by_player[self.tokens[t].player_id] == t
    }

    /// The record that a new token for `player_id` would push out, if there is one.
    pub open spec fn stale_of(self, player_id: i32) -> Option<PendingPlayer> {
        if self.by_player.contains_key(player_id) && self.tokens.contains_key(
            self.by_player[player_id],
        ) {
            Some(self.tokens[self.by_player[player_id]])
        } else {
            None
        }
    }

    /// Issues `token` to the player of `player`: the player's earlier token, if
    /// any, leaves together with its record.
    pub open spec fn register_one(self, token: u128, player: PendingPlayer) -> PendingView {
        let kept = if self.by_player.contains_key(player.player_id) {
            self.tokens.remove(self.by_player[player.player_id])
        } else {
            self.tokens
        };
        PendingView {
            tokens: kept.insert(token, player),
            by_player: self.by_player.insert(player.player_id, token),
        }
    }

    /// Issues the tokens of `pairs` one after the other, first to last.
    pub open spec fn register_all(self, pairs: Seq<(PlayerToken, PendingPlayer)>) -> PendingView
        decreases pairs.len(),
    {
        if pairs.len() == 0 {
            self
        } else {
            self.register_all(pairs.drop_last()).register_one(pairs.last().0@, pairs.last().1)
        }
    }

    /// The records pushed out while `pairs` are issued, in the order in which they leave.
    pub open spec fn stale_all(self, pairs: Seq<(PlayerToken, PendingPlayer)>) -> Seq<
        PendingPlayer,
    >
        decreases pairs.len(),
    {
        if pairs.len() == 0 {
            Seq::empty()
        } else {
            let before = self.stale_all(pairs.drop_last());
            match self.register_all(pairs.drop_last()).stale_of(pairs.last().1.player_id) {
                Some(p) => before.push(p),
                None => before,
            }
        }
    }

    /// No two of `tokens` are equal and none of them is outstanding.
    pub open spec fn fresh(self, tokens: Seq<PlayerToken>) -> bool {
        &&& forall|i: int, j: int|
            0 <= i < j < tokens.len() ==> #[trigger] tokens[i]@ != #[trigger] tokens[j]@
        &&& forall|i: int| 0 <= i < tokens.len() ==> !self.tokens.contains_key(#[trigger] tokens[i]@)
    }
}

/// The tokens of `pairs`, in order.
pub open spec fn tokens_of(pairs: Seq<(PlayerToken, PendingPlayer)>) -> Seq<PlayerToken> {
    Seq::new(pairs.len(), |i: int| pairs[i].0)
}

/// Issuing one token that is not outstanding keeps the correspondence of tokens and players.
pub proof fn lemma_register_one_wf(s: PendingView, token: u128, player: PendingPlayer)
    requires
        s.wf(),
        !s.tokens.contains_key(token),
    ensures
        s.register_one(token, player).wf(),
        s.register_one(token, player).tokens.dom().subset_of(s.tokens.dom().insert(token)),
        s.register_one(token, player).tokens.contains_key(token),
        s.register_one(token, player).tokens[token] == player,
        s.register_one(token, player).by_player[player.player_id] == token,
{
    let r = s.register_one(token, player);
    assert forall|p: i32| #[trigger] r.by_player.contains_key(p) implies r.tokens.contains_key(
        r.by_player[p],
    ) && r.tokens[r.by_player[p]].player_id == p by {
        if p != player.player_id {
            assert(s.by_player.contains_key(p));
            assert(s.tokens.contains_key(s.by_player[p]));
        }
    }
    assert forall|t: u128| #[trigger] r.tokens.contains_key(t) implies r.by_player.contains_key(
        r.tokens[t].player_id,
    ) && r.by_player[r.tokens[t].player_id] == t by {
        if t != token {
            assert(s.tokens.contains_key(t));
        }
    }
}

/// Issuing fresh tokens keeps the correspondence of tokens and players, and
/// leaves outstanding only tokens that were outstanding before or were issued now.
pub proof fn lemma_register_all_wf(s: PendingView, pairs: Seq<(PlayerToken, PendingPlayer)>)
    requires
        s.wf(),
        s.fresh(tokens_of(pairs)),
    ensures
        s.register_all(pairs).wf(),
        forall|t: u128| #[trigger]
            s.register_all(pairs).tokens.contains_key(t) ==> s.tokens.contains_key(t) || exists|
                i: int,
            |
                0 <= i < pairs.len() && #[trigger] pairs[i].0@ == t,
    decreases pairs.len(),
{
    if pairs.len() > 0 {
        let before = pairs.drop_last();
        let last = pairs.last();
        assert forall|i: int, j: int| 0 <= i < j < before.len() implies #[trigger] tokens_of(
            before,
        )[i]@ != #[trigger] tokens_of(before)[j]@ by {
            assert(tokens_of(pairs)[i]@ != tokens_of(pairs)[j]@);
        }
        assert forall|i: int| 0 <= i < before.len() implies !s.tokens.contains_key(
            #[trigger] tokens_of(before)[i]@,
        ) by {
            assert(!s.tokens.contains_key(tokens_of(pairs)[i]@));
        }
        lemma_register_all_wf(s, before);
        let mid = s.register_all(before);
        assert(!mid.tokens.contains_key(last.0@)) by {
            if mid.tokens.contains_key(last.0@) {
                assert(!s.tokens.contains_key(tokens_of(pairs)[pairs.len() - 1]@));
                let i = choose|i: int| 0 <= i < before.len() && #[trigger] before[i].0@ == last.0@;
                assert(tokens_of(pairs)[i]@ != tokens_of(pairs)[pairs.len() - 1]@);
            }
        }
        lemma_register_one_wf(mid, last.0@, last.1);
        let r = s.register_all(pairs);
        assert forall|t: u128| #[trigger] r.tokens.contains_key(t) implies s.tokens.contains_key(t)
            || exists|i: int| 0 <= i < pairs.len() && #[trigger] pairs[i].0@ == t by {
            if t == last.0@ {
                assert(pairs[pairs.len() - 1].0@ == t);
            } else {
                assert(mid.tokens.dom().insert(last.0@).contains(t));
                assert(mid.tokens.contains_key(t));
                if !s.tokens.contains_key(t) {
                    let i = choose|i: int| 0 <= i < before.len() && #[trigger] before[i].0@ == t;
                    assert(pairs[i].0@ == t);
                }
            }
        }
    }
}

/// The registry of players that hold a token and have not connected yet.
#[derive(Debug)]
pub struct PendingPlayerRegistry {
    map: HashMap<u128, PendingPlayer>,
    player_token: HashMap<i32, u128>,
}

impl View for PendingPlayerRegistry {
    type V = PendingView;

    closed spec fn view(&self) -> PendingView {
        PendingView { tokens: self.map@, by_player: self.player_token@ }
    }
}

impl PendingPlayerRegistry {
    pub fn new() -> (registry: Self)
        ensures
            registry@ == PendingView::empty(),
    {
        PendingPlayerRegistry { map: HashMap::new(), player_token: HashMap::new() }
    }

    /// Issues the tokens of `pairs` in order and hands back the records they pushed out.
    pub fn register(&mut self, pairs: Vec<(PlayerToken, PendingPlayer)>) -> (stale_players: Vec<
        PendingPlayer,
    >)
        ensures
            final(self)@ == old(self)@.register_all(pairs@),
            stale_players@ == old(self)@.stale_all(pairs@),
    {
        let mut stale_players: Vec<PendingPlayer> = Vec::new();
        let mut i: usize = 0;
        while i < pairs.len()
            invariant
                i <= pairs.len(),
                self@ == old(self)@.register_all(pairs@.take(i as int)),
                stale_players@ == old(self)@.stale_all(pairs@.take(i as int)),
            decreases pairs.len() - i,
        {
            proof {
                assert(pairs@.take(i + 1).drop_last() =~= pairs@.take(i as int));
            }
            let ghost before = self@;
            let (token, player) = pairs[i];
            let stale_player = match self.player_token.insert(player.player_id, token.value) {
                Some(prev_token) => self.map.remove(&prev_token),
                None => None,
            };
            self.map.insert(token.value, player);
            proof {
                assert(self@.tokens =~= before.register_one(token@, player).tokens);
                assert(stale_player == before.stale_of(player.player_id));
            }
            if let Some(stale_player) = stale_player {
                stale_players.push(stale_player);
            }
            i += 1;
        }
        proof {
            assert(pairs@.take(i as int) =~= pairs@);
        }
        stale_players
    }

    /// The record that `token` authorises, if the token is outstanding.
    pub fn get(&self, token: &PlayerToken) -> (player: Option<PendingPlayer>)
        ensures
            player == if self@.tokens.contains_key(token@) {
                Some(self@.tokens[token@])
            } else {
                None
            },
    {
        match self.map.get(&token.value) {
            Some(player) => Some(*player),
            None => None,
        }
    }

    /// The token that `player_id` holds, if any.
    pub fn token_of(&self, player_id: i32) -> (token: Option<PlayerToken>)
        ensures
            token == if self@.by_player.contains_key(player_id) {
                Some(PlayerToken { value: self@.by_player[player_id] })
            } else {
                None
            },
    {
        match self.player_token.get(&player_id) {
            Some(value) => Some(PlayerToken { value: *value }),
            None => None,
        }
    }

    /// Tells whether no two of `tokens` are equal and none of them is outstanding.
    pub fn is_fresh(&self, tokens: &Vec<PlayerToken>) -> (fresh: bool)
        ensures
            fresh == self@.fresh(tokens@),
    {
        let mut j: usize = 0;
        while j < tokens.len()
            invariant
                j <= tokens.len(),
                forall|a: int, b: int| 0 <= a < b < j ==> #[trigger] tokens@[a]@ != #[trigger] tokens@[b]@,
                forall|a: int| 0 <= a < j ==> !self@.tokens.contains_key(#[trigger] tokens@[a]@),
            decreases tokens.len() - j,
        {
            if self.map.contains_key(&tokens[j].value) {
                assert(self@.tokens.contains_key(tokens@[j as int]@));
                return false;
            }
            let mut i: usize = 0;
            while i < j
                invariant
                    i <= j < tokens.len(),
                    forall|a: int| 0 <= a < i ==> #[trigger] tokens@[a]@ != tokens@[j as int]@,
                decreases j - i,
            {
                if tokens[i].value == tokens[j].value {
                    assert(tokens@[i as int]@ == tokens@[j as int]@);
                    return false;
                }
                i += 1;
            }
            j += 1;
        }
        true
    }

    /// Tells whether `token` is outstanding.
    pub fn contains_token(&self, token: &PlayerToken) -> (found: bool)
        ensures
            found == self@.tokens.contains_key(token@),
    {
        self.map.contains_key(&token.value)
    }
}

} // verus!
