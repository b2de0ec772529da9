use vstd::prelude::*;
use crate::node::error::{ControllerCreateGameRejectReason, Error};
use crate::node::session::pending::{lemma_register_all_wf, tokens_of, PendingView};
use crate::node::session::types::{
    bound_players, GameSession, GameSlot, GameStatus, PendingPlayer, PlayerToken,
};
use crate::node::session::{
    token_pairs, CreateGameOutcomeView, CreateGameResponseView, SessionStoreView,
};

verus! {

/// Whether one of `pairs` issues a token to `player_id`.
pub open spec fn issued_to(pairs: Seq<(PlayerToken, PendingPlayer)>, player_id: i32) -> bool {
    exists|k: int| 0 <= k < pairs.len() && #[trigger] pairs[k].1.player_id == player_id
}

/// Whether no pair after the `k`-th issues a token to the `k`-th pair's player.
pub open spec fn last_for_player(pairs: Seq<(PlayerToken, PendingPlayer)>, k: int) -> bool {
    &&& 0 <= k < pairs.len()
    &&& forall|j: int| k < j < pairs.len() ==> #[trigger] pairs[j].1.player_id != pairs[k].1.player_id
}

/// Whether `token` is the one that `pairs` leave outstanding for some player:
/// the token of a pair that is the last for its player.
pub open spec fn left_by(pairs: Seq<(PlayerToken, PendingPlayer)>, token: u128, k: int) -> bool {
    last_for_player(pairs, k) && pairs[k].0@ == token
}

/// A player that holds a token loses it when a new one is issued: the old
/// record is the one reported as stale, and the old token is no longer outstanding.
pub proof fn lemma_reissue_evicts(s: PendingView, token: u128, player: PendingPlayer)
    requires
        s.wf(),
        s.by_player.contains_key(player.player_id),
        !s.tokens.contains_key(token),
    ensures
        s.stale_of(player.player_id) == Some(s.tokens[s.by_player[player.player_id]]),
        !s.register_one(token, player).tokens.contains_key(s.by_player[player.player_id]),
        s.register_one(token, player).tokens.contains_key(token),
        s.register_one(token, player).tokens[token] == player,
        s.register_one(token, player).by_player[player.player_id] == token,
{
}

/// What issuing fresh tokens leaves outstanding: the earlier tokens of the
/// players that got none now, unchanged, and for each player that got one,
/// the last token issued to it, with the record issued with it. The players
/// with a token are those that had one and those that got one.
pub proof fn lemma_register_all_outstanding(s: PendingView, pairs: Seq<(PlayerToken, PendingPlayer)>)
    requires
        s.wf(),
        s.fresh(tokens_of(pairs)),
    ensures
        s.register_all(pairs).wf(),
        forall|t: u128| #[trigger]
            s.register_all(pairs).tokens.contains_key(t) <==> (s.tokens.contains_key(t)
                && !issued_to(pairs, s.tokens[t].player_id)) || (exists|k: int| left_by(pairs, t, k)),
        forall|t: u128|
            s.tokens.contains_key(t) && !issued_to(pairs, s.tokens[t].player_id)
                ==> #[trigger] s.register_all(pairs).tokens[t] == s.tokens[t],
        forall|k: int| #[trigger]
            last_for_player(pairs, k) ==> s.register_all(pairs).tokens[pairs[k].0@] == pairs[k].1
                && s.register_all(pairs).by_player[pairs[k].1.player_id] == pairs[k].0@,
        forall|p: i32| #[trigger]
            s.register_all(pairs).by_player.contains_key(p) <==> s.by_player.contains_key(p)
                || issued_to(pairs, p),
    decreases pairs.len(),
{
    lemma_register_all_wf(s, pairs);
    let r = s.register_all(pairs);
    if pairs.len() == 0 {
        assert forall|t: u128| #[trigger] r.tokens.contains_key(t) implies (s.tokens.contains_key(t)
            && !issued_to(pairs, s.tokens[t].player_id)) || (exists|k: int| left_by(pairs, t, k)) by {}
    } else {
        let n = pairs.len() as int;
        let before = pairs.drop_last();
        let tok = pairs.last().0@;
        let pl = pairs.last().1;
        let p = pl.player_id;
        assert forall|i: int, j: int| 0 <= i < j < before.len() implies #[trigger] tokens_of(
            before,
        )[i]@ != #[trigger] tokens_of(before)[j]@ by {
            assert(tokens_of(pairs)[i]@ != tokens_of(pairs)[j]@);
        }
        assert forall|i: int| 0 <= i < before.len() implies !s.tokens.contains_key(
            #[trigger] tokens_of(before)[i]@,
        ) by {
            assert(!s.tokens.contains_key(tokens_of(pairs)[i]@));
        }
        lemma_register_all_outstanding(s, before);
        let mid = s.register_all(before);
        assert(r == mid.register_one(tok, pl));
        // The last token is not outstanding after the earlier ones are issued.
        assert(!mid.tokens.contains_key(tok)) by {
            if mid.tokens.contains_key(tok) {
                assert(!s.tokens.contains_key(tokens_of(pairs)[n - 1]@));
                let k = choose|k: int| left_by(before, tok, k);
                assert(tokens_of(pairs)[k]@ != tokens_of(pairs)[n - 1]@);
            }
        }
        assert(last_for_player(pairs, n - 1));
        assert(left_by(pairs, tok, n - 1));
        assert(pairs[n - 1].1.player_id == p);
        assert(issued_to(pairs, p));
        // A player of the earlier pairs is a player of all pairs, and conversely but for `p`.
        assert forall|q: i32| issued_to(before, q) implies issued_to(pairs, q) by {
            let k = choose|k: int| 0 <= k < before.len() && #[trigger] before[k].1.player_id == q;
            assert(pairs[k].1.player_id == q);
        }
        assert forall|q: i32| issued_to(pairs, q) && q != p implies issued_to(before, q) by {
            let k = choose|k: int| 0 <= k < pairs.len() && #[trigger] pairs[k].1.player_id == q;
            assert(before[k].1.player_id == q);
        }
        assert forall|k: int| last_for_player(before, k) && before[k].1.player_id
            != p implies last_for_player(pairs, k) by {
            assert forall|j: int| k < j < pairs.len() implies #[trigger] pairs[j].1.player_id
                != pairs[k].1.player_id by {
                if j < n - 1 {
                    assert(before[j].1.player_id != before[k].1.player_id);
                }
            }
        }
        assert forall|k: int| last_for_player(pairs, k) && k < n - 1 implies last_for_player(
            before,
            k,
        ) && before[k].1.player_id != p by {
            assert(pairs[n - 1].1.player_id != pairs[k].1.player_id);
            assert forall|j: int| k < j < before.len() implies #[trigger] before[j].1.player_id
                != before[k].1.player_id by {
                assert(pairs[j].1.player_id != pairs[k].1.player_id);
            }
        }
        assert forall|t: u128| #[trigger] r.tokens.contains_key(t) implies (s.tokens.contains_key(t)
            && !issued_to(pairs, s.tokens[t].player_id)) || (exists|k: int| left_by(pairs, t, k)) by {
            if t != tok {
                assert(mid.tokens.contains_key(t));
                let q = mid.tokens[t].player_id;
                assert(mid.by_player.contains_key(q) && mid.by_player[q] == t);
                assert(q != p);
                if s.tokens.contains_key(t) && !issued_to(before, s.tokens[t].player_id) {
                    assert(mid.tokens[t] == s.tokens[t]);
                    assert(!issued_to(pairs, q));
                } else {
                    let k = choose|k: int| left_by(before, t, k);
                    assert(last_for_player(before, k));
                    assert(mid.tokens[before[k].0@] == before[k].1);
                    assert(before[k].1.player_id == q);
                    assert(last_for_player(pairs, k));
                    assert(left_by(pairs, t, k));
                }
            }
        }
        assert forall|t: u128|
            (s.tokens.contains_key(t) && !issued_to(pairs, s.tokens[t].player_id)) || (exists|
                k: int,
            |
                left_by(pairs, t, k)) implies #[trigger] r.tokens.contains_key(t) by {
            if s.tokens.contains_key(t) && !issued_to(pairs, s.tokens[t].player_id) {
                let q = s.tokens[t].player_id;
                assert(!issued_to(before, q));
                assert(mid.tokens.contains_key(t));
                assert(mid.tokens[t] == s.tokens[t]);
                assert(q != p);
                if mid.by_player.contains_key(p) {
                    assert(mid.tokens.contains_key(mid.by_player[p]));
                    assert(mid.tokens[mid.by_player[p]].player_id == p);
                }
            } else {
                let k = choose|k: int| left_by(pairs, t, k);
                if k < n - 1 {
                    assert(last_for_player(before, k) && before[k].1.player_id != p);
                    assert(left_by(before, t, k));
                    assert(mid.tokens.contains_key(t));
                    assert(mid.tokens[before[k].0@] == before[k].1);
                    if mid.by_player.contains_key(p) {
                        assert(mid.tokens.contains_key(mid.by_player[p]));
                        assert(mid.tokens[mid.by_player[p]].player_id == p);
                    }
                }
            }
        }
        assert forall|t: u128|
            s.tokens.contains_key(t) && !issued_to(pairs, s.tokens[t].player_id)
                implies #[trigger] r.tokens[t] == s.tokens[t] by {
            let q = s.tokens[t].player_id;
            assert(!issued_to(before, q));
            assert(mid.tokens.contains_key(t));
            assert(mid.tokens[t] == s.tokens[t]);
            assert(q != p);
            if mid.by_player.contains_key(p) {
                assert(mid.tokens.contains_key(mid.by_player[p]));
                assert(mid.tokens[mid.by_player[p]].player_id == p);
            }
        }
        assert forall|k: int| #[trigger] last_for_player(pairs, k) implies r.tokens[pairs[k].0@]
            == pairs[k].1 && r.by_player[pairs[k].1.player_id] == pairs[k].0@ by {
            if k < n - 1 {
                assert(last_for_player(before, k) && before[k].1.player_id != p);
                assert(left_by(before, before[k].0@, k));
                assert(mid.tokens.contains_key(before[k].0@));
                assert(mid.tokens[before[k].0@] == before[k].1);
                if mid.by_player.contains_key(p) {
                    assert(mid.tokens.contains_key(mid.by_player[p]));
                    assert(mid.tokens[mid.by_player[p]].player_id == p);
                }
            }
        }
        assert forall|q: i32| #[trigger]
            r.by_player.contains_key(q) <==> s.by_player.contains_key(q) || issued_to(
                pairs,
                q,
            ) by {
            if q != p {
                assert(r.by_player.contains_key(q) <==> mid.by_player.contains_key(q));
                assert(mid.by_player.contains_key(q) <==> s.by_player.contains_key(q) || issued_to(
                    before,
                    q,
                ));
            }
        }
    }
}

/// A request that binds no player fails with `NoPlayer`, whatever the store
/// holds and whatever tokens are offered, and the store stays as it was.
pub proof fn lemma_no_player_leaves_store(
    s: SessionStoreView,
    game_id: i32,
    slots: Seq<GameSlot>,
    tokens: Seq<PlayerToken>,
)
    requires
        bound_players(slots).len() == 0,
    ensures
        s.create_game(game_id, slots, tokens).result == Err::<CreateGameOutcomeView, Error>(
            Error::NoPlayer,
        ),
        s.create_game(game_id, slots, tokens).store == s,
{
}

/// The first connected player among `players` is one of them, is connected,
/// and no player before it is; there is none exactly when no player is connected.
pub proof fn lemma_first_busy(s: SessionStoreView, players: Seq<i32>)
    ensures
        match s.first_busy(players) {
            Some(id) => exists|i: int|
                {
                    &&& 0 <= i < players.len()
                    &&& #[trigger] players[i] == id
                    &&& s.connected.contains_key(id)
                    &&& forall|j: int| 0 <= j < i ==> !s.connected.contains_key(#[trigger] players[j])
                },
            None => forall|i: int| 0 <= i < players.len() ==> !s.connected.contains_key(
                #[trigger] players[i],
            ),
        },
    decreases players.len(),
{
    if players.len() > 0 {
        let rest = players.drop_first();
        lemma_first_busy(s, rest);
        if s.connected.contains_key(players.first()) {
            assert(players[0] == players.first());
        } else {
            match s.first_busy(rest) {
                Some(id) => {
                    let i = choose|i: int|
                        {
                            &&& 0 <= i < rest.len()
                            &&& #[trigger] rest[i] == id
                            &&& s.connected.contains_key(id)
                            &&& forall|j: int|
                                0 <= j < i ==> !s.connected.contains_key(#[trigger] rest[j])
                        };
                    assert(players[i + 1] == id);
                    assert forall|j: int| 0 <= j < i + 1 implies !s.connected.contains_key(
                        #[trigger] players[j],
                    ) by {
                        if j > 0 {
                            assert(rest[j - 1] == players[j]);
                        }
                    }
                },
                None => {
                    assert forall|i: int| 0 <= i < players.len() implies !s.connected.contains_key(
                        #[trigger] players[i],
                    ) by {
                        if i > 0 {
                            assert(rest[i - 1] == players[i]);
                        }
                    }
                },
            }
        }
    }
}

/// A request that binds a connected player fails with `PlayerBusy`, naming a
/// connected player of the request, and the store stays as it was: neither
/// the pending records nor the games change.
pub proof fn lemma_busy_player_leaves_store(
    s: SessionStoreView,
    game_id: i32,
    slots: Seq<GameSlot>,
    tokens: Seq<PlayerToken>,
    i: int,
)
    requires
        0 <= i < bound_players(slots).len(),
        s.connected.contains_key(bound_players(slots)[i]),
    ensures
        s.create_game(game_id, slots, tokens).result matches Err(Error::PlayerBusy(id))
            && s.connected.contains_key(id) && bound_players(slots).contains(id),
        s.create_game(game_id, slots, tokens).store == s,
{
    lemma_first_busy(s, bound_players(slots));
}

/// Once a game has left `Created`, a request for its identifier that gets
/// past the player checks is rejected with `GameExists`, and no request for
/// it changes the store: the session stays as it is.
pub proof fn lemma_existing_game_untouched(
    s: SessionStoreView,
    game_id: i32,
    slots: Seq<GameSlot>,
    tokens: Seq<PlayerToken>,
)
    requires
        s.games.contains_key(game_id),
        s.games[game_id].status != GameStatus::Created,
    ensures
        s.create_game(game_id, slots, tokens).store == s,
        bound_players(slots).len() > 0 && s.first_busy(bound_players(slots)) is None ==> s.create_game(
            game_id,
            slots,
            tokens,
        ).result == Ok::<CreateGameOutcomeView, Error>(SessionStoreView::reject_outcome(game_id)),
        s.create_game(game_id, slots, tokens).result matches Ok(outcome)
            ==> outcome.response == (CreateGameResponseView::Reject {
            game_id,
            reason: ControllerCreateGameRejectReason::GameExists,
        }),
{
}

/// An accepted request keeps the store well formed, installs the session in
/// status `Created`, and leaves for each bound player exactly the token that
/// the response names for its last slot, with the record of this game.
pub proof fn lemma_accept_issues_valid_tokens(
    s: SessionStoreView,
    game_id: i32,
    slots: Seq<GameSlot>,
    tokens: Seq<PlayerToken>,
)
    requires
        s.wf(),
        s.create_game(game_id, slots, tokens).result matches Ok(outcome)
            && outcome.response is Accept,
    ensures
        ({
            let players = bound_players(slots);
            let after = s.create_game(game_id, slots, tokens).store;
            &&& after.wf()
            &&& after.connected == s.connected
            &&& after.games[game_id] == GameSession::created(game_id, slots)
            &&& s.create_game(game_id, slots, tokens).result == Ok::<CreateGameOutcomeView, Error>(
                s.accept_outcome(game_id, slots, tokens),
            )
            &&& forall|i: int|
                0 <= i < players.len() && (forall|j: int|
                    i < j < players.len() ==> players[j] != players[i]) ==> {
                    &&& after.pending.tokens.contains_key(#[trigger] tokens[i]@)
                    &&& after.pending.tokens[tokens[i]@] == PendingPlayer {
                        player_id: players[i],
                        game_id,
                    }
                    &&& after.pending.by_player[players[i]] == tokens[i]@
                }
        }),
{
    let players = bound_players(slots);
    let pairs = token_pairs(players, game_id, tokens);
    assert(tokens_of(pairs) =~= tokens);
    lemma_register_all_outstanding(s.pending, pairs);
    let after = s.create_game(game_id, slots, tokens).store;
    assert forall|i: int|
        0 <= i < players.len() && (forall|j: int|
            i < j < players.len() ==> players[j] != players[i]) implies {
        &&& after.pending.tokens.contains_key(#[trigger] tokens[i]@)
        &&& after.pending.tokens[tokens[i]@] == PendingPlayer { player_id: players[i], game_id }
        &&& after.pending.by_player[players[i]] == tokens[i]@
    } by {
        assert(last_for_player(pairs, i));
        assert(left_by(pairs, tokens[i]@, i));
    }
}

/// Submitting a request again while its game is still `Created`, with tokens
/// that are fresh and differ from those of the first submission, is accepted
/// again. The store stays well formed, no token of the first submission is
/// outstanding any more, and the second submission's tokens are outstanding
/// as after any accepted request.
pub proof fn lemma_resubmission_replaces_tokens(
    s: SessionStoreView,
    game_id: i32,
    slots: Seq<GameSlot>,
    first: Seq<PlayerToken>,
    second: Seq<PlayerToken>,
)
    requires
        s.wf(),
        s.create_game(game_id, slots, first).result matches Ok(outcome)
            && outcome.response is Accept,
        s.create_game(game_id, slots, first).store.tokens_acceptable(bound_players(slots), second),
        forall|i: int, j: int|
            0 <= i < first.len() && 0 <= j < second.len() ==> #[trigger] first[i]@
                != #[trigger] second[j]@,
    ensures
        ({
            let once = s.create_game(game_id, slots, first).store;
            let twice = once.create_game(game_id, slots, second);
            &&& twice.result == Ok::<CreateGameOutcomeView, Error>(
                once.accept_outcome(game_id, slots, second),
            )
            &&& twice.result matches Ok(outcome) && !outcome.new_session
            &&& twice.store.wf()
            &&& forall|i: int|
                0 <= i < first.len() ==> !twice.store.pending.tokens.contains_key(
                    #[trigger] first[i]@,
                )
        }),
{
    let players = bound_players(slots);
    let pairs1 = token_pairs(players, game_id, first);
    let pairs2 = token_pairs(players, game_id, second);
    assert(tokens_of(pairs1) =~= first);
    assert(tokens_of(pairs2) =~= second);
    let once = s.create_game(game_id, slots, first).store;
    lemma_register_all_outstanding(s.pending, pairs1);
    assert(once.wf());
    assert(once.first_busy(players) == s.first_busy(players)) by {
        lemma_same_connected_same_busy(s, once, players);
    }
    lemma_register_all_outstanding(once.pending, pairs2);
    let twice = once.create_game(game_id, slots, second);
    assert forall|i: int| 0 <= i < first.len() implies !twice.store.pending.tokens.contains_key(
        #[trigger] first[i]@,
    ) by {
        let t = first[i]@;
        if twice.store.pending.tokens.contains_key(t) {
            if once.pending.tokens.contains_key(t) && !issued_to(
                pairs2,
                once.pending.tokens[t].player_id,
            ) {
                assert(!s.pending.tokens.contains_key(tokens_of(pairs1)[i]@));
                let k = choose|k: int| left_by(pairs1, t, k);
                assert(last_for_player(pairs1, k));
                assert(once.pending.tokens[pairs1[k].0@] == pairs1[k].1);
                assert(pairs2[k].1.player_id == players[k]);
            } else {
                let k = choose|k: int| left_by(pairs2, t, k);
                assert(second[k]@ == t);
            }
        }
    }
}

/// Which player is found busy depends on the connected players alone.
pub proof fn lemma_same_connected_same_busy(
    a: SessionStoreView,
    b: SessionStoreView,
    players: Seq<i32>,
)
    requires
        a.connected == b.connected,
    ensures
        a.first_busy(players) == b.first_busy(players),
    decreases players.len(),
{
    if players.len() > 0 {
        lemma_same_connected_same_busy(a, b, players.drop_first());
    }
}

} // verus!
