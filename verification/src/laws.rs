//! What holds of the room pallet across its calls and its hook.
use vstd::prelude::*;

use crate::pallet::{
    due_users, due_users_upto, payout_safe, ended_if_due, genesis_results, is_due, join_safe, orders_its_rooms, payouts,
    payouts_upto, room_due_users, spec_create, spec_join, spec_join_check, spec_payout,
    spec_reward, spec_reward_factor, well_formed, PalletView,
};
use crate::chain_spec::{
    is_default_endowment, is_seed_authority, is_testnet_genesis, seed_keys_derivable,
    AuthorityKeys, GenesisPlan,
};
use crate::types::{spec_ensure_signed, AccountId, Balance, BlockNumber, Config, DispatchError, Error, Id, Origin, Room};

verus! {

/// Empty storage is well formed.
pub proof fn empty_storage_is_well_formed(config: Config)
    ensures
        well_formed(
            PalletView {
                config,
                room_id: 0,
                room_order: Seq::empty(),
                rooms: Map::empty(),
                users: Map::empty(),
                deposits: Map::empty(),
                results: Map::empty(),
                events: Seq::empty(),
            },
        ),
{
}

/// Opening a room keeps the storage well formed, hands out the next index, and
/// leaves every room that existed as it was.
pub proof fn create_keeps_well_formed(
    s: PalletView,
    who: AccountId,
    length: BlockNumber,
    delay: BlockNumber,
    deposit: Balance,
    now: BlockNumber,
)
    requires
        well_formed(s),
        s.room_id < u32::MAX,
    ensures
        well_formed(spec_create(s, who, length, delay, deposit, now)),
        spec_create(s, who, length, delay, deposit, now).room_id == s.room_id + 1,
        !s.rooms.dom().contains((s.room_id + 1) as Id),
        forall|id: Id|
            #[trigger] s.rooms.dom().contains(id) ==> spec_create(
                s,
                who,
                length,
                delay,
                deposit,
                now,
            ).rooms[id] == s.rooms[id],
{
    let id = (s.room_id + 1) as Id;
    if s.rooms.dom().contains(id) {
        assert(s.rooms[id].id_room == id);
    }
}

/// A player joining keeps the storage well formed: the room gets its second
/// player and starts; every other room stays as it was.
pub proof fn join_keeps_well_formed<E>(
    s: PalletView,
    who: AccountId,
    id_room: Id,
    deposit: Balance,
    now: BlockNumber,
)
    requires
        well_formed(s),
        join_safe(s, Origin::Signed(who), id_room, deposit),
        spec_join_check::<E>(s, Origin::Signed(who), id_room) is Ok,
    ensures
        well_formed(spec_join(s, who, id_room, deposit, now)),
        spec_join(s, who, id_room, deposit, now).users[id_room].len() == 2,
        spec_join(s, who, id_room, deposit, now).rooms[id_room].is_started,
        spec_join(s, who, id_room, deposit, now).rooms[id_room].start == now,
        forall|id: Id|
            #[trigger] s.rooms.dom().contains(id) && id != id_room ==> spec_join(
                s,
                who,
                id_room,
                deposit,
                now,
            ).rooms[id] == s.rooms[id],
{
    let t = spec_join(s, who, id_room, deposit, now);
    assert(s.rooms.dom().contains(id_room));
    assert(s.users[id_room].len() == 1);
    assert(t.users[id_room] == s.users[id_room].push(who));
    assert(t.users[id_room][0] == s.users[id_room][0]);
}

/// A join into a room that ended is refused as such, for any player who has
/// not deposited.
pub proof fn join_refuses_ended_room<E>(s: PalletView, who: AccountId, id_room: Id)
    requires
        s.rooms.dom().contains(id_room),
        id_room <= s.room_id,
        s.rooms[id_room].is_ended,
        !s.deposits.dom().contains(who),
    ensures
        spec_join_check::<E>(s, Origin::Signed(who), id_room) == Err::<AccountId, DispatchError<E>>(
            DispatchError::Module(Error::RoomAlreadyEnded),
        ),
{
}

/// A join into a room that is not stored is refused as not existing, for any
/// player who has not deposited.
pub proof fn join_refuses_missing_room<E>(s: PalletView, who: AccountId, id_room: Id)
    requires
        !s.rooms.dom().contains(id_room),
        !s.deposits.dom().contains(who),
    ensures
        spec_join_check::<E>(s, Origin::Signed(who), id_room) == Err::<AccountId, DispatchError<E>>(
            DispatchError::Module(Error::RoomNotExist),
        ),
{
}

/// The hook keeps the storage well formed and never reopens or removes a room.
pub proof fn payout_keeps_well_formed(s: PalletView, n: BlockNumber)
    requires
        well_formed(s),
    ensures
        well_formed(spec_payout(s, n)),
        forall|id: Id|
            #[trigger] s.rooms.dom().contains(id) ==> spec_payout(s, n).rooms.dom().contains(id)
                && (s.rooms[id].is_ended ==> spec_payout(s, n).rooms[id].is_ended),
{
}

/// Recording genesis results keeps the storage well formed.
pub proof fn genesis_keeps_well_formed(s: PalletView, results: Seq<(AccountId, u32)>)
    requires
        well_formed(s),
    ensures
        well_formed(PalletView { results: genesis_results(s.results, results), ..s }),
{
}

/// On well-formed storage, `join_room` reads only what is stored whenever the
/// room's total does not overflow.
pub proof fn well_formed_join_is_safe(s: PalletView, origin: Origin, id_room: Id, deposit: Balance)
    requires
        well_formed(s),
        s.rooms.dom().contains(id_room) ==> s.rooms[id_room].total_value + deposit <= u128::MAX,
    ensures
        join_safe(s, origin, id_room, deposit),
{
}

/// No player is paid more than their deposit.
pub proof fn reward_at_most_deposit(deposit: Balance, result: u32)
    ensures
        spec_reward(deposit, result) <= deposit,
        spec_reward_factor(result) <= 100,
{
    let f = spec_reward_factor(result);
    assert(deposit * f <= deposit * 100) by (nonlinear_arith)
        requires
            f <= 100,
    ;
    assert(deposit * f / 100 <= deposit) by (nonlinear_arith)
        requires
            deposit * f <= deposit * 100,
            f >= 0,
    ;
}

/// A larger deposit or a better result (up to 100) never pays less.
pub proof fn reward_is_monotone(d1: Balance, d2: Balance, r1: u32, r2: u32)
    requires
        d1 <= d2,
        r1 <= r2 <= 100,
    ensures
        spec_reward(d1, r1) <= spec_reward(d2, r2),
{
    let f1 = spec_reward_factor(r1);
    let f2 = spec_reward_factor(r2);
    assert(f1 <= f2);
    assert(d1 * f1 <= d2 * f2) by (nonlinear_arith)
        requires
            d1 <= d2,
            f1 <= f2,
            d1 >= 0,
            f1 >= 0,
    ;
    assert(d1 * f1 / 100 <= d2 * f2 / 100) by (nonlinear_arith)
        requires
            d1 * f1 <= d2 * f2,
            d1 * f1 >= 0,
    ;
    reward_at_most_deposit(d2, r2);
    reward_at_most_deposit(d1, r1);
}

/// Payment `k` of the hook goes to the `k`-th due player and is that player's
/// reward.
pub proof fn payouts_follow_due_players(s: PalletView, n: BlockNumber, k: int)
    requires
        0 <= k,
    ensures
        payouts_upto(s, n, k).len() == due_users_upto(s, n, k).len(),
        forall|p: int|
            0 <= p < payouts_upto(s, n, k).len() ==> #[trigger] payouts_upto(s, n, k)[p] == (
                due_users_upto(s, n, k)[p],
                spec_reward(s.deposits[due_users_upto(s, n, k)[p]], s.results[due_users_upto(s, n, k)[p]]),
            ),
    decreases k,
{
    if k > 0 {
        payouts_follow_due_players(s, n, k - 1);
        let id = s.room_order[k - 1];
        let a = payouts_upto(s, n, k - 1);
        let d = due_users_upto(s, n, k - 1);
        assert forall|p: int| 0 <= p < payouts_upto(s, n, k).len() implies #[trigger] payouts_upto(
            s,
            n,
            k,
        )[p] == (
            due_users_upto(s, n, k)[p],
            spec_reward(s.deposits[due_users_upto(s, n, k)[p]], s.results[due_users_upto(s, n, k)[p]]),
        ) by {
            if p >= a.len() {
                assert(due_users_upto(s, n, k)[p] == room_due_users(s, n, id)[p - d.len()]);
            } else {
                assert(payouts_upto(s, n, k)[p] == a[p]);
                assert(due_users_upto(s, n, k)[p] == d[p]);
            }
        }
    }
}

/// No payment of the hook exceeds the deposit of the player it goes to.
pub proof fn payouts_at_most_deposits(s: PalletView, n: BlockNumber, k: int)
    requires
        0 <= k < payouts(s, n).len(),
    ensures
        payouts(s, n)[k].1 <= s.deposits[payouts(s, n)[k].0],
{
    payouts_follow_due_players(s, n, s.room_order.len() as int);
    let u = payouts(s, n)[k].0;
    reward_at_most_deposit(s.deposits[u], s.results[u]);
}

/// The genesis that `testnet_genesis` builds does not depend on its
/// `_enable_println` flag: any two results of its contract for the same other
/// arguments agree field by field.
pub proof fn testnet_genesis_ignores_println(
    g1: GenesisPlan,
    g2: GenesisPlan,
    wasm: Seq<u8>,
    authorities: Seq<AuthorityKeys>,
    root: AccountId,
    endowed: Option<Seq<(AccountId, Balance)>>,
    anchor: Seq<char>,
    asset: Seq<char>,
    premined: Balance,
    era: Balance,
)
    requires
        is_testnet_genesis(g1, wasm, authorities, root, g1.balances@, anchor, asset, premined, era),
        is_testnet_genesis(g2, wasm, authorities, root, g2.balances@, anchor, asset, premined, era),
        match endowed {
            Some(e) => g1.balances@ == e && g2.balances@ == e,
            None => is_default_endowment(g1.balances@) && is_default_endowment(g2.balances@),
        },
    ensures
        g1.code@ == g2.code@,
        g1.balances@ == g2.balances@,
        g1.session_keys@ == g2.session_keys@,
        g1.sudo_key == g2.sudo_key,
        g1.anchor_contract@ == g2.anchor_contract@,
        g1.asset_id_by_token_id@.len() == g2.asset_id_by_token_id@.len(),
        forall|i: int|
            0 <= i < g1.asset_id_by_token_id@.len() ==> (#[trigger] g1.asset_id_by_token_id@[i]).0@
                == g2.asset_id_by_token_id@[i].0@ && g1.asset_id_by_token_id@[i].1
                == g2.asset_id_by_token_id@[i].1,
        g1.validators@ == g2.validators@,
        g1.premined_amount == g2.premined_amount,
        g1.era_payout == g2.era_payout,
{
    if endowed is None {
        assert forall|i: int| 0 <= i < 6 implies g1.balances@[i] == g2.balances@[i] by {
            assert(g1.balances@[i].0@ == g2.balances@[i].0@);
            assert(g1.balances@[i].0 =~= g2.balances@[i].0);
        }
        assert(g1.balances@ =~= g2.balances@);
    }
}

/// Among the payments of the hook, a player with no smaller deposit and no worse
/// result (up to 100) is paid no less.
pub proof fn payouts_are_monotone(s: PalletView, n: BlockNumber, k1: int, k2: int)
    requires
        0 <= k1 < payouts(s, n).len(),
        0 <= k2 < payouts(s, n).len(),
        s.deposits[payouts(s, n)[k1].0] <= s.deposits[payouts(s, n)[k2].0],
        s.results[payouts(s, n)[k1].0] <= s.results[payouts(s, n)[k2].0] <= 100,
    ensures
        payouts(s, n)[k1].1 <= payouts(s, n)[k2].1,
{
    payouts_follow_due_players(s, n, s.room_order.len() as int);
    let u1 = payouts(s, n)[k1].0;
    let u2 = payouts(s, n)[k2].0;
    reward_is_monotone(s.deposits[u1], s.deposits[u2], s.results[u1], s.results[u2]);
}

/// Running the hook a second time in the same block pays nothing and changes
/// nothing.
pub proof fn payout_is_idempotent(s: PalletView, n: BlockNumber)
    requires
        orders_its_rooms(s),
    ensures
        payouts(spec_payout(s, n), n) == Seq::<(AccountId, Balance)>::empty(),
        spec_payout(spec_payout(s, n), n) == spec_payout(s, n),
{
    let t = spec_payout(s, n);
    assert forall|k: int| 0 <= k <= t.room_order.len() implies due_users_upto(t, n, k)
        == Seq::<AccountId>::empty() && payouts_upto(t, n, k) == Seq::<(AccountId, Balance)>::empty() by {
        lemma_nothing_due_after_payout(s, n, k);
    }
    assert(t.deposits.remove_keys(Seq::<AccountId>::empty().to_set()) =~= t.deposits);
    assert(t.rooms.map_values(|r: Room| ended_if_due(r, n)) =~= t.rooms);
}

proof fn lemma_nothing_due_after_payout(s: PalletView, n: BlockNumber, k: int)
    requires
        orders_its_rooms(s),
        0 <= k <= s.room_order.len(),
    ensures
        due_users_upto(spec_payout(s, n), n, k) == Seq::<AccountId>::empty(),
        payouts_upto(spec_payout(s, n), n, k) == Seq::<(AccountId, Balance)>::empty(),
    decreases k,
{
    let t = spec_payout(s, n);
    if k > 0 {
        lemma_nothing_due_after_payout(s, n, k - 1);
        let id = s.room_order[k - 1];
        assert(s.room_order.contains(id));
        assert(!is_due(t.rooms[id], n));
        assert(due_users_upto(t, n, k) =~= Seq::<AccountId>::empty());
        assert(payouts_upto(t, n, k) =~= Seq::<(AccountId, Balance)>::empty());
    }
}

/// Block `n` is at or past the end of the room's play time and delay (each sum
/// held at `u32::MAX`), and the room has started but not ended.
pub open spec fn room_pays_at(r: Room, n: BlockNumber) -> bool {
    let play_end: int = if r.start + r.length > u32::MAX { u32::MAX as int } else { r.start + r.length };
    let pay_from: int = if play_end + r.delay > u32::MAX { u32::MAX as int } else { play_end + r.delay };
    &&& pay_from <= n
    &&& r.is_started
    &&& !r.is_ended
}

/// What a player with deposit `d` and result `r` is paid: the deposit times the
/// percentage of the result's band, divided by 100.
pub open spec fn reward_of(d: Balance, r: u32) -> Balance {
    let pct: int = if 95 < r && r <= 100 {
        100
    } else if 85 < r && r <= 95 {
        90
    } else if 75 < r && r <= 85 {
        80
    } else if 65 < r && r <= 75 {
        70
    } else if 55 < r && r <= 65 {
        60
    } else if 45 < r && r <= 55 {
        50
    } else {
        0
    };
    (d * pct / 100) as Balance
}

proof fn lemma_due_users_members(s: PalletView, n: BlockNumber, k: int)
    requires
        0 <= k <= s.room_order.len(),
    ensures
        forall|x: int, j: int|
            0 <= x < k && is_due(s.rooms[s.room_order[x]], n) && 0 <= j < s.users[s.room_order[x]].len()
                ==> #[trigger] due_users_upto(s, n, k).contains(s.users[s.room_order[x]][j]),
    decreases k,
{
    if k > 0 {
        lemma_due_users_members(s, n, k - 1);
        let prev = due_users_upto(s, n, k - 1);
        let id = s.room_order[k - 1];
        let cur = due_users_upto(s, n, k);
        assert(cur == prev + room_due_users(s, n, id));
        assert forall|x: int, j: int|
            0 <= x < k && is_due(s.rooms[s.room_order[x]], n) && 0 <= j < s.users[s.room_order[x]].len()
                implies #[trigger] cur.contains(s.users[s.room_order[x]][j]) by {
            if x < k - 1 {
                assert(prev.contains(s.users[s.room_order[x]][j]));
                let q = choose|q: int| 0 <= q < prev.len() && prev[q] == s.users[s.room_order[x]][j];
                assert(cur[q] == prev[q]);
            } else {
                assert(cur[prev.len() + j] == s.users[id][j]);
            }
        }
    }
}

proof fn lemma_due_user_origin(s: PalletView, n: BlockNumber, k: int, p: int) -> (x: int)
    requires
        0 <= k <= s.room_order.len(),
        0 <= p < due_users_upto(s, n, k).len(),
    ensures
        0 <= x < k,
        is_due(s.rooms[s.room_order[x]], n),
        s.users[s.room_order[x]].contains(due_users_upto(s, n, k)[p]),
    decreases k,
{
    let prev = due_users_upto(s, n, k - 1);
    let id = s.room_order[k - 1];
    let cur = due_users_upto(s, n, k);
    assert(cur == prev + room_due_users(s, n, id));
    if p < prev.len() {
        let x = lemma_due_user_origin(s, n, k - 1, p);
        assert(cur[p] == prev[p]);
        x
    } else {
        assert(is_due(s.rooms[id], n));
        assert(s.users[id][p - prev.len()] == cur[p]);
        k - 1
    }
}

/// Every player of every stored room that is due at block `n` is paid their
/// reward from the pot by the hook, whatever the other rooms are.
pub proof fn hook_pays_every_player_of_due_rooms(s: PalletView, n: BlockNumber, id: Id, j: int)
    requires
        orders_its_rooms(s),
        s.rooms.dom().contains(id),
        room_pays_at(s.rooms[id], n),
        0 <= j < s.users[id].len(),
    ensures
        exists|k: int|
            0 <= k < payouts(s, n).len() && #[trigger] payouts(s, n)[k] == (
                s.users[id][j],
                reward_of(s.deposits[s.users[id][j]], s.results[s.users[id][j]]),
            ),
{
    assert(s.room_order.contains(id));
    let x = choose|x: int| 0 <= x < s.room_order.len() && s.room_order[x] == id;
    let len = s.room_order.len() as int;
    lemma_due_users_members(s, n, len);
    let u = s.users[id][j];
    assert(is_due(s.rooms[s.room_order[x]], n));
    assert(due_users_upto(s, n, len).contains(s.users[s.room_order[x]][j]));
    let p = choose|p: int| 0 <= p < due_users_upto(s, n, len).len() && due_users_upto(s, n, len)[p] == u;
    payouts_follow_due_players(s, n, len);
    assert(payouts(s, n)[p] == (u, spec_reward(s.deposits[u], s.results[u])));
}

/// Every payment of the hook at block `n` goes to a player of a stored room that
/// is due then, and is that player's reward.
pub proof fn hook_pays_only_players_of_due_rooms(s: PalletView, n: BlockNumber, k: int)
    requires
        orders_its_rooms(s),
        0 <= k < payouts(s, n).len(),
    ensures
        exists|id: Id|
            #[trigger] s.rooms.dom().contains(id) && room_pays_at(s.rooms[id], n) && s.users[id].contains(
                payouts(s, n)[k].0,
            ),
        payouts(s, n)[k].1 == reward_of(s.deposits[payouts(s, n)[k].0], s.results[payouts(s, n)[k].0]),
{
    let len = s.room_order.len() as int;
    lemma_due_users_members(s, n, len);
    payouts_follow_due_players(s, n, len);
    let x = lemma_due_user_origin(s, n, len, k);
    let id = s.room_order[x];
    assert(s.room_order.contains(id));
    assert(s.rooms.dom().contains(id));
}

/// When the hook at block `n` can run, no player is paid twice.
pub proof fn hook_pays_each_player_once(s: PalletView, n: BlockNumber, k1: int, k2: int)
    requires
        payout_safe(s, n),
        0 <= k1 < payouts(s, n).len(),
        0 <= k2 < payouts(s, n).len(),
        k1 != k2,
    ensures
        payouts(s, n)[k1].0 != payouts(s, n)[k2].0,
{
    payouts_follow_due_players(s, n, s.room_order.len() as int);
}

/// After the hook at block `n`, each stored room has ended exactly when it had
/// ended before or was due; nothing else of it changes. The deposits of the
/// players of due rooms are cleared, and every other deposit stays.
pub proof fn hook_ends_due_rooms_and_clears_their_deposits(s: PalletView, n: BlockNumber)
    requires
        orders_its_rooms(s),
    ensures
        spec_payout(s, n).rooms.dom() == s.rooms.dom(),
        forall|id: Id|
            #[trigger] s.rooms.dom().contains(id) ==> spec_payout(s, n).rooms[id] == (Room {
                is_ended: s.rooms[id].is_ended || room_pays_at(s.rooms[id], n),
                ..s.rooms[id]
            }),
        forall|id: Id, j: int|
            s.rooms.dom().contains(id) && room_pays_at(s.rooms[id], n) && 0 <= j < s.users[id].len()
                ==> !spec_payout(s, n).deposits.dom().contains(#[trigger] s.users[id][j]),
        forall|u: AccountId|
            s.deposits.dom().contains(u) && (forall|id: Id|
                #[trigger] s.rooms.dom().contains(id) && room_pays_at(s.rooms[id], n) ==> !s.users[id].contains(
                    u,
                )) ==> #[trigger] spec_payout(s, n).deposits.dom().contains(u) && spec_payout(
                s,
                n,
            ).deposits[u] == s.deposits[u],
        spec_payout(s, n).users == s.users,
        spec_payout(s, n).results == s.results,
        spec_payout(s, n).room_id == s.room_id,
{
    let len = s.room_order.len() as int;
    let t = spec_payout(s, n);
    lemma_due_users_members(s, n, len);
    assert forall|id: Id| #[trigger] s.rooms.dom().contains(id) implies t.rooms[id] == (Room {
        is_ended: s.rooms[id].is_ended || room_pays_at(s.rooms[id], n),
        ..s.rooms[id]
    }) by {}
    assert forall|id: Id, j: int|
        s.rooms.dom().contains(id) && room_pays_at(s.rooms[id], n) && 0 <= j < s.users[id].len()
            implies !t.deposits.dom().contains(#[trigger] s.users[id][j]) by {
        assert(s.room_order.contains(id));
        let x = choose|x: int| 0 <= x < len && s.room_order[x] == id;
        assert(due_users_upto(s, n, len).contains(s.users[s.room_order[x]][j]));
        assert(due_users(s, n).to_set().contains(s.users[id][j]));
    }
    assert forall|u: AccountId|
        s.deposits.dom().contains(u) && (forall|id: Id|
            #[trigger] s.rooms.dom().contains(id) && room_pays_at(s.rooms[id], n) ==> !s.users[id].contains(
                u,
            )) implies #[trigger] t.deposits.dom().contains(u) && t.deposits[u] == s.deposits[u] by {
        if due_users(s, n).to_set().contains(u) {
            let p = choose|p: int| 0 <= p < due_users(s, n).len() && due_users(s, n)[p] == u;
            let x = lemma_due_user_origin(s, n, len, p);
            let id = s.room_order[x];
            assert(s.room_order.contains(id));
            assert(s.rooms.dom().contains(id));
            assert(room_pays_at(s.rooms[id], n));
        }
    }
}

/// A signed join by a player who already holds a deposit, into a room index no
/// larger than the last one handed out, is refused as already joined.
pub proof fn join_refuses_player_with_deposit<E>(s: PalletView, who: AccountId, id_room: Id)
    requires
        s.deposits.dom().contains(who),
        id_room <= s.room_id,
    ensures
        spec_join_check::<E>(s, Origin::Signed(who), id_room) == Err::<AccountId, DispatchError<E>>(
            DispatchError::Module(Error::UserAlreadyJoined),
        ),
{
}

/// A join is accepted exactly for a signer without a deposit, into a stored room
/// whose index was handed out and which has neither started nor ended; an
/// unsigned origin is refused as bad.
pub proof fn join_accepts_exactly<E>(s: PalletView, origin: Origin, id_room: Id)
    ensures
        !(origin is Signed) ==> spec_join_check::<E>(s, origin, id_room) == Err::<
            AccountId,
            DispatchError<E>,
        >(DispatchError::BadOrigin),
        forall|who: AccountId|
            origin == Origin::Signed(who) ==> ((spec_join_check::<E>(s, origin, id_room)
                == Ok::<AccountId, DispatchError<E>>(who)) <==> (id_room <= s.room_id
                && s.rooms.dom().contains(id_room) && !s.deposits.dom().contains(who)
                && !s.rooms[id_room].is_started && !s.rooms[id_room].is_ended)),
{
}

/// A successful join adds the player at the end of the room's players, records
/// their deposit, adds it to the room's total, starts the room at block `now`
/// when it has two players, and leaves every other room and the results as they
/// were.
pub proof fn join_records_player(s: PalletView, who: AccountId, id_room: Id, deposit: Balance, now: BlockNumber)
    requires
        s.users[id_room].len() < 0x7fff_ffff,
        s.users.dom().contains(id_room),
        s.rooms.dom().contains(id_room),
        s.rooms[id_room].total_value + deposit <= u128::MAX,
    ensures
        spec_join(s, who, id_room, deposit, now).users[id_room] == s.users[id_room].push(who),
        spec_join(s, who, id_room, deposit, now).deposits == s.deposits.insert(who, deposit),
        spec_join(s, who, id_room, deposit, now).rooms[id_room].total_value == s.rooms[id_room].total_value
            + deposit,
        s.users[id_room].len() + 1 == 2 ==> spec_join(s, who, id_room, deposit, now).rooms[id_room].is_started
            && spec_join(s, who, id_room, deposit, now).rooms[id_room].start == now,
        s.users[id_room].len() + 1 != 2 ==> spec_join(s, who, id_room, deposit, now).rooms[id_room].start
            == s.rooms[id_room].start && spec_join(s, who, id_room, deposit, now).rooms[id_room].is_started
            == s.rooms[id_room].is_started,
        spec_join(s, who, id_room, deposit, now).rooms[id_room].creator == s.rooms[id_room].creator,
        spec_join(s, who, id_room, deposit, now).rooms[id_room].is_ended == s.rooms[id_room].is_ended,
        forall|id: Id|
            id != id_room ==> #[trigger] spec_join(s, who, id_room, deposit, now).rooms.dom().contains(id)
                == s.rooms.dom().contains(id) && spec_join(s, who, id_room, deposit, now).rooms[id]
                == s.rooms[id],
        spec_join(s, who, id_room, deposit, now).results == s.results,
        spec_join(s, who, id_room, deposit, now).room_id == s.room_id,
{
}

/// Opening a room hands out the next index, makes the opener its only player
/// with its deposit, and records the room as opened at block `now` with that
/// value, neither started nor ended.
pub proof fn create_opens_room(
    s: PalletView,
    who: AccountId,
    length: BlockNumber,
    delay: BlockNumber,
    deposit: Balance,
    now: BlockNumber,
)
    requires
        s.room_id < u32::MAX,
    ensures
        ({
            let t = spec_create(s, who, length, delay, deposit, now);
            let id = (s.room_id + 1) as Id;
            &&& t.room_id == s.room_id + 1
            &&& t.rooms.dom().contains(id)
            &&& t.rooms[id].creator == who
            &&& t.rooms[id].id_room == id
            &&& t.rooms[id].start == now
            &&& t.rooms[id].length == length
            &&& t.rooms[id].delay == delay
            &&& t.rooms[id].total_value == deposit
            &&& !t.rooms[id].is_started
            &&& !t.rooms[id].is_ended
            &&& t.users[id] == seq![who]
            &&& t.deposits == s.deposits.insert(who, deposit)
            &&& t.results == s.results
        }),
{
}

/// The reward the hook pays is the deposit times the percentage of the result's
/// band, divided by 100, for every deposit and result.
pub proof fn reward_is_band_percentage(d: Balance, r: u32)
    ensures
        spec_reward(d, r) == reward_of(d, r),
{
}

/// After the genesis results are recorded, an account given a result holds the
/// last result given for it, and every other account keeps what it held.
pub proof fn genesis_records_last_result(base: Map<AccountId, u32>, rs: Seq<(AccountId, u32)>, a: AccountId)
    ensures
        forall|i: int|
            0 <= i < rs.len() && #[trigger] rs[i].0 == a && (forall|j: int| i < j < rs.len() ==> rs[j].0 != a)
                ==> genesis_results(base, rs).dom().contains(a) && genesis_results(base, rs)[a] == rs[i].1,
        (forall|i: int| 0 <= i < rs.len() ==> rs[i].0 != a) ==> (genesis_results(base, rs).dom().contains(a)
            == base.dom().contains(a) && genesis_results(base, rs)[a] == base[a]),
    decreases rs.len(),
{
    if rs.len() > 0 {
        let init = rs.drop_last();
        genesis_records_last_result(base, init, a);
        assert forall|i: int|
            0 <= i < rs.len() && #[trigger] rs[i].0 == a && (forall|j: int| i < j < rs.len() ==> rs[j].0 != a)
                implies genesis_results(base, rs).dom().contains(a) && genesis_results(base, rs)[a] == rs[i].1 by {
            if i < rs.len() - 1 {
                assert(rs[rs.len() - 1].0 != a);
                assert(init[i].0 == a);
                assert forall|j: int| i < j < init.len() implies init[j].0 != a by {
                    assert(rs[j].0 != a);
                }
            }
        }
        if forall|i: int| 0 <= i < rs.len() ==> rs[i].0 != a {
            assert(rs[rs.len() - 1].0 != a);
            assert forall|i: int| 0 <= i < init.len() implies init[i].0 != a by {
                assert(rs[i].0 != a);
            }
        }
    }
}

/// Only a signed origin passes, and it yields its signer.
pub proof fn only_signers_pass<E>(who: AccountId)
    ensures
        spec_ensure_signed::<E>(Origin::Signed(who)) == Ok::<AccountId, DispatchError<E>>(who),
        spec_ensure_signed::<E>(Origin::Root) == Err::<AccountId, DispatchError<E>>(DispatchError::BadOrigin),
        spec_ensure_signed::<E>(Origin::Unsigned) == Err::<AccountId, DispatchError<E>>(
            DispatchError::BadOrigin,
        ),
{
}

/// A validator made from a development seed uses its account key as its BABE,
/// im-online and Octopus key.
pub proof fn seed_authority_keys_agree(k: AuthorityKeys, seed: Seq<char>, stash: Balance)
    requires
        seed_keys_derivable(seed),
        is_seed_authority(k, seed, stash),
    ensures
        k.babe == k.account,
        k.im_online == k.account,
        k.octopus == k.account,
{
    assert(k.babe =~= k.account);
    assert(k.im_online =~= k.account);
    assert(k.octopus =~= k.account);
}

} // verus!
