//! The room pallet: its storage, its two calls and its block hook.
use vstd::prelude::*;

use crate::keymap::{
    distinct_keys, entries_map, entry_keys, lemma_entries_map_dom, lemma_entries_map_index,
    lemma_entries_map_map_values, map_entry_values, KeyMap, MapKey,
};
use crate::pot::{pallet_account, pallet_account_bytes};
use crate::types::{
    ensure_signed, spec_ensure_signed, AccountId, Balance, BlockNumber, Config, DispatchError,
    Error, Event, Id, Origin, Room, Transfer,
};

verus! {

/// The storage of the pallet as mathematical values.
pub struct PalletView {
    pub config: Config,
    /// The last room index handed out.
    pub room_id: Id,
    /// The rooms in the order in which the hook walks them.
    pub room_order: Seq<Id>,
    pub rooms: Map<Id, Room>,
    /// Who has joined each room, in order of joining.
    pub users: Map<Id, Seq<AccountId>>,
    /// What each player has deposited and not yet been paid out for.
    pub deposits: Map<AccountId, Balance>,
    /// The result recorded for each player.
    pub results: Map<AccountId, u32>,
    /// The events the calls have deposited, oldest first.
    pub events: Seq<Event>,
}

/// The results after the genesis results `s` are recorded over `base`, in order.
pub open spec fn genesis_results(base: Map<AccountId, u32>, s: Seq<(AccountId, u32)>) -> Map<AccountId, u32>
    decreases s.len(),
{
    if s.len() == 0 {
        base
    } else {
        genesis_results(base, s.drop_last()).insert(s.last().0, s.last().1)
    }
}

/// The results the chain starts with.
pub struct GenesisConfig {
    pub results: Vec<(AccountId, u32)>,
}

impl Default for GenesisConfig {
    fn default() -> (g: GenesisConfig)
        ensures
            g.results@ == Seq::<(AccountId, u32)>::empty(),
    {
        GenesisConfig { results: Vec::new() }
    }
}

impl GenesisConfig {
    /// Records every result of the genesis configuration in `storage`, in order.
    pub fn build(&self, storage: &mut Pallet)
        requires
            old(storage).inv(),
        ensures
            final(storage).inv(),
            final(storage)@ == (PalletView {
                results: genesis_results(old(storage)@.results, self.results@),
                ..old(storage)@
            }),
    {
        let ghost s0 = storage@;
        let mut i: usize = 0;
        while i < self.results.len()
            invariant
                storage.inv(),
                0 <= i <= self.results@.len(),
                storage@ == (PalletView {
                    results: genesis_results(s0.results, self.results@.take(i as int)),
                    ..s0
                }),
            decreases self.results@.len() - i,
        {
            let (account, result) = self.results[i];
            storage.user_result.insert(account, result);
            assert(self.results@.take(i + 1).drop_last() =~= self.results@.take(i as int));
            i = i + 1;
        }
        assert(self.results@.take(self.results@.len() as int) =~= self.results@);
    }
}

/// The storage that the calls and the hook keep: each room carries its own index,
/// which is at most the last one handed out, has one or two players of whom the
/// first is its creator, has started exactly when it has two, and has ended only
/// after it started.
pub open spec fn well_formed(s: PalletView) -> bool {
    forall|id: Id|
        #![trigger s.rooms[id]]
        s.rooms.dom().contains(id) ==> {
            let room = s.rooms[id];
            let players = s.users[id];
            &&& room.id_room == id
            &&& 1 <= id <= s.room_id
            &&& s.users.dom().contains(id)
            &&& 1 <= players.len() <= 2
            &&& players[0] == room.creator
            &&& room.is_started <==> players.len() == 2
            &&& room.is_ended ==> room.is_started
        }
}

/// The walk of the hook lists every stored room exactly once (true of every
/// pallet: see `Pallet::lemma_orders_its_rooms`).
pub open spec fn orders_its_rooms(s: PalletView) -> bool {
    &&& s.room_order.no_duplicates()
    &&& forall|id: Id| #[trigger] s.room_order.contains(id) <==> s.rooms.dom().contains(id)
}

/// The storage of the room pallet.
pub struct Pallet {
    config: Config,
    room_id: Id,
    rooms: KeyMap<Id, Room>,
    user_in_room: KeyMap<Id, Vec<AccountId>>,
    user_deposit: KeyMap<AccountId, Balance>,
    user_result: KeyMap<AccountId, u32>,
    events: Vec<Event>,
}

impl View for Pallet {
    type V = PalletView;

    closed spec fn view(&self) -> PalletView {
        PalletView {
            config: self.config,
            room_id: self.room_id,
            room_order: entry_keys(self.rooms.entries()),
            rooms: self.rooms.view(),
            users: self.user_in_room.view().map_values(|v: Vec<AccountId>| v@),
            deposits: self.user_deposit.view(),
            results: self.user_result.view(),
            events: self.events@,
        }
    }
}

/// The room that `create_new_room` opens.
pub open spec fn new_room(who: AccountId, id: Id, now: BlockNumber, length: BlockNumber, delay: BlockNumber, deposit: Balance) -> Room {
    Room {
        creator: who,
        id_room: id,
        start: now,
        length,
        delay,
        total_value: deposit,
        is_started: false,
        is_ended: false,
    }
}

/// The storage after `who` opens a room with `deposit` at block `now`.
pub open spec fn spec_create(
    s: PalletView,
    who: AccountId,
    length: BlockNumber,
    delay: BlockNumber,
    deposit: Balance,
    now: BlockNumber,
) -> PalletView {
    let id = (s.room_id + 1) as Id;
    PalletView {
        config: s.config,
        room_id: id,
        room_order: if s.rooms.dom().contains(id) { s.room_order } else { s.room_order.push(id) },
        rooms: s.rooms.insert(id, new_room(who, id, now, length, delay, deposit)),
        users: s.users.insert(id, seq![who]),
        deposits: s.deposits.insert(who, deposit),
        results: s.results,
        events: s.events.push(Event::CreateRoom { id_room: id, creator: who }),
    }
}

/// `x` as a `u32`, held at `u32::MAX`.
pub open spec fn saturated_u32(x: u128) -> u32 {
    if x > u32::MAX { u32::MAX } else { x as u32 }
}

/// What `join_room` decides before any transfer: the player, or why the call is refused.
pub open spec fn spec_join_check<E>(s: PalletView, origin: Origin, id_room: Id) -> Result<AccountId, DispatchError<E>> {
    match origin {
        Origin::Signed(who) => {
            if id_room > s.room_id {
                Err(DispatchError::Module(Error::RoomNotExist))
            } else if s.deposits.dom().contains(who) {
                Err(DispatchError::Module(Error::UserAlreadyJoined))
            } else if !s.rooms.dom().contains(id_room) {
                Err(DispatchError::Module(Error::RoomNotExist))
            } else if s.rooms[id_room].is_ended {
                Err(DispatchError::Module(Error::RoomAlreadyEnded))
            } else if s.rooms[id_room].is_started {
                Err(DispatchError::Module(Error::RoomAlreadyStarted))
            } else {
                Ok(who)
            }
        },
        _ => Err(DispatchError::BadOrigin),
    }
}

/// The inputs on which `join_room`, once its checks pass, reads only what is
/// stored and adds to the room's total without overflow.
pub open spec fn join_safe(s: PalletView, origin: Origin, id_room: Id, deposit: Balance) -> bool {
    spec_join_check::<()>(s, origin, id_room) is Ok ==> {
        &&& s.rooms[id_room].total_value + deposit <= u128::MAX
        &&& s.users.dom().contains(id_room)
    }
}

/// The room after `deposit` is added to it and it has `players` players: it starts,
/// at block `now`, when the second one joins.
pub open spec fn joined_room(room: Room, players: Seq<AccountId>, deposit: Balance, now: BlockNumber) -> Room {
    let with_value = Room { total_value: (room.total_value + deposit) as Balance, ..room };
    if (players.len() as i32) == 2 {
        Room { is_started: true, start: now, ..with_value }
    } else {
        with_value
    }
}

/// The storage after `who` joins room `id` with `deposit` at block `now`.
pub open spec fn spec_join(s: PalletView, who: AccountId, id: Id, deposit: Balance, now: BlockNumber) -> PalletView {
    let players = s.users[id].push(who);
    PalletView {
        config: s.config,
        room_id: s.room_id,
        room_order: s.room_order,
        rooms: s.rooms.insert(id, joined_room(s.rooms[id], players, deposit, now)),
        users: s.users.insert(id, players),
        deposits: s.deposits.insert(who, deposit),
        results: s.results,
        events: s.events.push(
            Event::JoinRoom { id_room: id, user: who, deposit_amount: saturated_u32(deposit) },
        ),
    }
}

/// `a + b`, held at `u32::MAX`.
pub open spec fn sat_add(a: u32, b: u32) -> u32 {
    if a + b > u32::MAX { u32::MAX } else { (a + b) as u32 }
}

/// The block from which the players of a room can be paid.
pub open spec fn payout_block(room: Room) -> u32 {
    sat_add(sat_add(room.start, room.length), room.delay)
}

/// A room whose players are paid at block `n`.
pub open spec fn is_due(room: Room, n: BlockNumber) -> bool {
    payout_block(room) <= n && room.is_started && !room.is_ended
}

/// The room as the hook leaves it at block `n`.
pub open spec fn ended_if_due(room: Room, n: BlockNumber) -> Room {
    if is_due(room, n) { Room { is_ended: true, ..room } } else { room }
}

/// The percentage of the deposit paid back for a result.
pub open spec fn spec_reward_factor(result: u32) -> u128 {
    if 95 < result && result <= 100 {
        100
    } else if 85 < result && result <= 95 {
        90
    } else if 75 < result && result <= 85 {
        80
    } else if 65 < result && result <= 75 {
        70
    } else if 55 < result && result <= 65 {
        60
    } else if 45 < result && result <= 55 {
        50
    } else {
        0
    }
}

/// What a player with `deposit` and `result` is paid.
pub open spec fn spec_reward(deposit: Balance, result: u32) -> Balance {
    (deposit * spec_reward_factor(result) / 100) as Balance
}

/// The players of room `id` who are paid at block `n`.
pub open spec fn room_due_users(s: PalletView, n: BlockNumber, id: Id) -> Seq<AccountId> {
    if is_due(s.rooms[id], n) { s.users[id] } else { seq![] }
}

/// The players paid at block `n` for the first `k` rooms of the walk.
pub open spec fn due_users_upto(s: PalletView, n: BlockNumber, k: int) -> Seq<AccountId>
    decreases k,
{
    if k <= 0 {
        seq![]
    } else {
        due_users_upto(s, n, k - 1) + room_due_users(s, n, s.room_order[k - 1])
    }
}

/// Every player paid at block `n`, room after room.
pub open spec fn due_users(s: PalletView, n: BlockNumber) -> Seq<AccountId> {
    due_users_upto(s, n, s.room_order.len() as int)
}

/// Recipient and amount of the payments for room `id` at block `n`.
pub open spec fn room_payouts(s: PalletView, n: BlockNumber, id: Id) -> Seq<(AccountId, Balance)> {
    room_due_users(s, n, id).map_values(
        |u: AccountId| (u, spec_reward(s.deposits[u], s.results[u])),
    )
}

/// Recipient and amount of the payments at block `n` for the first `k` rooms of the walk.
pub open spec fn payouts_upto(s: PalletView, n: BlockNumber, k: int) -> Seq<(AccountId, Balance)>
    decreases k,
{
    if k <= 0 {
        seq![]
    } else {
        payouts_upto(s, n, k - 1) + room_payouts(s, n, s.room_order[k - 1])
    }
}

/// Recipient and amount of every payment at block `n`, in order.
pub open spec fn payouts(s: PalletView, n: BlockNumber) -> Seq<(AccountId, Balance)> {
    payouts_upto(s, n, s.room_order.len() as int)
}

/// The storage after the hook runs at block `n`: due rooms are ended and their
/// players' deposits are cleared.
pub open spec fn spec_payout(s: PalletView, n: BlockNumber) -> PalletView {
    PalletView {
        config: s.config,
        room_id: s.room_id,
        room_order: s.room_order,
        rooms: s.rooms.map_values(|r: Room| ended_if_due(r, n)),
        users: s.users,
        deposits: s.deposits.remove_keys(due_users(s, n).to_set()),
        results: s.results,
        events: s.events,
    }
}

/// The states in which the hook at block `n` reads only what is stored and
/// computes every reward without overflow: each room has its players, no player is
/// paid twice, and each paid player has a deposit and a result.
pub open spec fn payout_safe(s: PalletView, n: BlockNumber) -> bool {
    let du = due_users(s, n);
    &&& forall|id: Id| s.rooms.dom().contains(id) ==> #[trigger] s.users.dom().contains(id)
    &&& du.no_duplicates()
    &&& forall|k: int|
        0 <= k < du.len() ==> {
            &&& s.deposits.dom().contains(#[trigger] du[k])
            &&& s.results.dom().contains(du[k])
            &&& s.deposits[du[k]] * spec_reward_factor(s.results[du[k]]) <= u128::MAX
        }
}

/// The payments for the first `k` rooms come before those of the rest.
pub proof fn lemma_due_users_prefix(s: PalletView, n: BlockNumber, k: int, m: int)
    requires
        0 <= k <= m,
    ensures
        due_users_upto(s, n, k).len() <= due_users_upto(s, n, m).len(),
        forall|p: int|
            0 <= p < due_users_upto(s, n, k).len() ==> due_users_upto(s, n, k)[p]
                == due_users_upto(s, n, m)[p],
    decreases m - k,
{
    if k < m {
        lemma_due_users_prefix(s, n, k, m - 1);
    }
}

/// The share of the deposit paid back for a result, twice (the second is the
/// factor of the bonus token, which is not paid out).
pub fn reward_factor(result: u32) -> (f: (u128, u128))
    ensures
        f.0 == spec_reward_factor(result),
        f.1 == f.0,
{
    if result > 95 && result <= 100 {
        (100, 100)
    } else if result > 85 && result <= 95 {
        (90, 90)
    } else if result > 75 && result <= 85 {
        (80, 80)
    } else if result > 65 && result <= 75 {
        (70, 70)
    } else if result > 55 && result <= 65 {
        (60, 60)
    } else if result > 45 && result <= 55 {
        (50, 50)
    } else {
        (0, 0)
    }
}

fn copy_accounts(v: &Vec<AccountId>) -> (r: Vec<AccountId>)
    ensures
        r@ == v@,
{
    let mut r: Vec<AccountId> = Vec::new();
    let mut i: usize = 0;
    while i < v.len()
        invariant
            0 <= i <= v@.len(),
            r@ == v@.take(i as int),
        decreases v@.len() - i,
    {
        r.push(v[i]);
        i = i + 1;
        assert(r@ =~= v@.take(i as int));
    }
    assert(v@.take(v@.len() as int) =~= v@);
    r
}

fn contains_account(v: &Vec<AccountId>, a: &AccountId) -> (b: bool)
    ensures
        b == v@.contains(*a),
{
    let mut i: usize = 0;
    while i < v.len()
        invariant
            0 <= i <= v@.len(),
            forall|j: int| 0 <= j < i ==> v@[j] != *a,
        decreases v@.len() - i,
    {
        if v[i].same_key(a) {
            return true;
        }
        i = i + 1;
    }
    false
}

fn key_map_of<K: MapKey, V: Copy>(entries: &Vec<(K, V)>) -> (m: KeyMap<K, V>)
    ensures
        m.wf(),
        m.view() == entries_map(entries@),
        distinct_keys(entries@) ==> entry_keys(m.entries()) == entry_keys(entries@),
{
    let mut m: KeyMap<K, V> = KeyMap::new();
    let mut i: usize = 0;
    while i < entries.len()
        invariant
            0 <= i <= entries@.len(),
            m.wf(),
            m.view() == entries_map(entries@.take(i as int)),
            distinct_keys(entries@) ==> entry_keys(m.entries()) == entry_keys(entries@.take(i as int)),
        decreases entries@.len() - i,
    {
        let (k, v) = entries[i];
        proof {
            assert(entries@.take(i + 1).drop_last() =~= entries@.take(i as int));
            if distinct_keys(entries@) {
                lemma_entries_map_dom(entries@.take(i as int), k);
                if m.view().dom().contains(k) {
                    let j = choose|j: int| 0 <= j < i && entries@.take(i as int)[j].0 == k;
                    assert(entries@[j].0 == entries@[i as int].0);
                }
            }
        }
        m.insert(k, v);
        proof {
            assert(entry_keys(entries@.take(i + 1)) =~= entry_keys(entries@.take(i as int)).push(k));
        }
        i = i + 1;
    }
    assert(entries@.take(entries@.len() as int) =~= entries@);
    m
}

fn player_map_of(entries: &Vec<(Id, Vec<AccountId>)>) -> (m: KeyMap<Id, Vec<AccountId>>)
    ensures
        m.wf(),
        m.view().map_values(|v: Vec<AccountId>| v@) == entries_map(
            entries@.map_values(|e: (Id, Vec<AccountId>)| (e.0, e.1@)),
        ),
{
    let ghost f = |e: (Id, Vec<AccountId>)| (e.0, e.1@);
    let mut m: KeyMap<Id, Vec<AccountId>> = KeyMap::new();
    let mut i: usize = 0;
    assert(m.view().map_values(|v: Vec<AccountId>| v@) =~= entries_map(entries@.take(0).map_values(f)));
    while i < entries.len()
        invariant
            0 <= i <= entries@.len(),
            f == (|e: (Id, Vec<AccountId>)| (e.0, e.1@)),
            m.wf(),
            m.view().map_values(|v: Vec<AccountId>| v@) == entries_map(entries@.take(i as int).map_values(f)),
        decreases entries@.len() - i,
    {
        let k = entries[i].0;
        let v = copy_accounts(&entries[i].1);
        let ghost before = m.view();
        m.insert(k, v);
        proof {
            assert(entries@.take(i + 1).map_values(f).drop_last() =~= entries@.take(i as int).map_values(f));
            assert(m.view().map_values(|v: Vec<AccountId>| v@) =~= before.map_values(|v: Vec<AccountId>| v@).insert(k, entries@[i as int].1@));
        }
        i = i + 1;
    }
    assert(entries@.take(entries@.len() as int) =~= entries@);
    m
}

impl Pallet {
    /// The storage maps hold no key twice.
    pub closed spec fn inv(&self) -> bool {
        &&& self.rooms.wf()
        &&& self.user_in_room.wf()
        &&& self.user_deposit.wf()
        &&& self.user_result.wf()
    }

    /// Storage holding the given entries, as read back from a store: rooms in the
    /// given order, and for a key given twice, its last value.
    pub fn restore(
        config: Config,
        room_id: Id,
        rooms: Vec<(Id, Room)>,
        users: Vec<(Id, Vec<AccountId>)>,
        deposits: Vec<(AccountId, Balance)>,
        results: Vec<(AccountId, u32)>,
    ) -> (p: Self)
        requires
            distinct_keys(rooms@),
        ensures
            p.inv(),
            p@.config == config,
            p@.room_id == room_id,
            p@.room_order == entry_keys(rooms@),
            p@.rooms == entries_map(rooms@),
            p@.users == entries_map(users@.map_values(|e: (Id, Vec<AccountId>)| (e.0, e.1@))),
            p@.deposits == entries_map(deposits@),
            p@.results == entries_map(results@),
            p@.events == Seq::<Event>::empty(),
    {
        Pallet {
            config,
            room_id,
            rooms: key_map_of(&rooms),
            user_in_room: player_map_of(&users),
            user_deposit: key_map_of(&deposits),
            user_result: key_map_of(&results),
            events: Vec::new(),
        }
    }

    /// The rooms in the order in which the hook walks them.
    pub fn room_ids(&self) -> (ids: Vec<Id>)
        ensures
            ids@ == self@.room_order,
    {
        let mut ids: Vec<Id> = Vec::new();
        let mut i: usize = 0;
        while i < self.rooms.len()
            invariant
                0 <= i <= self.rooms.entries().len(),
                ids@ == entry_keys(self.rooms.entries()).take(i as int),
            decreases self.rooms.entries().len() - i,
        {
            ids.push(self.rooms.entry_at(i).0);
            i = i + 1;
            assert(ids@ =~= entry_keys(self.rooms.entries()).take(i as int));
        }
        assert(entry_keys(self.rooms.entries()).take(i as int) =~= entry_keys(self.rooms.entries()));
        ids
    }

    /// Whether `join_room` can run on these inputs without reading what is not
    /// stored or overflowing a room's total.
    pub fn join_is_safe(&self, origin: &Origin, id_room: Id, deposit: Balance) -> (b: bool)
        requires
            self.inv(),
        ensures
            b == join_safe(self@, *origin, id_room, deposit),
    {
        match self.join_room_check::<()>(origin, id_room) {
            Ok(_) => {
                let room = self.rooms.get(&id_room).unwrap();
                room.total_value.checked_add(deposit).is_some() && self.user_in_room.contains_key(&id_room)
            },
            Err(_) => true,
        }
    }

    /// Whether the hook can run at block `n` without reading what is not stored,
    /// paying a player twice or overflowing a reward.
    pub fn payout_is_safe(&self, n: BlockNumber) -> (b: bool)
        requires
            self.inv(),
        ensures
            b == payout_safe(self@, n),
    {
        let ghost s = self@;
        let ghost e0 = self.rooms.entries();
        let len = self.rooms.len();
        let mut i: usize = 0;
        while i < len
            invariant
                0 <= i <= len,
                len == e0.len(),
                e0 == self.rooms.entries(),
                s == self@,
                self.inv(),
                forall|j: int| 0 <= j < i ==> s.users.dom().contains(#[trigger] e0[j].0),
            decreases len - i,
        {
            let id = self.rooms.entry_at(i).0;
            if !self.user_in_room.contains_key(&id) {
                proof {
                    lemma_entries_map_index(e0, i as int);
                    assert(s.rooms.dom().contains(id));
                    assert(!s.users.dom().contains(id));
                    assert(!payout_safe(s, n));
                }
                return false;
            }
            i = i + 1;
        }
        assert forall|id: Id| s.rooms.dom().contains(id) implies #[trigger] s.users.dom().contains(id) by {
            lemma_entries_map_dom(e0, id);
            let j = choose|j: int| 0 <= j < e0.len() && e0[j].0 == id;
            assert(s.users.dom().contains(e0[j].0));
        }
        let ghost du = due_users(s, n);
        let mut seen: Vec<AccountId> = Vec::new();
        let mut i: usize = 0;
        while i < len
            invariant
                0 <= i <= len,
                len == e0.len(),
                e0 == self.rooms.entries(),
                s == self@,
                self.inv(),
                du == due_users(s, n),
                forall|id: Id| s.rooms.dom().contains(id) ==> #[trigger] s.users.dom().contains(id),
                seen@ == due_users_upto(s, n, i as int),
                seen@.no_duplicates(),
                forall|k: int|
                    0 <= k < seen@.len() ==> {
                        &&& s.deposits.dom().contains(#[trigger] seen@[k])
                        &&& s.results.dom().contains(seen@[k])
                        &&& s.deposits[seen@[k]] * spec_reward_factor(s.results[seen@[k]]) <= u128::MAX
                    },
            decreases len - i,
        {
            let id = self.rooms.entry_at(i).0;
            let room = self.rooms.entry_at(i).1;
            proof {
                lemma_entries_map_index(e0, i as int);
                assert(s.room_order[i as int] == id);
                assert(s.rooms[id] == room);
                assert(s.users.dom().contains(id));
                lemma_due_users_prefix(s, n, i + 1, len as int);
            }
            let players = self.user_in_room.get(&id).unwrap();
            let payout_block = room.start.saturating_add(room.length).saturating_add(room.delay);
            if payout_block <= n && room.is_started && !room.is_ended {
                let ghost d_i = seen@;
                assert(due_users_upto(s, n, i + 1) == d_i + players@);
                assert(players@.take(0) =~= Seq::<AccountId>::empty());
                assert(d_i + players@.take(0) =~= d_i);
                let mut j: usize = 0;
                while j < players.len()
                    invariant
                        0 <= i < len,
                        0 <= j <= players@.len(),
                        s == self@,
                        self.inv(),
                        du == due_users(s, n),
                        due_users_upto(s, n, i + 1) == d_i + players@,
                        due_users_upto(s, n, i + 1).len() <= du.len(),
                        forall|p: int|
                            0 <= p < due_users_upto(s, n, i + 1).len() ==> due_users_upto(s, n, i + 1)[p]
                                == du[p],
                        seen@ == d_i + players@.take(j as int),
                        seen@.no_duplicates(),
                        forall|k: int|
                            0 <= k < seen@.len() ==> {
                                &&& s.deposits.dom().contains(#[trigger] seen@[k])
                                &&& s.results.dom().contains(seen@[k])
                                &&& s.deposits[seen@[k]] * spec_reward_factor(s.results[seen@[k]])
                                    <= u128::MAX
                            },
                    decreases players@.len() - j,
                {
                    let user = players[j];
                    let ghost pos = d_i.len() + j;
                    assert(du[pos] == user);
                    if contains_account(&seen, &user) {
                        proof {
                            let q = choose|q: int| 0 <= q < seen@.len() && seen@[q] == user;
                            assert(du[q] == seen@[q]);
                            assert(!du.no_duplicates());
                        }
                        return false;
                    }
                    let deposit = match self.user_deposit.get(&user) {
                        Some(d) => *d,
                        None => {
                            return false;
                        },
                    };
                    let result = match self.user_result.get(&user) {
                        Some(r) => *r,
                        None => {
                            return false;
                        },
                    };
                    let factor = reward_factor(result);
                    if deposit.checked_mul(factor.0).is_none() {
                        return false;
                    }
                    let ghost old_seen = seen@;
                    seen.push(user);
                    proof {
                        assert(players@.take(j + 1) =~= players@.take(j as int).push(user));
                        assert(seen@ =~= d_i + players@.take(j + 1));
                        assert forall|a: int, b: int|
                            0 <= a < seen@.len() && 0 <= b < seen@.len() && a != b implies seen@[a] != seen@[b] by {
                            if a == old_seen.len() {
                                assert(old_seen.contains(seen@[b]));
                            } else if b == old_seen.len() {
                                assert(old_seen.contains(seen@[a]));
                            }
                        }
                    }
                    j = j + 1;
                }
                assert(players@.take(players@.len() as int) =~= players@);
            } else {
                assert(due_users_upto(s, n, i + 1) =~= seen@);
            }
            i = i + 1;
        }
        true
    }

    /// The walk of the hook lists every stored room exactly once.
    pub proof fn lemma_orders_its_rooms(&self)
        requires
            self.inv(),
        ensures
            orders_its_rooms(self@),
    {
        let e = self.rooms.entries();
        assert forall|id: Id| #[trigger] self@.room_order.contains(id) <==> self@.rooms.dom().contains(id) by {
            lemma_entries_map_dom(e, id);
            if self@.rooms.dom().contains(id) {
                let j = choose|j: int| 0 <= j < e.len() && e[j].0 == id;
                assert(self@.room_order[j] == id);
            }
            if self@.room_order.contains(id) {
                let j = choose|j: int| 0 <= j < self@.room_order.len() && self@.room_order[j] == id;
                assert(e[j].0 == id);
            }
        }
    }


    /// Empty storage under `config`.
    pub fn new(config: Config) -> (p: Self)
        ensures
            p.inv(),
            p@.config == config,
            p@.room_id == 0,
            p@.room_order == Seq::<Id>::empty(),
            p@.rooms == Map::<Id, Room>::empty(),
            p@.users == Map::<Id, Seq<AccountId>>::empty(),
            p@.deposits == Map::<AccountId, Balance>::empty(),
            p@.results == Map::<AccountId, u32>::empty(),
            p@.events == Seq::<Event>::empty(),
    {
        let p = Pallet {
            config,
            room_id: 0,
            rooms: KeyMap::new(),
            user_in_room: KeyMap::new(),
            user_deposit: KeyMap::new(),
            user_result: KeyMap::new(),
            events: Vec::new(),
        };
        assert(p@.room_order =~= Seq::<Id>::empty());
        assert(p@.users =~= Map::<Id, Seq<AccountId>>::empty());
        p
    }

    /// The account of the room pot.
    pub fn account_id(&self) -> (a: AccountId)
        ensures
            a@ == pallet_account_bytes(self@.config.pallet_id@),
    {
        pallet_account(self.config.pallet_id)
    }

    /// The events deposited so far, oldest first.
    pub fn events(&self) -> (e: &Vec<Event>)
        ensures
            e@ == self@.events,
    {
        &self.events
    }

    /// The last room index handed out.
    pub fn room_id(&self) -> (r: Id)
        ensures
            r == self@.room_id,
    {
        self.room_id
    }

    pub fn get_room(&self, id: Id) -> (r: Option<Room>)
        requires
            self.inv(),
        ensures
            r == (if self@.rooms.dom().contains(id) { Some(self@.rooms[id]) } else { None::<Room> }),
    {
        match self.rooms.get(&id) {
            Some(room) => Some(*room),
            None => None,
        }
    }

    pub fn get_user_in_room(&self, id: Id) -> (r: Option<Vec<AccountId>>)
        requires
            self.inv(),
        ensures
            match r {
                Some(v) => self@.users.dom().contains(id) && v@ == self@.users[id],
                None => !self@.users.dom().contains(id),
            },
    {
        match self.user_in_room.get(&id) {
            Some(v) => Some(copy_accounts(v)),
            None => None,
        }
    }

    pub fn get_deposit(&self, who: &AccountId) -> (r: Option<Balance>)
        requires
            self.inv(),
        ensures
            r == (if self@.deposits.dom().contains(*who) { Some(self@.deposits[*who]) } else { None::<Balance> }),
    {
        match self.user_deposit.get(who) {
            Some(d) => Some(*d),
            None => None,
        }
    }

    pub fn get_user_result(&self, who: &AccountId) -> (r: Option<u32>)
        requires
            self.inv(),
        ensures
            r == (if self@.results.dom().contains(*who) { Some(self@.results[*who]) } else { None::<u32> }),
    {
        match self.user_result.get(who) {
            Some(d) => Some(*d),
            None => None,
        }
    }

    /// The transfer into the pot with which `who` pays `deposit`.
    pub fn deposit_transfer(&self, who: AccountId, deposit: Balance) -> (t: Transfer)
        ensures
            t.from == who,
            t.to@ == pallet_account_bytes(self@.config.pallet_id@),
            t.amount == deposit,
    {
        Transfer { from: who, to: self.account_id(), amount: deposit }
    }

    /// Opens a new room for the signer, who pays `deposit` into the pot.
    ///
    /// `transfer` is what the currency answered to the signer's
    /// `deposit_transfer(who, deposit)`; the call is all or nothing.
    pub fn create_new_room<E>(
        &mut self,
        origin: Origin,
        length: BlockNumber,
        delay: BlockNumber,
        deposit: Balance,
        now: BlockNumber,
        transfer: Result<(), E>,
    ) -> (r: Result<(), DispatchError<E>>)
        requires
            old(self).inv(),
            origin is Signed ==> old(self)@.room_id < u32::MAX,
        ensures
            final(self).inv(),
            match spec_ensure_signed::<E>(origin) {
                Err(e) => r == Err::<(), DispatchError<E>>(e) && final(self)@ == old(self)@,
                Ok(who) => match transfer {
                    Err(e) => r == Err::<(), DispatchError<E>>(DispatchError::Currency(e))
                        && final(self)@ == old(self)@,
                    Ok(_) => r == Ok::<(), DispatchError<E>>(()) && final(self)@ == spec_create(
                        old(self)@,
                        who,
                        length,
                        delay,
                        deposit,
                        now,
                    ),
                },
            },
    {
        let who = match ensure_signed::<E>(&origin) {
            Ok(who) => who,
            Err(e) => return Err(e),
        };
        let current_id_room = self.room_id + 1;
        match transfer {
            Ok(_) => {},
            Err(e) => return Err(DispatchError::Currency(e)),
        }
        let room = Room {
            creator: who,
            id_room: current_id_room,
            start: now,
            length,
            delay,
            total_value: deposit,
            is_started: false,
            is_ended: false,
        };
        let mut vec_users: Vec<AccountId> = Vec::new();
        vec_users.push(who);
        let ghost s = self@;
        self.room_id = current_id_room;
        self.user_in_room.insert(current_id_room, vec_users);
        self.user_deposit.insert(who, deposit);
        self.rooms.insert(current_id_room, room);
        self.events.push(Event::CreateRoom { id_room: current_id_room, creator: who });
        assert(self@.users =~= s.users.insert(current_id_room, seq![who]));
        assert(self@.room_order =~= spec_create(s, who, length, delay, deposit, now).room_order);
        Ok(())
    }

    /// The checks of `join_room` that come before its transfer.
    pub fn join_room_check<E>(&self, origin: &Origin, id_room: Id) -> (r: Result<AccountId, DispatchError<E>>)
        requires
            self.inv(),
        ensures
            r == spec_join_check::<E>(self@, *origin, id_room),
    {
        let who = match ensure_signed::<E>(origin) {
            Ok(who) => who,
            Err(e) => return Err(e),
        };
        if id_room > self.room_id {
            return Err(DispatchError::Module(Error::RoomNotExist));
        }
        if self.user_deposit.contains_key(&who) {
            return Err(DispatchError::Module(Error::UserAlreadyJoined));
        }
        let room = match self.rooms.get(&id_room) {
            Some(room) => *room,
            None => return Err(DispatchError::Module(Error::RoomNotExist)),
        };
        if room.is_ended {
            return Err(DispatchError::Module(Error::RoomAlreadyEnded));
        }
        if room.is_started {
            return Err(DispatchError::Module(Error::RoomAlreadyStarted));
        }
        Ok(who)
    }

    /// The signer joins room `id_room`, paying `deposit` into the pot; the room
    /// starts when it is the second player.
    ///
    /// `transfer` is what the currency answered to the signer's
    /// `deposit_transfer(who, deposit)`, made once `join_room_check` passed;
    /// the call is all or nothing.
    pub fn join_room<E>(
        &mut self,
        origin: Origin,
        id_room: Id,
        deposit: Balance,
        now: BlockNumber,
        transfer: Result<(), E>,
    ) -> (r: Result<(), DispatchError<E>>)
        requires
            old(self).inv(),
            join_safe(old(self)@, origin, id_room, deposit),
        ensures
            final(self).inv(),
            match spec_join_check::<E>(old(self)@, origin, id_room) {
                Err(e) => r == Err::<(), DispatchError<E>>(e) && final(self)@ == old(self)@,
                Ok(who) => match transfer {
                    Err(e) => r == Err::<(), DispatchError<E>>(DispatchError::Currency(e))
                        && final(self)@ == old(self)@,
                    Ok(_) => r == Ok::<(), DispatchError<E>>(()) && final(self)@ == spec_join(
                        old(self)@,
                        who,
                        id_room,
                        deposit,
                        now,
                    ),
                },
            },
    {
        let who = match self.join_room_check::<E>(&origin, id_room) {
            Ok(who) => who,
            Err(e) => return Err(e),
        };
        let mut room = *self.rooms.get(&id_room).unwrap();
        room.total_value = room.total_value + deposit;
        let mut vec_users = copy_accounts(self.user_in_room.get(&id_room).unwrap());
        vec_users.push(who);
        match transfer {
            Ok(_) => {},
            Err(e) => return Err(DispatchError::Currency(e)),
        }
        if (vec_users.len() as i32) == 2 {
            room.is_started = true;
            room.start = now;
        }
        let ghost s = self@;
        let ghost players = vec_users@;
        self.user_in_room.insert(id_room, vec_users);
        self.user_deposit.insert(who, deposit);
        self.rooms.insert(id_room, room);
        let deposit_amount: u32 = if deposit > 4294967295u128 { u32::MAX } else { deposit as u32 };
        self.events.push(Event::JoinRoom { id_room, user: who, deposit_amount });
        assert(self@.users =~= s.users.insert(id_room, players));
        Ok(())
    }
    /// The hook run at the start of block `n`: every due room is ended and each
    /// of its players is paid their reward from the pot; the deposits paid for
    /// are cleared. Returns the weight (zero) and the transfers, room after room
    /// in the walk's order; the runtime makes them and does not look at their
    /// outcome.
    pub fn on_initialize(&mut self, n: BlockNumber) -> (out: (u64, Vec<Transfer>))
        requires
            old(self).inv(),
            payout_safe(old(self)@, n),
        ensures
            final(self).inv(),
            out.0 == 0,
            final(self)@ == spec_payout(old(self)@, n),
            out.1@.len() == payouts(old(self)@, n).len(),
            forall|k: int|
                0 <= k < out.1@.len() ==> {
                    &&& (#[trigger] out.1@[k]).from@ == pallet_account_bytes(
                        old(self)@.config.pallet_id@,
                    )
                    &&& out.1@[k].to == payouts(old(self)@, n)[k].0
                    &&& out.1@[k].amount == payouts(old(self)@, n)[k].1
                },
    {
        let pot = self.account_id();
        let ghost s0 = self@;
        let ghost e0 = self.rooms.entries();
        let ghost uin = self.user_in_room.view();
        let ghost res0 = self.user_result.view();
        let mut out: Vec<Transfer> = Vec::new();
        let len = self.rooms.len();
        let mut i: usize = 0;
        while i < len
            invariant
                self.inv(),
                0 <= i <= len,
                len == e0.len(),
                s0.room_order == entry_keys(e0),
                s0.rooms == entries_map(e0),
                distinct_keys(e0),
                s0.users == uin.map_values(|v: Vec<AccountId>| v@),
                s0.results == res0,
                payout_safe(s0, n),
                pot@ == pallet_account_bytes(s0.config.pallet_id@),
                self.config == s0.config,
                self.room_id == s0.room_id,
                self.user_in_room.view() == uin,
                self.user_result.view() == res0,
                self.events@ == s0.events,
                self.rooms.entries().len() == len,
                forall|j: int|
                    0 <= j < i ==> #[trigger] self.rooms.entries()[j] == (
                        e0[j].0,
                        ended_if_due(e0[j].1, n),
                    ),
                forall|j: int| i <= j < len ==> #[trigger] self.rooms.entries()[j] == e0[j],
                self.user_deposit.view() == s0.deposits.remove_keys(
                    due_users_upto(s0, n, i as int).to_set(),
                ),
                out@.len() == payouts_upto(s0, n, i as int).len(),
                forall|k: int|
                    0 <= k < out@.len() ==> {
                        &&& (#[trigger] out@[k]).from == pot
                        &&& out@[k].to == payouts_upto(s0, n, i as int)[k].0
                        &&& out@[k].amount == payouts_upto(s0, n, i as int)[k].1
                    },
            decreases len - i,
        {
            let id = self.rooms.entry_at(i).0;
            let mut room = self.rooms.entry_at(i).1;
            proof {
                lemma_entries_map_index(e0, i as int);
                assert(s0.room_order[i as int] == id);
                assert(s0.rooms[id] == room);
                assert(s0.users.dom().contains(id));
            }
            let payout_block = room.start.saturating_add(room.length).saturating_add(room.delay);
            let vec_users = self.user_in_room.get(&id).unwrap();
            let ghost d_i = due_users_upto(s0, n, i as int);
            let ghost p_i = payouts_upto(s0, n, i as int);
            if payout_block <= n && room.is_started && !room.is_ended {
                assert(is_due(s0.rooms[id], n));
                room.is_ended = true;
                let ghost users = vec_users@;
                assert(users == s0.users[id]);
                assert(due_users_upto(s0, n, i + 1) == d_i + users);
                assert(payouts_upto(s0, n, i + 1) == p_i + room_payouts(s0, n, id));
                proof {
                    lemma_due_users_prefix(s0, n, i + 1, len as int);
                    assert(users.take(0) =~= Seq::<AccountId>::empty());
                    assert(d_i + users.take(0) =~= d_i);
                }
                let mut j: usize = 0;
                while j < vec_users.len()
                    invariant
                        self.inv(),
                        0 <= i < len,
                        0 <= j <= users.len(),
                        vec_users@ == users,
                        users == s0.users[id],
                        is_due(s0.rooms[id], n),
                        d_i == due_users_upto(s0, n, i as int),
                        p_i == payouts_upto(s0, n, i as int),
                        due_users_upto(s0, n, i + 1) == d_i + users,
                        due_users_upto(s0, n, i + 1).len() <= due_users(s0, n).len(),
                        forall|p: int|
                            0 <= p < due_users_upto(s0, n, i + 1).len() ==> due_users_upto(
                                s0,
                                n,
                                i + 1,
                            )[p] == due_users(s0, n)[p],
                        s0.results == res0,
                        payout_safe(s0, n),
                        self.config == s0.config,
                        self.room_id == s0.room_id,
                        self.user_in_room.view() == uin,
                        self.user_result.view() == res0,
                        self.events@ == s0.events,
                        self.rooms.entries().len() == len,
                        forall|j: int|
                            0 <= j < i ==> #[trigger] self.rooms.entries()[j] == (
                                e0[j].0,
                                ended_if_due(e0[j].1, n),
                            ),
                        forall|j: int| i <= j < len ==> #[trigger] self.rooms.entries()[j] == e0[j],
                        self.user_deposit.view() == s0.deposits.remove_keys(
                            (d_i + users.take(j as int)).to_set(),
                        ),
                        out@.len() == p_i.len() + j,
                        forall|k: int|
                            0 <= k < p_i.len() ==> {
                                &&& (#[trigger] out@[k]).from == pot
                                &&& out@[k].to == p_i[k].0
                                &&& out@[k].amount == p_i[k].1
                            },
                        forall|k: int|
                            0 <= k < j ==> {
                                &&& (#[trigger] out@[p_i.len() + k]).from == pot
                                &&& out@[p_i.len() + k].to == users[k]
                                &&& out@[p_i.len() + k].amount == spec_reward(
                                    s0.deposits[users[k]],
                                    s0.results[users[k]],
                                )
                            },
                    decreases users.len() - j,
                {
                    let user = vec_users[j];
                    let ghost pos = d_i.len() + j;
                    let ghost du = due_users(s0, n);
                    let ghost removed = (d_i + users.take(j as int)).to_set();
                    proof {
                        assert(du[pos] == user);
                        assert(!removed.contains(user)) by {
                            if removed.contains(user) {
                                let q = choose|q: int|
                                    0 <= q < (d_i + users.take(j as int)).len() && (d_i
                                        + users.take(j as int))[q] == user;
                                assert((d_i + users)[q] == user);
                                assert(du[q] == du[pos]);
                            }
                        }
                        assert(s0.deposits.dom().contains(du[pos]));
                        assert(s0.results.dom().contains(du[pos]));
                    }
                    let result = *self.user_result.get(&user).unwrap();
                    let deposit = *self.user_deposit.get(&user).unwrap();
                    let factor = reward_factor(result);
                    assert(deposit * factor.0 <= u128::MAX);
                    let reward_beat = deposit * factor.0 / 100;
                    out.push(Transfer { from: pot, to: user, amount: reward_beat });
                    self.user_deposit.remove(&user);
                    proof {
                        assert((d_i + users.take(j + 1)).to_set() =~= removed.insert(user)) by {
                            assert(users.take(j + 1) =~= users.take(j as int).push(user));
                            assert(d_i + users.take(j + 1) =~= (d_i + users.take(j as int)).push(
                                user,
                            ));
                            (d_i + users.take(j as int)).lemma_push_to_set_commute(user);
                        }
                        assert(s0.deposits.remove_keys(removed).remove(user) =~= s0.deposits.remove_keys(
                            removed.insert(user),
                        ));
                    }
                    j = j + 1;
                }
                proof {
                    assert(users.take(users.len() as int) =~= users);
                    assert forall|k: int| 0 <= k < out@.len() implies {
                        &&& (#[trigger] out@[k]).from == pot
                        &&& out@[k].to == payouts_upto(s0, n, i + 1)[k].0
                        &&& out@[k].amount == payouts_upto(s0, n, i + 1)[k].1
                    } by {
                        if k >= p_i.len() {
                            let q = k - p_i.len();
                            assert(out@[p_i.len() + q] == out@[k]);
                        }
                    }
                }
                self.rooms.set_value_at(i, room);
            } else {
                assert(!is_due(s0.rooms[id], n));
                assert(due_users_upto(s0, n, i + 1) =~= d_i);
                assert(payouts_upto(s0, n, i + 1) =~= p_i);
            }
            i = i + 1;
        }
        proof {
            let f = |r: Room| ended_if_due(r, n);
            assert(self.rooms.entries() =~= map_entry_values(e0, f));
            lemma_entries_map_map_values(e0, f);
            assert(entry_keys(self.rooms.entries()) =~= entry_keys(e0));
        }
        (0, out)
    }
}

} // verus!
