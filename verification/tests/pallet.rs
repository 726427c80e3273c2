use pallet_room::pallet::{reward_factor, GenesisConfig, Pallet};
use pallet_room::types::{AccountId, Config, DispatchError, Error, Event, Origin};

type Res = Result<(), DispatchError<&'static str>>;

const PALLET_ID: [u8; 8] = *b"py/room0";

fn account(n: u8) -> AccountId {
    [n; 32]
}

fn fresh() -> Pallet {
    Pallet::new(Config { pallet_id: PALLET_ID })
}

fn pot() -> AccountId {
    let mut bytes = [0u8; 32];
    bytes[..4].copy_from_slice(b"modl");
    bytes[4..12].copy_from_slice(&PALLET_ID);
    bytes
}

fn with_results(results: Vec<(AccountId, u32)>) -> Pallet {
    let mut p = fresh();
    GenesisConfig { results }.build(&mut p);
    p
}

#[test]
fn account_id_is_modl_then_pallet_id_then_zeroes() {
    let p = fresh();
    assert_eq!(p.account_id(), pot());
    let t = p.deposit_transfer(account(1), 40);
    assert_eq!(t.from, account(1));
    assert_eq!(t.to, pot());
    assert_eq!(t.amount, 40);
}

#[test]
fn create_new_room_opens_room_one() {
    let mut p = fresh();
    let r: Res = p.create_new_room(Origin::Signed(account(1)), 10, 5, 100, 7, Ok(()));
    assert_eq!(r, Ok(()));
    assert_eq!(p.room_id(), 1);
    let room = p.get_room(1).unwrap();
    assert_eq!(room.creator, account(1));
    assert_eq!(room.id_room, 1);
    assert_eq!(room.start, 7);
    assert_eq!(room.length, 10);
    assert_eq!(room.delay, 5);
    assert_eq!(room.total_value, 100);
    assert!(!room.is_started);
    assert!(!room.is_ended);
    assert_eq!(p.get_user_in_room(1), Some(vec![account(1)]));
    assert_eq!(p.get_deposit(&account(1)), Some(100));
    let r: Res = p.create_new_room(Origin::Signed(account(2)), 1, 1, 3, 8, Ok(()));
    assert_eq!(r, Ok(()));
    assert_eq!(p.room_id(), 2);
    assert_eq!(p.get_room(2).unwrap().creator, account(2));
}

#[test]
fn create_new_room_refuses_unsigned_origins() {
    let mut p = fresh();
    let r: Res = p.create_new_room(Origin::Root, 10, 5, 100, 7, Ok(()));
    assert_eq!(r, Err(DispatchError::BadOrigin));
    let r: Res = p.create_new_room(Origin::Unsigned, 10, 5, 100, 7, Ok(()));
    assert_eq!(r, Err(DispatchError::BadOrigin));
    assert_eq!(p.room_id(), 0);
    assert!(p.get_room(1).is_none());
}

#[test]
fn create_new_room_failed_transfer_changes_nothing() {
    let mut p = fresh();
    let r: Res = p.create_new_room(Origin::Signed(account(1)), 10, 5, 100, 7, Err("broke"));
    assert_eq!(r, Err(DispatchError::Currency("broke")));
    assert_eq!(p.room_id(), 0);
    assert!(p.get_room(1).is_none());
    assert!(p.get_user_in_room(1).is_none());
    assert_eq!(p.get_deposit(&account(1)), None);
}

#[test]
fn second_player_starts_the_room() {
    let mut p = fresh();
    let _: Res = p.create_new_room(Origin::Signed(account(1)), 10, 5, 100, 7, Ok(()));
    let r: Res = p.join_room(Origin::Signed(account(2)), 1, 60, 9, Ok(()));
    assert_eq!(r, Ok(()));
    let room = p.get_room(1).unwrap();
    assert!(room.is_started);
    assert!(!room.is_ended);
    assert_eq!(room.start, 9);
    assert_eq!(room.total_value, 160);
    assert_eq!(p.get_user_in_room(1), Some(vec![account(1), account(2)]));
    assert_eq!(p.get_deposit(&account(2)), Some(60));
}

#[test]
fn join_room_errors() {
    let mut p = fresh();
    let _: Res = p.create_new_room(Origin::Signed(account(1)), 10, 5, 100, 7, Ok(()));
    let check: Result<AccountId, DispatchError<&'static str>> = p.join_room_check(&Origin::Signed(account(2)), 2);
    assert_eq!(check, Err(DispatchError::Module(Error::RoomNotExist)));
    let r: Res = p.join_room(Origin::Signed(account(2)), 2, 60, 9, Ok(()));
    assert_eq!(r, Err(DispatchError::Module(Error::RoomNotExist)));
    let r: Res = p.join_room(Origin::Signed(account(1)), 1, 60, 9, Ok(()));
    assert_eq!(r, Err(DispatchError::Module(Error::UserAlreadyJoined)));
    let r: Res = p.join_room(Origin::Root, 1, 60, 9, Ok(()));
    assert_eq!(r, Err(DispatchError::BadOrigin));
    let r: Res = p.join_room(Origin::Signed(account(2)), 1, 60, 9, Err("no funds"));
    assert_eq!(r, Err(DispatchError::Currency("no funds")));
    assert_eq!(p.get_deposit(&account(2)), None);
    assert_eq!(p.get_user_in_room(1), Some(vec![account(1)]));
    assert_eq!(p.get_room(1).unwrap().total_value, 100);
    let check: Result<AccountId, DispatchError<&'static str>> = p.join_room_check(&Origin::Signed(account(2)), 1);
    assert_eq!(check, Ok(account(2)));
    let r: Res = p.join_room(Origin::Signed(account(2)), 1, 60, 9, Ok(()));
    assert_eq!(r, Ok(()));
    let r: Res = p.join_room(Origin::Signed(account(3)), 1, 60, 9, Ok(()));
    assert_eq!(r, Err(DispatchError::Module(Error::RoomAlreadyStarted)));
}

#[test]
fn reward_factor_table() {
    let cases: [(u32, u128); 16] = [
        (0, 0),
        (45, 0),
        (46, 50),
        (55, 50),
        (56, 60),
        (65, 60),
        (66, 70),
        (75, 70),
        (76, 80),
        (85, 80),
        (86, 90),
        (95, 90),
        (96, 100),
        (100, 100),
        (101, 0),
        (u32::MAX, 0),
    ];
    for (result, factor) in cases {
        assert_eq!(reward_factor(result), (factor, factor), "result {}", result);
    }
}

#[test]
fn genesis_records_results_and_last_wins() {
    assert!(GenesisConfig::default().results.is_empty());
    let p = with_results(vec![(account(1), 50), (account(2), 90), (account(1), 97)]);
    assert_eq!(p.get_user_result(&account(1)), Some(97));
    assert_eq!(p.get_user_result(&account(2)), Some(90));
    assert_eq!(p.get_user_result(&account(3)), None);
}

fn started_room() -> Pallet {
    let mut p = with_results(vec![(account(1), 100), (account(2), 90)]);
    let _: Res = p.create_new_room(Origin::Signed(account(1)), 10, 5, 1_000, 7, Ok(()));
    let _: Res = p.join_room(Origin::Signed(account(2)), 1, 500, 20, Ok(()));
    p
}

#[test]
fn hook_waits_for_length_and_delay() {
    let mut p = started_room();
    // the room started at block 20 and pays from 20 + 10 + 5
    let (weight, transfers) = p.on_initialize(34);
    assert_eq!(weight, 0);
    assert!(transfers.is_empty());
    assert!(!p.get_room(1).unwrap().is_ended);
    assert_eq!(p.get_deposit(&account(1)), Some(1_000));
}

#[test]
fn hook_pays_rewards_and_ends_room() {
    let mut p = started_room();
    let (weight, transfers) = p.on_initialize(35);
    assert_eq!(weight, 0);
    assert_eq!(transfers.len(), 2);
    assert_eq!(transfers[0].from, pot());
    assert_eq!(transfers[0].to, account(1));
    assert_eq!(transfers[0].amount, 1_000);
    assert_eq!(transfers[1].from, pot());
    assert_eq!(transfers[1].to, account(2));
    assert_eq!(transfers[1].amount, 450);
    let room = p.get_room(1).unwrap();
    assert!(room.is_ended);
    assert!(room.is_started);
    assert_eq!(p.get_deposit(&account(1)), None);
    assert_eq!(p.get_deposit(&account(2)), None);
    assert_eq!(p.get_user_in_room(1), Some(vec![account(1), account(2)]));
}

#[test]
fn hook_pays_once() {
    let mut p = started_room();
    let (_, first) = p.on_initialize(40);
    assert_eq!(first.len(), 2);
    let (_, second) = p.on_initialize(40);
    assert!(second.is_empty());
    let (_, later) = p.on_initialize(1_000);
    assert!(later.is_empty());
}

#[test]
fn hook_skips_rooms_not_started() {
    let mut p = with_results(vec![(account(1), 100)]);
    let _: Res = p.create_new_room(Origin::Signed(account(1)), 0, 0, 10, 1, Ok(()));
    let (_, transfers) = p.on_initialize(u32::MAX);
    assert!(transfers.is_empty());
    assert!(!p.get_room(1).unwrap().is_ended);
    assert_eq!(p.get_deposit(&account(1)), Some(10));
}

#[test]
fn payout_block_saturates() {
    let mut p = with_results(vec![(account(1), 50), (account(2), 10)]);
    let _: Res = p.create_new_room(Origin::Signed(account(1)), u32::MAX, u32::MAX, 10, 1, Ok(()));
    let _: Res = p.join_room(Origin::Signed(account(2)), 1, 20, 2, Ok(()));
    let (_, early) = p.on_initialize(u32::MAX - 1);
    assert!(early.is_empty());
    let (_, transfers) = p.on_initialize(u32::MAX);
    assert_eq!(transfers.len(), 2);
    assert_eq!(transfers[0].amount, 5);
    assert_eq!(transfers[1].amount, 0);
}

#[test]
fn player_paid_out_can_join_again() {
    let mut p = started_room();
    let _ = p.on_initialize(35);
    let _: Res = p.create_new_room(Origin::Signed(account(3)), 1, 1, 5, 36, Ok(()));
    let r: Res = p.join_room(Origin::Signed(account(2)), 2, 7, 37, Ok(()));
    assert_eq!(r, Ok(()));
    assert_eq!(p.get_deposit(&account(2)), Some(7));
    assert!(p.get_room(2).unwrap().is_started);
}

#[test]
fn join_room_zero_does_not_exist() {
    let mut p = fresh();
    let _: Res = p.create_new_room(Origin::Signed(account(1)), 10, 5, 100, 7, Ok(()));
    assert!(p.join_is_safe(&Origin::Signed(account(2)), 0, 5));
    let r: Res = p.join_room(Origin::Signed(account(2)), 0, 5, 8, Ok(()));
    assert_eq!(r, Err(DispatchError::Module(Error::RoomNotExist)));
    // a deposit already made is reported before a room that is not stored
    let r: Res = p.join_room(Origin::Signed(account(1)), 0, 5, 8, Ok(()));
    assert_eq!(r, Err(DispatchError::Module(Error::UserAlreadyJoined)));
    // an index past the last room is reported first
    let r: Res = p.join_room(Origin::Signed(account(1)), 2, 5, 8, Ok(()));
    assert_eq!(r, Err(DispatchError::Module(Error::RoomNotExist)));
    assert!(p.join_is_safe(&Origin::Signed(account(2)), 1, 5));
    assert!(!p.join_is_safe(&Origin::Signed(account(2)), 1, u128::MAX));
    assert!(p.join_is_safe(&Origin::Root, 1, u128::MAX));
    assert!(p.join_is_safe(&Origin::Signed(account(2)), 9, u128::MAX));
}

#[test]
fn calls_deposit_their_events() {
    let mut p = fresh();
    assert!(p.events().is_empty());
    let _: Res = p.create_new_room(Origin::Signed(account(1)), 10, 5, 100, 7, Ok(()));
    assert_eq!(p.events(), &vec![Event::CreateRoom { id_room: 1, creator: account(1) }]);
    let _: Res = p.join_room(Origin::Signed(account(2)), 1, 5, 8, Err("broke"));
    let _: Res = p.create_new_room(Origin::Root, 10, 5, 100, 7, Ok(()));
    assert_eq!(p.events().len(), 1);
    let _: Res = p.join_room(Origin::Signed(account(2)), 1, 60, 8, Ok(()));
    assert_eq!(
        p.events()[1],
        Event::JoinRoom { id_room: 1, user: account(2), deposit_amount: 60 }
    );
    let _: Res = p.create_new_room(Origin::Signed(account(3)), 10, 5, 100, 9, Ok(()));
    let _: Res = p.join_room(Origin::Signed(account(4)), 2, 1u128 << 40, 9, Ok(()));
    assert_eq!(
        p.events()[3],
        Event::JoinRoom { id_room: 2, user: account(4), deposit_amount: u32::MAX }
    );
    let _ = p.on_initialize(10);
    assert_eq!(p.events().len(), 4);
}

#[test]
fn payout_needs_a_result_for_every_paid_player() {
    let mut p = with_results(vec![(account(1), 100)]);
    let _: Res = p.create_new_room(Origin::Signed(account(1)), 1, 1, 100, 1, Ok(()));
    let _: Res = p.join_room(Origin::Signed(account(2)), 1, 100, 1, Ok(()));
    assert!(p.payout_is_safe(2));
    assert!(!p.payout_is_safe(3));
}

#[test]
fn creator_of_two_due_rooms_cannot_be_paid_twice() {
    let mut p = with_results(vec![(account(1), 100), (account(2), 100), (account(3), 100)]);
    let _: Res = p.create_new_room(Origin::Signed(account(1)), 1, 1, 10, 1, Ok(()));
    let _: Res = p.create_new_room(Origin::Signed(account(1)), 1, 1, 20, 1, Ok(()));
    assert_eq!(p.get_deposit(&account(1)), Some(20));
    let _: Res = p.join_room(Origin::Signed(account(2)), 1, 5, 1, Ok(()));
    let _: Res = p.join_room(Origin::Signed(account(3)), 2, 5, 1, Ok(()));
    assert!(p.payout_is_safe(2));
    assert!(!p.payout_is_safe(3));
}

#[test]
fn payout_refuses_overflowing_rewards() {
    let mut p = with_results(vec![(account(1), 100), (account(2), 0)]);
    let _: Res = p.create_new_room(Origin::Signed(account(1)), 1, 1, u128::MAX / 2, 1, Ok(()));
    let _: Res = p.join_room(Origin::Signed(account(2)), 1, 5, 1, Ok(()));
    assert!(!p.payout_is_safe(3));
}

#[test]
fn restore_reads_back_entries() {
    let room = |id: u32, started: bool| pallet_room::types::Room {
        creator: account(id as u8),
        id_room: id,
        start: 1,
        length: 2,
        delay: 3,
        total_value: 40,
        is_started: started,
        is_ended: false,
    };
    let p = Pallet::restore(
        Config { pallet_id: PALLET_ID },
        3,
        vec![(3, room(3, false)), (1, room(1, true))],
        vec![(1, vec![account(1), account(4)]), (3, vec![account(3)]), (3, vec![account(5)])],
        vec![(account(1), 20), (account(4), 20)],
        vec![(account(4), 60)],
    );
    assert_eq!(p.room_id(), 3);
    assert_eq!(p.room_ids(), vec![3, 1]);
    assert_eq!(p.get_room(1).unwrap().is_started, true);
    assert!(p.get_room(2).is_none());
    assert_eq!(p.get_user_in_room(3), Some(vec![account(5)]));
    assert_eq!(p.get_deposit(&account(4)), Some(20));
    assert_eq!(p.get_user_result(&account(4)), Some(60));
}

#[test]
fn ended_room_refuses_joins_as_ended() {
    let mut p = started_room();
    let r: Res = p.join_room(Origin::Signed(account(9)), 1, 5, 30, Ok(()));
    assert_eq!(r, Err(DispatchError::Module(Error::RoomAlreadyStarted)));
    let _ = p.on_initialize(35);
    assert!(p.get_room(1).unwrap().is_ended);
    let r: Res = p.join_room(Origin::Signed(account(9)), 1, 5, 40, Ok(()));
    assert_eq!(r, Err(DispatchError::Module(Error::RoomAlreadyEnded)));
}

#[test]
fn rooms_are_walked_in_creation_order() {
    let mut p = fresh();
    assert!(p.room_ids().is_empty());
    let _: Res = p.create_new_room(Origin::Signed(account(1)), 1, 1, 1, 1, Ok(()));
    let _: Res = p.create_new_room(Origin::Signed(account(2)), 1, 1, 1, 1, Ok(()));
    let _: Res = p.create_new_room(Origin::Signed(account(3)), 1, 1, 1, 1, Ok(()));
    assert_eq!(p.room_ids(), vec![1, 2, 3]);
}
