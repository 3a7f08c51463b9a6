use candid::Principal;
use colony_world::BusinessState;
use colony_world::ErrorKind;
use colony_world::ExpeditionAction;
use colony_world::ExpeditionState;
use colony_world::ExpeditionStep;
use colony_world::Inventory;
use colony_world::PlayerState;
use colony_world::PlayerStatus;
use colony_world::Resources;
use colony_world::VecMap;
use colony_world::WorldError;

fn four(quantity: u64) -> VecMap<Resources, u64> {
    VecMap::from_pairs(&vec![
        (Resources::Wood, quantity),
        (Resources::Stone, quantity),
        (Resources::Food, quantity),
        (Resources::Water, quantity),
    ])
}

fn player_with(quantity: u64) -> PlayerState {
    PlayerState {
        status: PlayerStatus::Idle,
        inventory: Inventory {
            size: 0,
            contents: four(quantity),
        },
    }
}

fn user(n: u8) -> Principal {
    Principal::from_slice(&[n])
}

fn held(world: &BusinessState, who: Principal) -> Vec<(Resources, u64)> {
    world.player.get(&who).unwrap().inventory.get_all()
}

fn each(quantity: u64) -> Vec<(Resources, u64)> {
    vec![
        (Resources::Wood, quantity),
        (Resources::Stone, quantity),
        (Resources::Food, quantity),
        (Resources::Water, quantity),
    ]
}

#[test]
fn claim_credits_rate_times_whole_seconds() {
    let mut world = BusinessState::default();
    world.add_player(user(1)).unwrap();
    world.work_set(user(1), None, 500).unwrap();
    // 7 999 ms of work are 7 whole seconds.
    assert_eq!(world.work_claim(user(1), 8_499), Ok(()));
    assert_eq!(held(&world, user(1)), each(70));
    assert_eq!(
        world.player.get(&user(1)).unwrap().status,
        PlayerStatus::Idle
    );
}

#[test]
fn claim_adds_to_what_is_held() {
    let mut world = BusinessState::default();
    world.player.insert(user(1), player_with(5));
    world
        .work_set(user(1), Some(Resources::Wood), 0)
        .unwrap();
    assert_eq!(
        world.player.get(&user(1)).unwrap().status,
        PlayerStatus::WorkingFocused(0, Resources::Wood)
    );
    assert_eq!(world.work_claim(user(1), 2_000), Ok(()));
    assert_eq!(held(&world, user(1)), each(25));
}

#[test]
fn claim_within_the_first_second_credits_nothing() {
    let mut world = BusinessState::default();
    world.add_player(user(1)).unwrap();
    world.work_set(user(1), None, 10).unwrap();
    assert_eq!(world.work_claim(user(1), 1_009), Ok(()));
    assert_eq!(held(&world, user(1)), each(0));
}

#[test]
fn second_claim_fails_with_invalid_state() {
    let mut world = BusinessState::default();
    world.add_player(user(1)).unwrap();
    world.work_set(user(1), None, 0).unwrap();
    assert_eq!(world.work_claim(user(1), 3_000), Ok(()));
    let again = world.work_claim(user(1), 6_000);
    assert_eq!(again, Err(WorldError::NotWorking));
    assert_eq!(again.unwrap_err().kind(), ErrorKind::InvalidState);
    assert_eq!(held(&world, user(1)), each(30));
}

#[test]
fn unknown_player_is_not_found() {
    let mut world = BusinessState::default();
    assert_eq!(
        world.work_set(user(1), None, 0),
        Err(WorldError::PlayerNotFound)
    );
    assert_eq!(
        world.work_claim(user(1), 0),
        Err(WorldError::PlayerNotFound)
    );
    assert_eq!(
        world.unclaimed_work(user(1), 0),
        Err(WorldError::PlayerNotFound)
    );
    assert_eq!(
        world.propose_expedition(user(1), 0),
        Err(WorldError::PlayerNotFound)
    );
    assert!(world.player_inventory(user(1)).is_err());
    assert_eq!(WorldError::PlayerNotFound.kind(), ErrorKind::NotFound);
}

#[test]
fn work_starts_only_from_idle() {
    let mut world = BusinessState::default();
    world.add_player(user(1)).unwrap();
    assert_eq!(world.work_set(user(1), None, 1), Ok(()));
    let again = world.work_set(user(1), Some(Resources::Wood), 2);
    assert_eq!(again, Err(WorldError::AlreadyWorking));
    assert_eq!(again.unwrap_err().kind(), ErrorKind::InvalidState);
    // The time since which the player works is not replaced.
    assert_eq!(
        world.player.get(&user(1)).unwrap().status,
        PlayerStatus::WorkingAll(1)
    );
    world
        .player
        .get_mut(&user(1))
        .unwrap()
        .set_status(PlayerStatus::WorkingFocused(5, Resources::Food));
    assert_eq!(
        world.work_set(user(1), None, 9),
        Err(WorldError::AlreadyWorking)
    );
    assert_eq!(
        world.player.get(&user(1)).unwrap().status,
        PlayerStatus::WorkingFocused(5, Resources::Food)
    );
    world
        .player
        .get_mut(&user(1))
        .unwrap()
        .set_status(PlayerStatus::Traveling);
    let traveling = world.work_set(user(1), None, 3);
    assert_eq!(traveling, Err(WorldError::Traveling));
    assert_eq!(traveling.unwrap_err().kind(), ErrorKind::InvalidState);
    assert_eq!(
        world.player.get(&user(1)).unwrap().status,
        PlayerStatus::Traveling
    );
}

#[test]
fn unclaimed_work_lists_what_a_claim_would_pay() {
    let mut world = BusinessState::default();
    world.add_player(user(1)).unwrap();
    assert_eq!(
        world.unclaimed_work(user(1), 5_000),
        Err(WorldError::NotWorking)
    );
    world.work_set(user(1), None, 1_000).unwrap();
    assert_eq!(world.unclaimed_work(user(1), 5_500), Ok(each(40)));
    assert_eq!(held(&world, user(1)), vec![]);
}

#[test]
fn registering_twice_fails() {
    let mut world = BusinessState::default();
    assert_eq!(world.add_player(user(1)), Ok(()));
    assert_eq!(world.add_player(user(1)), Err(WorldError::AlreadyExists));
    assert_eq!(
        world.add_traveler(user(1), player_with(100)),
        Err(WorldError::AlreadyExists)
    );
    assert_eq!(held(&world, user(1)), vec![]);
    assert_eq!(WorldError::AlreadyExists.kind(), ErrorKind::AlreadyExists);
    assert_eq!(world.player.len(), 1);
}

#[test]
fn traveler_is_taxed_and_arrives_idle() {
    let mut world = BusinessState::default();
    let arriving = PlayerState {
        status: PlayerStatus::Traveling,
        inventory: Inventory {
            size: 50,
            contents: four(100),
        },
    };
    assert_eq!(world.add_traveler(user(1), arriving), Ok(()));
    let record = world.player.get(&user(1)).unwrap();
    assert_eq!(record.status, PlayerStatus::Idle);
    assert_eq!(record.inventory.size, 0);
    assert_eq!(record.inventory.get_all(), each(90));
    // The tax is withheld and not paid into the till.
    assert_eq!(world.colony.coffers.contents.len(), 0);
    assert_eq!(world.colony.taxes_percent, 10);
    // Having arrived, the traveler can work.
    assert_eq!(world.work_set(user(1), None, 0), Ok(()));
}

#[test]
fn traveler_who_was_working_arrives_idle() {
    let mut world = BusinessState::default();
    let arriving = PlayerState {
        status: PlayerStatus::WorkingAll(77),
        inventory: Inventory {
            size: 0,
            contents: VecMap::from_pairs(&vec![(Resources::Gold, 19)]),
        },
    };
    assert_eq!(world.add_traveler(user(1), arriving), Ok(()));
    let record = world.player.get(&user(1)).unwrap();
    assert_eq!(record.status, PlayerStatus::Idle);
    assert_eq!(record.inventory.get_all(), vec![(Resources::Gold, 18)]);
}

#[test]
fn players_are_told_apart_by_identity() {
    let mut world = BusinessState::default();
    world.add_player(user(1)).unwrap();
    assert!(world.is_player_in_world(user(1)));
    assert!(!world.is_player_in_world(user(2)));
    assert!(!world.is_player_in_world(Principal::from_slice(&[1, 0])));
    assert!(!world.is_player_in_world(Principal::anonymous()));
}

#[test]
fn propose_is_all_or_nothing() {
    let mut world = BusinessState::default();
    world.player.insert(user(1), player_with(100));
    world.player.insert(
        user(2),
        PlayerState {
            status: PlayerStatus::Idle,
            inventory: Inventory {
                size: 0,
                contents: VecMap::from_pairs(&vec![
                    (Resources::Wood, 100),
                    (Resources::Stone, 100),
                    (Resources::Food, 59),
                    (Resources::Water, 100),
                ]),
            },
        },
    );

    let failed = world.propose_expedition(user(2), 5);
    assert_eq!(failed, Err(WorldError::InsufficientResources));
    assert_eq!(
        failed.unwrap_err().kind(),
        ErrorKind::InsufficientResources
    );
    assert_eq!(world.expeditions.len(), 0);
    assert_eq!(world.expeditions_count, 0);
    assert_eq!(world.player.get(&user(2)).unwrap().inventory.get(Resources::Wood), 100);

    assert_eq!(world.propose_expedition(user(1), 7), Ok(()));
    assert_eq!(world.expeditions.len(), 1);
    assert_eq!(world.expeditions_count, 1);
    assert_eq!(held(&world, user(1)), each(40));
    let made = world.expeditions.get(&0).unwrap();
    assert_eq!(made.id, 0);
    assert_eq!(made.step, ExpeditionStep::Proposed);
    assert_eq!(made.proposed_by, user(1));
    assert_eq!(made.proposed_at, 7);
    assert_eq!(made.members, vec![user(1)]);
    assert_eq!(made.resources_pool.get_all(), each(60));
    assert_eq!(made.resources_pool.size, 0);
    assert_eq!(made.resources_required.len(), 4);
    assert_eq!(made.resources_required.get(&Resources::Water), Some(&60));
}

#[test]
fn expedition_ids_count_up() {
    let mut world = BusinessState::default();
    world.player.insert(user(1), player_with(200));
    assert_eq!(world.propose_expedition(user(1), 1), Ok(()));
    assert_eq!(world.propose_expedition(user(1), 2), Ok(()));
    assert_eq!(world.expeditions_count, 2);
    assert_eq!(world.expeditions.get(&0).unwrap().proposed_at, 1);
    assert_eq!(world.expeditions.get(&1).unwrap().proposed_at, 2);
    assert_eq!(world.expeditions.get(&1).unwrap().id, 1);
    assert_eq!(held(&world, user(1)), each(80));
}

#[test]
fn join_failures() {
    let mut world = BusinessState::default();
    world.player.insert(user(1), player_with(100));
    world.player.insert(user(2), player_with(59));
    world.propose_expedition(user(1), 0).unwrap();

    let unknown = world.join_expedition(&user(2), 9);
    assert_eq!(unknown, Err(WorldError::ExpeditionNotFound));
    assert_eq!(unknown.unwrap_err().kind(), ErrorKind::NotFound);
    assert_eq!(
        world.join_expedition(&user(3), 9).unwrap_err().kind(),
        ErrorKind::NotFound
    );

    let member = world.join_expedition(&user(1), 0);
    assert_eq!(member, Err(WorldError::AlreadyMember));
    assert_eq!(member.unwrap_err().kind(), ErrorKind::AlreadyMember);

    assert_eq!(
        world.join_expedition(&user(3), 0),
        Err(WorldError::PlayerNotFound)
    );
    assert_eq!(
        world.join_expedition(&user(2), 0),
        Err(WorldError::InsufficientResources)
    );

    assert_eq!(held(&world, user(1)), each(40));
    assert_eq!(held(&world, user(2)), each(59));
    let untouched = world.expeditions.get(&0).unwrap();
    assert_eq!(untouched.members, vec![user(1)]);
    assert_eq!(untouched.resources_pool.get_all(), each(60));
}

#[test]
fn join_moves_the_payment_from_the_member_to_the_pool() {
    let mut world = BusinessState::default();
    world.player.insert(user(1), player_with(100));
    world.player.insert(user(2), player_with(75));
    world.propose_expedition(user(1), 0).unwrap();
    assert_eq!(world.join_expedition(&user(2), 0), Ok(()));
    assert_eq!(held(&world, user(2)), each(15));
    assert_eq!(held(&world, user(1)), each(40));
    let joined = world.expeditions.get(&0).unwrap();
    assert_eq!(joined.resources_pool.get_all(), each(120));
    assert_eq!(joined.members, vec![user(1), user(2)]);
    assert_eq!(joined.step, ExpeditionStep::Proposed);
    assert_eq!(
        world.join_expedition(&user(2), 0),
        Err(WorldError::AlreadyMember)
    );
}

#[test]
fn propose_then_fund_reaches_the_threshold() {
    let mut world = BusinessState::default();
    world.player.insert(user(1), player_with(100));
    world.propose_expedition(user(1), 2).unwrap();
    assert_eq!(held(&world, user(1)), each(40));
    assert_eq!(
        world.expeditions.get(&0).unwrap().resources_pool.get_all(),
        each(60)
    );
    assert!(!world.expeditions.get(&0).unwrap().has_enough_resources());
    world
        .expeditions
        .get_mut(&0)
        .unwrap()
        .add_resources(&four(1000))
        .unwrap();
    assert_eq!(
        world.expeditions.get(&0).unwrap().resources_pool.get_all(),
        each(1060)
    );
    assert!(world.expeditions.get(&0).unwrap().has_enough_resources());
}

#[test]
fn threshold_is_ten_times_the_recipe() {
    let mut world = BusinessState::default();
    world.player.insert(user(1), player_with(60));
    world.propose_expedition(user(1), 0).unwrap();
    let expedition = world.expeditions.get_mut(&0).unwrap();
    expedition.add_resources(&four(539)).unwrap();
    assert!(!expedition.has_enough_resources());
    expedition
        .add_resources(&VecMap::from_pairs(&vec![
            (Resources::Wood, 1),
            (Resources::Stone, 1),
            (Resources::Food, 1),
        ]))
        .unwrap();
    assert!(!expedition.has_enough_resources());
    expedition
        .add_resources(&VecMap::from_pairs(&vec![(Resources::Water, 1)]))
        .unwrap();
    assert!(expedition.has_enough_resources());
}

#[test]
fn pool_enters_a_resource_that_it_did_not_mention() {
    let mut world = BusinessState::default();
    world.player.insert(user(1), player_with(60));
    world.propose_expedition(user(1), 0).unwrap();
    let expedition = world.expeditions.get_mut(&0).unwrap();
    assert_eq!(
        expedition.add_resources(&VecMap::from_pairs(&vec![
            (Resources::Gold, 5),
            (Resources::Wood, 5),
        ])),
        Ok(())
    );
    assert_eq!(
        expedition.resources_pool.get_all(),
        vec![
            (Resources::Wood, 65),
            (Resources::Stone, 60),
            (Resources::Food, 60),
            (Resources::Water, 60),
            (Resources::Gold, 5),
        ]
    );
    assert_eq!(expedition.resources_required.len(), 4);
    assert_eq!(expedition.members, vec![user(1)]);
    assert_eq!(expedition.step, ExpeditionStep::Proposed);
}

#[test]
fn demo_pays_into_every_pool() {
    let mut world = BusinessState::default();
    world.player.insert(user(1), player_with(120));
    world.propose_expedition(user(1), 0).unwrap();
    world.propose_expedition(user(1), 0).unwrap();
    assert_eq!(world.demo_add_res(), Ok(()));
    assert_eq!(
        world.expeditions.get(&0).unwrap().resources_pool.get_all(),
        each(1060)
    );
    assert_eq!(
        world.expeditions.get(&1).unwrap().resources_pool.get_all(),
        each(1060)
    );
    assert_eq!(world.expeditions.len(), 2);
    assert_eq!(world.expeditions.get(&1).unwrap().members, vec![user(1)]);
}

#[test]
fn expedition_walks_through_its_steps() {
    let mut world = BusinessState::default();
    world.player.insert(user(1), player_with(100));
    world.propose_expedition(user(1), 0).unwrap();

    assert!(matches!(
        world.expedition_next(0, 10),
        Err(WorldError::ThresholdNotMet)
    ));
    assert_eq!(
        WorldError::ThresholdNotMet.kind(),
        ErrorKind::InsufficientResources
    );
    assert_eq!(
        world.expeditions.get(&0).unwrap().step,
        ExpeditionStep::Proposed
    );

    world.demo_add_res().unwrap();
    assert!(matches!(
        world.expedition_next(0, 11),
        Ok(ExpeditionAction::Nothing)
    ));
    assert_eq!(
        world.expeditions.get(&0).unwrap().step,
        ExpeditionStep::Ready
    );

    match world.expedition_next(0, 12) {
        Ok(ExpeditionAction::SpawnColony(colony)) => {
            assert_eq!(colony.generation, 1);
            assert_eq!(colony.taxes_percent, 5);
            assert_eq!(colony.global_resources_multiplier, 1);
            assert_eq!(colony.rewards_per_second.len(), 5);
            assert_eq!(colony.rewards_per_second.get(&Resources::Gold), Some(&100));
            assert_eq!(colony.rewards_per_second.get(&Resources::Wood), Some(&100));
            assert_eq!(colony.coffers.get_all(), each(1060));
        }
        other => panic!("no colony to spawn: {:?}", other),
    }
    assert_eq!(
        world.expeditions.get(&0).unwrap().step,
        ExpeditionStep::Starting(12)
    );

    assert!(matches!(
        world.expedition_next(0, 13),
        Err(WorldError::SpawnPending)
    ));
    assert_eq!(WorldError::SpawnPending.kind(), ErrorKind::InvalidState);
    assert_eq!(
        world.expeditions.get(&0).unwrap().step,
        ExpeditionStep::Starting(12)
    );
    assert!(world.remote_colonies.is_empty());

    assert_eq!(world.expedition_started(0, user(9)), Ok(()));
    assert_eq!(
        world.expeditions.get(&0).unwrap().step,
        ExpeditionStep::Started(user(9))
    );
    assert!(world.remote_colonies.is_empty());

    assert!(matches!(
        world.expedition_next(0, 14),
        Ok(ExpeditionAction::Nothing)
    ));
    assert_eq!(world.expeditions.get(&0).unwrap().step, ExpeditionStep::Done);
    assert_eq!(world.remote_colonies, vec![user(9)]);

    assert!(matches!(
        world.expedition_next(0, 15),
        Err(WorldError::ExpeditionDone)
    ));
    assert_eq!(
        world.expedition_started(0, user(8)),
        Err(WorldError::ExpeditionDone)
    );
    assert_eq!(WorldError::ExpeditionDone.kind(), ErrorKind::InvalidState);
    assert_eq!(world.expeditions.get(&0).unwrap().step, ExpeditionStep::Done);
    assert_eq!(world.remote_colonies, vec![user(9)]);
}

#[test]
fn steps_of_an_unknown_expedition_are_not_found() {
    let mut world = BusinessState::default();
    assert!(matches!(
        world.expedition_next(4, 0),
        Err(WorldError::ExpeditionNotFound)
    ));
    assert_eq!(
        world.expedition_started(4, user(1)),
        Err(WorldError::ExpeditionNotFound)
    );
    assert_eq!(WorldError::ExpeditionNotFound.kind(), ErrorKind::NotFound);
}

#[test]
fn started_is_reached_from_starting_only() {
    let mut world = BusinessState::default();
    world.player.insert(user(1), player_with(100));
    world.propose_expedition(user(1), 0).unwrap();
    assert_eq!(
        world.expedition_started(0, user(9)),
        Err(WorldError::IllegalStep)
    );
    assert_eq!(
        world.expeditions.get(&0).unwrap().step,
        ExpeditionStep::Proposed
    );
    assert_eq!(WorldError::IllegalStep.kind(), ErrorKind::InvalidState);
}

#[test]
fn set_step_takes_the_next_step_only() {
    let mut world = BusinessState::default();
    world.player.insert(user(1), player_with(100));
    world.propose_expedition(user(1), 0).unwrap();
    let expedition = world.expeditions.get_mut(&0).unwrap();

    assert_eq!(
        expedition.set_step(ExpeditionStep::Ready),
        Err(WorldError::ThresholdNotMet)
    );
    assert_eq!(
        expedition.set_step(ExpeditionStep::Starting(1)),
        Err(WorldError::IllegalStep)
    );
    assert_eq!(
        expedition.set_step(ExpeditionStep::Proposed),
        Err(WorldError::IllegalStep)
    );
    assert_eq!(expedition.step, ExpeditionStep::Proposed);

    expedition
        .add_resources(&VecMap::from_pairs(&vec![
            (Resources::Wood, 540),
            (Resources::Stone, 540),
            (Resources::Food, 540),
            (Resources::Water, 540),
        ]))
        .unwrap();
    assert_eq!(expedition.set_step(ExpeditionStep::Ready), Ok(()));
    assert_eq!(
        expedition.set_step(ExpeditionStep::Started(user(3))),
        Err(WorldError::IllegalStep)
    );
    assert_eq!(
        expedition.set_step(ExpeditionStep::Proposed),
        Err(WorldError::IllegalStep)
    );
    assert_eq!(expedition.set_step(ExpeditionStep::Starting(4)), Ok(()));
    assert_eq!(
        expedition.set_step(ExpeditionStep::Started(user(3))),
        Ok(())
    );
    assert_eq!(expedition.set_step(ExpeditionStep::Done), Ok(()));
    assert_eq!(
        expedition.set_step(ExpeditionStep::Done),
        Err(WorldError::ExpeditionDone)
    );
    assert_eq!(
        expedition.set_step(ExpeditionStep::Proposed),
        Err(WorldError::ExpeditionDone)
    );
    assert_eq!(expedition.step, ExpeditionStep::Done);
}

#[test]
fn blank_expedition_is_proposed_by_nobody() {
    let blank = ExpeditionState::default();
    assert_eq!(blank.id, 0);
    assert_eq!(blank.proposed_by, Principal::anonymous());
    assert_eq!(blank.proposed_at, 0);
    assert!(blank.members.is_empty());
    assert_eq!(blank.resources_required.len(), 0);
    assert_eq!(blank.resources_pool.contents.len(), 0);
    assert_eq!(blank.get_step(), ExpeditionStep::Proposed);
}

#[test]
fn expedition_clone_holds_the_same() {
    let mut world = BusinessState::default();
    world.player.insert(user(1), player_with(100));
    world.player.insert(user(2), player_with(100));
    world.propose_expedition(user(1), 3).unwrap();
    world.join_expedition(&user(2), 0).unwrap();
    let copy = world.expeditions.get(&0).unwrap().clone();
    assert_eq!(copy.id, 0);
    assert_eq!(copy.proposed_by, user(1));
    assert_eq!(copy.proposed_at, 3);
    assert_eq!(copy.members, vec![user(1), user(2)]);
    assert_eq!(copy.resources_pool.get_all(), each(120));
    assert_eq!(copy.resources_required.len(), 4);
    assert_eq!(copy.get_step(), ExpeditionStep::Proposed);
}

#[test]
fn colony_info_reports_the_world() {
    let mut world = BusinessState::default();
    world.player.insert(user(1), player_with(100));
    world.add_player(user(2)).unwrap();
    world.propose_expedition(user(1), 0).unwrap();
    let info = world.colony_info(user(7));
    assert_eq!(info.canister_id, user(7));
    assert_eq!(info.generation, 0);
    assert_eq!(info.taxes_percent, 10);
    assert_eq!(info.rewards_per_second.len(), 4);
    assert_eq!(info.rewards_per_second.get(&Resources::Food), Some(&10));
    assert_eq!(info.coffers.contents.len(), 0);
    assert_eq!(info.player_count, 2);
    assert_eq!(info.expeditions_count, 1);
}

#[test]
fn player_inventory_is_a_copy() {
    let mut world = BusinessState::default();
    world.player.insert(user(1), player_with(100));
    let copy = world.player_inventory(user(1)).unwrap();
    assert_eq!(copy.get_all(), each(100));
    let record = world.player.get(&user(1)).unwrap().clone();
    assert_eq!(record.get_status(), PlayerStatus::Idle);
    assert_eq!(record.get_inventory().get_all(), each(100));
}

#[test]
fn stored_image_has_a_checksum() {
    let mut world = BusinessState::default();
    assert_eq!(
        world.wasm_sha256(),
        "e3b0c44298fc1c149afbf4c8996fb92427ae41e4649b934ca495991b7852b855"
    );
    assert!(world.load_wasm(vec![0x00, 0x61, 0x73, 0x6d]));
    assert_eq!(world.wasm_store, vec![0x00, 0x61, 0x73, 0x6d]);
    assert_eq!(
        world.wasm_sha256(),
        "cd5d4935a48c0672cb06407bb443bc0087aff947c6b864bac886982c73b3027f"
    );
}

#[test]
fn every_error_has_its_message() {
    assert_eq!(WorldError::PlayerNotFound.message(), "Principal not found");
    assert_eq!(
        WorldError::ExpeditionNotFound.message(),
        "Can't find expedition"
    );
    assert_eq!(
        WorldError::AlreadyExists.message(),
        "The player already exists in this world"
    );
    assert_eq!(
        WorldError::AlreadyMember.message(),
        "The player is already a member of this expedition"
    );
    assert_eq!(
        WorldError::NotWorking.message(),
        "The player is not currently working"
    );
    assert_eq!(
        WorldError::AlreadyWorking.message(),
        "Player is already working."
    );
    assert_eq!(
        WorldError::Traveling.message(),
        "Cannot start work when traveling"
    );
    assert_eq!(
        WorldError::InsufficientResources.message(),
        "The player doesn't have enough resources to propose an expedition"
    );
    assert_eq!(
        WorldError::ThresholdNotMet.message(),
        "Not enough resources to start the expedition"
    );
    assert_eq!(
        WorldError::SpawnPending.message(),
        "Retry logic not implemented"
    );
    assert_eq!(
        WorldError::ExpeditionDone.message(),
        "This expedition cannot be changed anymore"
    );
    assert_eq!(
        WorldError::IllegalStep.message(),
        "The expedition cannot take this step"
    );
    assert_eq!(
        String::from(WorldError::NotWorking),
        WorldError::NotWorking.message()
    );
}

#[test]
fn claim_is_in_range_while_the_pay_fits() {
    let mut world = BusinessState::default();
    world.player.insert(
        user(1),
        PlayerState {
            status: PlayerStatus::WorkingAll(1_000),
            inventory: Inventory {
                size: 0,
                contents: VecMap::from_pairs(&vec![(Resources::Wood, u64::MAX - 20)]),
            },
        },
    );
    assert!(world.can_claim(user(1), 1_000));
    assert!(world.can_claim(user(1), 3_999));
    assert!(!world.can_claim(user(1), 4_000));
    assert!(!world.can_claim(user(1), 999));
    assert!(world.can_claim(user(2), 0));
    world.add_player(user(3)).unwrap();
    assert!(world.can_claim(user(3), 0));
}

#[test]
fn join_is_in_range_while_the_pool_has_room() {
    let mut world = BusinessState::default();
    world.player.insert(user(1), player_with(100));
    world.player.insert(user(2), player_with(100));
    world.propose_expedition(user(1), 0).unwrap();
    assert!(world.can_join(&user(2), 0));
    assert!(world.can_join(&user(2), 5));
    let expedition = world.expeditions.get_mut(&0).unwrap();
    assert!(expedition.can_take(&four(u64::MAX - 60)));
    assert!(!expedition.can_take(&four(u64::MAX - 59)));
    assert!(expedition.can_take(&VecMap::from_pairs(&vec![(Resources::Gold, u64::MAX)])));
    expedition.add_resources(&four(u64::MAX - 120)).unwrap();
    assert!(world.can_join(&user(2), 0));
    world
        .expeditions
        .get_mut(&0)
        .unwrap()
        .add_resources(&VecMap::from_pairs(&vec![(Resources::Food, 1)]))
        .unwrap();
    assert!(!world.can_join(&user(2), 0));
    // A join that is refused anyway needs no room.
    assert!(world.can_join(&user(1), 0));
    assert!(world.can_join(&user(3), 0));
}

#[test]
fn proposal_is_in_range_while_the_counter_has_room() {
    let mut world = BusinessState::default();
    world.player.insert(user(1), player_with(100));
    world.player.insert(user(2), player_with(10));
    assert!(world.can_propose(user(1)));
    world.expeditions_count = u64::MAX;
    assert!(!world.can_propose(user(1)));
    // A proposal that is refused anyway needs no room.
    assert!(world.can_propose(user(2)));
    assert!(world.can_propose(user(3)));
    assert_eq!(
        world.propose_expedition(user(2), 0),
        Err(WorldError::InsufficientResources)
    );
    assert_eq!(world.expeditions_count, u64::MAX);
}

fn done_expedition() -> BusinessState {
    let mut world = BusinessState::default();
    world.player.insert(user(1), player_with(100));
    world.player.insert(user(2), player_with(100));
    world.propose_expedition(user(1), 0).unwrap();
    world.demo_add_res().unwrap();
    world.expedition_next(0, 1).unwrap();
    world.expedition_next(0, 2).unwrap();
    world.expedition_started(0, user(9)).unwrap();
    world.expedition_next(0, 3).unwrap();
    assert_eq!(world.expeditions.get(&0).unwrap().step, ExpeditionStep::Done);
    world
}

#[test]
fn done_expedition_takes_no_member() {
    let mut world = done_expedition();
    let refused = world.join_expedition(&user(2), 0);
    assert_eq!(refused, Err(WorldError::ExpeditionDone));
    assert_eq!(refused.unwrap_err().kind(), ErrorKind::InvalidState);
    // A member is told the same: that the expedition is done comes first.
    assert_eq!(
        world.join_expedition(&user(1), 0),
        Err(WorldError::ExpeditionDone)
    );
    assert_eq!(
        world.join_expedition(&user(3), 0),
        Err(WorldError::ExpeditionDone)
    );
    assert_eq!(held(&world, user(2)), each(100));
    let expedition = world.expeditions.get(&0).unwrap();
    assert_eq!(expedition.members, vec![user(1)]);
    assert_eq!(expedition.resources_pool.get_all(), each(1060));
}

#[test]
fn done_expedition_takes_no_payment() {
    let mut world = done_expedition();
    let expedition = world.expeditions.get_mut(&0).unwrap();
    assert!(expedition.can_take(&four(u64::MAX)));
    let refused = expedition.add_resources(&four(1));
    assert_eq!(refused, Err(WorldError::ExpeditionDone));
    assert_eq!(expedition.resources_pool.get_all(), each(1060));
    assert_eq!(expedition.step, ExpeditionStep::Done);
}

#[test]
fn demo_passes_over_a_done_expedition() {
    let mut world = done_expedition();
    world.player.insert(user(3), player_with(60));
    world.propose_expedition(user(3), 5).unwrap();
    assert_eq!(world.demo_add_res(), Ok(()));
    assert_eq!(
        world.expeditions.get(&0).unwrap().resources_pool.get_all(),
        each(1060)
    );
    assert_eq!(
        world.expeditions.get(&1).unwrap().resources_pool.get_all(),
        each(1060)
    );
}

#[test]
fn joining_is_open_until_the_expedition_is_done() {
    let mut world = BusinessState::default();
    world.player.insert(user(1), player_with(100));
    world.player.insert(user(2), player_with(100));
    world.propose_expedition(user(1), 0).unwrap();
    world.demo_add_res().unwrap();
    world.expedition_next(0, 1).unwrap();
    assert_eq!(
        world.expeditions.get(&0).unwrap().step,
        ExpeditionStep::Ready
    );
    assert_eq!(world.join_expedition(&user(2), 0), Ok(()));
    assert_eq!(
        world.expeditions.get(&0).unwrap().members,
        vec![user(1), user(2)]
    );
}
