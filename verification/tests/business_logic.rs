use candid::Principal;
use colony_world::BusinessState;
use colony_world::Inventory;
use colony_world::PlayerState;
use colony_world::PlayerStatus;
use colony_world::Resources;
use colony_world::VecMap;
use colony_world::MILLIS_TO_SECONDS;

fn hundred_of_each() -> Inventory {
    Inventory {
        size: 0,
        contents: VecMap::from_pairs(&vec![
            (Resources::Wood, 100),
            (Resources::Stone, 100),
            (Resources::Food, 100),
            (Resources::Water, 100),
        ]),
    }
}

#[test]
fn test_set_work() -> Result<(), String> {
    let mut business_state = BusinessState::default();

    let user1: Principal = Principal::from_slice(&[1]);

    business_state.player.insert(user1, PlayerState::default());

    assert_eq!(
        business_state.player.get(&user1).unwrap().status,
        PlayerStatus::Idle
    );

    business_state.work_set(user1, None, 1)?;

    assert_eq!(
        business_state.player.get(&user1).unwrap().status,
        PlayerStatus::WorkingAll(1)
    );

    Ok(())
}

#[test]
fn test_available_unclaimed() -> Result<(), String> {
    let mut business_state = BusinessState::default();

    let user1: Principal = Principal::from_slice(&[1]);

    business_state.player.insert(user1, PlayerState::default());

    business_state.work_set(user1, None, 1)?;

    let mut res = business_state.available_unclaimed(5);

    assert_eq!(res.len(), 4);
    assert_eq!(
        res.sort(),
        [
            (Resources::Stone, 5),
            (Resources::Water, 5),
            (Resources::Food, 5),
            (Resources::Wood, 5)
        ]
        .sort()
    );

    Ok(())
}

#[test]
fn test_work_claim() -> Result<(), String> {
    let mut business_state = BusinessState::default();

    let user1: Principal = Principal::from_slice(&[1]);

    business_state.player.insert(user1, PlayerState::default());

    business_state.work_set(user1, None, 1)?;

    assert_eq!(
        business_state
            .player
            .get(&user1)
            .unwrap()
            .inventory
            .contents
            .len(),
        0
    );

    business_state.work_claim(user1, MILLIS_TO_SECONDS * 6 + 1)?;

    assert_eq!(
        business_state
            .player
            .get(&user1)
            .unwrap()
            .inventory
            .contents
            .len(),
        4
    );

    println!("{:?}", business_state.player.get(&user1).unwrap().inventory);

    business_state
        .player
        .get_mut(&user1)
        .unwrap()
        .set_status(PlayerStatus::Idle);

    assert_eq!(
        business_state
            .work_claim(user1, MILLIS_TO_SECONDS * 6 + 1)
            .map_err(String::from),
        Err("The player is not currently working".to_string())
    );

    Ok(())
}

#[test]
fn test_player_has_resources() -> Result<(), String> {
    let mut business_state = BusinessState::default();

    let user1: Principal = Principal::from_slice(&[1]);

    business_state.player.insert(user1, PlayerState::default());

    business_state.work_set(user1, None, 1)?;

    assert_eq!(
        business_state
            .player
            .get(&user1)
            .unwrap()
            .inventory
            .contents
            .len(),
        0
    );

    business_state.work_claim(user1, MILLIS_TO_SECONDS * 60 + 1)?;

    assert_eq!(
        business_state
            .player
            .get(&user1)
            .unwrap()
            .inventory
            .has_available_resources(&VecMap::from_pairs(&vec![(Resources::Wood, 100)])),
        true
    );

    assert_eq!(
        business_state
            .player
            .get(&user1)
            .unwrap()
            .inventory
            .has_available_resources(&VecMap::from_pairs(&vec![
                (Resources::Wood, 600),
                (Resources::Stone, 600),
                (Resources::Food, 600),
                (Resources::Water, 600),
            ])),
        true
    );

    assert_eq!(
        business_state
            .player
            .get(&user1)
            .unwrap()
            .inventory
            .has_available_resources(&VecMap::from_pairs(&vec![(Resources::Wood, 700)])),
        false
    );

    assert_eq!(
        business_state
            .player
            .get(&user1)
            .unwrap()
            .inventory
            .has_available_resources(&VecMap::from_pairs(&vec![
                (Resources::Wood, 600),
                (Resources::Stone, 700),
                (Resources::Food, 600),
                (Resources::Water, 600),
            ])),
        false
    );
    Ok(())
}

#[test]
fn test_player_remove_resources() -> Result<(), String> {
    let mut business_state = BusinessState::default();

    let user1: Principal = Principal::from_slice(&[1]);

    business_state.player.insert(user1, PlayerState::default());

    business_state.work_set(user1, None, 1)?;

    assert_eq!(
        business_state
            .player
            .get(&user1)
            .unwrap()
            .inventory
            .contents
            .len(),
        0
    );

    business_state.work_claim(user1, MILLIS_TO_SECONDS * 60 + 1)?;

    business_state
        .player
        .get_mut(&user1)
        .unwrap()
        .inventory
        .subtract_resources(&VecMap::from_pairs(&vec![
            (Resources::Wood, 300),
            (Resources::Stone, 300),
            (Resources::Food, 300),
            (Resources::Water, 300),
        ]));

    assert_eq!(
        business_state
            .player
            .get(&user1)
            .unwrap()
            .inventory
            .has_available_resources(&VecMap::from_pairs(&vec![(Resources::Wood, 100)])),
        true
    );

    assert_eq!(
        business_state
            .player
            .get(&user1)
            .unwrap()
            .inventory
            .has_available_resources(&VecMap::from_pairs(&vec![(Resources::Wood, 350)])),
        false
    );

    assert_eq!(
        business_state
            .player
            .get(&user1)
            .unwrap()
            .inventory
            .has_available_resources(&VecMap::from_pairs(&vec![
                (Resources::Wood, 300),
                (Resources::Stone, 300),
                (Resources::Food, 300),
                (Resources::Water, 300),
            ])),
        true
    );

    assert_eq!(
        business_state
            .player
            .get(&user1)
            .unwrap()
            .inventory
            .has_available_resources(&VecMap::from_pairs(&vec![
                (Resources::Wood, 600),
                (Resources::Stone, 700),
                (Resources::Food, 600),
                (Resources::Water, 600),
            ])),
        false
    );

    Ok(())
}

#[test]
fn test_propose_expedition() -> Result<(), String> {
    let mut business_state = BusinessState::default();

    let user1: Principal = Principal::from_slice(&[1]);

    business_state.player.insert(
        user1,
        PlayerState {
            status: PlayerStatus::Idle,
            inventory: hundred_of_each(),
        },
    );

    business_state.propose_expedition(user1, 2)?;

    assert_eq!(business_state.expeditions.len(), 1);

    assert_eq!(
        business_state
            .propose_expedition(user1, 2)
            .map_err(String::from),
        Err("The player doesn't have enough resources to propose an expedition".to_string())
    );

    assert_eq!(business_state.expeditions.len(), 1);

    Ok(())
}

#[test]
fn test_join_expedition() -> Result<(), String> {
    let mut business_state = BusinessState::default();

    let user1: Principal = Principal::from_slice(&[1]);

    business_state.player.insert(
        user1,
        PlayerState {
            status: PlayerStatus::Idle,
            inventory: hundred_of_each(),
        },
    );

    let user2: Principal = Principal::from_slice(&[2]);

    business_state.player.insert(
        user2,
        PlayerState {
            status: PlayerStatus::Idle,
            inventory: hundred_of_each(),
        },
    );

    business_state.propose_expedition(user1, 2)?;

    assert_eq!(business_state.expeditions.get(&0).unwrap().members.len(), 1);

    business_state.join_expedition(&user2, 0)?;

    assert_eq!(business_state.expeditions.get(&0).unwrap().members.len(), 2);

    Ok(())
}

#[test]
fn test_expedition_has_enough_resources() -> Result<(), String> {
    let mut business_state = BusinessState::default();

    let user1: Principal = Principal::from_slice(&[1]);

    business_state.player.insert(
        user1,
        PlayerState {
            status: PlayerStatus::Idle,
            inventory: hundred_of_each(),
        },
    );

    business_state.propose_expedition(user1, 2)?;

    assert_eq!(
        business_state
            .expeditions
            .get(&0)
            .unwrap()
            .has_enough_resources(),
        false
    );

    business_state
        .expeditions
        .get_mut(&0)
        .unwrap()
        .add_resources(&VecMap::from_pairs(&vec![
            (Resources::Wood, 1000),
            (Resources::Stone, 1000),
            (Resources::Food, 1000),
            (Resources::Water, 1000),
        ]))?;

    assert_eq!(
        business_state
            .expeditions
            .get(&0)
            .unwrap()
            .has_enough_resources(),
        true
    );

    Ok(())
}

#[test]
fn test_add_player() -> Result<(), String> {
    let mut business_state = BusinessState::default();

    let user1: Principal = Principal::from_slice(&[1]);

    assert_eq!(business_state.player.contains_key(&user1), false);

    business_state.add_player(user1)?;

    assert_eq!(business_state.player.contains_key(&user1), true);

    Ok(())
}

#[test]
fn test_is_player_in_world() -> Result<(), String> {
    let mut business_state = BusinessState::default();
    let user1: Principal = Principal::from_slice(&[1]);

    assert_eq!(business_state.is_player_in_world(user1), false);

    business_state.add_player(user1)?;

    assert_eq!(business_state.is_player_in_world(user1), true);

    Ok(())
}

#[test]
fn test_inventory_getters() -> Result<(), String> {
    let player_state = PlayerState {
        status: PlayerStatus::Idle,
        inventory: hundred_of_each(),
    };

    let mut a = player_state.inventory.get_all();
    let mut b = vec![
        (Resources::Wood, 100),
        (Resources::Stone, 100),
        (Resources::Food, 100),
        (Resources::Water, 100),
    ];
    a.sort();
    b.sort();
    assert_eq!(a, b);

    assert_eq!(player_state.inventory.get(Resources::Wood), 100);

    Ok(())
}

#[test]
fn test_tax_inbound_inventory() -> Result<(), String> {
    let mut business_state = BusinessState::default();

    let user1: Principal = Principal::from_slice(&[1]);
    let player_state = PlayerState {
        status: PlayerStatus::Idle,
        inventory: hundred_of_each(),
    };

    assert_eq!(business_state.player.contains_key(&user1), false);

    business_state.add_traveler(user1, player_state)?;

    assert_eq!(business_state.player.contains_key(&user1), true);

    assert_eq!(
        business_state
            .player
            .get(&user1)
            .unwrap()
            .inventory
            .has_available_resources(&VecMap::from_pairs(&vec![
                (Resources::Wood, 90),
                (Resources::Stone, 90),
                (Resources::Food, 90),
                (Resources::Water, 90),
            ])),
        true
    );

    assert_eq!(
        business_state
            .player
            .get(&user1)
            .unwrap()
            .inventory
            .has_available_resources(&VecMap::from_pairs(&vec![
                (Resources::Wood, 91),
                (Resources::Stone, 91),
                (Resources::Food, 91),
                (Resources::Water, 91),
            ])),
        false
    );

    Ok(())
}
