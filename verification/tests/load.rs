use demonlist::cistring::CiString;
use demonlist::connection::Connection;
use demonlist::creator::Creator;
use demonlist::demon::{Demon, FullDemon, MinimalDemon};
use demonlist::error::PointercrateError;
use demonlist::api;
use demonlist::player::DatabasePlayer;
use demonlist::post::PostDemon;

fn player(id: i32, name: &str) -> DatabasePlayer {
    DatabasePlayer { id, name: CiString::new(name.to_string()) }
}

fn row(id: i32, position: i16, name: &str) -> Demon {
    Demon {
        base: MinimalDemon { id, position, name: CiString::new(name.to_string()) },
        requirement: 10,
        video: None,
        publisher: player(1, "P"),
        verifier: player(2, "V"),
    }
}

fn players() -> Vec<DatabasePlayer> {
    vec![player(1, "P"), player(2, "V")]
}

fn refused(
    demons: Vec<Demon>,
    players: Vec<DatabasePlayer>,
    creators: Vec<Creator>,
    next_demon: i32,
    next_player: i32,
) -> bool {
    match Connection::load(demons, players, creators, next_demon, next_player) {
        Ok(_) => false,
        Err(e) => e == PointercrateError::DatabaseError,
    }
}

#[test]
fn load_accepts_a_dense_list() {
    let demons = vec![row(7, 2, "B"), row(3, 3, "C"), row(5, 1, "A")];
    let creators = vec![Creator { demon: 3, creator: 2 }, Creator { demon: 3, creator: 1 }];
    let mut connection = Connection::load(demons, players(), creators, 8, 3).unwrap();
    assert_eq!(connection.max_position(), 3);
    assert!(connection.journal().is_empty());
    assert_eq!(Demon::by_position(1, &connection).unwrap().base.id, 5);
    let full = FullDemon::by_id(3, &connection).unwrap();
    assert_eq!(full.creators.len(), 2);
    assert_eq!(full.creators[0].id, 1);
    let mut c = full.demon.base;
    assert_eq!(c.mv(1, &mut connection), Ok(()));
    assert_eq!(Demon::by_position(1, &connection).unwrap().base.id, 3);
    assert_eq!(Demon::by_position(2, &connection).unwrap().base.id, 5);
    assert_eq!(Demon::by_position(3, &connection).unwrap().base.id, 7);
    let new = DatabasePlayer::by_name_or_create(&CiString::new("N".to_string()), &mut connection)
        .unwrap();
    assert_eq!(new.id, 3);
}

#[test]
fn load_accepts_the_empty_store() {
    let connection = Connection::load(Vec::new(), Vec::new(), Vec::new(), 1, 1).unwrap();
    assert_eq!(connection.max_position(), 0);
}

#[test]
fn load_refuses_gaps_and_repeated_positions() {
    assert!(refused(vec![row(1, 1, "A"), row(2, 3, "B")], players(), Vec::new(), 3, 3));
    assert!(refused(vec![row(1, 2, "A"), row(2, 2, "B")], players(), Vec::new(), 3, 3));
    assert!(refused(vec![row(1, 0, "A"), row(2, 1, "B")], players(), Vec::new(), 3, 3));
    assert!(refused(vec![row(1, -1, "A")], players(), Vec::new(), 3, 3));
    assert!(refused(vec![row(1, 2, "A")], players(), Vec::new(), 3, 3));
}

#[test]
fn load_refuses_a_requirement_out_of_range() {
    let mut high = row(1, 1, "A");
    high.requirement = 101;
    assert!(refused(vec![high], players(), Vec::new(), 2, 3));
    let mut low = row(1, 1, "A");
    low.requirement = -1;
    assert!(refused(vec![low], players(), Vec::new(), 2, 3));
    let mut bounds = vec![row(1, 1, "A"), row(2, 2, "B")];
    bounds[0].requirement = 0;
    bounds[1].requirement = 100;
    assert!(Connection::load(bounds, players(), Vec::new(), 3, 3).is_ok());
}

#[test]
fn load_checks_long_lists() {
    let n: i16 = 2000;
    let demons: Vec<Demon> = (1..=n).rev().map(|p| row(p as i32, p, "X")).collect();
    let connection = Connection::load(demons, players(), Vec::new(), 2001, 3).unwrap();
    assert_eq!(connection.max_position(), n);
    assert_eq!(Demon::by_position(1234, &connection).unwrap().base.id, 1234);
    let mut repeated: Vec<Demon> = (1..=n).map(|p| row(p as i32, p, "X")).collect();
    repeated[1999].base.position = 1;
    assert!(refused(repeated, players(), Vec::new(), 2001, 3));
}

#[test]
fn load_refuses_repeated_or_unissued_keys() {
    assert!(refused(vec![row(1, 1, "A"), row(1, 2, "B")], players(), Vec::new(), 3, 3));
    assert!(refused(vec![row(1, 1, "A"), row(3, 2, "B")], players(), Vec::new(), 3, 3));
    assert!(refused(Vec::new(), vec![player(1, "P"), player(1, "Q")], Vec::new(), 1, 3));
    assert!(refused(Vec::new(), vec![player(1, "P"), player(3, "Q")], Vec::new(), 1, 3));
    assert!(refused(Vec::new(), vec![player(1, "Same"), player(2, "SAME")], Vec::new(), 1, 3));
}

#[test]
fn load_refuses_repeated_or_dangling_creators() {
    let twice = vec![Creator { demon: 1, creator: 1 }, Creator { demon: 1, creator: 1 }];
    assert!(refused(vec![row(1, 1, "A")], players(), twice, 2, 3));
    let dangling = vec![Creator { demon: 1, creator: 3 }];
    assert!(refused(vec![row(1, 1, "A")], players(), dangling, 2, 3));
    let fine = vec![Creator { demon: 1, creator: 1 }, Creator { demon: 1, creator: 2 }];
    assert!(Connection::load(vec![row(1, 1, "A")], players(), fine, 2, 3).is_ok());
}

#[test]
fn store_without_keys_left_refuses_new_rows() {
    let mut connection =
        Connection::load(vec![row(1, 1, "A")], players(), Vec::new(), 2, i32::MAX).unwrap();
    let written = connection.journal().len();
    let known = CiString::new("p".to_string());
    assert_eq!(DatabasePlayer::by_name_or_create(&known, &mut connection).unwrap().id, 1);
    let unknown = CiString::new("Q".to_string());
    assert_eq!(
        DatabasePlayer::by_name_or_create(&unknown, &mut connection).unwrap_err(),
        PointercrateError::DatabaseError
    );
    assert_eq!(
        api::v1::post_creator(1, &unknown, &mut connection).unwrap_err(),
        PointercrateError::DatabaseError
    );
    assert_eq!(connection.journal().len(), written);

    let mut connection =
        Connection::load(vec![row(1, 1, "A")], players(), Vec::new(), i32::MAX, 3).unwrap();
    assert!(connection.is_full());
    let data = PostDemon {
        name: CiString::new("B".to_string()),
        position: 5,
        requirement: 10,
        video: None,
        verifier: CiString::new("V".to_string()),
        publisher: CiString::new("P".to_string()),
        creators: Vec::new(),
    };
    assert_eq!(
        api::post(data, &mut connection).unwrap_err(),
        PointercrateError::DatabaseError
    );
    assert!(connection.journal().is_empty());
}
