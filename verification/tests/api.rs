use demonlist::api::{self, v1, v2};
use demonlist::cistring::CiString;
use demonlist::connection::Connection;
use demonlist::demon::{Demon, FullDemon};
use demonlist::error::PointercrateError;
use demonlist::patch::{PatchDemon, VideoPatch};
use demonlist::post::PostDemon;
use demonlist::version::VersionToken;

fn word(s: &str) -> CiString {
    CiString::new(s.to_string())
}

fn data(name: &str, position: i16) -> PostDemon {
    PostDemon {
        name: word(name),
        position,
        requirement: 30,
        video: None,
        verifier: word("Verifier"),
        publisher: word("Publisher"),
        creators: vec![word("Maker")],
    }
}

fn five() -> Connection {
    let mut connection = Connection::new();
    for (i, name) in ["A", "B", "C", "D", "E"].into_iter().enumerate() {
        api::post(data(name, (i + 1) as i16), &mut connection).unwrap();
    }
    connection
}

fn nothing() -> PatchDemon {
    PatchDemon {
        name: None,
        position: None,
        video: VideoPatch::Unset,
        requirement: None,
        verifier: None,
        publisher: None,
    }
}

fn names(connection: &Connection) -> Vec<String> {
    (1..=connection.max_position())
        .map(|p| Demon::by_position(p, connection).unwrap().base.name.0)
        .collect()
}

#[test]
fn get_finds_entries_by_position_and_by_key() {
    let connection = five();
    let by_position = v1::get(4, &connection).unwrap();
    assert_eq!(by_position.demon.base.name.0, "D");
    assert_eq!(by_position.creators.len(), 1);
    let by_key = v2::get(by_position.demon.base.id, &connection).unwrap();
    assert_eq!(by_key.demon.base.position, 4);
    assert!(by_key.version_token().matches(&by_position.version_token()));
    assert_eq!(v1::get(0, &connection).unwrap_err(), PointercrateError::NotFound);
    assert_eq!(v1::get(6, &connection).unwrap_err(), PointercrateError::NotFound);
    assert_eq!(v2::get(6, &connection).unwrap_err(), PointercrateError::NotFound);
}

#[test]
fn second_patch_with_a_stale_token_is_refused() {
    let mut connection = five();
    let token = v1::get(2, &connection).unwrap().version_token();

    let first = PatchDemon { requirement: Some(77), position: Some(4), ..nothing() };
    let patched = v1::patch(&token, first, 2, &mut connection).unwrap();
    assert_eq!(patched.demon.requirement, 77);
    assert_eq!(patched.demon.base.position, 4);
    assert_eq!(names(&connection), vec!["A", "C", "D", "B", "E"]);
    let written = connection.journal().len();

    let second = PatchDemon { requirement: Some(5), name: Some(word("Z")), ..nothing() };
    assert_eq!(
        v2::patch(&token, second, patched.demon.base.id, &mut connection).unwrap_err(),
        PointercrateError::PreconditionFailed
    );
    assert_eq!(connection.journal().len(), written);
    let stored = v1::get(4, &connection).unwrap();
    assert_eq!(stored.demon.base.name.0, "B");
    assert_eq!(stored.demon.requirement, 77);
    assert!(stored.version_token().matches(&patched.version_token()));

    let third = PatchDemon { requirement: Some(5), ..nothing() };
    let patched = v2::patch(&stored.version_token(), third, stored.demon.base.id, &mut connection)
        .unwrap();
    assert_eq!(patched.demon.requirement, 5);
}

#[test]
fn patch_with_a_wrong_token_writes_nothing() {
    let mut connection = five();
    let written = connection.journal().len();
    let wrong = VersionToken { words: vec![1, 2, 3] };
    let patch = PatchDemon { position: Some(1), ..nothing() };
    assert_eq!(
        v1::patch(&wrong, patch, 3, &mut connection).unwrap_err(),
        PointercrateError::PreconditionFailed
    );
    assert_eq!(connection.journal().len(), written);
    assert_eq!(names(&connection), vec!["A", "B", "C", "D", "E"]);
}

#[test]
fn patch_of_a_missing_entry_is_not_found() {
    let mut connection = five();
    let token = v1::get(1, &connection).unwrap().version_token();
    assert_eq!(
        v1::patch(&token, nothing(), 9, &mut connection).unwrap_err(),
        PointercrateError::NotFound
    );
    assert_eq!(
        v2::patch(&token, nothing(), 9, &mut connection).unwrap_err(),
        PointercrateError::NotFound
    );
}

#[test]
fn failed_patch_leaves_no_trace() {
    let mut connection = five();
    let before = v1::get(5, &connection).unwrap();
    let token = before.version_token();
    let written = connection.journal().len();
    let patch = PatchDemon {
        position: Some(1),
        name: Some(word("Renamed")),
        video: VideoPatch::SetValue("https://ok.example".to_string()),
        verifier: Some(word("Somebody New")),
        requirement: Some(101),
        ..nothing()
    };
    assert_eq!(
        v1::patch(&token, patch, 5, &mut connection).unwrap_err(),
        PointercrateError::InvalidRequirement
    );
    assert_eq!(connection.journal().len(), written);
    assert_eq!(names(&connection), vec!["A", "B", "C", "D", "E"]);
    let after = v1::get(5, &connection).unwrap();
    assert!(after.version_token().matches(&token));
    // the player the patch would have created is not there either
    let patch = PatchDemon { verifier: Some(word("Somebody New")), ..nothing() };
    let patched = v1::patch(&token, patch, 5, &mut connection).unwrap();
    assert_eq!(patched.demon.verifier.id, 4);
}

#[test]
fn patch_hands_back_what_is_stored() {
    let mut connection = five();
    let token = v1::get(1, &connection).unwrap().version_token();
    let patch = PatchDemon {
        position: Some(5),
        name: Some(word("Alpha")),
        video: VideoPatch::SetValue("https://alpha.example/1".to_string()),
        verifier: Some(word("Maker")),
        publisher: Some(word("Fresh")),
        requirement: Some(0),
    };
    let patched = v1::patch(&token, patch, 1, &mut connection).unwrap();
    let stored = v1::get(5, &connection).unwrap();
    assert!(stored.version_token().matches(&patched.version_token()));
    assert_eq!(stored.demon.base.name.0, "Alpha");
    assert_eq!(stored.demon.video.as_deref(), Some("https://alpha.example/1"));
    assert_eq!(stored.demon.verifier.name.0, "Maker");
    assert_eq!(stored.demon.publisher.name.0, "Fresh");
    assert_eq!(stored.demon.requirement, 0);
    assert_eq!(names(&connection), vec!["B", "C", "D", "E", "Alpha"]);
}

#[test]
fn failed_post_leaves_no_trace() {
    let mut connection = five();
    let written = connection.journal().len();
    let mut bad = data("F", 3);
    bad.requirement = 101;
    bad.verifier = word("Unheard Of");
    assert_eq!(
        api::post(bad, &mut connection).unwrap_err(),
        PointercrateError::InvalidRequirement
    );
    let mut bad = data("F", 3);
    bad.video = Some("nope".to_string());
    assert_eq!(
        api::post(bad, &mut connection).unwrap_err(),
        PointercrateError::InvalidMediaLink
    );
    assert_eq!(connection.journal().len(), written);
    assert_eq!(names(&connection), vec!["A", "B", "C", "D", "E"]);
}

#[test]
fn post_creator_credits_by_name() {
    let mut connection = five();
    let (demon, player) = v1::post_creator(2, &word("Helper"), &mut connection).unwrap();
    assert_eq!(demon.base.name.0, "B");
    assert_eq!(demon.base.position, 2);
    assert_eq!(player.name.0, "Helper");
    let written = connection.journal().len();
    let (again, same) = v2::post_creator(demon.base.id, &word("HELPER"), &mut connection).unwrap();
    assert_eq!(again.base.id, demon.base.id);
    assert_eq!(same.id, player.id);
    assert_eq!(connection.journal().len(), written);
    let full: FullDemon = v1::get(2, &connection).unwrap();
    let credited: Vec<&str> = full.creators.iter().map(|p| p.name.0.as_str()).collect();
    assert_eq!(credited, vec!["Maker", "Helper"]);
    assert_eq!(
        v1::post_creator(6, &word("Helper"), &mut connection).unwrap_err(),
        PointercrateError::NotFound
    );
    assert_eq!(
        v2::post_creator(60, &word("Nobody"), &mut connection).unwrap_err(),
        PointercrateError::NotFound
    );
    assert_eq!(connection.journal().len(), written);
}

#[test]
fn delete_creator_takes_the_credit_back() {
    let mut connection = five();
    let full = v1::get(3, &connection).unwrap();
    let maker = full.creators[0].id;
    assert_eq!(v1::delete_creator(3, maker, &mut connection), Ok(()));
    assert!(v1::get(3, &connection).unwrap().creators.is_empty());
    assert_eq!(v1::get(2, &connection).unwrap().creators.len(), 1);
    assert_eq!(
        v1::delete_creator(3, maker, &mut connection),
        Err(PointercrateError::NotFound)
    );
    assert_eq!(
        v2::delete_creator(full.demon.base.id, 99, &mut connection),
        Err(PointercrateError::NotFound)
    );
    assert_eq!(
        v2::delete_creator(99, maker, &mut connection),
        Err(PointercrateError::NotFound)
    );
    assert_eq!(
        v1::delete_creator(0, maker, &mut connection),
        Err(PointercrateError::NotFound)
    );
    assert_eq!(v2::delete_creator(2, maker, &mut connection), Ok(()));
}
