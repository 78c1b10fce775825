use osu2malody_store::models::{GameMode, ListQueryParams, MalodyMode, PromoteQueryParams};

#[test]
fn malody_mode_from_i32_all_values() {
    assert_eq!(MalodyMode::from_i32(-1), Some(MalodyMode::Any));
    assert_eq!(MalodyMode::from_i32(0), Some(MalodyMode::Key));
    assert_eq!(MalodyMode::from_i32(3), Some(MalodyMode::Catch));
    assert_eq!(MalodyMode::from_i32(4), Some(MalodyMode::Pad));
    assert_eq!(MalodyMode::from_i32(5), Some(MalodyMode::Taiko));
    assert_eq!(MalodyMode::from_i32(6), Some(MalodyMode::Ring));
    assert_eq!(MalodyMode::from_i32(7), Some(MalodyMode::Slide));
    assert_eq!(MalodyMode::from_i32(8), Some(MalodyMode::Live));
    assert_eq!(MalodyMode::from_i32(9), Some(MalodyMode::Cube));
}

#[test]
fn malody_mode_from_i32_invalid() {
    assert_eq!(MalodyMode::from_i32(1), None);
    assert_eq!(MalodyMode::from_i32(2), None);
    assert_eq!(MalodyMode::from_i32(100), None);
    assert_eq!(MalodyMode::from_i32(-2), None);
}

#[test]
fn malody_mode_is_osu_searchable() {
    assert!(MalodyMode::Any.is_osu_searchable());
    assert!(MalodyMode::Key.is_osu_searchable());
    assert!(MalodyMode::Catch.is_osu_searchable());
    assert!(MalodyMode::Taiko.is_osu_searchable());
    assert!(!MalodyMode::Pad.is_osu_searchable());
    assert!(!MalodyMode::Ring.is_osu_searchable());
    assert!(!MalodyMode::Slide.is_osu_searchable());
    assert!(!MalodyMode::Live.is_osu_searchable());
    assert!(!MalodyMode::Cube.is_osu_searchable());
}

#[test]
fn malody_mode_to_osu_game_mode() {
    assert_eq!(MalodyMode::Any.to_osu_game_mode(), GameMode::Mania);
    assert_eq!(MalodyMode::Key.to_osu_game_mode(), GameMode::Mania);
    assert_eq!(MalodyMode::Catch.to_osu_game_mode(), GameMode::Catch);
    assert_eq!(MalodyMode::Taiko.to_osu_game_mode(), GameMode::Taiko);
    assert_eq!(MalodyMode::Pad.to_osu_game_mode(), GameMode::Mania);
    assert_eq!(MalodyMode::Cube.to_osu_game_mode(), GameMode::Mania);
}

#[test]
fn malody_mode_from_osu_game_mode_values() {
    assert_eq!(MalodyMode::from_osu_game_mode(GameMode::Osu), MalodyMode::Key);
    assert_eq!(MalodyMode::from_osu_game_mode(GameMode::Taiko), MalodyMode::Taiko);
    assert_eq!(MalodyMode::from_osu_game_mode(GameMode::Catch), MalodyMode::Catch);
    assert_eq!(MalodyMode::from_osu_game_mode(GameMode::Mania), MalodyMode::Key);
}

#[test]
fn malody_mode_number_roundtrip() {
    let all = [
        MalodyMode::Any,
        MalodyMode::Key,
        MalodyMode::Catch,
        MalodyMode::Pad,
        MalodyMode::Taiko,
        MalodyMode::Ring,
        MalodyMode::Slide,
        MalodyMode::Live,
        MalodyMode::Cube,
    ];
    for m in all {
        assert_eq!(MalodyMode::from_i32(m.as_i32()), Some(m));
    }
    assert_eq!(MalodyMode::Any.as_i32(), -1);
    assert_eq!(MalodyMode::Cube.as_i32(), 9);
    assert_eq!(MalodyMode::default(), MalodyMode::Any);
    assert_eq!(osu2malody_store::models::default_mode(), MalodyMode::Any);
}

#[test]
fn searchable_mode_roundtrip_values() {
    for m in [MalodyMode::Key, MalodyMode::Catch, MalodyMode::Taiko] {
        assert_eq!(MalodyMode::from_osu_game_mode(m.to_osu_game_mode()), m);
    }
}

fn list_params(word: Option<&str>, from: Option<i32>, uid: Option<i32>) -> ListQueryParams {
    ListQueryParams {
        word: word.map(|w| w.to_string()),
        org: None,
        mode: MalodyMode::Key,
        lvge: None,
        lvle: None,
        beta: None,
        from,
        uid,
        key: Some("abc".to_string()),
        api: Some(202310),
    }
}

#[test]
fn list_query_params_getters() {
    let params = list_params(Some("test"), Some(50), Some(123));
    assert_eq!(params.uid(), Some(123));
    assert_eq!(params.api(), Some(202310));
    assert_eq!(params.key(), Some("abc"));
    let promote = PromoteQueryParams {
        org: None,
        mode: MalodyMode::Any,
        from: None,
        uid: None,
        key: None,
        api: None,
    };
    assert_eq!(promote.uid(), None);
    assert_eq!(promote.key(), None);
    assert_eq!(promote.api(), None);
}
