use l2_login::controller::{AlreadyLoggedIn, GSInfo, HostEntry, Login, PlayerInfo, LOCALHOST};
use l2_login::from_gs::{GSStatus, GSStatusUpdate};
use l2_login::session::SessionKey;
use l2_login::to_gs::GSLoginFailReasons;

fn gs(id: u8, hex: Vec<u8>, hosts: Vec<HostEntry>) -> GSInfo {
    GSInfo::new(id, false, false, 7777, true, 0, false, 0, false, 1000, hex, hosts).unwrap()
}

fn player(name: &str, gs: Option<u8>) -> PlayerInfo {
    PlayerInfo {
        account_name: name.to_string(),
        is_authed: true,
        ip: 0x7F000001,
        session_key: SessionKey::from_parts(1, 2, 3, 4),
        game_server: gs,
    }
}

#[test]
fn registration_clash_keeps_first() {
    let mut l = Login::new(None);
    assert_eq!(l.register_gs(gs(1, vec![0xAB, 0xCD], vec![])), Ok(()));
    assert_eq!(l.register_gs(gs(1, vec![0x12], vec![])), Err(GSLoginFailReasons::AlreadyRegistered));
    let list = l.get_server_list(0x7F000001);
    assert_eq!(list.len(), 1);
    assert_eq!(list[0].server_id, 1);
}

#[test]
fn disallowed_hex_is_refused() {
    let mut l = Login::new(Some(vec![b"DEAD".to_vec()]));
    assert_eq!(l.register_gs(gs(7, vec![0xBE, 0xEF], vec![])), Err(GSLoginFailReasons::WrongHexId));
    assert!(!l.has_gs(7));
    assert_eq!(l.register_gs(gs(7, vec![0xDE, 0xAD], vec![])), Ok(()));
    assert!(l.has_gs(7));
}

#[test]
fn register_remove_balance() {
    let mut l = Login::new(None);
    for id in 1..=5u8 {
        l.register_gs(gs(id, vec![id], vec![])).unwrap();
    }
    l.remove_gs(2);
    l.remove_gs(4);
    l.remove_gs(9);
    let ids: Vec<i32> = l.get_server_list(0).iter().map(|s| s.server_id).collect();
    assert_eq!(ids, vec![1, 3, 5]);
    assert_eq!(l.register_gs(gs(2, vec![2], vec![])), Ok(()));
    assert_eq!(l.get_server_list(0).len(), 4);
}

#[test]
fn same_id_registers_once() {
    let mut l = Login::new(None);
    let results: Vec<_> = (0..4).map(|i| l.register_gs(gs(3, vec![i], vec![]))).collect();
    assert_eq!(results.iter().filter(|r| r.is_ok()).count(), 1);
    assert!(results[0].is_ok());
}

#[test]
fn gs_id_must_be_in_range() {
    assert_eq!(
        GSInfo::new(0, false, false, 1, true, 0, false, 0, false, 1, vec![], vec![]).err(),
        Some(GSLoginFailReasons::NoReason)
    );
    assert!(GSInfo::new(128, false, false, 1, true, 0, false, 0, false, 1, vec![], vec![]).is_err());
    let bad = HostEntry { subnet: 0, prefix_len: 33, address: 1 };
    assert!(GSInfo::new(1, false, false, 1, true, 0, false, 0, false, 1, vec![], vec![bad]).is_err());
}

#[test]
fn server_address_follows_client_network() {
    let hosts = vec![
        HostEntry { subnet: 0x0A000000, prefix_len: 8, address: 0x0A000005 },
        HostEntry { subnet: 0, prefix_len: 0, address: 0x01020304 },
    ];
    let g = gs(2, vec![1], hosts);
    assert_eq!(g.get_host_ip(0x0A010203), 0x0A000005);
    assert_eq!(g.get_host_ip(0xC0A80001), 0x01020304);
    let lonely = gs(3, vec![1], vec![HostEntry { subnet: 0xC0A80000, prefix_len: 16, address: 5 }]);
    assert_eq!(lonely.get_host_ip(0x0A000001), LOCALHOST);
    let mut l = Login::new(None);
    l.register_gs(g).unwrap();
    assert_eq!(l.get_server_list(0x0A0000FF)[0].ip, 0x0A000005);
}

#[test]
fn status_update_applies_to_registered_server() {
    let mut l = Login::new(None);
    l.register_gs(gs(1, vec![1], vec![])).unwrap();
    let u = GSStatusUpdate::with_fields(GSStatus::Good, true, 500, 2, 15);
    assert!(l.with_gs(1, &u));
    assert!(!l.with_gs(2, &u));
    let s = l.get_server_list(0)[0];
    assert_eq!(s.status, GSStatus::Good);
    assert_eq!(s.max_players, 500);
    assert_eq!(s.age_limit, 15);
    assert!(s.brackets);
}

#[test]
fn relogin_evicts_and_names_hosting_server() {
    let mut l = Login::new(None);
    assert_eq!(l.on_player_login(player("alice", None)), Ok(()));
    l.on_players_in_game(2, &vec!["alice".to_string(), "ghost".to_string()]);
    assert_eq!(l.on_player_login(player("alice", None)), Err(AlreadyLoggedIn { kick_on: Some(2) }));
    assert_eq!(l.session_key_of("alice"), None);
    assert_eq!(l.on_player_login(player("alice", None)), Ok(()));
    l.on_player_logout("alice");
    assert_eq!(l.session_key_of("alice"), None);
}

#[test]
fn session_ids_increase_and_wrap() {
    let mut l = Login::new(None);
    assert_eq!(l.generate_session_id(), 1);
    assert_eq!(l.generate_session_id(), 2);
}
