use l2_login::controller::{HostEntry, Login};
use l2_login::dispatch::{build_gs_packet, GsPacket};
use l2_login::errors::Packet;
use l2_login::from_client::{RequestAuthGG, RequestGSLogin, RequestServerList};
use l2_login::from_gs::{GSStatus, GSStatusUpdate, PlayerAuthRequest, PlayerLogout, RequestAuthGS};
use l2_login::handlers::{
    on_blowfish_key, on_gs_status, on_login_accepted, on_player_auth_request, on_request_auth_gg,
    on_request_auth_gs, on_request_gs_login, on_request_server_list,
};
use l2_login::session::SessionKey;
use l2_login::state::{ClientState, GSState};
use l2_login::to_client::PlayerLoginFailReasons;
use l2_login::to_gs::GSLoginFailReasons;

fn request(id: u8, hex: Vec<u8>) -> RequestAuthGS {
    RequestAuthGS {
        desired_id: id,
        accept_alternative_id: false,
        host_reserved: false,
        port: 7777,
        max_players: 100,
        hex_id: hex,
        hosts: vec![],
    }
}

#[test]
fn client_login_sequence() {
    let mut l = Login::new(None);
    let key = SessionKey::from_parts(10, 20, 30, 40);
    let mut st = ClientState::Initial;
    assert!(on_request_auth_gg(&mut st, 5, &RequestAuthGG { session_id: 6 }).is_err());
    assert_eq!(st, ClientState::Initial);
    assert!(on_request_auth_gg(&mut st, 5, &RequestAuthGG { session_id: 5 }).is_ok());
    assert_eq!(st, ClientState::GgAuthed);
    let ok = on_login_accepted(&mut st, &mut l, "alice", 0x7F000001, key).ok().unwrap();
    assert_eq!((ok.login_ok1, ok.login_ok2), (30, 40));
    assert_eq!(st, ClientState::AuthedLogin);
    let list = on_request_server_list(&mut st, &l, &key, &RequestServerList { login_ok1: 30, login_ok2: 40 }, 0x7F000001)
        .ok()
        .unwrap();
    assert_eq!(list.servers.len(), 0);
    assert_eq!(list.get_bytes()[2..].to_vec(), vec![0x04, 0, 0, 0xA4, 0]);
    let mut other = st;
    let refused = on_request_gs_login(&mut other, &l, &key, &RequestGSLogin { s_key_1: 31, s_key_2: 40, server_id: 1 });
    assert_eq!(refused.err().unwrap().reason, PlayerLoginFailReasons::ReasonAccessFailed);
    let play = on_request_gs_login(&mut st, &l, &key, &RequestGSLogin { s_key_1: 30, s_key_2: 40, server_id: 1 })
        .ok()
        .unwrap();
    assert_eq!((play.play_ok1, play.play_ok2), (10, 20));
    assert_eq!(st, ClientState::EnteringWorld);
}

#[test]
fn taken_id_gives_lowest_free_id_when_accepted() {
    let mut l = Login::new(None);
    let mut a = GSState::BlowfishSwapped;
    assert!(on_request_auth_gs(&mut a, &mut l, &request(1, vec![1]), vec![], "").is_ok());
    let mut b = GSState::BlowfishSwapped;
    let mut req = request(1, vec![2]);
    req.accept_alternative_id = true;
    req.port = 9000;
    let auth = on_request_auth_gs(&mut b, &mut l, &req, vec![], "").ok().unwrap();
    assert_eq!(auth.server_id, 2);
    let list = l.get_server_list(0);
    assert_eq!(list.len(), 2);
    assert_eq!((list[1].server_id, list[1].port), (2, 9000));
}

#[test]
fn status_updates_reach_the_registry() {
    let mut l = Login::new(None);
    let mut st = GSState::BlowfishSwapped;
    on_request_auth_gs(&mut st, &mut l, &request(3, vec![1]), vec![], "").ok().unwrap();
    let upd = GSStatusUpdate::with_fields(GSStatus::Full, true, 42, 1, 18);
    assert!(on_gs_status(&mut st, &mut l, Some(3), &upd).is_ok());
    let again = GSStatusUpdate::with_fields(GSStatus::Good, true, 43, 1, 18);
    assert!(on_gs_status(&mut st, &mut l, Some(3), &again).is_ok());
    assert_eq!(st, GSState::Running);
    let s = l.get_server_list(0)[0];
    assert_eq!((s.status, s.max_players, s.age_limit), (GSStatus::Good, 43, 18));
}

#[test]
fn link_stages_move_one_step_at_a_time() {
    let mut g = GSState::Initial;
    assert!(g.transition_to(GSState::Connected).is_ok());
    assert!(g.transition_to(GSState::Authed).is_err());
    assert_eq!(g, GSState::Connected);
    let mut r = GSState::Running;
    assert!(r.transition_to(GSState::Running).is_err());
    let mut c = ClientState::ServerListShown;
    assert!(c.transition_to(ClientState::ServerListShown).is_err());
    assert!(c.transition_to(ClientState::EnteringWorld).is_ok());
}

#[test]
fn banned_address_is_known() {
    let mut l = Login::new(None);
    assert!(!l.is_ip_banned(0x0A000001));
    l.ban_ip(0x0A000001);
    assert!(l.is_ip_banned(0x0A000001));
}

#[test]
fn second_login_of_same_account_is_refused() {
    let mut l = Login::new(None);
    let key = SessionKey::from_parts(1, 2, 3, 4);
    let mut a = ClientState::GgAuthed;
    assert!(on_login_accepted(&mut a, &mut l, "alice", 1, key).is_ok());
    let mut b = ClientState::GgAuthed;
    let (fail, kick) = on_login_accepted(&mut b, &mut l, "alice", 2, key).err().unwrap();
    assert_eq!(fail.reason, PlayerLoginFailReasons::ReasonAccountInUse);
    assert!(kick.is_none());
    assert_eq!(b, ClientState::GgAuthed);
}

#[test]
fn out_of_order_packet_is_refused() {
    let mut l = Login::new(None);
    let key = SessionKey::from_parts(1, 2, 3, 4);
    let mut st = ClientState::Initial;
    assert!(on_login_accepted(&mut st, &mut l, "alice", 1, key).is_err());
    assert_eq!(l.session_key_of("alice"), None);
}

#[test]
fn game_server_sequence_and_world_entry() {
    let mut l = Login::new(None);
    let mut st = GSState::Connected;
    let mut block = vec![0u8; 24];
    block.extend_from_slice(&[7u8; 40]);
    let c = on_blowfish_key(&mut st, &block).unwrap();
    assert_eq!(st, GSState::BlowfishSwapped);
    assert_eq!(c.crypt(&[1u8; 8]).len(), 8);
    let hosts = vec![HostEntry { subnet: 0, prefix_len: 0, address: 0x01020304 }];
    let auth = on_request_auth_gs(&mut st, &mut l, &request(2, vec![0xAB]), hosts, "Sieghardt").ok().unwrap();
    assert_eq!(auth.server_id, 2);
    assert_eq!(st, GSState::Authed);
    let upd = GSStatusUpdate::with_fields(GSStatus::Normal, false, 500, 1, 0);
    assert!(on_gs_status(&mut st, &mut l, Some(2), &upd).is_ok());
    assert_eq!(st, GSState::Running);

    let key = SessionKey::from_parts(11, 12, 13, 14);
    let mut cs = ClientState::GgAuthed;
    on_login_accepted(&mut cs, &mut l, "alice", 0x05060708, key).ok().unwrap();
    let list = on_request_server_list(&mut cs, &l, &key, &RequestServerList { login_ok1: 13, login_ok2: 14 }, 0x05060708)
        .ok()
        .unwrap();
    assert_eq!(list.servers.len(), 1);
    assert_eq!(list.servers[0].ip, 0x01020304);
    let play = on_request_gs_login(&mut cs, &l, &key, &RequestGSLogin { s_key_1: 13, s_key_2: 14, server_id: 2 })
        .ok()
        .unwrap();
    assert_eq!((play.play_ok1, play.play_ok2), (11, 12));
    assert_eq!(cs, ClientState::EnteringWorld);

    let presented = PlayerAuthRequest { account: "alice".to_string(), key };
    assert!(on_player_auth_request(&l, &presented).is_ok);
    let forged = PlayerAuthRequest { account: "alice".to_string(), key: SessionKey::from_parts(11, 99, 13, 14) };
    assert!(!on_player_auth_request(&l, &forged).is_ok);
}

#[test]
fn second_game_server_with_same_id_is_refused() {
    let mut l = Login::new(None);
    let mut a = GSState::BlowfishSwapped;
    assert!(on_request_auth_gs(&mut a, &mut l, &request(1, vec![0xAB, 0xCD]), vec![], "").is_ok());
    let mut b = GSState::BlowfishSwapped;
    let fail = on_request_auth_gs(&mut b, &mut l, &request(1, vec![0x01]), vec![], "").err().unwrap();
    assert_eq!(fail.reason, GSLoginFailReasons::AlreadyRegistered);
    assert_eq!(fail.buffer.get_data()[2..].to_vec(), vec![0x01, 0x07]);
    assert_eq!(b, GSState::BlowfishSwapped);
    assert!(l.has_gs(1));
}

#[test]
fn wrong_hex_game_server_is_refused() {
    let mut l = Login::new(Some(vec![b"DEAD".to_vec()]));
    let mut st = GSState::BlowfishSwapped;
    let fail = on_request_auth_gs(&mut st, &mut l, &request(7, vec![0xBE, 0xEF]), vec![], "").err().unwrap();
    assert_eq!(fail.reason, GSLoginFailReasons::WrongHexId);
    assert!(!l.has_gs(7));
}

#[test]
fn status_from_unregistered_link_is_refused() {
    let mut l = Login::new(None);
    let mut st = GSState::Authed;
    let upd = GSStatusUpdate::with_fields(GSStatus::Good, false, 1, 0, 0);
    let fail = on_gs_status(&mut st, &mut l, Some(4), &upd).err().unwrap();
    assert_eq!(fail.reason, PlayerLoginFailReasons::ReasonAccessFailed);
    assert_eq!(st, GSState::Authed);
}

#[test]
fn unknown_opcode_is_reported() {
    assert!(matches!(build_gs_packet(&[0x42, 1, 2]), Err(Packet::ClientPacketNotFound { opcode: 0x42 })));
    assert!(matches!(build_gs_packet(&[]), Err(Packet::Decode)));
    assert!(matches!(build_gs_packet(&[0x03, b'a']), Err(Packet::Decode)));
    let frame = PlayerLogout { acc: "alice".to_string() }.to_bytes().get_data();
    match build_gs_packet(&frame[2..]) {
        Ok(GsPacket::PlayerLogout(p)) => assert_eq!(p.acc, "alice"),
        _ => panic!("expected a logout"),
    }
}
