use l2_login::controller::ServerData;
use l2_login::from_client::{RequestAuthGG, RequestGSLogin, RequestServerList};
use l2_login::from_gs::{
    BlowFishKey, GSStatus, GSStatusUpdate, PlayerAuthRequest, PlayerInGame, PlayerLogout,
    PlayerTracert, ReplyChars, RequestAuthGS,
};
use l2_login::session::SessionKey;
use l2_login::to_client::{
    AuthGG, Init, LoginOk, PlayOk, PlayerLoginFail, PlayerLoginFailReasons, PlayerLoginResponse, ServerList,
};
use l2_login::to_gs::{AuthGS, GSLoginFail, GSLoginFailReasons, InitLS, KickPlayer, PlayerAuthResponse, RequestChars};

fn body(frame: Vec<u8>) -> Vec<u8> {
    let n = u16::from_le_bytes([frame[0], frame[1]]) as usize;
    assert_eq!(n, frame.len());
    frame[2..].to_vec()
}

#[test]
fn test_init_packet_sent() {
    let init = Init::new(0x1234, vec![7u8; 128], vec![3u8; 16]);
    let init_packet = init.get_bytes();
    let packet_size = u16::from_le_bytes(init_packet[..2].try_into().unwrap());
    let packet_id = init_packet[2];
    let revision = i32::from_le_bytes(init_packet[7..11].try_into().unwrap());
    assert_eq!(packet_size, 172);
    assert_eq!(packet_id, 0);
    assert_eq!(revision, 0x0000_c621);
}

#[test]
fn init_round_trip() {
    let init = Init::new(-5, (0..128).map(|i| i as u8).collect(), vec![9u8; 16]);
    let back = Init::read(&body(init.get_bytes())).unwrap();
    assert_eq!(back.session_id, -5);
    assert_eq!(back.modulus, (0..128).map(|i| i as u8).collect::<Vec<u8>>());
    assert_eq!(back.blowfish_key, vec![9u8; 16]);
}

#[test]
fn auth_gg_round_trip() {
    let p = AuthGG::new(77);
    let b = body(p.get_bytes());
    assert_eq!(b.len(), 21);
    assert_eq!(b[0], 0x0B);
    assert_eq!(AuthGG::read(&b).unwrap().session_id, 77);
}

#[test]
fn login_ok_and_play_ok_carry_the_session_key() {
    let key = SessionKey::from_parts(11, -22, 33, -44);
    let ok = LoginOk::new(&key);
    assert_eq!(LoginOk::read(&body(ok.buffer.get_data())), Some((33, -44)));
    let play = PlayOk::new(&key);
    assert_eq!(PlayOk::read(&body(play.buffer.get_data())), Some((11, -22)));
}

#[test]
fn login_fail_round_trip() {
    let p = PlayerLoginFail::new(PlayerLoginFailReasons::ReasonUserOrPassWrong);
    let b = body(p.buffer.get_data());
    assert_eq!(b, vec![0x01, 0x03, 0, 0, 0]);
    assert_eq!(PlayerLoginFail::read(&b), Some(PlayerLoginFailReasons::ReasonUserOrPassWrong));
}

#[test]
fn init_ls_round_trip() {
    let p = InitLS::new(vec![1, 2, 3]);
    let b = body(p.get_bytes());
    assert_eq!(b, vec![0x00, 0x06, 0x01, 0, 0, 3, 0, 0, 0, 1, 2, 3]);
    assert_eq!(InitLS::read(&b).unwrap().public_key, vec![1, 2, 3]);
}

#[test]
fn auth_gs_round_trip() {
    let p = AuthGS::new(2, "Sieghardt");
    let back = AuthGS::read(&body(p.buffer.get_data())).unwrap();
    assert_eq!(back.server_id, 2);
    assert_eq!(back.server_name, "Sieghardt");
}

#[test]
fn gs_login_fail_round_trip() {
    let p = GSLoginFail::new(GSLoginFailReasons::AlreadyRegistered);
    let b = body(p.buffer.get_data());
    assert_eq!(b, vec![0x01, 0x07]);
    assert_eq!(GSLoginFail::read(&b), Some(GSLoginFailReasons::AlreadyRegistered));
}

#[test]
fn account_packets_round_trip() {
    let r = PlayerAuthResponse::new("alice", true);
    let back = PlayerAuthResponse::read(&body(r.get_bytes())).unwrap();
    assert_eq!(back.account, "alice");
    assert!(back.is_ok);
    let k = KickPlayer::new("bob");
    assert_eq!(KickPlayer::read(&body(k.buffer.get_data())).unwrap().account, "bob");
    let c = RequestChars::new("alice");
    let b = body(c.buffer.get_data());
    assert_eq!(b, vec![0x05, b'a', 0, b'l', 0, b'i', 0, b'c', 0, b'e', 0, 0, 0]);
    assert_eq!(RequestChars::read(&b).unwrap().account_name, "alice");
}

#[test]
fn request_auth_gs_round_trip() {
    let p = RequestAuthGS {
        desired_id: 1,
        accept_alternative_id: true,
        host_reserved: false,
        port: 7777,
        max_players: 1000,
        hex_id: vec![0xAB, 0xCD],
        hosts: vec!["10.0.0.0/8".to_string(), "10.0.0.5".to_string()],
    };
    let back = RequestAuthGS::read(&body(p.to_bytes().get_data())).unwrap();
    assert_eq!(back.desired_id, 1);
    assert!(back.accept_alternative_id);
    assert!(!back.host_reserved);
    assert_eq!(back.port, 7777);
    assert_eq!(back.max_players, 1000);
    assert_eq!(back.hex_id, vec![0xAB, 0xCD]);
    assert_eq!(back.hosts, vec!["10.0.0.0/8".to_string(), "10.0.0.5".to_string()]);
}

#[test]
fn gs_status_round_trip() {
    let mut p = GSStatusUpdate::with_fields(GSStatus::Full, true, 3000, 5, 18);
    p.write_all().unwrap();
    let b = body(p.buffer.get_data());
    assert_eq!(b.len(), 1 + 4 + 5 * 8);
    let back = GSStatusUpdate::read(&b).unwrap();
    assert_eq!(back.status, GSStatus::Full);
    assert!(back.use_square_brackets);
    assert_eq!(back.max_players, 3000);
    assert_eq!(back.server_type, 5);
    assert_eq!(back.server_age, 18);
}

#[test]
fn gs_status_ignores_unknown_fields() {
    let mut b = vec![0x06, 2, 0, 0, 0];
    b.extend_from_slice(&99i32.to_le_bytes());
    b.extend_from_slice(&1i32.to_le_bytes());
    b.extend_from_slice(&1i32.to_le_bytes());
    b.extend_from_slice(&42i32.to_le_bytes());
    let back = GSStatusUpdate::read(&b).unwrap();
    assert_eq!(back.status, GSStatus::Auto);
    assert_eq!(back.max_players, 0);
    assert!(GSStatusUpdate::read(&b[..10]).is_none());
}

#[test]
fn player_packets_round_trip() {
    let p = PlayerInGame { accounts: vec!["a".to_string(), "bc".to_string()] };
    let back = PlayerInGame::read(&body(p.to_bytes().get_data())).unwrap();
    assert_eq!(back.accounts, vec!["a".to_string(), "bc".to_string()]);
    let l = PlayerLogout { acc: "alice".to_string() };
    assert_eq!(PlayerLogout::read(&body(l.to_bytes().get_data())).unwrap().acc, "alice");
    let t = PlayerTracert {
        account: "a".to_string(),
        pc_ip: "1.2.3.4".to_string(),
        hop1: "h1".to_string(),
        hop2: "h2".to_string(),
        hop3: "h3".to_string(),
        hop4: "h4".to_string(),
    };
    let back = PlayerTracert::read(&body(t.to_bytes().get_data())).unwrap();
    assert_eq!(back.pc_ip, "1.2.3.4");
    assert_eq!(back.hop4, "h4");
}

#[test]
fn reply_chars_round_trip() {
    let r = ReplyChars { account_name: "alice".to_string(), chars: 3, chars_to_delete: 0, char_list: vec![] };
    let back = ReplyChars::read(&body(r.to_bytes().get_data())).unwrap();
    assert_eq!(back.account_name, "alice");
    assert_eq!(back.chars, 3);
    assert_eq!(back.chars_to_delete, 0);
    assert!(back.char_list.is_empty());
    let r = ReplyChars { account_name: "bob".to_string(), chars: 2, chars_to_delete: 2, char_list: vec![-1, 1 << 33] };
    let back = ReplyChars::read(&body(r.to_bytes().get_data())).unwrap();
    assert_eq!(back.char_list, vec![-1, 1 << 33]);
}

#[test]
fn player_auth_request_round_trip() {
    let key = SessionKey::from_parts(1, 2, 3, 4);
    let p = PlayerAuthRequest { account: "alice".to_string(), key };
    let back = PlayerAuthRequest::read(&body(p.to_bytes().get_data())).unwrap();
    assert_eq!(back.account, "alice");
    assert_eq!(back.key, key);
}

#[test]
fn blowfish_key_round_trip() {
    let p = BlowFishKey { encrypted_key: vec![5; 40] };
    assert_eq!(BlowFishKey::read(&body(p.to_bytes().get_data())).unwrap().encrypted_key, vec![5; 40]);
}

#[test]
fn client_packets_round_trip() {
    let g = RequestAuthGG { session_id: -9 };
    assert_eq!(RequestAuthGG::read(&body(g.to_bytes().get_data())).unwrap().session_id, -9);
    let s = RequestServerList { login_ok1: 5, login_ok2: 6 };
    let back = RequestServerList::read(&body(s.to_bytes().get_data())).unwrap();
    assert_eq!((back.login_ok1, back.login_ok2), (5, 6));
    let l = RequestGSLogin { s_key_1: 7, s_key_2: 8, server_id: 2 };
    let back = RequestGSLogin::read(&body(l.to_bytes().get_data())).unwrap();
    assert_eq!((back.s_key_1, back.s_key_2, back.server_id), (7, 8, 2));
}

#[test]
fn empty_server_list() {
    let p = ServerList::new(vec![], 0, 0);
    let b = body(p.get_bytes());
    assert_eq!(b, vec![0x04, 0, 0, 0xA4, 0]);
}

#[test]
fn server_list_entry_layout() {
    let s = ServerData {
        ip: 0x0A000005,
        port: 7777,
        age_limit: 18,
        pvp: true,
        current_players: 0,
        max_players: 1000,
        brackets: false,
        clock: false,
        status: GSStatus::Good,
        server_id: 2,
        server_type: 1,
    };
    let b = body(ServerList::new(vec![s], 2, 3).get_bytes());
    assert_eq!(&b[0..3], &[0x04, 1, 2]);
    assert_eq!(&b[3..8], &[2, 10, 0, 0, 5]);
    assert_eq!(&b[8..12], &7777i32.to_le_bytes());
    assert_eq!(&b[12..14], &[18, 1]);
    assert_eq!(&b[14..18], &[0, 0, 0xE8, 0x03]);
    assert_eq!(b[18], 1);
    assert_eq!(&b[19..23], &1024i32.to_le_bytes());
    assert_eq!(b[23], 0);
    assert_eq!(&b[24..26], &[0xA4, 0]);
    assert_eq!(&b[26..28], &[2, 3]);
}

#[test]
fn player_login_response_round_trip() {
    let ok = PlayerLoginResponse::ok();
    assert_eq!(PlayerLoginResponse::read(&body(ok.buffer.get_data())), Some((true, 0)));
    let fail = PlayerLoginResponse::fail(PlayerLoginResponse::SYSTEM_ERROR_LOGIN_LATER);
    let b = body(fail.buffer.get_data());
    assert_eq!(b, vec![0x0A, 0, 0, 0, 0, 1, 0, 0, 0]);
    assert_eq!(PlayerLoginResponse::read(&b), Some((false, 1)));
}

#[test]
fn server_list_reads_back() {
    let s = ServerData {
        ip: 0xC0A80001,
        port: 7778,
        age_limit: 15,
        pvp: false,
        current_players: 0,
        max_players: 2000,
        brackets: true,
        clock: false,
        status: GSStatus::Down,
        server_id: 1,
        server_type: 0,
    };
    let b = body(ServerList::new(vec![s, s], 1, 0).get_bytes());
    let (last, entries) = ServerList::read(&b).unwrap();
    assert_eq!(last, 1);
    assert_eq!(entries.len(), 2);
    assert_eq!(entries[1].ip, 0xC0A80001);
    assert_eq!(entries[1].port, 7778);
    assert_eq!(entries[1].max_players, 2000);
    assert!(!entries[1].up);
    assert!(entries[1].brackets);
    assert_eq!(entries[1].server_type, 1024);
}
