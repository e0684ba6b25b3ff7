use vstd::prelude::*;

use crate::buffer::{
    appended, framed, le16, le32, le_u32, put_bytes, put_i16, put_i32, put_u32, put_u8,
    with_length_prefix, SendablePacketBuffer,
};
use crate::controller::ServerData;
use crate::from_gs::GSStatus;
use crate::reader::{
    i16_from, i32_from, lemma_i16_round_trip, lemma_i32_round_trip, lemma_p_bytes, lemma_p_i32,
    lemma_p_u8, lemma_p_u32, p_bytes, p_i32, p_u32, p_u8, ReadablePacketBuffer,
};
use crate::session::SessionKey;

verus! {

/// Opcodes of the packets that the login server sends to a client.
pub const OP_INIT: u8 = 0x00;
pub const OP_LOGIN_FAIL: u8 = 0x01;
pub const OP_LOGIN_OK: u8 = 0x03;
pub const OP_SERVER_LIST: u8 = 0x04;
pub const OP_PLAY_OK: u8 = 0x07;
pub const OP_GG_AUTH: u8 = 0x0B;

/// Protocol revision announced in `Init`.
pub const CLIENT_PROTOCOL_REVISION: u32 = 0xC621;

/// Four fixed words that `Init` carries for the client's guard module.
pub const GG_1: u32 = 0x29DD954E;
pub const GG_2: u32 = 0x77C39CFC;
pub const GG_3: u32 = 0x97ADB620;
pub const GG_4: u32 = 0x07BDE0F7;

/// Size of the scrambled RSA modulus and of the Blowfish key that `Init` carries.
pub const MODULUS_LEN: usize = 128;
pub const BLOWFISH_KEY_LEN: usize = 16;

// ---------------------------------------------------------------- Init

pub open spec fn init_body(session_id: i32, modulus: Seq<u8>, blowfish_key: Seq<u8>) -> Seq<u8> {
    seq![OP_INIT] + (le32(session_id) + (le_u32(CLIENT_PROTOCOL_REVISION) + (modulus + (le_u32(GG_1)
        + (le_u32(GG_2) + (le_u32(GG_3) + (le_u32(GG_4) + (blowfish_key + seq![0u8]))))))))
}

/// Session id, protocol revision, modulus and Blowfish key of an `Init` body.
pub open spec fn parse_init(b: Seq<u8>) -> Option<(i32, u32, Seq<u8>, Seq<u8>)> {
    match p_u8(b) {
        None => None,
        Some((_, b)) => match p_i32(b) {
            None => None,
            Some((sid, b)) => match p_u32(b) {
                None => None,
                Some((rev, b)) => match p_bytes(b, MODULUS_LEN as nat) {
                    None => None,
                    Some((m, b)) => match p_bytes(b, 16) {
                        None => None,
                        Some((_, b)) => match p_bytes(b, BLOWFISH_KEY_LEN as nat) {
                            None => None,
                            Some((k, _)) => Some((sid, rev, m, k)),
                        },
                    },
                },
            },
        },
    }
}

/// The first packet of a client link, sent in the clear: the session id, the scrambled
/// RSA modulus and the Blowfish key for the rest of the session.
pub struct Init {
    pub buffer: SendablePacketBuffer,
    pub session_id: i32,
    pub modulus: Vec<u8>,
    pub blowfish_key: Vec<u8>,
}

impl Init {
    pub fn new(session_id: i32, modulus: Vec<u8>, blowfish_key: Vec<u8>) -> (r: Self)
        ensures
            r.buffer.wf(),
            r.buffer.view() == appended(seq![0u8, 0u8], init_body(session_id, modulus@, blowfish_key@)),
            r.session_id == session_id,
            r.modulus@ == modulus@,
            r.blowfish_key@ == blowfish_key@,
    {
        let mut b: Vec<u8> = Vec::new();
        put_u8(&mut b, OP_INIT);
        put_i32(&mut b, session_id);
        put_u32(&mut b, CLIENT_PROTOCOL_REVISION);
        put_bytes(&mut b, modulus.as_slice());
        put_u32(&mut b, GG_1);
        put_u32(&mut b, GG_2);
        put_u32(&mut b, GG_3);
        put_u32(&mut b, GG_4);
        put_bytes(&mut b, blowfish_key.as_slice());
        put_u8(&mut b, 0);
        assert(b@ =~= init_body(session_id, modulus@, blowfish_key@));
        Init { buffer: framed(b.as_slice()), session_id, modulus, blowfish_key }
    }

    pub fn get_bytes(&self) -> (r: Vec<u8>)
        requires
            self.buffer.wf(),
            self.buffer.view().len() >= 2,
        ensures
            r@ == with_length_prefix(self.buffer.view()),
    {
        self.buffer.get_data()
    }

    pub fn read(data: &[u8]) -> (r: Option<Self>)
        ensures
            match parse_init(data@) {
                Some((sid, rev, m, k)) => r is Some && r->Some_0.session_id == sid
                    && r->Some_0.modulus@ == m && r->Some_0.blowfish_key@ == k,
                None => r is None,
            },
    {
        let mut rd = ReadablePacketBuffer::new(vstd::slice::slice_to_vec(data));
        let _op = rd.read_byte()?;
        let sid = rd.read_i32()?;
        let _rev = rd.read_u32()?;
        let m = rd.read_bytes(MODULUS_LEN)?;
        let _gg = rd.read_bytes(16)?;
        let k = rd.read_bytes(BLOWFISH_KEY_LEN)?;
        Some(Init::new(sid, m, k))
    }
}

/// An `Init` body reads back as what it was built from.
pub proof fn lemma_init_round_trip(session_id: i32, modulus: Seq<u8>, blowfish_key: Seq<u8>)
    requires
        modulus.len() == MODULUS_LEN,
        blowfish_key.len() == BLOWFISH_KEY_LEN,
    ensures
        parse_init(init_body(session_id, modulus, blowfish_key)) == Some(
            (session_id, CLIENT_PROTOCOL_REVISION, modulus, blowfish_key),
        ),
{
    let gg = le_u32(GG_1) + (le_u32(GG_2) + (le_u32(GG_3) + le_u32(GG_4)));
    let tail = blowfish_key + seq![0u8];
    let r3 = modulus + (le_u32(GG_1) + (le_u32(GG_2) + (le_u32(GG_3) + (le_u32(GG_4) + tail))));
    let r2 = le_u32(CLIENT_PROTOCOL_REVISION) + r3;
    let r1 = le32(session_id) + r2;
    lemma_p_u8(OP_INIT, r1);
    lemma_p_i32(session_id, r2);
    lemma_p_u32(CLIENT_PROTOCOL_REVISION, r3);
    let r4 = le_u32(GG_1) + (le_u32(GG_2) + (le_u32(GG_3) + (le_u32(GG_4) + tail)));
    lemma_p_bytes(modulus, r4);
    assert(gg.len() == 16);
    assert(r4 =~= gg + tail);
    lemma_p_bytes(gg, tail);
    lemma_p_bytes(blowfish_key, seq![0u8]);
}

// ---------------------------------------------------------------- AuthGG

pub open spec fn auth_gg_body(session_id: i32) -> Seq<u8> {
    seq![OP_GG_AUTH] + (le32(session_id) + (le32(0) + (le32(0) + (le32(0) + le32(0)))))
}

pub open spec fn parse_auth_gg(b: Seq<u8>) -> Option<i32> {
    match p_u8(b) {
        None => None,
        Some((_, b)) => match p_i32(b) {
            None => None,
            Some((sid, _)) => Some(sid),
        },
    }
}

/// Acknowledges the client's guard check, echoing the session id.
pub struct AuthGG {
    pub buffer: SendablePacketBuffer,
    pub session_id: i32,
}

impl AuthGG {
    pub fn new(session_id: i32) -> (r: AuthGG)
        ensures
            r.buffer.wf(),
            r.buffer.view() == seq![0u8, 0u8] + auth_gg_body(session_id),
            r.session_id == session_id,
    {
        let mut gg = AuthGG { buffer: SendablePacketBuffer::new(), session_id };
        let _ = gg.write_all();
        gg
    }

    fn write_all(&mut self) -> (r: Result<(), crate::errors::Packet>)
        requires
            old(self).buffer.wf(),
            old(self).buffer.view() == seq![0u8, 0u8],
        ensures
            final(self).buffer.wf(),
            final(self).buffer.view() == seq![0u8, 0u8] + auth_gg_body(old(self).session_id),
            final(self).session_id == old(self).session_id,
    {
        let mut b: Vec<u8> = Vec::new();
        put_u8(&mut b, OP_GG_AUTH);
        put_i32(&mut b, self.session_id);
        put_i32(&mut b, 0);
        put_i32(&mut b, 0);
        put_i32(&mut b, 0);
        put_i32(&mut b, 0);
        assert(b@ =~= auth_gg_body(self.session_id));
        self.buffer.write_bytes(b.as_slice())
    }

    pub fn get_bytes(&self) -> (r: Vec<u8>)
        requires
            self.buffer.wf(),
            self.buffer.view().len() >= 2,
        ensures
            r@ == with_length_prefix(self.buffer.view()),
    {
        self.buffer.get_data()
    }

    pub fn read(data: &[u8]) -> (r: Option<Self>)
        ensures
            match parse_auth_gg(data@) {
                Some(sid) => r is Some && r->Some_0.session_id == sid,
                None => r is None,
            },
    {
        let mut rd = ReadablePacketBuffer::new(vstd::slice::slice_to_vec(data));
        let _op = rd.read_byte()?;
        let sid = rd.read_i32()?;
        Some(AuthGG::new(sid))
    }
}

pub proof fn lemma_auth_gg_round_trip(session_id: i32)
    ensures
        parse_auth_gg(auth_gg_body(session_id)) == Some(session_id),
{
    let r2 = le32(0) + (le32(0) + (le32(0) + le32(0)));
    lemma_p_u8(OP_GG_AUTH, le32(session_id) + r2);
    lemma_p_i32(session_id, r2);
}

// ---------------------------------------------------------------- LoginOk

pub open spec fn login_ok_body(login_ok1: i32, login_ok2: i32) -> Seq<u8> {
    seq![OP_LOGIN_OK] + (le32(login_ok1) + (le32(login_ok2) + (le32(0) + (le32(0) + (le32(0x3ea) + (
    le32(0) + (le32(0) + (le32(0) + Seq::new(16, |i: int| 0u8)))))))))
}

pub open spec fn parse_login_ok(b: Seq<u8>) -> Option<(i32, i32)> {
    match p_u8(b) {
        None => None,
        Some((_, b)) => match p_i32(b) {
            None => None,
            Some((a, b)) => match p_i32(b) {
                None => None,
                Some((c, _)) => Some((a, c)),
            },
        },
    }
}

/// Tells the client that its credentials were accepted, with the login half of its
/// session key.
pub struct LoginOk {
    pub buffer: SendablePacketBuffer,
    pub login_ok1: i32,
    pub login_ok2: i32,
}

impl LoginOk {
    pub fn new(key: &SessionKey) -> (r: Self)
        ensures
            r.buffer.wf(),
            r.buffer.view() == seq![0u8, 0u8] + login_ok_body(key.login_ok1, key.login_ok2),
            r.login_ok1 == key.login_ok1,
            r.login_ok2 == key.login_ok2,
    {
        let mut b: Vec<u8> = Vec::new();
        put_u8(&mut b, OP_LOGIN_OK);
        put_i32(&mut b, key.login_ok1);
        put_i32(&mut b, key.login_ok2);
        put_i32(&mut b, 0);
        put_i32(&mut b, 0);
        put_i32(&mut b, 0x3ea);
        put_i32(&mut b, 0);
        put_i32(&mut b, 0);
        put_i32(&mut b, 0);
        let zeros: Vec<u8> = vec![0u8; 16];
        put_bytes(&mut b, zeros.as_slice());
        assert(b@ =~= login_ok_body(key.login_ok1, key.login_ok2));
        LoginOk { buffer: framed(b.as_slice()), login_ok1: key.login_ok1, login_ok2: key.login_ok2 }
    }

    pub fn read(data: &[u8]) -> (r: Option<(i32, i32)>)
        ensures
            r == parse_login_ok(data@),
    {
        let mut rd = ReadablePacketBuffer::new(vstd::slice::slice_to_vec(data));
        let _op = rd.read_byte()?;
        let a = rd.read_i32()?;
        let c = rd.read_i32()?;
        Some((a, c))
    }
}

pub proof fn lemma_login_ok_round_trip(login_ok1: i32, login_ok2: i32)
    ensures
        parse_login_ok(login_ok_body(login_ok1, login_ok2)) == Some((login_ok1, login_ok2)),
{
    let r3 = le32(0) + (le32(0) + (le32(0x3ea) + (le32(0) + (le32(0) + (le32(0) + Seq::new(
        16,
        |i: int| 0u8,
    ))))));
    lemma_p_u8(OP_LOGIN_OK, le32(login_ok1) + (le32(login_ok2) + r3));
    lemma_p_i32(login_ok1, le32(login_ok2) + r3);
    lemma_p_i32(login_ok2, r3);
}

// ---------------------------------------------------------------- PlayOk

pub open spec fn play_ok_body(play_ok1: i32, play_ok2: i32) -> Seq<u8> {
    seq![OP_PLAY_OK] + (le32(play_ok1) + le32(play_ok2))
}

pub open spec fn parse_play_ok(b: Seq<u8>) -> Option<(i32, i32)> {
    match p_u8(b) {
        None => None,
        Some((_, b)) => match p_i32(b) {
            None => None,
            Some((a, b)) => match p_i32(b) {
                None => None,
                Some((c, _)) => Some((a, c)),
            },
        },
    }
}

/// Lets the client into the chosen world, with the play half of its session key.
pub struct PlayOk {
    pub buffer: SendablePacketBuffer,
    pub play_ok1: i32,
    pub play_ok2: i32,
}

impl PlayOk {
    pub fn new(key: &SessionKey) -> (r: Self)
        ensures
            r.buffer.wf(),
            r.buffer.view() == seq![0u8, 0u8] + play_ok_body(key.play_ok1, key.play_ok2),
            r.play_ok1 == key.play_ok1,
            r.play_ok2 == key.play_ok2,
    {
        let mut b: Vec<u8> = Vec::new();
        put_u8(&mut b, OP_PLAY_OK);
        put_i32(&mut b, key.play_ok1);
        put_i32(&mut b, key.play_ok2);
        assert(b@ =~= play_ok_body(key.play_ok1, key.play_ok2));
        PlayOk { buffer: framed(b.as_slice()), play_ok1: key.play_ok1, play_ok2: key.play_ok2 }
    }

    pub fn read(data: &[u8]) -> (r: Option<(i32, i32)>)
        ensures
            r == parse_play_ok(data@),
    {
        let mut rd = ReadablePacketBuffer::new(vstd::slice::slice_to_vec(data));
        let _op = rd.read_byte()?;
        let a = rd.read_i32()?;
        let c = rd.read_i32()?;
        Some((a, c))
    }
}

pub proof fn lemma_play_ok_round_trip(play_ok1: i32, play_ok2: i32)
    ensures
        parse_play_ok(play_ok_body(play_ok1, play_ok2)) == Some((play_ok1, play_ok2)),
{
    lemma_p_u8(OP_PLAY_OK, le32(play_ok1) + le32(play_ok2));
    lemma_p_i32(play_ok1, le32(play_ok2));
    assert(le32(play_ok2) =~= le32(play_ok2) + Seq::<u8>::empty());
    lemma_p_i32(play_ok2, Seq::<u8>::empty());
}

// ---------------------------------------------------------------- LoginFail

/// Why a client's login was refused.
#[derive(Debug, Clone, Copy, PartialEq, Eq)]
pub enum PlayerLoginFailReasons {
    ReasonSystemError,
    ReasonPassWrong,
    ReasonUserOrPassWrong,
    ReasonAccessFailed,
    ReasonAccountInfoIncorrect,
    ReasonAccountInUse,
    ReasonServerOverloaded,
    ReasonServerMaintenance,
}

pub open spec fn login_fail_code(r: PlayerLoginFailReasons) -> u32 {
    match r {
        PlayerLoginFailReasons::ReasonSystemError => 0x01,
        PlayerLoginFailReasons::ReasonPassWrong => 0x02,
        PlayerLoginFailReasons::ReasonUserOrPassWrong => 0x03,
        PlayerLoginFailReasons::ReasonAccessFailed => 0x04,
        PlayerLoginFailReasons::ReasonAccountInfoIncorrect => 0x05,
        PlayerLoginFailReasons::ReasonAccountInUse => 0x07,
        PlayerLoginFailReasons::ReasonServerOverloaded => 0x0F,
        PlayerLoginFailReasons::ReasonServerMaintenance => 0x10,
    }
}

impl PlayerLoginFailReasons {
    pub fn code(&self) -> (r: u32)
        ensures
            r == login_fail_code(*self),
    {
        match self {
            PlayerLoginFailReasons::ReasonSystemError => 0x01,
            PlayerLoginFailReasons::ReasonPassWrong => 0x02,
            PlayerLoginFailReasons::ReasonUserOrPassWrong => 0x03,
            PlayerLoginFailReasons::ReasonAccessFailed => 0x04,
            PlayerLoginFailReasons::ReasonAccountInfoIncorrect => 0x05,
            PlayerLoginFailReasons::ReasonAccountInUse => 0x07,
            PlayerLoginFailReasons::ReasonServerOverloaded => 0x0F,
            PlayerLoginFailReasons::ReasonServerMaintenance => 0x10,
        }
    }

    pub fn from_code(code: u32) -> (r: Option<Self>)
        ensures
            match r {
                Some(x) => login_fail_code(x) == code,
                None => forall|x: PlayerLoginFailReasons| login_fail_code(x) != code,
            },
    {
        match code {
            0x01 => Some(PlayerLoginFailReasons::ReasonSystemError),
            0x02 => Some(PlayerLoginFailReasons::ReasonPassWrong),
            0x03 => Some(PlayerLoginFailReasons::ReasonUserOrPassWrong),
            0x04 => Some(PlayerLoginFailReasons::ReasonAccessFailed),
            0x05 => Some(PlayerLoginFailReasons::ReasonAccountInfoIncorrect),
            0x07 => Some(PlayerLoginFailReasons::ReasonAccountInUse),
            0x0F => Some(PlayerLoginFailReasons::ReasonServerOverloaded),
            0x10 => Some(PlayerLoginFailReasons::ReasonServerMaintenance),
            _ => None,
        }
    }
}

pub open spec fn login_fail_body(reason: PlayerLoginFailReasons) -> Seq<u8> {
    seq![OP_LOGIN_FAIL] + le_u32(login_fail_code(reason))
}

pub open spec fn parse_login_fail(b: Seq<u8>) -> Option<u32> {
    match p_u8(b) {
        None => None,
        Some((_, b)) => match p_u32(b) {
            None => None,
            Some((c, _)) => Some(c),
        },
    }
}

/// Tells the client why its login was refused; the link closes after it.
pub struct PlayerLoginFail {
    pub buffer: SendablePacketBuffer,
    pub reason: PlayerLoginFailReasons,
}

impl PlayerLoginFail {
    pub fn new(reason: PlayerLoginFailReasons) -> (r: Self)
        ensures
            r.buffer.wf(),
            r.buffer.view() == seq![0u8, 0u8] + login_fail_body(reason),
            r.reason == reason,
    {
        let mut b: Vec<u8> = Vec::new();
        put_u8(&mut b, OP_LOGIN_FAIL);
        put_u32(&mut b, reason.code());
        assert(b@ =~= login_fail_body(reason));
        PlayerLoginFail { buffer: framed(b.as_slice()), reason }
    }

    /// The reason a body carries; `None` when it is short or the code is unknown.
    pub fn read(data: &[u8]) -> (r: Option<PlayerLoginFailReasons>)
        ensures
            match parse_login_fail(data@) {
                Some(c) => match r {
                    Some(x) => login_fail_code(x) == c,
                    None => forall|x: PlayerLoginFailReasons| login_fail_code(x) != c,
                },
                None => r is None,
            },
    {
        let mut rd = ReadablePacketBuffer::new(vstd::slice::slice_to_vec(data));
        let _op = rd.read_byte()?;
        let c = rd.read_u32()?;
        PlayerLoginFailReasons::from_code(c)
    }
}

pub proof fn lemma_login_fail_round_trip(reason: PlayerLoginFailReasons)
    ensures
        parse_login_fail(login_fail_body(reason)) == Some(login_fail_code(reason)),
        forall|x: PlayerLoginFailReasons| login_fail_code(x) == login_fail_code(reason) ==> x == reason,
{
    let c = login_fail_code(reason);
    lemma_p_u8(OP_LOGIN_FAIL, le_u32(c));
    assert(le_u32(c) =~= le_u32(c) + Seq::<u8>::empty());
    lemma_p_u32(c, Seq::<u8>::empty());
}

} // verus!

verus! {

// ---------------------------------------------------------------- ServerList

/// The four octets of an address, most significant first.
pub open spec fn ip_octets(ip: u32) -> Seq<u8> {
    seq![(ip >> 24) as u8, ((ip >> 16) & 0xff) as u8, ((ip >> 8) & 0xff) as u8, (ip & 0xff) as u8]
}

/// One server's entry in the list.
pub open spec fn server_entry(s: ServerData) -> Seq<u8> {
    seq![s.server_id as u8] + (ip_octets(s.ip) + (le32(s.port) + (seq![s.age_limit as u8, if s.pvp {
        1u8
    } else {
        0u8
    }] + (le16(s.current_players as i16) + (le16(s.max_players as i16) + (seq![if s.status
        != GSStatus::Down {
        1u8
    } else {
        0u8
    }] + (le32(SERVER_TYPE_FLAGS) + seq![if s.brackets { 1u8 } else { 0u8 }])))))))
}

pub open spec fn server_entries(ss: Seq<ServerData>) -> Seq<u8>
    decreases ss.len(),
{
    if ss.len() == 0 {
        seq![]
    } else {
        server_entries(ss.drop_last()) + server_entry(ss.last())
    }
}

/// Per server, its id and the account's character count.
pub open spec fn char_counts(ss: Seq<ServerData>, chars: i32) -> Seq<u8>
    decreases ss.len(),
{
    if ss.len() == 0 {
        seq![]
    } else {
        char_counts(ss.drop_last(), chars) + seq![ss.last().server_id as u8, chars as u8]
    }
}

pub open spec fn server_list_body(ss: Seq<ServerData>, last_server: i32, chars: i32) -> Seq<u8> {
    seq![OP_SERVER_LIST, ss.len() as u8, last_server as u8] + server_entries(ss) + le16(0xA4) + if chars
        > 0 {
        char_counts(ss, chars)
    } else {
        seq![]
    }
}

fn put_server_entry(b: &mut Vec<u8>, s: ServerData)
    ensures
        final(b)@ == old(b)@ + server_entry(s),
{
    let ghost b0 = b@;
    put_u8(b, s.server_id as u8);
    put_u8(b, (s.ip >> 24) as u8);
    put_u8(b, ((s.ip >> 16) & 0xff) as u8);
    put_u8(b, ((s.ip >> 8) & 0xff) as u8);
    put_u8(b, (s.ip & 0xff) as u8);
    assert(b@ =~= b0 + seq![s.server_id as u8] + ip_octets(s.ip));
    let ghost b1 = b@;
    put_i32(b, s.port);
    put_u8(b, s.age_limit as u8);
    put_u8(b, if s.pvp { 1u8 } else { 0u8 });
    put_i16(b, s.current_players as i16);
    put_i16(b, s.max_players as i16);
    let ghost b2 = b@;
    put_u8(b, if s.status != GSStatus::Down { 1u8 } else { 0u8 });
    put_i32(b, SERVER_TYPE_FLAGS);
    put_u8(b, if s.brackets { 1u8 } else { 0u8 });
    assert(b@ =~= old(b)@ + server_entry(s));
}

/// The server-type word every entry carries.
pub const SERVER_TYPE_FLAGS: i32 = 1024;

/// The worlds a client may enter, with their addresses as seen from the client.
pub struct ServerList {
    pub buffer: SendablePacketBuffer,
    pub servers: Vec<ServerData>,
    pub last_server: i32,
    pub chars_on_server: i32,
}

impl ServerList {
    pub fn new(servers: Vec<ServerData>, last_server: i32, total_chars_on_server: i32) -> (r: ServerList)
        ensures
            r.buffer.wf(),
            r.buffer.view() == appended(
                seq![0u8, 0u8],
                server_list_body(servers@, last_server, total_chars_on_server),
            ),
            r.servers@ == servers@,
    {
        let mut b: Vec<u8> = Vec::new();
        put_u8(&mut b, OP_SERVER_LIST);
        put_u8(&mut b, servers.len() as u8);
        put_u8(&mut b, last_server as u8);
        let mut i: usize = 0;
        assert(servers@.take(0) =~= Seq::<ServerData>::empty());
        while i < servers.len()
            invariant
                i <= servers@.len(),
                b@ == seq![OP_SERVER_LIST, servers@.len() as u8, last_server as u8] + server_entries(
                    servers@.take(i as int),
                ),
            decreases servers@.len() - i,
        {
            let s = servers[i];
            put_server_entry(&mut b, s);
            proof {
                assert(servers@.take(i + 1).drop_last() =~= servers@.take(i as int));
                assert(servers@.take(i + 1).last() == s);
            }
            i = i + 1;
            assert(b@ =~= seq![OP_SERVER_LIST, servers@.len() as u8, last_server as u8] + server_entries(
                servers@.take(i as int),
            ));
        }
        assert(servers@.take(i as int) =~= servers@);
        put_i16(&mut b, 0xA4);
        let ghost head = b@;
        if total_chars_on_server > 0 {
            let mut i: usize = 0;
            assert(servers@.take(0) =~= Seq::<ServerData>::empty());
            while i < servers.len()
                invariant
                    i <= servers@.len(),
                    total_chars_on_server > 0,
                    b@ == head + char_counts(servers@.take(i as int), total_chars_on_server),
                decreases servers@.len() - i,
            {
                let s = servers[i];
                put_u8(&mut b, s.server_id as u8);
                put_u8(&mut b, total_chars_on_server as u8);
                proof {
                    assert(servers@.take(i + 1).drop_last() =~= servers@.take(i as int));
                    assert(servers@.take(i + 1).last() == s);
                }
                i = i + 1;
                assert(b@ =~= head + char_counts(servers@.take(i as int), total_chars_on_server));
            }
            assert(servers@.take(i as int) =~= servers@);
        } else {
            assert(b@ =~= head + Seq::<u8>::empty());
        }
        ServerList {
            buffer: framed(b.as_slice()),
            servers,
            last_server,
            chars_on_server: total_chars_on_server,
        }
    }

    pub fn get_bytes(&self) -> (r: Vec<u8>)
        requires
            self.buffer.wf(),
            self.buffer.view().len() >= 2,
        ensures
            r@ == with_length_prefix(self.buffer.view()),
    {
        self.buffer.get_data()
    }
}

} // verus!

verus! {

// ---------------------------------------------------------------- PlayerLoginResponse

/// Opcode of the game server's answer to a client that presents its session key.
pub const OP_PLAYER_LOGIN_RESPONSE: u8 = 0x0A;

pub open spec fn player_login_response_body(is_ok: bool, reason: u32) -> Seq<u8> {
    seq![OP_PLAYER_LOGIN_RESPONSE] + (le32(if is_ok { -1i32 } else { 0i32 }) + le_u32(reason))
}

/// Whether the answer admits the client, and the reason when it does not.
pub open spec fn parse_player_login_response(b: Seq<u8>) -> Option<(bool, u32)> {
    match p_u8(b) {
        None => None,
        Some((_, b)) => match p_i32(b) {
            None => None,
            Some((flag, b)) => match p_u32(b) {
                None => None,
                Some((reason, _)) => Some((flag != 0, reason)),
            },
        },
    }
}

/// The game server's answer to a client entering the world.
pub struct PlayerLoginResponse {
    pub buffer: SendablePacketBuffer,
    pub reason: u32,
    pub is_ok: bool,
}

impl PlayerLoginResponse {
    /// Reason code for a refusal that asks the client to try later.
    pub const SYSTEM_ERROR_LOGIN_LATER: u32 = 1;

    /// The client is admitted.
    pub fn ok() -> (r: Self)
        ensures
            r.buffer.wf(),
            r.buffer.view() == seq![0u8, 0u8] + player_login_response_body(true, 0),
            r.is_ok && r.reason == 0,
    {
        Self::build(true, 0)
    }

    /// The client is refused for `reason`.
    pub fn fail(reason: u32) -> (r: Self)
        ensures
            r.buffer.wf(),
            r.buffer.view() == seq![0u8, 0u8] + player_login_response_body(false, reason),
            !r.is_ok && r.reason == reason,
    {
        Self::build(false, reason)
    }

    fn build(is_ok: bool, reason: u32) -> (r: Self)
        ensures
            r.buffer.wf(),
            r.buffer.view() == seq![0u8, 0u8] + player_login_response_body(is_ok, reason),
            r.is_ok == is_ok && r.reason == reason,
    {
        let mut b: Vec<u8> = Vec::new();
        put_u8(&mut b, OP_PLAYER_LOGIN_RESPONSE);
        put_i32(&mut b, if is_ok { -1i32 } else { 0i32 });
        put_u32(&mut b, reason);
        assert(b@ =~= player_login_response_body(is_ok, reason));
        PlayerLoginResponse { buffer: framed(b.as_slice()), reason, is_ok }
    }

    pub fn read(data: &[u8]) -> (r: Option<(bool, u32)>)
        ensures
            r == parse_player_login_response(data@),
    {
        let mut rd = ReadablePacketBuffer::new(vstd::slice::slice_to_vec(data));
        let _op = rd.read_byte()?;
        let flag = rd.read_i32()?;
        let reason = rd.read_u32()?;
        Some((flag != 0, reason))
    }
}

pub proof fn lemma_player_login_response_round_trip(is_ok: bool, reason: u32)
    ensures
        parse_player_login_response(player_login_response_body(is_ok, reason)) == Some((is_ok, reason)),
{
    let flag = if is_ok { -1i32 } else { 0i32 };
    lemma_p_u8(OP_PLAYER_LOGIN_RESPONSE, le32(flag) + le_u32(reason));
    lemma_p_i32(flag, le_u32(reason));
    assert(le_u32(reason) =~= le_u32(reason) + Seq::<u8>::empty());
    lemma_p_u32(reason, Seq::<u8>::empty());
}

} // verus!

verus! {

/// A server-list entry as the client reads it.
#[derive(Debug, Clone, Copy, PartialEq, Eq)]
pub struct ServerEntry {
    pub server_id: u8,
    pub ip: u32,
    pub port: i32,
    pub age_limit: u8,
    pub pvp: bool,
    pub current_players: i16,
    pub max_players: i16,
    pub up: bool,
    pub server_type: i32,
    pub brackets: bool,
}

/// What the client reads of an entry the server list was built from.
pub open spec fn entry_of(s: ServerData) -> ServerEntry {
    ServerEntry {
        server_id: s.server_id as u8,
        ip: s.ip,
        port: s.port,
        age_limit: s.age_limit as u8,
        pvp: s.pvp,
        current_players: s.current_players as i16,
        max_players: s.max_players as i16,
        up: s.status != GSStatus::Down,
        server_type: SERVER_TYPE_FLAGS,
        brackets: s.brackets,
    }
}

/// The address whose octets, most significant first, start `b`.
pub open spec fn ip_from(b: Seq<u8>) -> u32 {
    ((b[0] as u32) << 24) | ((b[1] as u32) << 16) | ((b[2] as u32) << 8) | (b[3] as u32)
}

/// One entry off the front of `b`.
#[verifier::opaque]
pub open spec fn p_entry(b: Seq<u8>) -> Option<(ServerEntry, Seq<u8>)> {
    if b.len() < 21 {
        None
    } else {
        let e = ServerEntry {
            server_id: b[0],
            ip: ip_from(b.skip(1)),
            port: i32_from(b.skip(5)),
            age_limit: b[9],
            pvp: b[10] != 0,
            current_players: i16_from(b.skip(11)),
            max_players: i16_from(b.skip(13)),
            up: b[15] != 0,
            server_type: i32_from(b.skip(16)),
            brackets: b[20] != 0,
        };
        Some((e, b.skip(21)))
    }
}

/// `n` entries off the front of `b`.
pub open spec fn p_entries(b: Seq<u8>, n: nat) -> Option<(Seq<ServerEntry>, Seq<u8>)>
    decreases n,
{
    if n == 0 {
        Some((seq![], b))
    } else {
        match p_entry(b) {
            None => None,
            Some((e, b2)) => match p_entries(b2, (n - 1) as nat) {
                None => None,
                Some((t, b3)) => Some((seq![e] + t, b3)),
            },
        }
    }
}

/// The last server and the entries of a server-list body.
pub open spec fn parse_server_list(b: Seq<u8>) -> Option<(u8, Seq<ServerEntry>)> {
    if b.len() < 3 {
        None
    } else {
        match p_entries(b.skip(3), b[1] as nat) {
            None => None,
            Some((es, _)) => Some((b[2], es)),
        }
    }
}

proof fn lemma_entries_front(ss: Seq<ServerData>)
    requires
        ss.len() > 0,
    ensures
        server_entries(ss) == server_entry(ss[0]) + server_entries(ss.drop_first()),
    decreases ss.len(),
{
    if ss.len() == 1 {
        assert(ss.drop_last().len() == 0);
        assert(ss.drop_first().len() == 0);
        assert(server_entries(ss.drop_last()) == Seq::<u8>::empty());
        assert(server_entries(ss.drop_first()) == Seq::<u8>::empty());
        assert(server_entries(ss) =~= server_entry(ss[0]) + server_entries(ss.drop_first()));
    } else {
        lemma_entries_front(ss.drop_last());
        assert(ss.drop_last().drop_first() =~= ss.drop_first().drop_last());
        assert(ss.drop_first().last() == ss.last());
        assert(ss.drop_last()[0] == ss[0]);
        assert(server_entries(ss) =~= server_entry(ss[0]) + server_entries(ss.drop_first()));
    }
}

proof fn lemma_p_entry(s: ServerData, rest: Seq<u8>)
    ensures
        p_entry(server_entry(s) + rest) == Some((entry_of(s), rest)),
{
    reveal(p_entry);
    let b = server_entry(s) + rest;
    let ip = s.ip;
    assert(server_entry(s).len() == 21);
    assert(b.skip(1).take(4) =~= ip_octets(ip));
    assert(ip_from(b.skip(1)) == ip) by {
        assert(b.skip(1)[0] == (ip >> 24) as u8 && b.skip(1)[1] == ((ip >> 16) & 0xff) as u8
            && b.skip(1)[2] == ((ip >> 8) & 0xff) as u8 && b.skip(1)[3] == (ip & 0xff) as u8);
        assert((((((ip >> 24) as u8) as u32) << 24) | (((((ip >> 16) & 0xff) as u8) as u32) << 16) | ((
        (((ip >> 8) & 0xff) as u8) as u32) << 8) | (((ip & 0xff) as u8) as u32)) == ip) by (bit_vector);
    }
    lemma_i32_round_trip(s.port);
    assert(b.skip(5).take(4) =~= le32(s.port));
    assert(i32_from(b.skip(5)) == i32_from(le32(s.port)));
    lemma_i16_round_trip(s.current_players as i16);
    assert(i16_from(b.skip(11)) == i16_from(le16(s.current_players as i16)));
    lemma_i16_round_trip(s.max_players as i16);
    assert(i16_from(b.skip(13)) == i16_from(le16(s.max_players as i16)));
    lemma_i32_round_trip(SERVER_TYPE_FLAGS);
    assert(i32_from(b.skip(16)) == i32_from(le32(SERVER_TYPE_FLAGS)));
    assert(b.skip(21) =~= rest);
}

proof fn lemma_p_entries(ss: Seq<ServerData>, rest: Seq<u8>)
    ensures
        p_entries(server_entries(ss) + rest, ss.len()) == Some((ss.map_values(|s: ServerData| entry_of(s)), rest)),
    decreases ss.len(),
{
    if ss.len() == 0 {
        assert(server_entries(ss) + rest =~= rest);
        assert(ss.map_values(|s: ServerData| entry_of(s)) =~= Seq::<ServerEntry>::empty());
    } else {
        lemma_entries_front(ss);
        let t = ss.drop_first();
        lemma_p_entries(t, rest);
        assert(server_entries(ss) + rest =~= server_entry(ss[0]) + (server_entries(t) + rest));
        lemma_p_entry(ss[0], server_entries(t) + rest);
        assert(seq![entry_of(ss[0])] + t.map_values(|s: ServerData| entry_of(s)) =~= ss.map_values(
            |s: ServerData| entry_of(s),
        ));
    }
}

/// A server list reads back as the entries it was built from.
pub proof fn lemma_server_list_round_trip(ss: Seq<ServerData>, last_server: i32, chars: i32)
    requires
        ss.len() <= 255,
    ensures
        parse_server_list(server_list_body(ss, last_server, chars)) == Some(
            (last_server as u8, ss.map_values(|s: ServerData| entry_of(s))),
        ),
{
    let tail = le16(0xA4) + if chars > 0 {
        char_counts(ss, chars)
    } else {
        seq![]
    };
    let b = server_list_body(ss, last_server, chars);
    assert(b.skip(3) =~= server_entries(ss) + tail);
    assert(b[1] == ss.len() as u8);
    lemma_p_entries(ss, tail);
}

impl ServerList {
    /// Reads a server-list body: the last server and the entries.
    pub fn read(data: &[u8]) -> (r: Option<(u8, Vec<ServerEntry>)>)
        ensures
            match parse_server_list(data@) {
                Some((last, es)) => r is Some && r->Some_0.0 == last && r->Some_0.1@ == es,
                None => r is None,
            },
    {
        if data.len() < 3 {
            return None;
        }
        let n = data[1];
        let last = data[2];
        let mut rd = ReadablePacketBuffer::new(vstd::slice::slice_to_vec(data));
        let _head = rd.read_bytes(3)?;
        let mut out: Vec<ServerEntry> = Vec::new();
        let mut i: u8 = 0;
        while i < n
            invariant
                rd.wf(),
                i <= n,
                n == data@[1],
                p_entries(data@.skip(3), n as nat) == match p_entries(rd.rest(), (n - i) as nat) {
                    Some((t, rest)) => Some((out@ + t, rest)),
                    None => None::<(Seq<ServerEntry>, Seq<u8>)>,
                },
            decreases n - i,
        {
            let ghost before = rd.rest();
            let e = match read_entry(&mut rd) {
                Some(e) => e,
                None => {
                    return None;
                },
            };
            proof {
                match p_entries(rd.rest(), (n - i - 1) as nat) {
                    Some((t, rest)) => {
                        assert(out@.push(e) + t =~= out@ + (seq![e] + t));
                    },
                    None => {},
                }
            }
            out.push(e);
            i = i + 1;
        }
        assert(out@ + Seq::<ServerEntry>::empty() =~= out@);
        Some((last, out))
    }
}

fn read_entry(rd: &mut ReadablePacketBuffer) -> (r: Option<ServerEntry>)
    requires
        old(rd).wf(),
    ensures
        final(rd).wf(),
        match p_entry(old(rd).rest()) {
            Some((e, rest)) => r == Some(e) && final(rd).rest() == rest,
            None => r is None,
        },
{
    reveal(p_entry);
    let ghost b = rd.rest();
    if rd.remaining() < 21 {
        return None;
    }
    let id = rd.read_byte()?;
    let o = rd.read_bytes(4)?;
    let port = rd.read_i32()?;
    let age = rd.read_byte()?;
    let pvp = rd.read_byte()?;
    let cur = rd.read_i16()?;
    let max = rd.read_i16()?;
    let up = rd.read_byte()?;
    let server_type = rd.read_i32()?;
    let brackets = rd.read_byte()?;
    let ip: u32 = ((o[0] as u32) << 24) | ((o[1] as u32) << 16) | ((o[2] as u32) << 8) | (o[3] as u32);
    proof {
        assert(b.skip(1).take(4) == o@);
        assert(b.skip(5) =~= b.skip(1).skip(4));
        assert(b.skip(11) =~= b.skip(5).skip(4).skip(1).skip(1));
        assert(b.skip(13) =~= b.skip(11).skip(2));
        assert(b.skip(16) =~= b.skip(13).skip(2).skip(1));
        assert(rd.rest() =~= b.skip(21));
    }
    Some(ServerEntry {
        server_id: id,
        ip,
        port,
        age_limit: age,
        pvp: pvp != 0,
        current_players: cur,
        max_players: max,
        up: up != 0,
        server_type,
        brackets: brackets != 0,
    })
}

} // verus!
