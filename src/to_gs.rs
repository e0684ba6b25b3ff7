use vstd::prelude::*;

use crate::buffer::{
    appended, framed, le32, put_bytes, put_i32, put_str, put_u8, with_length_prefix,
    SendablePacketBuffer,
};
use crate::reader::{
    e_str, lemma_p_bytes, lemma_p_i32, lemma_p_str, lemma_p_u8, p_bytes, p_i32, p_str, p_u8,
    ReadablePacketBuffer,
};
use crate::text::no_nul;

verus! {

/// Opcodes of the packets that the login server sends to a game server.
pub const OP_INIT_LS: u8 = 0x00;
pub const OP_GS_LOGIN_FAIL: u8 = 0x01;
pub const OP_AUTH_GS: u8 = 0x02;
pub const OP_PLAYER_AUTH_RESPONSE: u8 = 0x03;
pub const OP_KICK_PLAYER: u8 = 0x04;
pub const OP_REQUEST_CHARS: u8 = 0x05;

/// Protocol revision announced in `InitLS`.
pub const LS_PROTOCOL_REVISION: i32 = 0x0106;

// ---------------------------------------------------------------- InitLS

pub open spec fn init_ls_body(public_key: Seq<u8>) -> Seq<u8> {
    seq![OP_INIT_LS] + (le32(LS_PROTOCOL_REVISION) + (le32(public_key.len() as i32) + public_key))
}

/// Revision and public key of an `InitLS` body; `None` when short or the key length is
/// negative.
pub open spec fn parse_init_ls(b: Seq<u8>) -> Option<(i32, Seq<u8>)> {
    match p_u8(b) {
        None => None,
        Some((_, b)) => match p_i32(b) {
            None => None,
            Some((rev, b)) => match p_i32(b) {
                None => None,
                Some((n, b)) => if n < 0 {
                    None
                } else {
                    match p_bytes(b, n as nat) {
                        None => None,
                        Some((k, _)) => Some((rev, k)),
                    }
                },
            },
        },
    }
}

/// First packet on a game-server link: the protocol revision and the RSA public key.
pub struct InitLS {
    pub buffer: SendablePacketBuffer,
    pub public_key: Vec<u8>,
}

impl InitLS {
    pub fn new(public_key: Vec<u8>) -> (r: Self)
        ensures
            r.buffer.wf(),
            r.buffer.view() == appended(seq![0u8, 0u8], init_ls_body(public_key@)),
            r.public_key@ == public_key@,
    {
        let mut b: Vec<u8> = Vec::new();
        put_u8(&mut b, OP_INIT_LS);
        put_i32(&mut b, LS_PROTOCOL_REVISION);
        put_i32(&mut b, public_key.len() as i32);
        put_bytes(&mut b, public_key.as_slice());
        assert(b@ =~= init_ls_body(public_key@));
        InitLS { buffer: framed(b.as_slice()), public_key }
    }

    pub fn get_bytes(&self) -> (r: Vec<u8>)
        requires
            self.buffer.wf(),
            self.buffer.view().len() >= 2,
        ensures
            r@ == with_length_prefix(self.buffer.view()),
    {
        self.buffer.get_data()
    }

    pub fn read(data: &[u8]) -> (r: Option<Self>)
        ensures
            match parse_init_ls(data@) {
                Some((_, k)) => r is Some && r->Some_0.public_key@ == k,
                None => r is None,
            },
    {
        let mut rd = ReadablePacketBuffer::new(vstd::slice::slice_to_vec(data));
        let _op = rd.read_byte()?;
        let _rev = rd.read_i32()?;
        let n = rd.read_i32()?;
        if n < 0 {
            return None;
        }
        let k = rd.read_bytes(n as usize)?;
        Some(InitLS::new(k))
    }
}

pub proof fn lemma_init_ls_round_trip(public_key: Seq<u8>)
    requires
        public_key.len() <= i32::MAX,
    ensures
        parse_init_ls(init_ls_body(public_key)) == Some((LS_PROTOCOL_REVISION, public_key)),
{
    let n = public_key.len() as i32;
    lemma_p_u8(OP_INIT_LS, le32(LS_PROTOCOL_REVISION) + (le32(n) + public_key));
    lemma_p_i32(LS_PROTOCOL_REVISION, le32(n) + public_key);
    lemma_p_i32(n, public_key);
    assert(public_key =~= public_key + Seq::<u8>::empty());
    lemma_p_bytes(public_key, Seq::<u8>::empty());
}

// ---------------------------------------------------------------- AuthGS

pub open spec fn auth_gs_body(server_id: u8, server_name: Seq<char>) -> Seq<u8> {
    seq![OP_AUTH_GS] + (seq![server_id] + e_str(server_name))
}

pub open spec fn parse_auth_gs(b: Seq<u8>) -> Option<(u8, Seq<char>)> {
    match p_u8(b) {
        None => None,
        Some((_, b)) => match p_u8(b) {
            None => None,
            Some((id, b)) => match p_str(b) {
                None => None,
                Some((name, _)) => Some((id, name)),
            },
        },
    }
}

/// Confirms a game server's registration under the given id.
pub struct AuthGS {
    pub buffer: SendablePacketBuffer,
    pub server_id: u8,
    pub server_name: String,
}

impl AuthGS {
    pub fn new(server_id: u8, server_name: &str) -> (r: Self)
        ensures
            r.buffer.wf(),
            r.buffer.view() == appended(seq![0u8, 0u8], auth_gs_body(server_id, server_name@)),
            r.server_id == server_id,
            r.server_name@ == server_name@,
    {
        let mut b: Vec<u8> = Vec::new();
        put_u8(&mut b, OP_AUTH_GS);
        put_u8(&mut b, server_id);
        put_str(&mut b, server_name);
        assert(b@ =~= auth_gs_body(server_id, server_name@));
        AuthGS {
            buffer: framed(b.as_slice()),
            server_id,
            server_name: server_name.to_string(),
        }
    }

    pub fn read(data: &[u8]) -> (r: Option<Self>)
        ensures
            match parse_auth_gs(data@) {
                Some((id, name)) => r is Some && r->Some_0.server_id == id && r->Some_0.server_name@
                    == name,
                None => r is None,
            },
    {
        let mut rd = ReadablePacketBuffer::new(vstd::slice::slice_to_vec(data));
        let _op = rd.read_byte()?;
        let id = rd.read_byte()?;
        let name = rd.read_string()?;
        Some(AuthGS::new(id, name.as_str()))
    }
}

pub proof fn lemma_auth_gs_round_trip(server_id: u8, server_name: Seq<char>)
    requires
        no_nul(server_name),
    ensures
        parse_auth_gs(auth_gs_body(server_id, server_name)) == Some((server_id, server_name)),
{
    lemma_p_u8(OP_AUTH_GS, seq![server_id] + e_str(server_name));
    lemma_p_u8(server_id, e_str(server_name));
    assert(e_str(server_name) =~= e_str(server_name) + Seq::<u8>::empty());
    lemma_p_str(server_name, Seq::<u8>::empty());
}

// ---------------------------------------------------------------- GSLoginFail

/// Why a game server's registration was refused.
#[derive(Debug, Clone, Copy, PartialEq, Eq)]
pub enum GSLoginFailReasons {
    NoReason,
    IpBanned,
    IpReserved,
    WrongHexId,
    IdReserved,
    NoFreeId,
    NotAuthed,
    AlreadyRegistered,
}

pub open spec fn gs_fail_code(r: GSLoginFailReasons) -> u8 {
    match r {
        GSLoginFailReasons::NoReason => 0x00,
        GSLoginFailReasons::IpBanned => 0x01,
        GSLoginFailReasons::IpReserved => 0x02,
        GSLoginFailReasons::WrongHexId => 0x03,
        GSLoginFailReasons::IdReserved => 0x04,
        GSLoginFailReasons::NoFreeId => 0x05,
        GSLoginFailReasons::NotAuthed => 0x06,
        GSLoginFailReasons::AlreadyRegistered => 0x07,
    }
}

impl GSLoginFailReasons {
    pub fn code(&self) -> (r: u8)
        ensures
            r == gs_fail_code(*self),
    {
        match self {
            GSLoginFailReasons::NoReason => 0x00,
            GSLoginFailReasons::IpBanned => 0x01,
            GSLoginFailReasons::IpReserved => 0x02,
            GSLoginFailReasons::WrongHexId => 0x03,
            GSLoginFailReasons::IdReserved => 0x04,
            GSLoginFailReasons::NoFreeId => 0x05,
            GSLoginFailReasons::NotAuthed => 0x06,
            GSLoginFailReasons::AlreadyRegistered => 0x07,
        }
    }

    pub fn from_code(code: u8) -> (r: Option<Self>)
        ensures
            match r {
                Some(x) => gs_fail_code(x) == code,
                None => forall|x: GSLoginFailReasons| gs_fail_code(x) != code,
            },
    {
        match code {
            0x00 => Some(GSLoginFailReasons::NoReason),
            0x01 => Some(GSLoginFailReasons::IpBanned),
            0x02 => Some(GSLoginFailReasons::IpReserved),
            0x03 => Some(GSLoginFailReasons::WrongHexId),
            0x04 => Some(GSLoginFailReasons::IdReserved),
            0x05 => Some(GSLoginFailReasons::NoFreeId),
            0x06 => Some(GSLoginFailReasons::NotAuthed),
            0x07 => Some(GSLoginFailReasons::AlreadyRegistered),
            _ => None,
        }
    }
}

pub open spec fn gs_login_fail_body(reason: GSLoginFailReasons) -> Seq<u8> {
    seq![OP_GS_LOGIN_FAIL, gs_fail_code(reason)]
}

/// Tells a game server why its registration was refused; the link closes after it.
pub struct GSLoginFail {
    pub buffer: SendablePacketBuffer,
    pub reason: GSLoginFailReasons,
}

impl GSLoginFail {
    pub fn new(reason: GSLoginFailReasons) -> (r: Self)
        ensures
            r.buffer.wf(),
            r.buffer.view() == seq![0u8, 0u8] + gs_login_fail_body(reason),
            r.reason == reason,
    {
        let mut b: Vec<u8> = Vec::new();
        put_u8(&mut b, OP_GS_LOGIN_FAIL);
        put_u8(&mut b, reason.code());
        assert(b@ =~= gs_login_fail_body(reason));
        GSLoginFail { buffer: framed(b.as_slice()), reason }
    }

    pub fn read(data: &[u8]) -> (r: Option<GSLoginFailReasons>)
        ensures
            data@.len() < 2 ==> r is None,
            data@.len() >= 2 ==> match r {
                Some(x) => gs_fail_code(x) == data@[1],
                None => forall|x: GSLoginFailReasons| gs_fail_code(x) != data@[1],
            },
    {
        if data.len() < 2 {
            return None;
        }
        GSLoginFailReasons::from_code(data[1])
    }
}

pub proof fn lemma_gs_login_fail_round_trip(reason: GSLoginFailReasons)
    ensures
        gs_login_fail_body(reason)[1] == gs_fail_code(reason),
        forall|x: GSLoginFailReasons| gs_fail_code(x) == gs_fail_code(reason) ==> x == reason,
{
}

// ---------------------------------------------------------------- account packets

/// Opcode, an account name, and for `PlayerAuthResponse` a result byte.
pub open spec fn account_body(op: u8, account: Seq<char>) -> Seq<u8> {
    seq![op] + e_str(account)
}

pub open spec fn parse_account(b: Seq<u8>) -> Option<(Seq<char>, Seq<u8>)> {
    match p_u8(b) {
        None => None,
        Some((_, b)) => p_str(b),
    }
}

pub proof fn lemma_account_round_trip(op: u8, account: Seq<char>, rest: Seq<u8>)
    requires
        no_nul(account),
    ensures
        parse_account(account_body(op, account) + rest) == Some((account, rest)),
{
    assert(account_body(op, account) + rest =~= seq![op] + (e_str(account) + rest));
    lemma_p_u8(op, e_str(account) + rest);
    lemma_p_str(account, rest);
}

fn account_frame(op: u8, account: &str, tail: &[u8]) -> (r: SendablePacketBuffer)
    ensures
        r.wf(),
        r.view() == appended(seq![0u8, 0u8], account_body(op, account@) + tail@),
{
    let mut b: Vec<u8> = Vec::new();
    put_u8(&mut b, op);
    put_str(&mut b, account);
    put_bytes(&mut b, tail);
    assert(b@ =~= account_body(op, account@) + tail@);
    framed(b.as_slice())
}

/// Tells a game server whether a client's presented session key was accepted.
pub struct PlayerAuthResponse {
    pub buffer: SendablePacketBuffer,
    pub account: String,
    pub is_ok: bool,
}

impl PlayerAuthResponse {
    pub fn new(account: &str, is_ok: bool) -> (r: PlayerAuthResponse)
        ensures
            r.buffer.wf(),
            r.buffer.view() == appended(
                seq![0u8, 0u8],
                account_body(OP_PLAYER_AUTH_RESPONSE, account@) + seq![if is_ok { 1u8 } else { 0u8 }],
            ),
            r.account@ == account@,
            r.is_ok == is_ok,
    {
        let tail: Vec<u8> = vec![if is_ok { 1u8 } else { 0u8 }];
        PlayerAuthResponse {
            buffer: account_frame(OP_PLAYER_AUTH_RESPONSE, account, tail.as_slice()),
            account: account.to_string(),
            is_ok,
        }
    }

    pub fn get_bytes(&self) -> (r: Vec<u8>)
        requires
            self.buffer.wf(),
            self.buffer.view().len() >= 2,
        ensures
            r@ == with_length_prefix(self.buffer.view()),
    {
        self.buffer.get_data()
    }

    pub fn read(data: &[u8]) -> (r: Option<Self>)
        ensures
            match parse_account(data@) {
                Some((acc, b)) => match p_u8(b) {
                    Some((ok, _)) => r is Some && r->Some_0.account@ == acc && r->Some_0.is_ok == (ok
                        != 0),
                    None => r is None,
                },
                None => r is None,
            },
    {
        let mut rd = ReadablePacketBuffer::new(vstd::slice::slice_to_vec(data));
        let _op = rd.read_byte()?;
        let acc = rd.read_string()?;
        let ok = rd.read_byte()?;
        Some(PlayerAuthResponse::new(acc.as_str(), ok != 0))
    }
}

/// Asks a game server to drop a player whose account logged in again elsewhere.
pub struct KickPlayer {
    pub buffer: SendablePacketBuffer,
    pub account: String,
}

impl KickPlayer {
    pub fn new(account: &str) -> (r: Self)
        ensures
            r.buffer.wf(),
            r.buffer.view() == appended(seq![0u8, 0u8], account_body(OP_KICK_PLAYER, account@)),
            r.account@ == account@,
    {
        let tail: Vec<u8> = Vec::new();
        let buffer = account_frame(OP_KICK_PLAYER, account, tail.as_slice());
        assert(account_body(OP_KICK_PLAYER, account@) + tail@ =~= account_body(OP_KICK_PLAYER, account@));
        KickPlayer { buffer, account: account.to_string() }
    }

    pub fn read(data: &[u8]) -> (r: Option<Self>)
        ensures
            match parse_account(data@) {
                Some((acc, _)) => r is Some && r->Some_0.account@ == acc,
                None => r is None,
            },
    {
        let mut rd = ReadablePacketBuffer::new(vstd::slice::slice_to_vec(data));
        let _op = rd.read_byte()?;
        let acc = rd.read_string()?;
        Some(KickPlayer::new(acc.as_str()))
    }
}

/// Asks a game server how many characters an account has there.
pub struct RequestChars {
    pub buffer: SendablePacketBuffer,
    pub account_name: String,
}

impl RequestChars {
    pub fn new(account_name: &str) -> (r: RequestChars)
        ensures
            r.buffer.wf(),
            r.buffer.view() == appended(seq![0u8, 0u8], account_body(OP_REQUEST_CHARS, account_name@)),
            r.account_name@ == account_name@,
    {
        let mut gg = RequestChars {
            buffer: SendablePacketBuffer::new(),
            account_name: account_name.to_string(),
        };
        let _ = gg.write_all();
        gg
    }

    fn write_all(&mut self) -> (r: Result<(), crate::errors::Packet>)
        requires
            old(self).buffer.wf(),
        ensures
            final(self).account_name == old(self).account_name,
            SendablePacketBuffer::wrote(
                old(self).buffer,
                final(self).buffer,
                account_body(OP_REQUEST_CHARS, old(self).account_name@),
                r,
            ),
    {
        let mut b: Vec<u8> = Vec::new();
        put_u8(&mut b, OP_REQUEST_CHARS);
        put_str(&mut b, self.account_name.as_str());
        assert(b@ =~= account_body(OP_REQUEST_CHARS, self.account_name@));
        self.buffer.write_bytes(b.as_slice())
    }

    pub fn read(data: &[u8]) -> (r: Option<Self>)
        ensures
            match parse_account(data@) {
                Some((acc, _)) => r is Some && r->Some_0.account_name@ == acc,
                None => r is None,
            },
    {
        let mut rd = ReadablePacketBuffer::new(vstd::slice::slice_to_vec(data));
        let _op = rd.read_byte()?;
        let acc = rd.read_string()?;
        Some(RequestChars::new(acc.as_str()))
    }
}

} // verus!
