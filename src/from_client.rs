use vstd::prelude::*;

use crate::buffer::{appended, framed, le32, put_i32, put_u8, SendablePacketBuffer};
use crate::reader::{lemma_p_i32, lemma_p_u8, p_i32, p_u8, ReadablePacketBuffer};

verus! {

/// Opcodes of the packets that a client sends to the login server.
pub const OP_REQUEST_AUTH_LOGIN: u8 = 0x00;
pub const OP_REQUEST_GS_LOGIN: u8 = 0x02;
pub const OP_REQUEST_SERVER_LIST: u8 = 0x05;
pub const OP_REQUEST_AUTH_GG: u8 = 0x07;

/// An opcode and two words.
pub open spec fn two_words_body(op: u8, a: i32, b: i32) -> Seq<u8> {
    seq![op] + (le32(a) + le32(b))
}

pub open spec fn parse_two_words(b: Seq<u8>) -> Option<(i32, i32)> {
    match p_u8(b) {
        None => None,
        Some((_, b)) => match p_i32(b) {
            None => None,
            Some((x, b)) => match p_i32(b) {
                None => None,
                Some((y, _)) => Some((x, y)),
            },
        },
    }
}

pub proof fn lemma_two_words_round_trip(op: u8, a: i32, b: i32, rest: Seq<u8>)
    ensures
        parse_two_words(two_words_body(op, a, b) + rest) == Some((a, b)),
{
    assert(two_words_body(op, a, b) + rest =~= seq![op] + (le32(a) + (le32(b) + rest)));
    lemma_p_u8(op, le32(a) + (le32(b) + rest));
    lemma_p_i32(a, le32(b) + rest);
    lemma_p_i32(b, rest);
}

fn two_words_frame(op: u8, a: i32, b: i32) -> (r: SendablePacketBuffer)
    ensures
        r.wf(),
        r.view() == seq![0u8, 0u8] + two_words_body(op, a, b),
{
    let mut v: Vec<u8> = Vec::new();
    put_u8(&mut v, op);
    put_i32(&mut v, a);
    put_i32(&mut v, b);
    assert(v@ =~= two_words_body(op, a, b));
    framed(v.as_slice())
}

fn read_two_words(data: &[u8]) -> (r: Option<(i32, i32)>)
    ensures
        r == parse_two_words(data@),
{
    let mut rd = ReadablePacketBuffer::new(vstd::slice::slice_to_vec(data));
    let _op = rd.read_byte()?;
    let x = rd.read_i32()?;
    let y = rd.read_i32()?;
    Some((x, y))
}

/// The client's answer to its guard check, echoing the session id.
pub struct RequestAuthGG {
    pub session_id: i32,
}

pub open spec fn auth_gg_request_body(session_id: i32) -> Seq<u8> {
    seq![OP_REQUEST_AUTH_GG] + le32(session_id)
}

pub open spec fn parse_auth_gg_request(b: Seq<u8>) -> Option<i32> {
    match p_u8(b) {
        None => None,
        Some((_, b)) => match p_i32(b) {
            None => None,
            Some((x, _)) => Some(x),
        },
    }
}

impl RequestAuthGG {
    pub fn to_bytes(&self) -> (r: SendablePacketBuffer)
        ensures
            r.wf(),
            r.view() == seq![0u8, 0u8] + auth_gg_request_body(self.session_id),
    {
        let mut v: Vec<u8> = Vec::new();
        put_u8(&mut v, OP_REQUEST_AUTH_GG);
        put_i32(&mut v, self.session_id);
        assert(v@ =~= auth_gg_request_body(self.session_id));
        framed(v.as_slice())
    }

    pub fn read(data: &[u8]) -> (r: Option<Self>)
        ensures
            match parse_auth_gg_request(data@) {
                Some(x) => r is Some && r->Some_0.session_id == x,
                None => r is None,
            },
    {
        let mut rd = ReadablePacketBuffer::new(vstd::slice::slice_to_vec(data));
        let _op = rd.read_byte()?;
        let session_id = rd.read_i32()?;
        Some(RequestAuthGG { session_id })
    }
}

pub proof fn lemma_auth_gg_request_round_trip(session_id: i32)
    ensures
        parse_auth_gg_request(auth_gg_request_body(session_id)) == Some(session_id),
{
    lemma_p_u8(OP_REQUEST_AUTH_GG, le32(session_id));
    assert(le32(session_id) =~= le32(session_id) + Seq::<u8>::empty());
    lemma_p_i32(session_id, Seq::<u8>::empty());
}

/// The client's request for the list of worlds, with the login half of its key.
pub struct RequestServerList {
    pub login_ok1: i32,
    pub login_ok2: i32,
}

impl RequestServerList {
    pub fn to_bytes(&self) -> (r: SendablePacketBuffer)
        ensures
            r.wf(),
            r.view() == seq![0u8, 0u8] + two_words_body(OP_REQUEST_SERVER_LIST, self.login_ok1, self.login_ok2),
    {
        two_words_frame(OP_REQUEST_SERVER_LIST, self.login_ok1, self.login_ok2)
    }

    pub fn read(data: &[u8]) -> (r: Option<Self>)
        ensures
            match parse_two_words(data@) {
                Some((a, b)) => r is Some && r->Some_0.login_ok1 == a && r->Some_0.login_ok2 == b,
                None => r is None,
            },
    {
        let (login_ok1, login_ok2) = read_two_words(data)?;
        Some(RequestServerList { login_ok1, login_ok2 })
    }
}

/// The client's choice of world, with the login half of its key.
#[derive(Clone, Debug)]
pub struct RequestGSLogin {
    pub s_key_1: i32,
    pub s_key_2: i32,
    pub server_id: u8,
}

pub open spec fn gs_login_body(s_key_1: i32, s_key_2: i32, server_id: u8) -> Seq<u8> {
    two_words_body(OP_REQUEST_GS_LOGIN, s_key_1, s_key_2) + seq![server_id]
}

pub open spec fn parse_gs_login(b: Seq<u8>) -> Option<(i32, i32, u8)> {
    match parse_two_words(b) {
        None => None,
        Some((x, y)) => if b.len() >= 10 {
            Some((x, y, b[9]))
        } else {
            None
        },
    }
}

impl RequestGSLogin {
    pub fn to_bytes(&self) -> (r: SendablePacketBuffer)
        ensures
            r.wf(),
            r.view() == appended(seq![0u8, 0u8], gs_login_body(self.s_key_1, self.s_key_2, self.server_id)),
    {
        let mut v: Vec<u8> = Vec::new();
        put_u8(&mut v, OP_REQUEST_GS_LOGIN);
        put_i32(&mut v, self.s_key_1);
        put_i32(&mut v, self.s_key_2);
        put_u8(&mut v, self.server_id);
        assert(v@ =~= gs_login_body(self.s_key_1, self.s_key_2, self.server_id));
        framed(v.as_slice())
    }

    pub fn read(data: &[u8]) -> (r: Option<Self>)
        ensures
            match parse_gs_login(data@) {
                Some((a, b, id)) => r is Some && r->Some_0.s_key_1 == a && r->Some_0.s_key_2 == b
                    && r->Some_0.server_id == id,
                None => r is None,
            },
    {
        let (s_key_1, s_key_2) = read_two_words(data)?;
        if data.len() < 10 {
            return None;
        }
        Some(RequestGSLogin { s_key_1, s_key_2, server_id: data[9] })
    }
}

pub proof fn lemma_gs_login_round_trip(s_key_1: i32, s_key_2: i32, server_id: u8)
    ensures
        parse_gs_login(gs_login_body(s_key_1, s_key_2, server_id)) == Some((s_key_1, s_key_2, server_id)),
{
    lemma_two_words_round_trip(OP_REQUEST_GS_LOGIN, s_key_1, s_key_2, seq![server_id]);
    assert(gs_login_body(s_key_1, s_key_2, server_id)[9] == server_id);
}

} // verus!
