use vstd::prelude::*;

use crate::buffer::{
    appended, framed, le16, le32, le_u32, put_bytes, put_i16, put_i32, put_str, put_u32, put_u8,
    SendablePacketBuffer,
};
use crate::lists::{
    all_no_nul, i64s_body, lemma_p_i64s, lemma_p_strs, p_i64s, p_strs, put_i64s, put_strs,
    read_i64s, read_strs, strings_view, strs_body,
};
use crate::reader::{
    e_str, lemma_p_bytes, lemma_p_i16, lemma_p_i32, lemma_p_str, lemma_p_u32, lemma_p_u8, p_bytes,
    p_i16, p_i32, p_str, p_u32, p_u8, ReadablePacketBuffer,
};
use crate::session::SessionKey;
use crate::text::no_nul;

verus! {

/// Opcodes of the packets that a game server sends to the login server.
pub const OP_REQUEST_AUTH_GS: u8 = 0x01;
pub const OP_PLAYER_IN_GAME: u8 = 0x02;
pub const OP_PLAYER_LOGOUT: u8 = 0x03;
pub const OP_GS_STATUS: u8 = 0x06;
pub const OP_PLAYER_TRACERT: u8 = 0x07;
pub const OP_REPLY_CHARS: u8 = 0x08;

// ---------------------------------------------------------------- RequestAuthGS

/// `n` (network, public address) pairs as a flat list of strings.
pub open spec fn request_auth_gs_body(
    desired_id: u8,
    accept_alternative_id: bool,
    host_reserved: bool,
    port: u16,
    max_players: u32,
    hex_id: Seq<u8>,
    hosts: Seq<Seq<char>>,
) -> Seq<u8> {
    seq![OP_REQUEST_AUTH_GS, desired_id, if accept_alternative_id { 1u8 } else { 0u8 }, if host_reserved {
        1u8
    } else {
        0u8
    }] + (le16(port as i16) + (le_u32(max_players) + (le32(hex_id.len() as i32) + (hex_id + (le32(
    (hosts.len() / 2) as i32) + strs_body(hosts))))))
}

/// Fields of a `RequestAuthGS` body: id, accept flag, reserve flag, port, maximum
/// players, hex id and the host strings.
pub open spec fn parse_request_auth_gs(b: Seq<u8>) -> Option<(u8, bool, bool, u16, u32, Seq<u8>, Seq<Seq<char>>)> {
    if b.len() < 4 {
        None
    } else {
        let (id, alt, res) = (b[1], b[2] != 0, b[3] != 0);
        match p_i16(b.skip(4)) {
            None => None,
            Some((port, b)) => match p_u32(b) {
                None => None,
                Some((maxp, b)) => match p_i32(b) {
                    None => None,
                    Some((n, b)) => if n < 0 {
                        None
                    } else {
                        match p_bytes(b, n as nat) {
                            None => None,
                            Some((hex, b)) => match p_i32(b) {
                                None => None,
                                Some((h, b)) => if h < 0 {
                                    None
                                } else {
                                    match p_strs(b, (2 * h) as nat) {
                                        None => None,
                                        Some((hosts, _)) => Some(
                                            (id, alt, res, port as u16, maxp, hex, hosts),
                                        ),
                                    }
                                },
                            },
                        }
                    },
                },
            },
        }
    }
}

/// A game server's request to register: the id it wants, whether another free id will
/// do, its shared secret and where clients reach it.
pub struct RequestAuthGS {
    pub desired_id: u8,
    pub accept_alternative_id: bool,
    pub host_reserved: bool,
    pub port: u16,
    pub max_players: u32,
    pub hex_id: Vec<u8>,
    /// Network and public address, alternating.
    pub hosts: Vec<String>,
}

impl RequestAuthGS {
    pub fn to_bytes(&self) -> (r: SendablePacketBuffer)
        ensures
            r.wf(),
            r.view() == appended(
                seq![0u8, 0u8],
                request_auth_gs_body(
                    self.desired_id,
                    self.accept_alternative_id,
                    self.host_reserved,
                    self.port,
                    self.max_players,
                    self.hex_id@,
                    strings_view(self.hosts@),
                ),
            ),
    {
        let mut b: Vec<u8> = Vec::new();
        put_u8(&mut b, OP_REQUEST_AUTH_GS);
        put_u8(&mut b, self.desired_id);
        put_u8(&mut b, if self.accept_alternative_id { 1u8 } else { 0u8 });
        put_u8(&mut b, if self.host_reserved { 1u8 } else { 0u8 });
        put_i16(&mut b, self.port as i16);
        put_u32(&mut b, self.max_players);
        put_i32(&mut b, self.hex_id.len() as i32);
        put_bytes(&mut b, self.hex_id.as_slice());
        put_i32(&mut b, (self.hosts.len() / 2) as i32);
        put_strs(&mut b, &self.hosts);
        assert(b@ =~= request_auth_gs_body(
            self.desired_id,
            self.accept_alternative_id,
            self.host_reserved,
            self.port,
            self.max_players,
            self.hex_id@,
            strings_view(self.hosts@),
        ));
        framed(b.as_slice())
    }

    pub fn read(data: &[u8]) -> (r: Option<Self>)
        ensures
            match parse_request_auth_gs(data@) {
                Some((id, alt, res, port, maxp, hex, hosts)) => r is Some && r->Some_0.desired_id == id
                    && r->Some_0.accept_alternative_id == alt && r->Some_0.host_reserved == res
                    && r->Some_0.port == port && r->Some_0.max_players == maxp && r->Some_0.hex_id@
                    == hex && strings_view(r->Some_0.hosts@) == hosts,
                None => r is None,
            },
    {
        if data.len() < 4 {
            return None;
        }
        let mut rd = ReadablePacketBuffer::new(vstd::slice::slice_to_vec(data));
        let _head = rd.read_bytes(4)?;
        assert(rd.rest() == data@.skip(4));
        let port = rd.read_i16()?;
        let max_players = rd.read_u32()?;
        let n = rd.read_i32()?;
        if n < 0 {
            return None;
        }
        let hex_id = rd.read_bytes(n as usize)?;
        let h = rd.read_i32()?;
        if h < 0 {
            return None;
        }
        let hosts = read_strs(&mut rd, 2 * (h as usize))?;
        Some(RequestAuthGS {
            desired_id: data[1],
            accept_alternative_id: data[2] != 0,
            host_reserved: data[3] != 0,
            port: port as u16,
            max_players,
            hex_id,
            hosts,
        })
    }
}

pub proof fn lemma_request_auth_gs_round_trip(
    desired_id: u8,
    accept_alternative_id: bool,
    host_reserved: bool,
    port: u16,
    max_players: u32,
    hex_id: Seq<u8>,
    hosts: Seq<Seq<char>>,
)
    requires
        hex_id.len() <= i32::MAX,
        hosts.len() <= i32::MAX,
        hosts.len() % 2 == 0,
        all_no_nul(hosts),
    ensures
        parse_request_auth_gs(
            request_auth_gs_body(desired_id, accept_alternative_id, host_reserved, port, max_players, hex_id, hosts),
        ) == Some((desired_id, accept_alternative_id, host_reserved, port, max_players, hex_id, hosts)),
{
    let b = request_auth_gs_body(desired_id, accept_alternative_id, host_reserved, port, max_players, hex_id, hosts);
    let h = (hosts.len() / 2) as i32;
    let r5 = le32(h) + strs_body(hosts);
    let r4 = hex_id + r5;
    let r3 = le32(hex_id.len() as i32) + r4;
    let r2 = le_u32(max_players) + r3;
    let r1 = le16(port as i16) + r2;
    assert(b.skip(4) =~= r1);
    lemma_p_i16(port as i16, r2);
    assert((port as i16) as u16 == port) by (bit_vector);
    lemma_p_u32(max_players, r3);
    lemma_p_i32(hex_id.len() as i32, r4);
    lemma_p_bytes(hex_id, r5);
    lemma_p_i32(h, strs_body(hosts));
    assert(strs_body(hosts) =~= strs_body(hosts) + Seq::<u8>::empty());
    lemma_p_strs(hosts, Seq::<u8>::empty());
    assert((2 * h) as nat == hosts.len());
}

// ---------------------------------------------------------------- GSStatusUpdate

/// Load state that a game server reports.
#[derive(Debug, Clone, Copy, PartialEq, Eq, Structural)]
pub enum GSStatus {
    Auto,
    Good,
    Normal,
    Full,
    Down,
    GmOnly,
}

pub open spec fn status_code(s: GSStatus) -> i32 {
    match s {
        GSStatus::Auto => 0x00,
        GSStatus::Good => 0x01,
        GSStatus::Normal => 0x02,
        GSStatus::Full => 0x03,
        GSStatus::Down => 0x04,
        GSStatus::GmOnly => 0x05,
    }
}

pub open spec fn status_of_code(v: i32) -> Option<GSStatus> {
    if v == 0 {
        Some(GSStatus::Auto)
    } else if v == 1 {
        Some(GSStatus::Good)
    } else if v == 2 {
        Some(GSStatus::Normal)
    } else if v == 3 {
        Some(GSStatus::Full)
    } else if v == 4 {
        Some(GSStatus::Down)
    } else if v == 5 {
        Some(GSStatus::GmOnly)
    } else {
        None
    }
}

impl GSStatus {
    pub fn code(&self) -> (r: i32)
        ensures
            r == status_code(*self),
    {
        match self {
            GSStatus::Auto => 0x00,
            GSStatus::Good => 0x01,
            GSStatus::Normal => 0x02,
            GSStatus::Full => 0x03,
            GSStatus::Down => 0x04,
            GSStatus::GmOnly => 0x05,
        }
    }

    pub fn from_opcode(v: i32) -> (r: Option<Self>)
        ensures
            r == status_of_code(v),
    {
        if v == 0 {
            Some(GSStatus::Auto)
        } else if v == 1 {
            Some(GSStatus::Good)
        } else if v == 2 {
            Some(GSStatus::Normal)
        } else if v == 3 {
            Some(GSStatus::Full)
        } else if v == 4 {
            Some(GSStatus::Down)
        } else if v == 5 {
            Some(GSStatus::GmOnly)
        } else {
            None
        }
    }
}

/// Keys of the fields in a status update.
pub const SERVER_LIST_STATUS: i32 = 0x01;
pub const SERVER_TYPE: i32 = 0x02;
pub const SERVER_LIST_SQUARE_BRACKET: i32 = 0x03;
pub const MAX_PLAYERS: i32 = 0x04;
pub const TEST_SERVER: i32 = 0x05;
pub const SERVER_AGE: i32 = 0x06;

/// Status, brackets flag, maximum players, server type and age limit.
pub type StatusFields = (GSStatus, bool, u32, i32, u8);

/// What a status update with no recognised field leaves.
pub open spec fn status_defaults() -> StatusFields {
    (GSStatus::Auto, false, 0, 0, 0)
}

/// One key/value pair applied to the fields; unknown keys and unknown status codes
/// change nothing.
pub open spec fn apply_status_field(f: StatusFields, key: i32, value: i32) -> StatusFields {
    if key == SERVER_LIST_STATUS {
        match status_of_code(value) {
            Some(s) => (s, f.1, f.2, f.3, f.4),
            None => f,
        }
    } else if key == SERVER_LIST_SQUARE_BRACKET {
        (f.0, value != 0, f.2, f.3, f.4)
    } else if key == MAX_PLAYERS {
        (f.0, f.1, value as u32, f.3, f.4)
    } else if key == SERVER_TYPE {
        (f.0, f.1, f.2, value, f.4)
    } else if key == SERVER_AGE {
        (f.0, f.1, f.2, f.3, value as u8)
    } else {
        f
    }
}

/// `n` key/value pairs off the front of `b`, applied in order to `f`.
pub open spec fn p_status_pairs(b: Seq<u8>, n: nat, f: StatusFields) -> Option<StatusFields>
    decreases n,
{
    if n == 0 {
        Some(f)
    } else {
        match p_i32(b) {
            None => None,
            Some((k, b)) => match p_i32(b) {
                None => None,
                Some((v, b)) => p_status_pairs(b, (n - 1) as nat, apply_status_field(f, k, v)),
            },
        }
    }
}

pub open spec fn parse_gs_status(b: Seq<u8>) -> Option<StatusFields> {
    match p_u8(b) {
        None => None,
        Some((_, b)) => match p_u32(b) {
            None => None,
            Some((n, b)) => p_status_pairs(b, n as nat, status_defaults()),
        },
    }
}

/// A key and a value, each four bytes little-endian.
pub open spec fn pair(key: i32, value: i32) -> Seq<u8> {
    le32(key) + le32(value)
}

pub open spec fn gs_status_body(f: StatusFields) -> Seq<u8> {
    seq![OP_GS_STATUS] + (le_u32(5) + (pair(SERVER_LIST_STATUS, status_code(f.0)) + (pair(SERVER_TYPE, f.3)
        + (pair(SERVER_LIST_SQUARE_BRACKET, if f.1 { 1i32 } else { 0i32 }) + (pair(MAX_PLAYERS, f.2 as i32)
        + pair(SERVER_AGE, f.4 as i32))))))
}

fn put_pair(b: &mut Vec<u8>, key: i32, value: i32)
    ensures
        final(b)@ == old(b)@ + pair(key, value),
{
    put_i32(b, key);
    put_i32(b, value);
    assert(final(b)@ =~= old(b)@ + pair(key, value));
}

proof fn lemma_p_pair(f: StatusFields, n: nat, key: i32, value: i32, rest: Seq<u8>)
    requires
        n > 0,
    ensures
        p_status_pairs(pair(key, value) + rest, n, f) == p_status_pairs(rest, (n - 1) as nat, apply_status_field(f, key, value)),
{
    assert(pair(key, value) + rest =~= le32(key) + (le32(value) + rest));
    lemma_p_i32(key, le32(value) + rest);
    lemma_p_i32(value, rest);
}

/// A game server's report of its status, type, bracket flag, capacity and age limit.
pub struct GSStatusUpdate {
    pub buffer: SendablePacketBuffer,
    pub status: GSStatus,
    pub use_square_brackets: bool,
    pub max_players: u32,
    pub server_type: i32,
    pub server_age: u8,
}

impl GSStatusUpdate {
    pub open spec fn fields(&self) -> StatusFields {
        (self.status, self.use_square_brackets, self.max_players, self.server_type, self.server_age)
    }

    /// An update carrying the given fields, with an empty frame.
    pub fn with_fields(
        status: GSStatus,
        use_square_brackets: bool,
        max_players: u32,
        server_type: i32,
        server_age: u8,
    ) -> (r: Self)
        ensures
            r.fields() == (status, use_square_brackets, max_players, server_type, server_age),
            r.buffer.wf(),
            r.buffer.view() == seq![0u8, 0u8],
    {
        GSStatusUpdate {
            buffer: SendablePacketBuffer::new(),
            status,
            use_square_brackets,
            max_players,
            server_type,
            server_age,
        }
    }

    /// Appends the update's opcode and its five key/value pairs to the frame.
    pub fn write_all(&mut self) -> (r: Result<(), crate::errors::Packet>)
        requires
            old(self).buffer.wf(),
        ensures
            final(self).fields() == old(self).fields(),
            SendablePacketBuffer::wrote(old(self).buffer, final(self).buffer, gs_status_body(old(self).fields()), r),
    {
        let mut b: Vec<u8> = Vec::new();
        put_u8(&mut b, OP_GS_STATUS);
        put_u32(&mut b, 5);
        put_pair(&mut b, SERVER_LIST_STATUS, self.status.code());
        put_pair(&mut b, SERVER_TYPE, self.server_type);
        put_pair(&mut b, SERVER_LIST_SQUARE_BRACKET, if self.use_square_brackets { 1i32 } else { 0i32 });
        put_pair(&mut b, MAX_PLAYERS, self.max_players as i32);
        put_pair(&mut b, SERVER_AGE, self.server_age as i32);
        assert(b@ =~= gs_status_body(self.fields()));
        self.buffer.write_bytes(b.as_slice())
    }

    pub fn read(data: &[u8]) -> (r: Option<Self>)
        ensures
            match parse_gs_status(data@) {
                Some(f) => r is Some && r->Some_0.fields() == f,
                None => r is None,
            },
    {
        let mut rd = ReadablePacketBuffer::new(vstd::slice::slice_to_vec(data));
        let _op = rd.read_byte()?;
        let size = rd.read_u32()?;
        let mut inst = GSStatusUpdate::with_fields(GSStatus::Auto, false, 0, 0, 0);
        let mut i: u32 = 0;
        while i < size
            invariant
                rd.wf(),
                i <= size,
                parse_gs_status(data@) == p_status_pairs(rd.rest(), (size - i) as nat, inst.fields()),
            decreases size - i,
        {
            let gs_type = rd.read_i32()?;
            let value = rd.read_i32()?;
            if gs_type == SERVER_LIST_STATUS {
                if let Some(stat) = GSStatus::from_opcode(value) {
                    inst.status = stat;
                }
            } else if gs_type == SERVER_LIST_SQUARE_BRACKET {
                inst.use_square_brackets = value != 0;
            } else if gs_type == MAX_PLAYERS {
                inst.max_players = value as u32;
            } else if gs_type == SERVER_TYPE {
                inst.server_type = value;
            } else if gs_type == SERVER_AGE {
                inst.server_age = value as u8;
            }
            i = i + 1;
        }
        Some(inst)
    }
}

pub proof fn lemma_gs_status_round_trip(f: StatusFields)
    ensures
        parse_gs_status(gs_status_body(f)) == Some(f),
{
    let e = Seq::<u8>::empty();
    let br = if f.1 { 1i32 } else { 0i32 };
    let q5 = pair(SERVER_AGE, f.4 as i32);
    let q4 = pair(MAX_PLAYERS, f.2 as i32) + q5;
    let q3 = pair(SERVER_LIST_SQUARE_BRACKET, br) + q4;
    let q2 = pair(SERVER_TYPE, f.3) + q3;
    let q1 = pair(SERVER_LIST_STATUS, status_code(f.0)) + q2;
    lemma_p_u8(OP_GS_STATUS, le_u32(5) + q1);
    lemma_p_u32(5, q1);
    let d = status_defaults();
    let f1 = apply_status_field(d, SERVER_LIST_STATUS, status_code(f.0));
    let f2 = apply_status_field(f1, SERVER_TYPE, f.3);
    let f3 = apply_status_field(f2, SERVER_LIST_SQUARE_BRACKET, br);
    let f4 = apply_status_field(f3, MAX_PLAYERS, f.2 as i32);
    let f5 = apply_status_field(f4, SERVER_AGE, f.4 as i32);
    lemma_p_pair(d, 5, SERVER_LIST_STATUS, status_code(f.0), q2);
    lemma_p_pair(f1, 4, SERVER_TYPE, f.3, q3);
    lemma_p_pair(f2, 3, SERVER_LIST_SQUARE_BRACKET, br, q4);
    lemma_p_pair(f3, 2, MAX_PLAYERS, f.2 as i32, q5);
    assert(q5 =~= q5 + e);
    lemma_p_pair(f4, 1, SERVER_AGE, f.4 as i32, e);
    let m = f.2;
    let a = f.4;
    assert((m as i32) as u32 == m) by (bit_vector);
    assert((a as i32) as u8 == a) by (bit_vector);
    assert(f5 == f);
}

// ---------------------------------------------------------------- PlayerInGame

pub open spec fn player_in_game_body(accounts: Seq<Seq<char>>) -> Seq<u8> {
    seq![OP_PLAYER_IN_GAME] + (le16(accounts.len() as i16) + strs_body(accounts))
}

pub open spec fn parse_player_in_game(b: Seq<u8>) -> Option<Seq<Seq<char>>> {
    match p_u8(b) {
        None => None,
        Some((_, b)) => match p_i16(b) {
            None => None,
            Some((n, b)) => match p_strs(b, if n < 0 { 0 } else { n as nat }) {
                None => None,
                Some((ss, _)) => Some(ss),
            },
        },
    }
}

/// The accounts that a game server reports as in the world.
pub struct PlayerInGame {
    pub accounts: Vec<String>,
}

impl PlayerInGame {
    pub fn to_bytes(&self) -> (r: SendablePacketBuffer)
        ensures
            r.wf(),
            r.view() == appended(seq![0u8, 0u8], player_in_game_body(strings_view(self.accounts@))),
    {
        let mut b: Vec<u8> = Vec::new();
        put_u8(&mut b, OP_PLAYER_IN_GAME);
        put_i16(&mut b, self.accounts.len() as i16);
        put_strs(&mut b, &self.accounts);
        assert(b@ =~= player_in_game_body(strings_view(self.accounts@)));
        framed(b.as_slice())
    }

    pub fn read(data: &[u8]) -> (r: Option<Self>)
        ensures
            match parse_player_in_game(data@) {
                Some(ss) => r is Some && strings_view(r->Some_0.accounts@) == ss,
                None => r is None,
            },
    {
        let mut rd = ReadablePacketBuffer::new(vstd::slice::slice_to_vec(data));
        let _op = rd.read_byte()?;
        let size = rd.read_i16()?;
        let n: usize = if size < 0 { 0 } else { size as usize };
        let accounts = read_strs(&mut rd, n)?;
        Some(PlayerInGame { accounts })
    }
}

pub proof fn lemma_player_in_game_round_trip(accounts: Seq<Seq<char>>)
    requires
        accounts.len() <= i16::MAX,
        all_no_nul(accounts),
    ensures
        parse_player_in_game(player_in_game_body(accounts)) == Some(accounts),
{
    let n = accounts.len() as i16;
    lemma_p_u8(OP_PLAYER_IN_GAME, le16(n) + strs_body(accounts));
    lemma_p_i16(n, strs_body(accounts));
    assert(strs_body(accounts) =~= strs_body(accounts) + Seq::<u8>::empty());
    lemma_p_strs(accounts, Seq::<u8>::empty());
}

// ---------------------------------------------------------------- PlayerLogout

pub open spec fn player_logout_body(acc: Seq<char>) -> Seq<u8> {
    seq![OP_PLAYER_LOGOUT] + e_str(acc)
}

pub open spec fn parse_player_logout(b: Seq<u8>) -> Option<Seq<char>> {
    match p_u8(b) {
        None => None,
        Some((_, b)) => match p_str(b) {
            None => None,
            Some((s, _)) => Some(s),
        },
    }
}

/// A game server's report that an account left the world.
pub struct PlayerLogout {
    pub acc: String,
}

impl PlayerLogout {
    pub fn to_bytes(&self) -> (r: SendablePacketBuffer)
        ensures
            r.wf(),
            r.view() == appended(seq![0u8, 0u8], player_logout_body(self.acc@)),
    {
        let mut b: Vec<u8> = Vec::new();
        put_u8(&mut b, OP_PLAYER_LOGOUT);
        put_str(&mut b, self.acc.as_str());
        assert(b@ =~= player_logout_body(self.acc@));
        framed(b.as_slice())
    }

    pub fn read(data: &[u8]) -> (r: Option<Self>)
        ensures
            match parse_player_logout(data@) {
                Some(s) => r is Some && r->Some_0.acc@ == s,
                None => r is None,
            },
    {
        let mut rd = ReadablePacketBuffer::new(vstd::slice::slice_to_vec(data));
        let _op = rd.read_byte()?;
        let acc = rd.read_string()?;
        Some(PlayerLogout { acc })
    }
}

pub proof fn lemma_player_logout_round_trip(acc: Seq<char>)
    requires
        no_nul(acc),
    ensures
        parse_player_logout(player_logout_body(acc)) == Some(acc),
{
    lemma_p_u8(OP_PLAYER_LOGOUT, e_str(acc));
    assert(e_str(acc) =~= e_str(acc) + Seq::<u8>::empty());
    lemma_p_str(acc, Seq::<u8>::empty());
}

// ---------------------------------------------------------------- ReplyChars

pub open spec fn reply_chars_body(account: Seq<char>, chars: u8, chars_to_delete: u8, char_list: Seq<i64>) -> Seq<u8> {
    seq![OP_REPLY_CHARS] + (e_str(account) + (seq![chars, chars_to_delete] + i64s_body(char_list)))
}

pub open spec fn parse_reply_chars(b: Seq<u8>) -> Option<(Seq<char>, u8, u8, Seq<i64>)> {
    match p_u8(b) {
        None => None,
        Some((_, b)) => match p_str(b) {
            None => None,
            Some((acc, b)) => match p_u8(b) {
                None => None,
                Some((c, b)) => match p_u8(b) {
                    None => None,
                    Some((d, b)) => match p_i64s(b, d as nat) {
                        None => None,
                        Some((l, _)) => Some((acc, c, d, l)),
                    },
                },
            },
        },
    }
}

/// A game server's answer to `RequestChars`: how many characters the account has and
/// which of them are queued for deletion.
pub struct ReplyChars {
    pub account_name: String,
    pub chars: u8,
    pub chars_to_delete: u8,
    pub char_list: Vec<i64>,
}

impl ReplyChars {
    pub fn to_bytes(&self) -> (r: SendablePacketBuffer)
        ensures
            r.wf(),
            r.view() == appended(
                seq![0u8, 0u8],
                reply_chars_body(self.account_name@, self.chars, self.chars_to_delete, self.char_list@),
            ),
    {
        let mut b: Vec<u8> = Vec::new();
        put_u8(&mut b, OP_REPLY_CHARS);
        put_str(&mut b, self.account_name.as_str());
        put_u8(&mut b, self.chars);
        put_u8(&mut b, self.chars_to_delete);
        put_i64s(&mut b, &self.char_list);
        assert(b@ =~= reply_chars_body(self.account_name@, self.chars, self.chars_to_delete, self.char_list@));
        framed(b.as_slice())
    }

    pub fn read(data: &[u8]) -> (r: Option<Self>)
        ensures
            match parse_reply_chars(data@) {
                Some((acc, c, d, l)) => r is Some && r->Some_0.account_name@ == acc && r->Some_0.chars == c
                    && r->Some_0.chars_to_delete == d && r->Some_0.char_list@ == l,
                None => r is None,
            },
    {
        let mut rd = ReadablePacketBuffer::new(vstd::slice::slice_to_vec(data));
        let _op = rd.read_byte()?;
        let account_name = rd.read_string()?;
        let chars = rd.read_byte()?;
        let chars_to_delete = rd.read_byte()?;
        let char_list = read_i64s(&mut rd, chars_to_delete as usize)?;
        Some(ReplyChars { account_name, chars, chars_to_delete, char_list })
    }
}

pub proof fn lemma_reply_chars_round_trip(account: Seq<char>, chars: u8, char_list: Seq<i64>)
    requires
        no_nul(account),
        char_list.len() <= 255,
    ensures
        parse_reply_chars(reply_chars_body(account, chars, char_list.len() as u8, char_list)) == Some(
            (account, chars, char_list.len() as u8, char_list),
        ),
{
    let d = char_list.len() as u8;
    let r3 = i64s_body(char_list);
    let r2 = seq![d] + r3;
    let r1 = seq![chars] + r2;
    assert(seq![chars, d] + r3 =~= r1);
    lemma_p_u8(OP_REPLY_CHARS, e_str(account) + r1);
    lemma_p_str(account, r1);
    lemma_p_u8(chars, r2);
    lemma_p_u8(d, r3);
    assert(r3 =~= r3 + Seq::<u8>::empty());
    lemma_p_i64s(char_list, Seq::<u8>::empty());
}

// ---------------------------------------------------------------- PlayerTracert

pub open spec fn player_tracert_body(fields: Seq<Seq<char>>) -> Seq<u8> {
    seq![OP_PLAYER_TRACERT] + strs_body(fields)
}

/// Account, client address and four hops, in that order.
pub open spec fn parse_player_tracert(b: Seq<u8>) -> Option<Seq<Seq<char>>> {
    match p_u8(b) {
        None => None,
        Some((_, b)) => match p_strs(b, 6) {
            None => None,
            Some((ss, _)) => Some(ss),
        },
    }
}

/// The route from a player's machine, as a game server reports it.
pub struct PlayerTracert {
    pub account: String,
    pub pc_ip: String,
    pub hop1: String,
    pub hop2: String,
    pub hop3: String,
    pub hop4: String,
}

impl PlayerTracert {
    pub open spec fn fields(&self) -> Seq<Seq<char>> {
        seq![self.account@, self.pc_ip@, self.hop1@, self.hop2@, self.hop3@, self.hop4@]
    }

    pub fn to_bytes(&self) -> (r: SendablePacketBuffer)
        ensures
            r.wf(),
            r.view() == appended(seq![0u8, 0u8], player_tracert_body(self.fields())),
    {
        let mut b: Vec<u8> = Vec::new();
        put_u8(&mut b, OP_PLAYER_TRACERT);
        put_str(&mut b, self.account.as_str());
        put_str(&mut b, self.pc_ip.as_str());
        put_str(&mut b, self.hop1.as_str());
        put_str(&mut b, self.hop2.as_str());
        put_str(&mut b, self.hop3.as_str());
        put_str(&mut b, self.hop4.as_str());
        let ghost f = self.fields();
        assert(strs_body(f) =~= e_str(f[0]) + (e_str(f[1]) + (e_str(f[2]) + (e_str(f[3]) + (e_str(f[4])
            + (e_str(f[5]) + Seq::<u8>::empty())))))) by {
            reveal_with_fuel(strs_body, 7);
        }
        assert(b@ =~= player_tracert_body(self.fields()));
        framed(b.as_slice())
    }

    pub fn read(data: &[u8]) -> (r: Option<Self>)
        ensures
            match parse_player_tracert(data@) {
                Some(ss) => r is Some && r->Some_0.fields() == ss,
                None => r is None,
            },
    {
        let mut rd = ReadablePacketBuffer::new(vstd::slice::slice_to_vec(data));
        let _op = rd.read_byte()?;
        let v = read_strs(&mut rd, 6)?;
        let r = PlayerTracert {
            account: v[0].clone(),
            pc_ip: v[1].clone(),
            hop1: v[2].clone(),
            hop2: v[3].clone(),
            hop3: v[4].clone(),
            hop4: v[5].clone(),
        };
        assert(r.fields() =~= strings_view(v@));
        Some(r)
    }
}

pub proof fn lemma_player_tracert_round_trip(fields: Seq<Seq<char>>)
    requires
        fields.len() == 6,
        all_no_nul(fields),
    ensures
        parse_player_tracert(player_tracert_body(fields)) == Some(fields),
{
    lemma_p_u8(OP_PLAYER_TRACERT, strs_body(fields));
    assert(strs_body(fields) =~= strs_body(fields) + Seq::<u8>::empty());
    lemma_p_strs(fields, Seq::<u8>::empty());
}

} // verus!

verus! {

pub const OP_BLOWFISH_KEY: u8 = 0x00;
pub const OP_PLAYER_AUTH_REQUEST: u8 = 0x05;

// ---------------------------------------------------------------- PlayerAuthRequest

pub open spec fn key_words(k: SessionKey) -> Seq<u8> {
    le32(k.play_ok1) + (le32(k.play_ok2) + (le32(k.login_ok1) + le32(k.login_ok2)))
}

pub open spec fn player_auth_request_body(account: Seq<char>, key: SessionKey) -> Seq<u8> {
    seq![OP_PLAYER_AUTH_REQUEST] + (e_str(account) + key_words(key))
}

pub open spec fn parse_player_auth_request(b: Seq<u8>) -> Option<(Seq<char>, SessionKey)> {
    match p_u8(b) {
        None => None,
        Some((_, b)) => match p_str(b) {
            None => None,
            Some((acc, b)) => match p_i32(b) {
                None => None,
                Some((p1, b)) => match p_i32(b) {
                    None => None,
                    Some((p2, b)) => match p_i32(b) {
                        None => None,
                        Some((l1, b)) => match p_i32(b) {
                            None => None,
                            Some((l2, _)) => Some(
                                (acc, SessionKey { play_ok1: p1, play_ok2: p2, login_ok1: l1, login_ok2: l2 }),
                            ),
                        },
                    },
                },
            },
        },
    }
}

/// A game server asking whether the session key a client presented is the one the
/// login server issued to that account.
pub struct PlayerAuthRequest {
    pub account: String,
    pub key: SessionKey,
}

impl PlayerAuthRequest {
    pub fn to_bytes(&self) -> (r: SendablePacketBuffer)
        ensures
            r.wf(),
            r.view() == appended(seq![0u8, 0u8], player_auth_request_body(self.account@, self.key)),
    {
        let mut b: Vec<u8> = Vec::new();
        put_u8(&mut b, OP_PLAYER_AUTH_REQUEST);
        put_str(&mut b, self.account.as_str());
        put_i32(&mut b, self.key.play_ok1);
        put_i32(&mut b, self.key.play_ok2);
        put_i32(&mut b, self.key.login_ok1);
        put_i32(&mut b, self.key.login_ok2);
        assert(b@ =~= player_auth_request_body(self.account@, self.key));
        framed(b.as_slice())
    }

    pub fn read(data: &[u8]) -> (r: Option<Self>)
        ensures
            match parse_player_auth_request(data@) {
                Some((acc, k)) => r is Some && r->Some_0.account@ == acc && r->Some_0.key == k,
                None => r is None,
            },
    {
        let mut rd = ReadablePacketBuffer::new(vstd::slice::slice_to_vec(data));
        let _op = rd.read_byte()?;
        let account = rd.read_string()?;
        let play_ok1 = rd.read_i32()?;
        let play_ok2 = rd.read_i32()?;
        let login_ok1 = rd.read_i32()?;
        let login_ok2 = rd.read_i32()?;
        Some(PlayerAuthRequest { account, key: SessionKey { play_ok1, play_ok2, login_ok1, login_ok2 } })
    }
}

pub proof fn lemma_player_auth_request_round_trip(account: Seq<char>, key: SessionKey)
    requires
        no_nul(account),
    ensures
        parse_player_auth_request(player_auth_request_body(account, key)) == Some((account, key)),
{
    let e = Seq::<u8>::empty();
    let r4 = le32(key.login_ok2);
    let r3 = le32(key.login_ok1) + r4;
    let r2 = le32(key.play_ok2) + r3;
    let r1 = le32(key.play_ok1) + r2;
    lemma_p_u8(OP_PLAYER_AUTH_REQUEST, e_str(account) + r1);
    lemma_p_str(account, r1);
    lemma_p_i32(key.play_ok1, r2);
    lemma_p_i32(key.play_ok2, r3);
    lemma_p_i32(key.login_ok1, r4);
    assert(r4 =~= r4 + e);
    lemma_p_i32(key.login_ok2, e);
}

// ---------------------------------------------------------------- BlowFishKey

pub open spec fn blowfish_key_body(encrypted: Seq<u8>) -> Seq<u8> {
    seq![OP_BLOWFISH_KEY] + (le32(encrypted.len() as i32) + encrypted)
}

pub open spec fn parse_blowfish_key(b: Seq<u8>) -> Option<Seq<u8>> {
    match p_u8(b) {
        None => None,
        Some((_, b)) => match p_i32(b) {
            None => None,
            Some((n, b)) => if n < 0 {
                None
            } else {
                match p_bytes(b, n as nat) {
                    None => None,
                    Some((k, _)) => Some(k),
                }
            },
        },
    }
}

/// A game server's new Blowfish key, encrypted with the login server's RSA key.
pub struct BlowFishKey {
    pub encrypted_key: Vec<u8>,
}

impl BlowFishKey {
    pub fn to_bytes(&self) -> (r: SendablePacketBuffer)
        ensures
            r.wf(),
            r.view() == appended(seq![0u8, 0u8], blowfish_key_body(self.encrypted_key@)),
    {
        let mut b: Vec<u8> = Vec::new();
        put_u8(&mut b, OP_BLOWFISH_KEY);
        put_i32(&mut b, self.encrypted_key.len() as i32);
        put_bytes(&mut b, self.encrypted_key.as_slice());
        assert(b@ =~= blowfish_key_body(self.encrypted_key@));
        framed(b.as_slice())
    }

    pub fn read(data: &[u8]) -> (r: Option<Self>)
        ensures
            match parse_blowfish_key(data@) {
                Some(k) => r is Some && r->Some_0.encrypted_key@ == k,
                None => r is None,
            },
    {
        let mut rd = ReadablePacketBuffer::new(vstd::slice::slice_to_vec(data));
        let _op = rd.read_byte()?;
        let n = rd.read_i32()?;
        if n < 0 {
            return None;
        }
        let encrypted_key = rd.read_bytes(n as usize)?;
        Some(BlowFishKey { encrypted_key })
    }
}

pub proof fn lemma_blowfish_key_round_trip(encrypted: Seq<u8>)
    requires
        encrypted.len() <= i32::MAX,
    ensures
        parse_blowfish_key(blowfish_key_body(encrypted)) == Some(encrypted),
{
    let n = encrypted.len() as i32;
    lemma_p_u8(OP_BLOWFISH_KEY, le32(n) + encrypted);
    lemma_p_i32(n, encrypted);
    assert(encrypted =~= encrypted + Seq::<u8>::empty());
    lemma_p_bytes(encrypted, Seq::<u8>::empty());
}

/// The number of zero bytes at the front of `b`.
pub open spec fn leading_zeros(b: Seq<u8>) -> nat
    decreases b.len(),
{
    if b.len() > 0 && b[0] == 0 {
        1 + leading_zeros(b.drop_first())
    } else {
        0
    }
}

/// The key a decrypted block carries: the block without its leading zero bytes.
pub fn strip_leading_zeros(b: &[u8]) -> (r: Vec<u8>)
    ensures
        leading_zeros(b@) <= b@.len(),
        r@ == b@.skip(leading_zeros(b@) as int),
{
    let mut i: usize = 0;
    assert(b@.skip(0) =~= b@);
    while i < b.len() && b[i] == 0
        invariant
            i <= b@.len(),
            leading_zeros(b@) == i + leading_zeros(b@.skip(i as int)),
        decreases b@.len() - i,
    {
        assert(b@.skip(i as int).drop_first() =~= b@.skip(i + 1));
        i = i + 1;
    }
    let r = vstd::slice::slice_to_vec(vstd::slice::slice_subrange(b, i, b.len()));
    assert(r@ =~= b@.skip(i as int));
    r
}

} // verus!
