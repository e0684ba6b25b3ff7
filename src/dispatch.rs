use vstd::prelude::*;

use crate::auth::{parse_auth_login, RequestAuthLogin};
use crate::errors::Packet;
use crate::from_client::{
    parse_auth_gg_request, parse_gs_login, parse_two_words, RequestAuthGG, RequestGSLogin,
    RequestServerList, OP_REQUEST_AUTH_GG, OP_REQUEST_AUTH_LOGIN, OP_REQUEST_GS_LOGIN,
    OP_REQUEST_SERVER_LIST,
};
use crate::from_gs::{
    parse_blowfish_key, parse_gs_status, parse_player_auth_request, parse_player_in_game,
    parse_player_logout, parse_player_tracert, parse_reply_chars, parse_request_auth_gs,
    BlowFishKey, GSStatusUpdate, PlayerAuthRequest, PlayerInGame, PlayerLogout, PlayerTracert,
    ReplyChars, RequestAuthGS, OP_BLOWFISH_KEY, OP_GS_STATUS, OP_PLAYER_AUTH_REQUEST,
    OP_PLAYER_IN_GAME, OP_PLAYER_LOGOUT, OP_PLAYER_TRACERT, OP_REPLY_CHARS, OP_REQUEST_AUTH_GS,
};
use crate::rsa::{rsa_raw_dec, ScrambledRSAKeyPair};

verus! {

/// A decoded packet from a game server.
pub enum GsPacket {
    BlowFishKey(BlowFishKey),
    RequestAuthGS(RequestAuthGS),
    PlayerInGame(PlayerInGame),
    PlayerLogout(PlayerLogout),
    PlayerAuthRequest(PlayerAuthRequest),
    Status(GSStatusUpdate),
    PlayerTracert(PlayerTracert),
    ReplyChars(ReplyChars),
}

/// Whether a game-server body of this opcode decodes.
pub open spec fn gs_decodes(data: Seq<u8>) -> bool {
    let op = data[0];
    if op == OP_BLOWFISH_KEY {
        parse_blowfish_key(data) is Some
    } else if op == OP_REQUEST_AUTH_GS {
        parse_request_auth_gs(data) is Some
    } else if op == OP_PLAYER_IN_GAME {
        parse_player_in_game(data) is Some
    } else if op == OP_PLAYER_LOGOUT {
        parse_player_logout(data) is Some
    } else if op == OP_PLAYER_AUTH_REQUEST {
        parse_player_auth_request(data) is Some
    } else if op == OP_GS_STATUS {
        parse_gs_status(data) is Some
    } else if op == OP_PLAYER_TRACERT {
        parse_player_tracert(data) is Some
    } else {
        parse_reply_chars(data) is Some
    }
}

pub open spec fn gs_opcode_known(op: u8) -> bool {
    op == OP_BLOWFISH_KEY || op == OP_REQUEST_AUTH_GS || op == OP_PLAYER_IN_GAME || op
        == OP_PLAYER_LOGOUT || op == OP_PLAYER_AUTH_REQUEST || op == OP_GS_STATUS || op
        == OP_PLAYER_TRACERT || op == OP_REPLY_CHARS
}

/// The opcode a decoded game-server packet came with.
pub open spec fn gs_packet_opcode(p: GsPacket) -> u8 {
    match p {
        GsPacket::BlowFishKey(_) => OP_BLOWFISH_KEY,
        GsPacket::RequestAuthGS(_) => OP_REQUEST_AUTH_GS,
        GsPacket::PlayerInGame(_) => OP_PLAYER_IN_GAME,
        GsPacket::PlayerLogout(_) => OP_PLAYER_LOGOUT,
        GsPacket::PlayerAuthRequest(_) => OP_PLAYER_AUTH_REQUEST,
        GsPacket::Status(_) => OP_GS_STATUS,
        GsPacket::PlayerTracert(_) => OP_PLAYER_TRACERT,
        GsPacket::ReplyChars(_) => OP_REPLY_CHARS,
    }
}

/// Decodes a decrypted game-server body by its first byte. An unknown opcode and a
/// body its decoder cannot read are errors that close the link.
pub fn build_gs_packet(data: &[u8]) -> (r: Result<GsPacket, Packet>)
    ensures
        data@.len() == 0 ==> r == Err::<GsPacket, Packet>(Packet::Decode),
        data@.len() > 0 && !gs_opcode_known(data@[0]) ==> r == Err::<GsPacket, Packet>(
            Packet::ClientPacketNotFound { opcode: data@[0] as usize },
        ),
        data@.len() > 0 && gs_opcode_known(data@[0]) ==> (r is Ok <==> gs_decodes(data@)) && (r is Ok
            ==> gs_packet_opcode(r->Ok_0) == data@[0]) && (r is Err ==> r == Err::<GsPacket, Packet>(
            Packet::Decode,
        )),
{
    if data.len() == 0 {
        return Err(Packet::Decode);
    }
    let op = data[0];
    let p = if op == OP_BLOWFISH_KEY {
        match BlowFishKey::read(data) {
            Some(x) => Some(GsPacket::BlowFishKey(x)),
            None => None,
        }
    } else if op == OP_REQUEST_AUTH_GS {
        match RequestAuthGS::read(data) {
            Some(x) => Some(GsPacket::RequestAuthGS(x)),
            None => None,
        }
    } else if op == OP_PLAYER_IN_GAME {
        match PlayerInGame::read(data) {
            Some(x) => Some(GsPacket::PlayerInGame(x)),
            None => None,
        }
    } else if op == OP_PLAYER_LOGOUT {
        match PlayerLogout::read(data) {
            Some(x) => Some(GsPacket::PlayerLogout(x)),
            None => None,
        }
    } else if op == OP_PLAYER_AUTH_REQUEST {
        match PlayerAuthRequest::read(data) {
            Some(x) => Some(GsPacket::PlayerAuthRequest(x)),
            None => None,
        }
    } else if op == OP_GS_STATUS {
        match GSStatusUpdate::read(data) {
            Some(x) => Some(GsPacket::Status(x)),
            None => None,
        }
    } else if op == OP_PLAYER_TRACERT {
        match PlayerTracert::read(data) {
            Some(x) => Some(GsPacket::PlayerTracert(x)),
            None => None,
        }
    } else if op == OP_REPLY_CHARS {
        match ReplyChars::read(data) {
            Some(x) => Some(GsPacket::ReplyChars(x)),
            None => None,
        }
    } else {
        return Err(Packet::ClientPacketNotFound { opcode: op as usize });
    };
    match p {
        Some(x) => Ok(x),
        None => Err(Packet::Decode),
    }
}

/// A decoded packet from a client.
pub enum ClientPacket {
    AuthLogin(RequestAuthLogin),
    GsLogin(RequestGSLogin),
    ServerList(RequestServerList),
    AuthGG(RequestAuthGG),
}

pub open spec fn client_opcode_known(op: u8) -> bool {
    op == OP_REQUEST_AUTH_LOGIN || op == OP_REQUEST_GS_LOGIN || op == OP_REQUEST_SERVER_LIST || op
        == OP_REQUEST_AUTH_GG
}

pub open spec fn client_packet_opcode(p: ClientPacket) -> u8 {
    match p {
        ClientPacket::AuthLogin(_) => OP_REQUEST_AUTH_LOGIN,
        ClientPacket::GsLogin(_) => OP_REQUEST_GS_LOGIN,
        ClientPacket::ServerList(_) => OP_REQUEST_SERVER_LIST,
        ClientPacket::AuthGG(_) => OP_REQUEST_AUTH_GG,
    }
}

/// Size of one RSA block of the login packet.
pub const RSA_BLOCK: usize = 128;

/// The login block of a login packet: its first RSA block decrypted, then the second
/// one decrypted and a 1 when the packet holds two, else a 0.
pub open spec fn login_block(kp: ScrambledRSAKeyPair, data: Seq<u8>) -> Seq<u8> {
    let first = rsa_raw_dec(kp.modulus_view(), kp.exponent_view(), data.subrange(1, 1 + RSA_BLOCK));
    if data.len() >= 1 + 2 * RSA_BLOCK {
        first + rsa_raw_dec(
            kp.modulus_view(),
            kp.exponent_view(),
            data.subrange(1 + RSA_BLOCK, 1 + 2 * RSA_BLOCK),
        ) + seq![1u8]
    } else {
        first + seq![0u8]
    }
}

/// The login block as the decoder reads it: the decrypted RSA block or blocks, then a
/// byte that says whether there were two. `None` when OpenSSL refuses a block.
pub fn auth_login_block(data: &[u8], key_pair: &ScrambledRSAKeyPair) -> (r: Option<Vec<u8>>)
    requires
        data@.len() >= 1 + RSA_BLOCK,
    ensures
        r is Some ==> r->Some_0@ == login_block(*key_pair, data@),
{
    let first = vstd::slice::slice_subrange(data, 1, 1 + RSA_BLOCK);
    let mut block = key_pair.decrypt_data(first)?;
    if data.len() >= 1 + 2 * RSA_BLOCK {
        let second = vstd::slice::slice_subrange(data, 1 + RSA_BLOCK, 1 + 2 * RSA_BLOCK);
        let more = key_pair.decrypt_data(second)?;
        let ghost b0 = block@;
        let mut i: usize = 0;
        while i < more.len()
            invariant
                i <= more@.len(),
                block@ == b0 + more@.take(i as int),
            decreases more@.len() - i,
        {
            block.push(more[i]);
            i = i + 1;
            assert(block@ =~= b0 + more@.take(i as int));
        }
        assert(more@.take(more@.len() as int) =~= more@);
        block.push(1);
    } else {
        block.push(0);
    }
    Some(block)
}

/// Decodes a client body by its first byte; the login packet is RSA-decrypted with
/// the link's key pair first.
pub fn build_client_packet(data: &[u8], key_pair: &ScrambledRSAKeyPair) -> (r: Result<ClientPacket, Packet>)
    ensures
        data@.len() == 0 ==> r == Err::<ClientPacket, Packet>(Packet::Decode),
        data@.len() > 0 && !client_opcode_known(data@[0]) ==> r == Err::<ClientPacket, Packet>(
            Packet::ClientPacketNotFound { opcode: data@[0] as usize },
        ),
        r is Ok ==> client_packet_opcode(r->Ok_0) == data@[0],
        data@.len() > 0 && data@[0] == OP_REQUEST_GS_LOGIN ==> (r is Ok <==> parse_gs_login(data@) is Some),
        data@.len() > 0 && data@[0] == OP_REQUEST_SERVER_LIST ==> (r is Ok <==> parse_two_words(data@) is Some),
        data@.len() > 0 && data@[0] == OP_REQUEST_AUTH_GG ==> (r is Ok <==> parse_auth_gg_request(data@) is Some),
        data@.len() > 0 && data@[0] == OP_REQUEST_AUTH_LOGIN && data@.len() < 1 + RSA_BLOCK ==> r is Err,
        data@.len() >= 1 + RSA_BLOCK && data@[0] == OP_REQUEST_AUTH_LOGIN && r is Ok ==> match r->Ok_0 {
            ClientPacket::AuthLogin(p) => parse_auth_login(login_block(*key_pair, data@)) == Some(
                (p.username@, p.password@, p.is_new_auth),
            ),
            _ => false,
        },
{
    if data.len() == 0 {
        return Err(Packet::Decode);
    }
    let op = data[0];
    let p = if op == OP_REQUEST_AUTH_LOGIN {
        if data.len() < 1 + RSA_BLOCK {
            return Err(Packet::Decode);
        }
        match auth_login_block(data, key_pair) {
            Some(block) => match RequestAuthLogin::read(block.as_slice()) {
            Some(x) => Some(ClientPacket::AuthLogin(x)),
            None => None,
        },
            None => None,
        }
    } else if op == OP_REQUEST_GS_LOGIN {
        match RequestGSLogin::read(data) {
            Some(x) => Some(ClientPacket::GsLogin(x)),
            None => None,
        }
    } else if op == OP_REQUEST_SERVER_LIST {
        match RequestServerList::read(data) {
            Some(x) => Some(ClientPacket::ServerList(x)),
            None => None,
        }
    } else if op == OP_REQUEST_AUTH_GG {
        match RequestAuthGG::read(data) {
            Some(x) => Some(ClientPacket::AuthGG(x)),
            None => None,
        }
    } else {
        return Err(Packet::ClientPacketNotFound { opcode: op as usize });
    };
    match p {
        Some(x) => Ok(x),
        None => Err(Packet::Decode),
    }
}

} // verus!
