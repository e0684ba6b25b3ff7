use vstd::prelude::*;

use crate::bus::PendingRequests;
use crate::controller::{first_free_from, gs_info_valid, MIN_GS_ID, register_outcome, status_applied, GSInfo, HostEntry, Login, PlayerInfo};
use crate::crypt::Crypt;
use crate::errors::Packet;
use crate::from_client::{RequestAuthGG, RequestGSLogin, RequestServerList};
use crate::from_gs::{GSStatus, leading_zeros, strip_leading_zeros, GSStatusUpdate, PlayerAuthRequest, RequestAuthGS};
use crate::session::SessionKey;
use crate::state::{ClientState, GSState};
use crate::to_client::{AuthGG, LoginOk, PlayOk, PlayerLoginFail, PlayerLoginFailReasons, ServerList};
use crate::to_gs::{AuthGS, GSLoginFail, GSLoginFailReasons, KickPlayer, PlayerAuthResponse};

verus! {

// ---------------------------------------------------------------- game-server link

/// A game server's new Blowfish key arrived, already RSA-decrypted: the key is the
/// block without its leading zeros, and the link moves from `Connected` to
/// `BlowfishSwapped`. Fails, leaving the stage, when the link is elsewhere or the key
/// is not 4 to 56 bytes long.
pub fn on_blowfish_key(state: &mut GSState, decrypted: &[u8]) -> (r: Result<Crypt, Packet>)
    ensures
        r is Ok <==> (*old(state) == GSState::Connected && 4 <= decrypted@.len() - leading_zeros(
            decrypted@,
        ) <= 56),
        r is Ok ==> *final(state) == GSState::BlowfishSwapped && r->Ok_0.wf() && r->Ok_0.key()
            == decrypted@.skip(leading_zeros(decrypted@) as int),
        r is Err ==> *final(state) == *old(state),
{
    if *state != GSState::Connected {
        return Err(Packet::UnexpectedState);
    }
    let key = strip_leading_zeros(decrypted);
    match Crypt::from_u8_key(key.as_slice()) {
        Some(c) => {
            *state = GSState::BlowfishSwapped;
            Ok(c)
        },
        None => Err(Packet::Encryption),
    }
}

/// The id a registration asks for: the wanted id, or, when that one is taken and the
/// game server accepts another, the lowest free id (the wanted one when none is free).
pub open spec fn chosen_id(req: RequestAuthGS, servers: Map<u8, GSInfo>) -> u8 {
    if req.accept_alternative_id && servers.contains_key(req.desired_id) {
        match first_free_from(servers, MIN_GS_ID as nat) {
            Some(i) => i,
            None => req.desired_id,
        }
    } else {
        req.desired_id
    }
}

/// The registry entry that a registration under `id` stores.
pub open spec fn entry_from_request(g: GSInfo, id: u8, req: RequestAuthGS, hosts: Seq<HostEntry>) -> bool {
    &&& g.id == id
    &&& g.accept_alternative_id == req.accept_alternative_id
    &&& g.host_reserved == req.host_reserved
    &&& g.port == req.port
    &&& g.is_pvp
    &&& g.server_type == 0
    &&& !g.show_clock
    &&& g.age_limit == 0
    &&& !g.show_brackets
    &&& g.max_players == req.max_players
    &&& g.hex_id@ == req.hex_id@
    &&& g.hosts@ == hosts
    &&& g.status == GSStatus::Auto
}

/// A game server asks to register. The id is the wanted one, or the lowest free id when
/// the wanted one is taken and the game server accepts another. Its descriptor is built
/// from the request and the parsed host networks, then registered; on success the link
/// becomes `Authed` and the answer confirms the id.
pub fn on_request_auth_gs(
    state: &mut GSState,
    login: &mut Login,
    req: &RequestAuthGS,
    hosts: Vec<HostEntry>,
    server_name: &str,
) -> (r: Result<AuthGS, GSLoginFail>)
    requires
        old(login).wf(),
    ensures
        final(login).wf(),
        *old(state) != GSState::BlowfishSwapped ==> r is Err && r->Err_0.reason
            == GSLoginFailReasons::NotAuthed && *final(login) == *old(login),
        r is Ok ==> ({
            let id = chosen_id(*req, old(login).servers());
            &&& *final(state) == GSState::Authed
            &&& r->Ok_0.server_id == id
            &&& final(login).servers() == old(login).servers().insert(id, final(login).servers()[id])
            &&& entry_from_request(final(login).servers()[id], id, *req, hosts@)
        }),
        r is Err ==> *final(state) == *old(state) && final(login).servers() == old(login).servers(),
        *old(state) == GSState::BlowfishSwapped ==> ({
            let id = chosen_id(*req, old(login).servers());
            if gs_info_valid(id, hosts@) {
                match register_outcome(old(login).allowed(), old(login).servers(), id, req.hex_id@) {
                    Ok(()) => r is Ok,
                    Err(reason) => r is Err && r->Err_0.reason == reason,
                }
            } else {
                r is Err && r->Err_0.reason == GSLoginFailReasons::NoReason
            }
        }),
{
    if *state != GSState::BlowfishSwapped {
        return Err(GSLoginFail::new(GSLoginFailReasons::NotAuthed));
    }
    let id = if req.accept_alternative_id && login.has_gs(req.desired_id) {
        match login.free_id() {
            Some(i) => i,
            None => req.desired_id,
        }
    } else {
        req.desired_id
    };
    let ghost hv = hosts@;
    let info = match GSInfo::new(
        id,
        req.accept_alternative_id,
        req.host_reserved,
        req.port,
        true,
        0,
        false,
        0,
        false,
        req.max_players,
        vstd::slice::slice_to_vec(req.hex_id.as_slice()),
        hosts,
    ) {
        Ok(g) => g,
        Err(reason) => {
            return Err(GSLoginFail::new(reason));
        },
    };
    let ghost g = info;
    match login.register_gs(info) {
        Ok(()) => {
            proof {
                assert(login.servers()[id] == g);
                assert(login.servers() == old(login).servers().insert(id, g));
            }
            *state = GSState::Authed;
            Ok(AuthGS::new(id, server_name))
        },
        Err(reason) => Err(GSLoginFail::new(reason)),
    }
}

/// A game server reports its status. The registry entry takes the new values. The
/// first update moves an `Authed` link to `Running` (its request channel may open);
/// later updates on a running link are updates only and leave the stage as it is. A link
/// that is not registered gets an access-failed answer and the registry is untouched.
pub fn on_gs_status(
    state: &mut GSState,
    login: &mut Login,
    server_id: Option<u8>,
    update: &GSStatusUpdate,
) -> (r: Result<(), PlayerLoginFail>)
    requires
        old(login).wf(),
    ensures
        final(login).wf(),
        r is Ok <==> ((*old(state) == GSState::Authed || *old(state) == GSState::Running)
            && server_id is Some && old(login).servers().contains_key(server_id->Some_0)),
        r is Ok ==> *final(state) == GSState::Running,
        r is Ok ==> final(login).servers() == old(login).servers().insert(
            server_id->Some_0,
            status_applied(old(login).servers()[server_id->Some_0], *update),
        ),
        r is Err ==> *final(state) == *old(state) && r->Err_0.reason
            == PlayerLoginFailReasons::ReasonAccessFailed && final(login).servers() == old(login).servers(),
        final(login).player_map() == old(login).player_map(),
{
    if *state != GSState::Authed && *state != GSState::Running {
        return Err(PlayerLoginFail::new(PlayerLoginFailReasons::ReasonAccessFailed));
    }
    let id = match server_id {
        Some(id) => id,
        None => {
            return Err(PlayerLoginFail::new(PlayerLoginFailReasons::ReasonAccessFailed));
        },
    };
    if login.with_gs(id, update) {
        *state = GSState::Running;
        Ok(())
    } else {
        Err(PlayerLoginFail::new(PlayerLoginFailReasons::ReasonAccessFailed))
    }
}

/// A game server asks whether a client's presented key is the one issued to its
/// account.
pub fn on_player_auth_request(login: &Login, req: &PlayerAuthRequest) -> (r: PlayerAuthResponse)
    requires
        login.wf(),
    ensures
        r.account@ == req.account@,
        r.is_ok == (login.player_map().contains_key(req.account@) && login.player_map()[req.account@].session_key
            == req.key),
{
    let ok = match login.session_key_of(req.account.as_str()) {
        Some(k) => k.equals(&req.key),
        None => false,
    };
    PlayerAuthResponse::new(req.account.as_str(), ok)
}

/// A game-server link closed: its registration goes, and every request it still owed
/// a reply to comes back to be resolved with no reply.
pub fn on_gs_disconnect<T>(
    login: &mut Login,
    server_id: Option<u8>,
    pending: &mut PendingRequests<T>,
) -> (r: Vec<T>)
    requires
        old(login).wf(),
        old(pending).wf(),
    ensures
        final(login).wf(),
        final(pending).wf(),
        final(login).servers() == match server_id {
            Some(id) => old(login).servers().remove(id),
            None => old(login).servers(),
        },
        final(pending).view().len() == 0,
        r@ == old(pending).view().map_values(|p: crate::bus::Pending<T>| p.handle),
{
    if let Some(id) = server_id {
        login.remove_gs(id);
    }
    pending.drain_all()
}

// ---------------------------------------------------------------- client link

/// The client echoes its session id after the guard check: a match moves the link to
/// `GgAuthed` and is acknowledged; anything else is refused.
pub fn on_request_auth_gg(state: &mut ClientState, session_id: i32, req: &RequestAuthGG) -> (r: Result<
    AuthGG,
    PlayerLoginFail,
>)
    ensures
        r is Ok <==> (*old(state) == ClientState::Initial && req.session_id == session_id),
        r is Ok ==> *final(state) == ClientState::GgAuthed && r->Ok_0.session_id == session_id,
        r is Err ==> *final(state) == *old(state) && r->Err_0.reason
            == PlayerLoginFailReasons::ReasonAccessFailed,
{
    if *state != ClientState::Initial || req.session_id != session_id {
        return Err(PlayerLoginFail::new(PlayerLoginFailReasons::ReasonAccessFailed));
    }
    *state = ClientState::GgAuthed;
    Ok(AuthGG::new(session_id))
}

/// Credentials were accepted: the account gets a session with `key`. When it already
/// had one, that one is dropped, the login is refused as account-in-use and, if a game
/// server hosts the old session, a kick for it comes back too.
pub fn on_login_accepted(
    state: &mut ClientState,
    login: &mut Login,
    account: &str,
    ip: u32,
    key: SessionKey,
) -> (r: Result<LoginOk, (PlayerLoginFail, Option<(u8, KickPlayer)>)>)
    requires
        old(login).wf(),
    ensures
        final(login).wf(),
        final(login).servers() == old(login).servers(),
        *old(state) != ClientState::GgAuthed ==> r is Err && *final(login) == *old(login),
        r is Ok <==> (*old(state) == ClientState::GgAuthed && !old(login).player_map().contains_key(account@)),
        r is Ok ==> *final(state) == ClientState::AuthedLogin && r->Ok_0.login_ok1 == key.login_ok1
            && r->Ok_0.login_ok2 == key.login_ok2 && final(login).player_map().contains_key(account@)
            && final(login).player_map() == old(login).player_map().insert(
            account@,
            final(login).player_map()[account@],
        ) && final(login).player_map()[account@].account_name@ == account@
            && final(login).player_map()[account@].is_authed && final(login).player_map()[account@].ip == ip
            && final(login).player_map()[account@].session_key == key
            && final(login).player_map()[account@].game_server is None,
        r is Err ==> *final(state) == *old(state),
        (r is Err && *old(state) == ClientState::GgAuthed) ==> r->Err_0.0.reason
            == PlayerLoginFailReasons::ReasonAccountInUse && !final(login).player_map().contains_key(account@)
            && (r->Err_0.1 is Some <==> old(login).player_map()[account@].game_server is Some),
{
    if *state != ClientState::GgAuthed {
        return Err((PlayerLoginFail::new(PlayerLoginFailReasons::ReasonAccessFailed), None));
    }
    let info = PlayerInfo {
        account_name: account.to_string(),
        is_authed: true,
        ip,
        session_key: key,
        game_server: None,
    };
    match login.on_player_login(info) {
        Ok(()) => {
            *state = ClientState::AuthedLogin;
            Ok(LoginOk::new(&key))
        },
        Err(e) => {
            let kick = match e.kick_on {
                Some(gs) => Some((gs, KickPlayer::new(account))),
                None => None,
            };
            Err((PlayerLoginFail::new(PlayerLoginFailReasons::ReasonAccountInUse), kick))
        },
    }
}

/// The client asks for the world list with the login half of its key; a match shows
/// the list as seen from the client's address.
pub fn on_request_server_list(
    state: &mut ClientState,
    login: &Login,
    key: &SessionKey,
    req: &RequestServerList,
    client_ip: u32,
) -> (r: Result<ServerList, PlayerLoginFail>)
    requires
        login.wf(),
    ensures
        r is Ok <==> ((*old(state) == ClientState::AuthedLogin || *old(state) == ClientState::ServerListShown)
            && key.login_ok1 == req.login_ok1 && key.login_ok2 == req.login_ok2),
        r is Ok ==> *final(state) == ClientState::ServerListShown && r->Ok_0.servers@
            == crate::controller::server_list_of(login.servers(), client_ip, 128),
        r is Err ==> *final(state) == *old(state) && r->Err_0.reason
            == PlayerLoginFailReasons::ReasonAccessFailed,
{
    if (*state != ClientState::AuthedLogin && *state != ClientState::ServerListShown)
        || !key.check_login(req.login_ok1, req.login_ok2) {
        return Err(PlayerLoginFail::new(PlayerLoginFailReasons::ReasonAccessFailed));
    }
    let servers = login.get_server_list(client_ip);
    *state = ClientState::ServerListShown;
    Ok(ServerList::new(servers, 0, 0))
}

/// The client picks a world with the login half of its key; a matching session lets it
/// go there with the play half.
pub fn on_request_gs_login(
    state: &mut ClientState,
    login: &Login,
    key: &SessionKey,
    req: &RequestGSLogin,
) -> (r: Result<PlayOk, PlayerLoginFail>)
    requires
        login.wf(),
    ensures
        r is Ok <==> ((*old(state) == ClientState::AuthedLogin || *old(state) == ClientState::ServerListShown)
            && key.login_ok1 == req.s_key_1 && key.login_ok2 == req.s_key_2),
        r is Ok ==> *final(state) == ClientState::EnteringWorld && r->Ok_0.play_ok1 == key.play_ok1
            && r->Ok_0.play_ok2 == key.play_ok2,
        r is Err ==> *final(state) == *old(state) && r->Err_0.reason
            == PlayerLoginFailReasons::ReasonAccessFailed,
{
    if (*state != ClientState::AuthedLogin && *state != ClientState::ServerListShown)
        || !key.check_login(req.s_key_1, req.s_key_2) {
        return Err(PlayerLoginFail::new(PlayerLoginFailReasons::ReasonAccessFailed));
    }
    *state = ClientState::EnteringWorld;
    Ok(PlayOk::new(key))
}

} // verus!
