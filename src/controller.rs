use vstd::prelude::*;

use std::collections::HashMap;

use crate::from_gs::{GSStatus, GSStatusUpdate};
use crate::registry::{
    keyed, lemma_keyed_absent, lemma_keyed_contains, lemma_keyed_index, lemma_keyed_push,
    lemma_keyed_remove, lemma_keyed_update, unique_keys,
};
use crate::session::SessionKey;
use crate::to_gs::GSLoginFailReasons;

verus! {

broadcast use vstd::std_specs::hash::group_hash_axioms;

/// Address that a client gets for a game server none of whose networks holds it.
pub const LOCALHOST: u32 = 0x7F00_0001;

/// Lowest and highest game-server id.
pub const MIN_GS_ID: u8 = 1;
pub const MAX_GS_ID: u8 = 127;

/// One network of a game server and the address that clients inside it should use.
#[derive(Debug, Clone, Copy, PartialEq, Eq)]
pub struct HostEntry {
    pub subnet: u32,
    pub prefix_len: u8,
    pub address: u32,
}

/// The mask of a network prefix of `prefix` bits.
pub open spec fn net_mask(prefix: u8) -> u32 {
    if prefix == 0 {
        0
    } else {
        0xffff_ffffu32 << ((32 - prefix) as u32)
    }
}

/// Whether `ip` lies in the host entry's network.
pub open spec fn in_subnet(h: HostEntry, ip: u32) -> bool {
    (ip & net_mask(h.prefix_len)) == (h.subnet & net_mask(h.prefix_len))
}

/// The address of the first entry whose network holds `ip`.
pub open spec fn host_ip_for(hosts: Seq<HostEntry>, ip: u32) -> Option<u32>
    decreases hosts.len(),
{
    if hosts.len() == 0 {
        None
    } else if in_subnet(hosts[0], ip) {
        Some(hosts[0].address)
    } else {
        host_ip_for(hosts.drop_first(), ip)
    }
}

impl HostEntry {
    pub open spec fn wf(&self) -> bool {
        self.prefix_len <= 32
    }

    pub fn contains(&self, ip: u32) -> (r: bool)
        requires
            self.wf(),
        ensures
            r == in_subnet(*self, ip),
    {
        let mask: u32 = if self.prefix_len == 0 {
            0
        } else {
            0xffff_ffffu32 << ((32 - self.prefix_len) as u32)
        };
        (ip & mask) == (self.subnet & mask)
    }
}

/// Whether a game server with this id and these networks can be described: the id is
/// within 1..=127 and no prefix is longer than 32 bits.
pub open spec fn gs_info_valid(id: u8, hosts: Seq<HostEntry>) -> bool {
    MIN_GS_ID <= id <= MAX_GS_ID && forall|i: int| 0 <= i < hosts.len() ==> (#[trigger] hosts[i]).wf()
}

/// A registered game server.
#[derive(Debug, Clone)]
pub struct GSInfo {
    pub id: u8,
    pub accept_alternative_id: bool,
    pub host_reserved: bool,
    pub port: u16,
    pub is_pvp: bool,
    pub server_type: i32,
    pub show_clock: bool,
    pub age_limit: u8,
    pub show_brackets: bool,
    pub max_players: u32,
    pub hex_id: Vec<u8>,
    pub hosts: Vec<HostEntry>,
    pub status: GSStatus,
}

impl GSInfo {
    pub open spec fn wf(&self) -> bool {
        &&& MIN_GS_ID <= self.id <= MAX_GS_ID
        &&& forall|i: int| 0 <= i < self.hosts@.len() ==> (#[trigger] self.hosts@[i]).wf()
    }

    /// A descriptor for a game server; fails when the id is outside 1..=127 or a network
    /// prefix is longer than 32 bits.
    pub fn new(
        id: u8,
        accept_alternative_id: bool,
        host_reserved: bool,
        port: u16,
        is_pvp: bool,
        server_type: i32,
        show_clock: bool,
        age_limit: u8,
        show_brackets: bool,
        max_players: u32,
        hex_id: Vec<u8>,
        hosts: Vec<HostEntry>,
    ) -> (r: Result<Self, GSLoginFailReasons>)
        ensures
            r is Ok <==> gs_info_valid(id, hosts@),
            r is Err ==> r == Err::<Self, GSLoginFailReasons>(GSLoginFailReasons::NoReason),
            r is Ok ==> ({
                let g = r->Ok_0;
                &&& g.wf()
                &&& g.id == id && g.accept_alternative_id == accept_alternative_id
                &&& g.host_reserved == host_reserved && g.port == port && g.is_pvp == is_pvp
                &&& g.server_type == server_type && g.show_clock == show_clock
                &&& g.age_limit == age_limit && g.show_brackets == show_brackets
                &&& g.max_players == max_players && g.hex_id@ == hex_id@ && g.hosts@ == hosts@
                &&& g.status == GSStatus::Auto
            }),
    {
        if id < MIN_GS_ID || id > MAX_GS_ID {
            return Err(GSLoginFailReasons::NoReason);
        }
        let mut i: usize = 0;
        while i < hosts.len()
            invariant
                i <= hosts@.len(),
                forall|j: int| 0 <= j < i ==> (#[trigger] hosts@[j]).wf(),
            decreases hosts@.len() - i,
        {
            if hosts[i].prefix_len > 32 {
                return Err(GSLoginFailReasons::NoReason);
            }
            i = i + 1;
        }
        Ok(GSInfo {
            id,
            accept_alternative_id,
            host_reserved,
            port,
            is_pvp,
            server_type,
            show_clock,
            age_limit,
            show_brackets,
            max_players,
            hex_id,
            hosts,
            status: GSStatus::Auto,
        })
    }

    /// The address a client at `client_ip` should use: that of the first network
    /// holding it, else the loopback address.
    pub fn get_host_ip(&self, client_ip: u32) -> (r: u32)
        requires
            self.wf(),
        ensures
            r == match host_ip_for(self.hosts@, client_ip) {
                Some(a) => a,
                None => LOCALHOST,
            },
    {
        let mut i: usize = 0;
        assert(self.hosts@.skip(0) =~= self.hosts@);
        while i < self.hosts.len()
            invariant
                self.wf(),
                i <= self.hosts@.len(),
                host_ip_for(self.hosts@, client_ip) == host_ip_for(self.hosts@.skip(i as int), client_ip),
            decreases self.hosts@.len() - i,
        {
            let h = self.hosts[i];
            assert(self.hosts@.skip(i as int)[0] == h);
            assert(self.hosts@.skip(i as int).drop_first() =~= self.hosts@.skip(i + 1));
            if h.contains(client_ip) {
                return h.address;
            }
            i = i + 1;
        }
        LOCALHOST
    }
}

/// What the login server keeps of a logged-in account.
#[derive(Debug, Clone)]
pub struct PlayerInfo {
    pub account_name: String,
    pub is_authed: bool,
    pub ip: u32,
    pub session_key: SessionKey,
    pub game_server: Option<u8>,
}

pub open spec fn player_key() -> spec_fn(PlayerInfo) -> Seq<char> {
    |p: PlayerInfo| p.account_name@
}

/// Refusal of a login because the account already had a session. The old session is
/// dropped; `kick_on` names the game server that hosts it, if any.
#[derive(Debug, Clone, Copy, PartialEq, Eq)]
pub struct AlreadyLoggedIn {
    pub kick_on: Option<u8>,
}

/// A game server as the server list shows it to a client.
#[derive(Debug, Clone, Copy, PartialEq, Eq)]
pub struct ServerData {
    pub ip: u32,
    pub port: i32,
    pub age_limit: i32,
    pub pvp: bool,
    pub current_players: i32,
    pub max_players: i32,
    pub brackets: bool,
    pub clock: bool,
    pub status: GSStatus,
    pub server_id: i32,
    pub server_type: i32,
}

/// The server-list entry of `g` for a client at `client_ip`.
pub open spec fn server_data_of(g: GSInfo, client_ip: u32) -> ServerData {
    ServerData {
        ip: match host_ip_for(g.hosts@, client_ip) {
            Some(a) => a,
            None => LOCALHOST,
        },
        port: g.port as i32,
        age_limit: g.age_limit as i32,
        pvp: g.is_pvp,
        current_players: 0,
        max_players: g.max_players as i32,
        brackets: g.show_brackets,
        clock: false,
        status: g.status,
        server_id: g.id as i32,
        server_type: g.server_type,
    }
}

/// Whether a configured hex key names the shared secret `id`: two hex digits per byte,
/// either case.
pub open spec fn hex_matches(key: Seq<u8>, id: Seq<u8>) -> bool {
    &&& key.len() == 2 * id.len()
    &&& forall|i: int| 0 <= i < key.len() ==> ascii_lower(#[trigger] key[i]) == hex_digit(id, i)
}

pub open spec fn ascii_lower(b: u8) -> u8 {
    if 65 <= b <= 90 {
        (b + 32) as u8
    } else {
        b
    }
}

/// The `i`-th lowercase hex digit of `id`, high digit of each byte first.
pub open spec fn hex_digit(id: Seq<u8>, i: int) -> u8 {
    let v = if i % 2 == 0 {
        id[i / 2] / 16
    } else {
        id[i / 2] % 16
    };
    if v < 10 {
        (48 + v) as u8
    } else {
        (87 + v) as u8
    }
}

/// The registry of the login server: game servers, logged-in players and the session
/// id counter.
pub struct Login {
    game_servers: HashMap<u8, GSInfo>,
    players: Vec<PlayerInfo>,
    session_id_gen: i32,
    allowed_gs: Option<Vec<Vec<u8>>>,
    banned_ips: Vec<u32>,
}

impl Login {
    /// Registered game servers by id.
    pub closed spec fn servers(&self) -> Map<u8, GSInfo> {
        self.game_servers@
    }

    /// Logged-in players by account name.
    pub closed spec fn player_map(&self) -> Map<Seq<char>, PlayerInfo> {
        keyed(self.players@, player_key())
    }

    pub closed spec fn next_session_id(&self) -> i32 {
        self.session_id_gen
    }

    /// The hex keys that may register, when the configuration restricts it.
    pub closed spec fn allowed(&self) -> Option<Seq<Vec<u8>>> {
        match self.allowed_gs {
            Some(v) => Some(v@),
            None => None,
        }
    }

    /// Addresses whose connections are refused.
    pub closed spec fn banned(&self) -> Seq<u32> {
        self.banned_ips@
    }

    pub closed spec fn wf(&self) -> bool {
        &&& forall|k: u8| #[trigger] self.game_servers@.contains_key(k) ==> self.game_servers@[k].id == k
            && self.game_servers@[k].wf()
        &&& unique_keys(self.players@, player_key())
    }

    /// Each registered game server sits under its own id, so no id is held twice, and
    /// each entry is a valid descriptor.
    pub proof fn lemma_unique_ids(&self)
        requires
            self.wf(),
        ensures
            forall|k: u8| #[trigger] self.servers().contains_key(k) ==> self.servers()[k].id == k
                && self.servers()[k].wf(),
    {
    }

    /// An empty registry. `allowed_gs` holds the configured hex keys (as text bytes),
    /// or `None` when any game server may register.
    pub fn new(allowed_gs: Option<Vec<Vec<u8>>>) -> (r: Self)
        ensures
            r.wf(),
            r.servers() == Map::<u8, GSInfo>::empty(),
            r.player_map() == Map::<Seq<char>, PlayerInfo>::empty(),
            r.next_session_id() == 1,
            r.banned() == Seq::<u32>::empty(),
            r.allowed() == match allowed_gs {
                Some(v) => Some(v@),
                None => None::<Seq<Vec<u8>>>,
            },
    {
        Login {
            game_servers: HashMap::new(),
            players: Vec::new(),
            session_id_gen: 1,
            allowed_gs,
            banned_ips: Vec::new(),
        }
    }

    fn find_player(&self, account: &str) -> (r: Option<usize>)
        requires
            self.wf(),
        ensures
            match r {
                Some(i) => i < self.players@.len() && self.players@[i as int].account_name@ == account@,
                None => forall|i: int| 0 <= i < self.players@.len() ==> self.players@[i].account_name@ != account@,
            },
    {
        let mut i: usize = 0;
        while i < self.players.len()
            invariant
                i <= self.players@.len(),
                forall|j: int| 0 <= j < i ==> self.players@[j].account_name@ != account@,
            decreases self.players@.len() - i,
        {
            if str_eq(self.players[i].account_name.as_str(), account) {
                return Some(i);
            }
            i = i + 1;
        }
        None
    }

    /// Whether some configured key names `hex_id`; true when no restriction is set.
    pub fn is_allowed(&self, hex_id: &[u8]) -> (r: bool)
        ensures
            r == match self.allowed() {
                Some(keys) => exists|i: int| 0 <= i < keys.len() && hex_matches(#[trigger] keys[i]@, hex_id@),
                None => true,
            },
    {
        match &self.allowed_gs {
            None => true,
            Some(keys) => {
                let mut i: usize = 0;
                assert(self.allowed() == Some(keys@));
                while i < keys.len()
                    invariant
                        self.allowed() == Some(keys@),
                        i <= keys@.len(),
                        forall|j: int| 0 <= j < i ==> !hex_matches(#[trigger] keys@[j]@, hex_id@),
                    decreases keys@.len() - i,
                {
                    if key_matches(keys[i].as_slice(), hex_id) {
                        assert(hex_matches(keys@[i as int]@, hex_id@));
                        let ghost ks = self.allowed()->Some_0;
                        assert(ks == keys@);
                        assert(hex_matches(ks[i as int]@, hex_id@));
                        assert(exists|j: int| 0 <= j < ks.len() && hex_matches(#[trigger] ks[j]@, hex_id@));
                        return true;
                    }
                    i = i + 1;
                }
                false
            },
        }
    }

    /// Registers a game server. Refused with `WrongHexId` when keys are configured and
    /// none names its shared secret, else with `AlreadyRegistered` when its id is taken.
    pub fn register_gs(&mut self, gs_info: GSInfo) -> (r: Result<(), GSLoginFailReasons>)
        requires
            old(self).wf(),
            gs_info.wf(),
        ensures
            final(self).wf(),
            final(self).allowed() == old(self).allowed(),
            final(self).player_map() == old(self).player_map(),
            final(self).next_session_id() == old(self).next_session_id(),
            final(self).banned() == old(self).banned(),
            r == register_outcome(old(self).allowed(), old(self).servers(), gs_info.id, gs_info.hex_id@),
            r is Ok ==> final(self).servers() == old(self).servers().insert(gs_info.id, gs_info),
            r is Err ==> final(self).servers() == old(self).servers(),
    {
        if !self.is_allowed(gs_info.hex_id.as_slice()) {
            return Err(GSLoginFailReasons::WrongHexId);
        }
        if self.game_servers.contains_key(&gs_info.id) {
            return Err(GSLoginFailReasons::AlreadyRegistered);
        }
        let id = gs_info.id;
        self.game_servers.insert(id, gs_info);
        Ok(())
    }

    /// Whether a game server with this id is registered.
    pub fn has_gs(&self, id: u8) -> (r: bool)
        requires
            self.wf(),
        ensures
            r == self.servers().contains_key(id),
    {
        self.game_servers.contains_key(&id)
    }

    /// The lowest id in 1..=127 that no game server holds.
    pub fn free_id(&self) -> (r: Option<u8>)
        requires
            self.wf(),
        ensures
            r == first_free_from(self.servers(), MIN_GS_ID as nat),
            r is Some ==> MIN_GS_ID <= r->Some_0 <= MAX_GS_ID && !self.servers().contains_key(r->Some_0),
    {
        let mut k: u8 = MIN_GS_ID;
        while k <= MAX_GS_ID
            invariant
                self.wf(),
                MIN_GS_ID <= k <= MAX_GS_ID + 1,
                first_free_from(self.servers(), MIN_GS_ID as nat) == first_free_from(self.servers(), k as nat),
            decreases 128 - k,
        {
            if !self.has_gs(k) {
                return Some(k);
            }
            k = k + 1;
        }
        None
    }

    /// Applies a status update to a registered game server; false when the id is
    /// unknown.
    pub fn with_gs(&mut self, gs_id: u8, update: &GSStatusUpdate) -> (r: bool)
        requires
            old(self).wf(),
        ensures
            final(self).wf(),
            r == old(self).servers().contains_key(gs_id),
            r ==> final(self).servers() == old(self).servers().insert(
                gs_id,
                status_applied(old(self).servers()[gs_id], *update),
            ),
            !r ==> final(self).servers() == old(self).servers(),
            final(self).player_map() == old(self).player_map(),
            final(self).allowed() == old(self).allowed(),
            final(self).next_session_id() == old(self).next_session_id(),
            final(self).banned() == old(self).banned(),
    {
        let ghost m0 = self.game_servers@;
        match self.game_servers.remove(&gs_id) {
            Some(mut g) => {
                g.max_players = update.max_players;
                g.age_limit = update.server_age;
                g.show_brackets = update.use_square_brackets;
                g.server_type = update.server_type;
                g.status = update.status;
                assert(g == status_applied(m0[gs_id], *update));
                self.game_servers.insert(gs_id, g);
                assert(self.game_servers@ =~= m0.insert(gs_id, g));
                true
            },
            None => {
                assert(self.game_servers@ =~= m0);
                false
            },
        }
    }

    /// Drops a game server's registration.
    pub fn remove_gs(&mut self, server_id: u8)
        requires
            old(self).wf(),
        ensures
            final(self).wf(),
            final(self).servers() == old(self).servers().remove(server_id),
            final(self).player_map() == old(self).player_map(),
            final(self).allowed() == old(self).allowed(),
            final(self).next_session_id() == old(self).next_session_id(),
            final(self).banned() == old(self).banned(),
    {
        self.game_servers.remove(&server_id);
    }

    /// The server list for a client at `client_ip`, one entry per registered game
    /// server in order of id.
    pub fn get_server_list(&self, client_ip: u32) -> (r: Vec<ServerData>)
        requires
            self.wf(),
        ensures
            r@ == server_list_of(self.servers(), client_ip, (MAX_GS_ID + 1) as nat),
    {
        let mut servers: Vec<ServerData> = Vec::new();
        let mut k: u8 = MIN_GS_ID;
        while k <= MAX_GS_ID
            invariant
                self.wf(),
                MIN_GS_ID <= k <= MAX_GS_ID + 1,
                servers@ == server_list_of(self.servers(), client_ip, k as nat),
            decreases 128 - k,
        {
            match self.game_servers.get(&k) {
                Some(s) => {
                    assert(s.wf());
                    let d = ServerData {
                        ip: s.get_host_ip(client_ip),
                        port: s.port as i32,
                        age_limit: s.age_limit as i32,
                        pvp: s.is_pvp,
                        current_players: 0,
                        max_players: s.max_players as i32,
                        brackets: s.show_brackets,
                        clock: false,
                        status: s.status,
                        server_id: s.id as i32,
                        server_type: s.server_type,
                    };
                    servers.push(d);
                },
                None => {},
            }
            k = k + 1;
        }
        servers
    }

    /// Records a login. When the account already has a session, that session is
    /// dropped and the login refused, naming the game server that hosts it.
    pub fn on_player_login(&mut self, info: PlayerInfo) -> (r: Result<(), AlreadyLoggedIn>)
        requires
            old(self).wf(),
        ensures
            final(self).wf(),
            final(self).servers() == old(self).servers(),
            final(self).allowed() == old(self).allowed(),
            final(self).next_session_id() == old(self).next_session_id(),
            r is Ok <==> !old(self).player_map().contains_key(info.account_name@),
            r is Ok ==> final(self).player_map() == old(self).player_map().insert(info.account_name@, info),
            r is Err ==> final(self).player_map() == old(self).player_map().remove(info.account_name@)
                && r == Err::<(), AlreadyLoggedIn>(
                AlreadyLoggedIn { kick_on: old(self).player_map()[info.account_name@].game_server },
            ),
    {
        proof {
            lemma_keyed_contains(self.players@, player_key(), info.account_name@);
        }
        match self.find_player(info.account_name.as_str()) {
            Some(i) => {
                proof {
                    lemma_keyed_index(self.players@, player_key(), i as int);
                    lemma_keyed_remove(self.players@, player_key(), i as int);
                }
                let old_entry = self.players.remove(i);
                Err(AlreadyLoggedIn { kick_on: old_entry.game_server })
            },
            None => {
                proof {
                    lemma_keyed_push(self.players@, player_key(), info);
                }
                self.players.push(info);
                Ok(())
            },
        }
    }

    /// Forgets an account's session.
    pub fn on_player_logout(&mut self, account: &str)
        requires
            old(self).wf(),
        ensures
            final(self).wf(),
            final(self).player_map() == old(self).player_map().remove(account@),
            final(self).servers() == old(self).servers(),
            final(self).allowed() == old(self).allowed(),
            final(self).next_session_id() == old(self).next_session_id(),
    {
        match self.find_player(account) {
            Some(i) => {
                proof {
                    lemma_keyed_remove(self.players@, player_key(), i as int);
                }
                self.players.remove(i);
            },
            None => {
                proof {
                    lemma_keyed_absent(self.players@, player_key(), account@);
                    assert(self.player_map().remove(account@) =~= self.player_map());
                }
            },
        }
    }

    /// Marks one account as present in the world of game server `gs_id`; false when the
    /// account has no session.
    pub fn on_player_in_game(&mut self, gs_id: u8, account: &str) -> (r: bool)
        requires
            old(self).wf(),
        ensures
            final(self).wf(),
            r == old(self).player_map().contains_key(account@),
            r ==> final(self).player_map() == old(self).player_map().insert(
                account@,
                in_world(old(self).player_map()[account@], gs_id),
            ),
            !r ==> final(self).player_map() == old(self).player_map(),
            final(self).servers() == old(self).servers(),
            final(self).allowed() == old(self).allowed(),
            final(self).next_session_id() == old(self).next_session_id(),
    {
        proof {
            lemma_keyed_contains(self.players@, player_key(), account@);
        }
        match self.find_player(account) {
            Some(i) => {
                proof {
                    lemma_keyed_index(self.players@, player_key(), i as int);
                }
                let ghost s0 = self.players@;
                let mut q = self.players.remove(i);
                q.game_server = Some(gs_id);
                proof {
                    assert(q == in_world(s0[i as int], gs_id));
                    lemma_keyed_update(s0, player_key(), i as int, q);
                }
                self.players.insert(i, q);
                assert(self.players@ =~= s0.update(i as int, q));
                true
            },
            None => false,
        }
    }

    /// Marks each listed account that has a session as present in the world of game
    /// server `gs_id`.
    pub fn on_players_in_game(&mut self, gs_id: u8, accounts: &Vec<String>)
        requires
            old(self).wf(),
        ensures
            final(self).wf(),
            final(self).player_map().dom() == old(self).player_map().dom(),
            forall|a: Seq<char>| #[trigger]
                final(self).player_map().contains_key(a) ==> final(self).player_map()[a] == if exists|
                    j: int,
                | 0 <= j < accounts@.len() && accounts@[j]@ == a {
                    in_world(old(self).player_map()[a], gs_id)
                } else {
                    old(self).player_map()[a]
                },
            final(self).servers() == old(self).servers(),
            final(self).allowed() == old(self).allowed(),
            final(self).next_session_id() == old(self).next_session_id(),
    {
        let mut i: usize = 0;
        while i < accounts.len()
            invariant
                self.wf(),
                i <= accounts@.len(),
                self.player_map().dom() == old(self).player_map().dom(),
                self.servers() == old(self).servers(),
                self.allowed() == old(self).allowed(),
                self.next_session_id() == old(self).next_session_id(),
                forall|a: Seq<char>| #[trigger]
                    self.player_map().contains_key(a) ==> self.player_map()[a] == if exists|j: int|
                        0 <= j < i && accounts@[j]@ == a {
                        in_world(old(self).player_map()[a], gs_id)
                    } else {
                        old(self).player_map()[a]
                    },
            decreases accounts@.len() - i,
        {
            let ghost before = self.player_map();
            let found = self.on_player_in_game(gs_id, accounts[i].as_str());
            proof {
                if found {
                    assert(self.player_map().dom() =~= before.dom());
                }
                assert forall|a: Seq<char>| #[trigger] self.player_map().contains_key(a) implies self.player_map()[a]
                    == if exists|j: int| 0 <= j < i + 1 && accounts@[j]@ == a {
                    in_world(old(self).player_map()[a], gs_id)
                } else {
                    old(self).player_map()[a]
                } by {
                    if a == accounts@[i as int]@ {
                        assert(exists|j: int| 0 <= j < i + 1 && accounts@[j]@ == a);
                        if exists|j: int| 0 <= j < i && accounts@[j]@ == a {
                            lemma_in_world_twice(old(self).player_map()[a], gs_id);
                        }
                    } else {
                        if exists|j: int| 0 <= j < i + 1 && accounts@[j]@ == a {
                            let j = choose|j: int| 0 <= j < i + 1 && accounts@[j]@ == a;
                            assert(j < i);
                        }
                    }
                }
            }
            i = i + 1;
        }
    }

    /// The session key issued to an account, if it has a session.
    pub fn session_key_of(&self, account: &str) -> (r: Option<SessionKey>)
        requires
            self.wf(),
        ensures
            r == if self.player_map().contains_key(account@) {
                Some(self.player_map()[account@].session_key)
            } else {
                None::<SessionKey>
            },
    {
        proof {
            lemma_keyed_contains(self.players@, player_key(), account@);
        }
        match self.find_player(account) {
            Some(i) => {
                proof {
                    lemma_keyed_index(self.players@, player_key(), i as int);
                }
                Some(self.players[i].session_key)
            },
            None => None,
        }
    }

    /// Refuses further connections from `ip`.
    pub fn ban_ip(&mut self, ip: u32)
        ensures
            final(self).banned() == old(self).banned().push(ip),
            final(self).servers() == old(self).servers(),
            final(self).player_map() == old(self).player_map(),
            final(self).allowed() == old(self).allowed(),
            final(self).next_session_id() == old(self).next_session_id(),
            old(self).wf() ==> final(self).wf(),
    {
        self.banned_ips.push(ip);
    }

    /// Whether connections from `ip` are refused.
    pub fn is_ip_banned(&self, ip: u32) -> (r: bool)
        ensures
            r == self.banned().contains(ip),
    {
        let mut i: usize = 0;
        while i < self.banned_ips.len()
            invariant
                i <= self.banned_ips@.len(),
                forall|j: int| 0 <= j < i ==> self.banned_ips@[j] != ip,
            decreases self.banned_ips@.len() - i,
        {
            if self.banned_ips[i] == ip {
                assert(self.banned_ips@[i as int] == ip);
                return true;
            }
            i = i + 1;
        }
        false
    }

    /// Hands out the next session id; the counter wraps past `i32::MAX`.
    pub fn generate_session_id(&mut self) -> (r: i32)
        ensures
            r == old(self).next_session_id(),
            final(self).next_session_id() == old(self).next_session_id().wrapping_add(1),
            final(self).servers() == old(self).servers(),
            final(self).player_map() == old(self).player_map(),
            final(self).allowed() == old(self).allowed(),
            old(self).wf() ==> final(self).wf(),
    {
        let r = self.session_id_gen;
        self.session_id_gen = self.session_id_gen.wrapping_add(1);
        r
    }
}

/// A player entry once its account is in the world of game server `gs_id`.
pub open spec fn in_world(p: PlayerInfo, gs_id: u8) -> PlayerInfo {
    PlayerInfo { game_server: Some(gs_id), ..p }
}

proof fn lemma_in_world_twice(p: PlayerInfo, gs_id: u8)
    ensures
        in_world(in_world(p, gs_id), gs_id) == in_world(p, gs_id),
{
}

/// A game server entry after a status update.
pub open spec fn status_applied(g: GSInfo, u: GSStatusUpdate) -> GSInfo {
    GSInfo {
        max_players: u.max_players,
        age_limit: u.server_age,
        show_brackets: u.use_square_brackets,
        server_type: u.server_type,
        status: u.status,
        ..g
    }
}

/// What `register_gs` answers for a registry with the given keys and servers.
pub open spec fn register_outcome(
    allowed: Option<Seq<Vec<u8>>>,
    servers: Map<u8, GSInfo>,
    id: u8,
    hex_id: Seq<u8>,
) -> Result<(), GSLoginFailReasons> {
    let ok_hex = match allowed {
        Some(keys) => exists|i: int| 0 <= i < keys.len() && hex_matches(#[trigger] keys[i]@, hex_id),
        None => true,
    };
    if !ok_hex {
        Err(GSLoginFailReasons::WrongHexId)
    } else if servers.contains_key(id) {
        Err(GSLoginFailReasons::AlreadyRegistered)
    } else {
        Ok(())
    }
}

/// Whether two strings hold the same characters.
fn str_eq(a: &str, b: &str) -> (r: bool)
    ensures
        r == (a@ == b@),
{
    let n = a.unicode_len();
    if n != b.unicode_len() {
        return false;
    }
    let mut i: usize = 0;
    while i < n
        invariant
            n == a@.len(),
            n == b@.len(),
            i <= n,
            forall|j: int| 0 <= j < i ==> a@[j] == b@[j],
        decreases n - i,
    {
        if a.get_char(i) != b.get_char(i) {
            return false;
        }
        i = i + 1;
    }
    assert(a@ =~= b@);
    true
}

/// The lowest id from `k` up to 127 that no game server holds.
pub open spec fn first_free_from(servers: Map<u8, GSInfo>, k: nat) -> Option<u8>
    decreases 128 - k,
{
    if k > MAX_GS_ID as nat {
        None
    } else if !servers.contains_key(k as u8) {
        Some(k as u8)
    } else {
        first_free_from(servers, k + 1)
    }
}

/// The server-list entries of the registered game servers with ids from 1 up to, not
/// including, `k`, in order of id.
pub open spec fn server_list_of(servers: Map<u8, GSInfo>, client_ip: u32, k: nat) -> Seq<ServerData>
    decreases k,
{
    if k <= MIN_GS_ID as nat {
        seq![]
    } else {
        let id = (k - 1) as u8;
        server_list_of(servers, client_ip, (k - 1) as nat) + if servers.contains_key(id) {
            seq![server_data_of(servers[id], client_ip)]
        } else {
            seq![]
        }
    }
}

/// Whether a configured hex key (as text bytes) names `id`.
fn key_matches(key: &[u8], id: &[u8]) -> (r: bool)
    ensures
        r == hex_matches(key@, id@),
{
    if key.len() % 2 != 0 || key.len() / 2 != id.len() {
        return false;
    }
    let mut i: usize = 0;
    while i < key.len()
        invariant
            key@.len() == 2 * id@.len(),
            i <= key@.len(),
            forall|j: int| 0 <= j < i ==> ascii_lower(#[trigger] key@[j]) == hex_digit(id@, j),
        decreases key@.len() - i,
    {
        let b = key[i];
        let lower: u8 = if 65 <= b && b <= 90 { b + 32 } else { b };
        let byte = id[i / 2];
        let v: u8 = if i % 2 == 0 { byte / 16 } else { byte % 16 };
        let digit: u8 = if v < 10 { 48 + v } else { 87 + v };
        if lower != digit {
            return false;
        }
        i = i + 1;
    }
    true
}

} // verus!
