use vstd::prelude::*;

use num::{BigInt, Num};
use vstd::utf8::encode_utf8;

verus! {

/// Where a listener binds, or where a connector connects.
#[derive(Debug, Clone)]
pub struct Connection {
    pub ip: String,
    pub port: u16,
}

/// How to reach the database.
#[derive(Debug, Clone)]
pub struct Database {
    pub url: String,
    pub max_connections: u32,
}

/// Size of the worker pool.
#[derive(Debug, Clone, Copy)]
pub struct Runtime {
    pub worker_threads: usize,
}

/// Whether `c` is a hexadecimal digit.
pub open spec fn is_hex_char(c: char) -> bool {
    ('0' <= c && c <= '9') || ('a' <= c && c <= 'f') || ('A' <= c && c <= 'F')
}

/// Digits with underscores between them, starting with a digit.
pub open spec fn hex_digits_ok(s: Seq<char>) -> bool {
    &&& s.len() > 0
    &&& s[0] != '_'
    &&& forall|i: int| 0 <= i < s.len() ==> is_hex_char(#[trigger] s[i]) || s[i] == '_'
}

/// An unsigned hexadecimal number, with an optional `+` (a second `+` is kept and
/// refused).
pub open spec fn unsigned_hex_ok(s: Seq<char>) -> bool {
    if s.len() > 0 && s[0] == '+' && !(s.len() > 1 && s[1] == '+') {
        hex_digits_ok(s.drop_first())
    } else {
        hex_digits_ok(s)
    }
}

/// A hexadecimal number as `num::BigInt::from_str_radix` takes it: an optional `-`
/// (not followed by `+`), then an unsigned number.
pub open spec fn bigint_hex_ok(s: Seq<char>) -> bool {
    if s.len() > 0 && s[0] == '-' && !(s.len() > 1 && s[1] == '+') {
        unsigned_hex_ok(s.drop_first())
    } else {
        unsigned_hex_ok(s)
    }
}

/// Relies on `num::BigInt::from_str_radix` in base 16 (num-bigint's `BigInt` strips
/// one `-`, `BigUint` one `+`, then refuses an empty string, a leading `_`, and any
/// byte that is neither a digit below 16 nor `_`).
#[verifier::external_body]
fn parses_as_hex_bigint(s: &str) -> (r: bool)
    ensures
        r == bigint_hex_ok(s@),
{
    BigInt::from_str_radix(s, 16).is_ok()
}

/// The first key that is not a hexadecimal number, if any.
pub fn validate_allowed_gs_keys(keys: &Vec<String>) -> (r: Result<(), usize>)
    ensures
        r is Ok <==> forall|i: int| 0 <= i < keys@.len() ==> bigint_hex_ok(#[trigger] keys@[i]@),
        r is Err ==> r->Err_0 < keys@.len() && !bigint_hex_ok(keys@[r->Err_0 as int]@),
{
    let mut i: usize = 0;
    while i < keys.len()
        invariant
            i <= keys@.len(),
            forall|j: int| 0 <= j < i ==> bigint_hex_ok(#[trigger] keys@[j]@),
        decreases keys@.len() - i,
    {
        if !parses_as_hex_bigint(keys[i].as_str()) {
            return Err(i);
        }
        i = i + 1;
    }
    Ok(())
}

/// A game server that may register, by the id it is meant to take.
#[derive(Debug, Clone, Copy)]
pub struct AllowedGS {
    pub server_id: u8,
}

#[derive(Debug, Clone, Copy)]
pub struct GSMessages {
    pub timeout: u8,
}

#[derive(Debug, Clone)]
pub struct GSListener {
    pub connection: Connection,
    pub messages: GSMessages,
}

#[derive(Debug, Clone)]
pub struct ClientListener {
    pub connection: Connection,
}

#[derive(Debug, Clone)]
pub struct Listeners {
    pub game_servers: GSListener,
    pub clients: ClientListener,
}

#[derive(Debug, Clone, Copy)]
pub struct Client {
    pub timeout: u8,
    pub show_licence: bool,
    pub enable_cmdline_login: bool,
}

/// The login server's configuration.
#[derive(Debug, Clone)]
pub struct Server {
    pub name: String,
    pub blowfish_key: String,
    pub runtime: Option<Runtime>,
    pub auto_registration: bool,
    /// Hex keys of the game servers that may register, when restricted.
    pub allowed_gs: Option<Vec<(String, AllowedGS)>>,
    pub listeners: Listeners,
    pub database: Database,
    pub client: Client,
}

impl Server {
    pub fn runtime(&self) -> (r: Option<Runtime>)
        ensures
            r == self.runtime,
    {
        self.runtime
    }

    pub fn database(&self) -> (r: &Database)
        ensures
            *r == self.database,
    {
        &self.database
    }

    /// The configured hex keys as text bytes, for the registry.
    pub fn allowed_hex_keys(&self) -> (r: Option<Vec<Vec<u8>>>)
        ensures
            self.allowed_gs is None <==> r is None,
            r is Some ==> r->Some_0@.len() == self.allowed_gs->Some_0@.len() && forall|i: int|
                0 <= i < r->Some_0@.len() ==> (#[trigger] r->Some_0@[i])@ == encode_utf8(
                    self.allowed_gs->Some_0@[i].0@,
                ),
    {
        match &self.allowed_gs {
            None => None,
            Some(v) => {
                let mut out: Vec<Vec<u8>> = Vec::new();
                let mut i: usize = 0;
                while i < v.len()
                    invariant
                        i <= v@.len(),
                        out@.len() == i,
                        forall|j: int| 0 <= j < i ==> (#[trigger] out@[j])@ == encode_utf8(v@[j].0@),
                    decreases v@.len() - i,
                {
                    out.push(vstd::slice::slice_to_vec(v[i].0.as_str().as_bytes()));
                    i = i + 1;
                }
                Some(out)
            },
        }
    }
}

} // verus!
