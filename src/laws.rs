use vstd::prelude::*;

use crate::bus::{fresh_at, pending_key, stale_at, Pending};
use crate::controller::{register_outcome, GSInfo};
use crate::from_gs::{lemma_player_auth_request_round_trip, parse_player_auth_request, player_auth_request_body};
use crate::registry::unique_keys;
use crate::session::SessionKey;
use crate::text::no_nul;
use crate::to_client::{
    lemma_login_ok_round_trip, lemma_play_ok_round_trip, login_ok_body, parse_login_ok,
    parse_play_ok, play_ok_body,
};
use crate::to_gs::GSLoginFailReasons;

verus! {

/// Registering a game server under a free id and then removing that id leaves the
/// registry as it was.
pub proof fn lemma_register_then_remove(m: Map<u8, GSInfo>, g: GSInfo)
    requires
        !m.contains_key(g.id),
    ensures
        m.insert(g.id, g).remove(g.id) == m,
        m.insert(g.id, g).contains_key(g.id),
{
    assert(m.insert(g.id, g).remove(g.id) =~= m);
}

/// One change to the game-server registry.
pub enum GsOp {
    Register(GSInfo),
    Remove(u8),
}

/// The registry after one change, as `register_gs` and `remove_gs` make it.
pub open spec fn apply_op(allowed: Option<Seq<Vec<u8>>>, m: Map<u8, GSInfo>, op: GsOp) -> Map<u8, GSInfo> {
    match op {
        GsOp::Register(g) => if register_outcome(allowed, m, g.id, g.hex_id@) is Ok {
            m.insert(g.id, g)
        } else {
            m
        },
        GsOp::Remove(id) => m.remove(id),
    }
}

/// The registry after a sequence of changes.
pub open spec fn replay(allowed: Option<Seq<Vec<u8>>>, m: Map<u8, GSInfo>, ops: Seq<GsOp>) -> Map<u8, GSInfo>
    decreases ops.len(),
{
    if ops.len() == 0 {
        m
    } else {
        apply_op(allowed, replay(allowed, m, ops.drop_last()), ops.last())
    }
}

/// Whether a change is a registration under `id`.
pub open spec fn registers(op: GsOp, id: u8) -> bool {
    match op {
        GsOp::Register(g) => g.id == id,
        GsOp::Remove(_) => false,
    }
}

/// Whether a change removes `id`.
pub open spec fn removes(op: GsOp, id: u8) -> bool {
    match op {
        GsOp::Register(_) => false,
        GsOp::Remove(x) => x == id,
    }
}

/// After any sequence of registrations and removals, an id is registered only if it
/// was registered before or a registration under it came after its last removal; an
/// id whose last change was a removal is not registered; and each id maps to an entry
/// that carries that id, so no id appears twice.
pub proof fn lemma_registry_balance(allowed: Option<Seq<Vec<u8>>>, m: Map<u8, GSInfo>, ops: Seq<GsOp>, id: u8)
    requires
        forall|k: u8| #[trigger] m.contains_key(k) ==> m[k].id == k,
    ensures
        replay(allowed, m, ops).contains_key(id) ==> replay(allowed, m, ops)[id].id == id,
        replay(allowed, m, ops).contains_key(id) ==> (exists|k: int|
            0 <= k < ops.len() && registers(#[trigger] ops[k], id) && forall|j: int|
                k < j < ops.len() ==> !removes(#[trigger] ops[j], id)) || (m.contains_key(id) && forall|
            j: int,
        | 0 <= j < ops.len() ==> !removes(#[trigger] ops[j], id)),
        ops.len() > 0 && removes(ops.last(), id) ==> !replay(allowed, m, ops).contains_key(id),
    decreases ops.len(),
{
    if ops.len() > 0 {
        let p = ops.drop_last();
        let last = ops.last();
        lemma_registry_balance(allowed, m, p, id);
        let before = replay(allowed, m, p);
        let after = replay(allowed, m, ops);
        assert(after == apply_op(allowed, before, last));
        if after.contains_key(id) {
            match last {
                GsOp::Register(g) => {
                    if g.id == id && register_outcome(allowed, before, g.id, g.hex_id@) is Ok {
                        assert(registers(ops[ops.len() - 1], id));
                    } else {
                        assert(before.contains_key(id));
                        if exists|k: int|
                            0 <= k < p.len() && registers(#[trigger] p[k], id) && forall|j: int|
                                k < j < p.len() ==> !removes(#[trigger] p[j], id) {
                            let k = choose|k: int|
                                0 <= k < p.len() && registers(#[trigger] p[k], id) && forall|j: int|
                                    k < j < p.len() ==> !removes(#[trigger] p[j], id);
                            assert(registers(ops[k], id));
                            assert forall|j: int| k < j < ops.len() implies !removes(#[trigger] ops[j], id) by {
                                if j < p.len() {
                                    assert(ops[j] == p[j]);
                                }
                            }
                        } else {
                            assert forall|j: int| 0 <= j < ops.len() implies !removes(#[trigger] ops[j], id) by {
                                if j < p.len() {
                                    assert(ops[j] == p[j]);
                                }
                            }
                        }
                    }
                },
                GsOp::Remove(x) => {
                    assert(x != id);
                    assert(before.contains_key(id));
                    if exists|k: int|
                        0 <= k < p.len() && registers(#[trigger] p[k], id) && forall|j: int|
                            k < j < p.len() ==> !removes(#[trigger] p[j], id) {
                        let k = choose|k: int|
                            0 <= k < p.len() && registers(#[trigger] p[k], id) && forall|j: int|
                                k < j < p.len() ==> !removes(#[trigger] p[j], id);
                        assert(registers(ops[k], id));
                        assert forall|j: int| k < j < ops.len() implies !removes(#[trigger] ops[j], id) by {
                            if j < p.len() {
                                assert(ops[j] == p[j]);
                            }
                        }
                    } else {
                        assert forall|j: int| 0 <= j < ops.len() implies !removes(#[trigger] ops[j], id) by {
                            if j < p.len() {
                                assert(ops[j] == p[j]);
                            }
                        }
                    }
                },
            }
        }
    }
}

/// The registrations of a list of descriptors, in order.
pub open spec fn registrations(gs: Seq<GSInfo>) -> Seq<GsOp> {
    gs.map_values(|g: GSInfo| GsOp::Register(g))
}

/// Of k registrations under one free id, each with a key that may register, the first
/// succeeds, every later one is refused as already registered, and the entry is the
/// first one's.
pub proof fn lemma_same_id_registrations(
    allowed: Option<Seq<Vec<u8>>>,
    m: Map<u8, GSInfo>,
    gs: Seq<GSInfo>,
    id: u8,
)
    requires
        gs.len() > 0,
        !m.contains_key(id),
        forall|i: int| 0 <= i < gs.len() ==> (#[trigger] gs[i]).id == id,
        forall|i: int| 0 <= i < gs.len() ==> register_outcome(allowed, m, id, (#[trigger] gs[i]).hex_id@) is Ok,
    ensures
        replay(allowed, m, registrations(gs)) == m.insert(id, gs[0]),
        forall|i: int|
            0 < i < gs.len() ==> register_outcome(
                allowed,
                replay(allowed, m, registrations(gs.take(i))),
                id,
                (#[trigger] gs[i]).hex_id@,
            ) == Err::<(), GSLoginFailReasons>(GSLoginFailReasons::AlreadyRegistered),
    decreases gs.len(),
{
    let ops = registrations(gs);
    if gs.len() == 1 {
        assert(ops.drop_last() =~= Seq::<GsOp>::empty());
        assert(replay(allowed, m, ops.drop_last()) == m);
        assert(ops.last() == GsOp::Register(gs[0]));
        assert(register_outcome(allowed, m, id, gs[0].hex_id@) is Ok);
        assert(replay(allowed, m, ops) == apply_op(allowed, m, GsOp::Register(gs[0])));
    } else {
        let p = gs.drop_last();
        lemma_same_id_registrations(allowed, m, p, id);
        assert(ops.drop_last() =~= registrations(p));
        assert(ops.last() == GsOp::Register(gs.last()));
        let before = replay(allowed, m, registrations(p));
        assert(before == m.insert(id, gs[0]));
        assert(before.contains_key(id));
        assert(register_outcome(allowed, m, id, gs[gs.len() - 1].hex_id@) is Ok);
        assert(register_outcome(allowed, before, id, gs.last().hex_id@) is Err);
        assert(replay(allowed, m, ops) == apply_op(allowed, before, GsOp::Register(gs.last())));
        assert forall|i: int|
            0 < i < gs.len() implies register_outcome(
                allowed,
                replay(allowed, m, registrations(gs.take(i))),
                id,
                (#[trigger] gs[i]).hex_id@,
            ) == Err::<(), GSLoginFailReasons>(GSLoginFailReasons::AlreadyRegistered) by {
            if i < gs.len() - 1 {
                assert(gs.take(i) =~= p.take(i));
                assert(gs[i] == p[i]);
            } else {
                assert(gs.take(i) =~= p);
            }
        }
    }
}

/// A successful registration adds exactly one entry and a removal of a registered id
/// takes exactly one away.
pub proof fn lemma_registry_count(m: Map<u8, GSInfo>, g: GSInfo, id: u8)
    requires
        m.dom().finite(),
    ensures
        !m.contains_key(g.id) ==> m.insert(g.id, g).dom().len() == m.dom().len() + 1,
        m.contains_key(id) ==> m.remove(id).dom().len() == m.dom().len() - 1,
{
    if !m.contains_key(g.id) {
        assert(m.insert(g.id, g).dom() =~= m.dom().insert(g.id));
    }
    if m.contains_key(id) {
        assert(m.remove(id).dom() =~= m.dom().remove(id));
    }
}

/// Of two registrations of the same id, at most the first succeeds: once one has
/// succeeded, the other is refused.
pub proof fn lemma_one_registration_per_id(
    allowed: Option<Seq<Vec<u8>>>,
    m: Map<u8, GSInfo>,
    g1: GSInfo,
    g2: GSInfo,
)
    requires
        g1.id == g2.id,
        register_outcome(allowed, m, g1.id, g1.hex_id@) is Ok,
    ensures
        register_outcome(allowed, m.insert(g1.id, g1), g2.id, g2.hex_id@) is Err,
        register_outcome(allowed, m, g2.id, g2.hex_id@) is Ok ==> register_outcome(
            allowed,
            m.insert(g1.id, g1),
            g2.id,
            g2.hex_id@,
        ) == Err::<(), GSLoginFailReasons>(GSLoginFailReasons::AlreadyRegistered),
{
    assert(m.insert(g1.id, g1).contains_key(g2.id));
}

/// A reply ends its request: once the request with id `id` is taken out, no other
/// outstanding request has that id, so a second reply finds nothing.
pub proof fn lemma_reply_ends_request<T>(s: Seq<Pending<T>>, i: int)
    requires
        unique_keys(s, pending_key()),
        0 <= i < s.len(),
    ensures
        forall|j: int| 0 <= j < s.remove(i).len() ==> s.remove(i)[j].id@ != s[i].id@,
{
    assert forall|j: int| 0 <= j < s.remove(i).len() implies s.remove(i)[j].id@ != s[i].id@ by {
        let j2 = if j < i { j } else { j + 1 };
        assert(s.remove(i)[j] == s[j2]);
        assert(pending_key::<T>()(s[j2]) != pending_key::<T>()(s[i]));
    }
}

/// A deadline splits the outstanding requests: each is either kept or ended, never
/// both and never neither.
pub proof fn lemma_expiry_partitions<T>(s: Seq<Pending<T>>, now: u64, max_age: u64)
    ensures
        s.filter(fresh_at(now, max_age)).len() + s.filter(stale_at(now, max_age)).len() == s.len(),
    decreases s.len(),
{
    reveal(Seq::filter);
    if s.len() > 0 {
        lemma_expiry_partitions(s.drop_last(), now, max_age);
    }
}

/// The session key goes through the wire unchanged: the login half in `LoginOk`, the
/// play half in `PlayOk`, and the whole key as a game server forwards it in
/// `PlayerAuthRequest` all read back bit for bit.
pub proof fn lemma_session_key_round_trip(key: SessionKey, account: Seq<char>)
    requires
        no_nul(account),
    ensures
        parse_login_ok(login_ok_body(key.login_ok1, key.login_ok2)) == Some((key.login_ok1, key.login_ok2)),
        parse_play_ok(play_ok_body(key.play_ok1, key.play_ok2)) == Some((key.play_ok1, key.play_ok2)),
        parse_player_auth_request(player_auth_request_body(account, key)) == Some((account, key)),
{
    lemma_login_ok_round_trip(key.login_ok1, key.login_ok2);
    lemma_play_ok_round_trip(key.play_ok1, key.play_ok2);
    lemma_player_auth_request_round_trip(account, key);
}

} // verus!
