use vstd::prelude::*;

use crate::registry::unique_keys;

verus! {

/// Largest number of requests waiting in one game server's outbound queue.
pub const QUEUE_CAPACITY: usize = 100;

/// A request sent to a game server and waiting for its reply. `handle` is whatever
/// the caller resolves when the request ends (a one-shot sender, say).
pub struct Pending<T> {
    pub id: String,
    pub sent_at: u64,
    pub handle: T,
}

pub open spec fn pending_key<T>() -> spec_fn(Pending<T>) -> Seq<char> {
    |p: Pending<T>| p.id@
}

/// Whether a request sent at `sent_at` has waited longer than `max_age` at `now`.
pub open spec fn is_stale(sent_at: u64, now: u64, max_age: u64) -> bool {
    now >= sent_at && now - sent_at > max_age
}

/// Requests still within their deadline at `now`.
pub open spec fn fresh_at<T>(now: u64, max_age: u64) -> spec_fn(Pending<T>) -> bool {
    |p: Pending<T>| !is_stale(p.sent_at, now, max_age)
}

/// Requests past their deadline at `now`.
pub open spec fn stale_at<T>(now: u64, max_age: u64) -> spec_fn(Pending<T>) -> bool {
    |p: Pending<T>| is_stale(p.sent_at, now, max_age)
}

/// The handles of some requests, in order.
pub open spec fn handles<T>(s: Seq<Pending<T>>) -> Seq<T> {
    s.map_values(|p: Pending<T>| p.handle)
}

/// The requests that one game server owes a reply to, by correlation id. At most one
/// request per id is outstanding.
pub struct PendingRequests<T> {
    entries: Vec<Pending<T>>,
}

/// Whether a new request may join a queue that already holds `queued` requests.
pub fn can_enqueue(queued: usize) -> (r: bool)
    ensures
        r == (queued < QUEUE_CAPACITY),
{
    queued < QUEUE_CAPACITY
}

/// What to do with a request taken from a game server's queue.
#[derive(Debug, Clone, Copy, PartialEq, Eq)]
pub enum SendStep {
    /// A request with the same id is still outstanding: end this one with no reply and
    /// do not send it.
    Duplicate,
    /// Send it, then `record` it; if the send fails, end it with no reply.
    Send,
}

impl<T> PendingRequests<T> {
    /// Decides what to do with a request before anything is written to the link.
    pub fn next_step(&self, id: &str) -> (r: SendStep)
        ensures
            r == SendStep::Duplicate <==> exists|i: int| 0 <= i < self.view().len() && self.view()[i].id@ == id@,
    {
        match self.find(id) {
            Some(_) => SendStep::Duplicate,
            None => SendStep::Send,
        }
    }

    /// The outstanding requests, oldest first.
    pub closed spec fn view(&self) -> Seq<Pending<T>> {
        self.entries@
    }

    pub open spec fn wf(&self) -> bool {
        unique_keys(self.view(), pending_key())
    }

    pub fn new() -> (r: Self)
        ensures
            r.wf(),
            r.view() == Seq::<Pending<T>>::empty(),
    {
        PendingRequests { entries: Vec::new() }
    }

    pub fn len(&self) -> (r: usize)
        ensures
            r == self.view().len(),
    {
        self.entries.len()
    }

    fn find(&self, id: &str) -> (r: Option<usize>)
        ensures
            match r {
                Some(i) => i < self.view().len() && self.view()[i as int].id@ == id@,
                None => forall|i: int| 0 <= i < self.view().len() ==> self.view()[i].id@ != id@,
            },
    {
        let mut i: usize = 0;
        while i < self.entries.len()
            invariant
                i <= self.entries@.len(),
                forall|j: int| 0 <= j < i ==> self.entries@[j].id@ != id@,
            decreases self.entries@.len() - i,
        {
            if str_same(self.entries[i].id.as_str(), id) {
                return Some(i);
            }
            i = i + 1;
        }
        None
    }

    /// Records a request that was just sent. When a request with the same id is still
    /// outstanding the new one is not recorded: its handle comes back, to be resolved
    /// with no reply.
    pub fn record(&mut self, id: String, sent_at: u64, handle: T) -> (r: Result<(), T>)
        requires
            old(self).wf(),
        ensures
            final(self).wf(),
            r is Err <==> exists|i: int| 0 <= i < old(self).view().len() && old(self).view()[i].id@ == id@,
            r is Ok ==> final(self).view() == old(self).view().push(Pending { id, sent_at, handle }),
            r is Err ==> final(self).view() == old(self).view() && r == Err::<(), T>(handle),
    {
        match self.find(id.as_str()) {
            Some(_) => Err(handle),
            None => {
                let p = Pending { id, sent_at, handle };
                proof {
                    let s = self.entries@;
                    let t = s.push(p);
                    assert forall|a: int, b: int| 0 <= a < b < t.len() implies pending_key::<T>()(t[a])
                        != pending_key::<T>()(t[b]) by {
                        if b < s.len() {
                            assert(t[a] == s[a] && t[b] == s[b]);
                        } else {
                            assert(t[a] == s[a]);
                        }
                    }
                }
                self.entries.push(p);
                Ok(())
            },
        }
    }

    /// Takes the request that a reply with correlation id `id` answers; `None` when no
    /// such request is outstanding.
    pub fn take_reply(&mut self, id: &str) -> (r: Option<T>)
        requires
            old(self).wf(),
        ensures
            final(self).wf(),
            r is None <==> forall|i: int| 0 <= i < old(self).view().len() ==> old(self).view()[i].id@ != id@,
            r is None ==> final(self).view() == old(self).view(),
            r is Some ==> exists|i: int|
                0 <= i < old(self).view().len() && old(self).view()[i].id@ == id@ && r == Some(
                    old(self).view()[i].handle,
                ) && final(self).view() == old(self).view().remove(i),
    {
        match self.find(id) {
            Some(i) => {
                let ghost s = self.entries@;
                let p = self.entries.remove(i);
                proof {
                    let t = s.remove(i as int);
                    assert forall|a: int, b: int| 0 <= a < b < t.len() implies pending_key::<T>()(t[a])
                        != pending_key::<T>()(t[b]) by {
                        let a2 = if a < i { a } else { a + 1 };
                        let b2 = if b < i { b } else { b + 1 };
                        assert(t[a] == s[a2] && t[b] == s[b2]);
                    }
                }
                Some(p.handle)
            },
            None => None,
        }
    }

    /// Ends every outstanding request, as when the game server disconnects: all handles
    /// come back, oldest first, to be resolved with no reply.
    pub fn drain_all(&mut self) -> (r: Vec<T>)
        requires
            old(self).wf(),
        ensures
            final(self).wf(),
            final(self).view() == Seq::<Pending<T>>::empty(),
            r@ == old(self).view().map_values(|p: Pending<T>| p.handle),
    {
        let mut out: Vec<T> = Vec::new();
        let ghost s = self.entries@;
        let mut rest: Vec<Pending<T>> = Vec::new();
        std::mem::swap(&mut rest, &mut self.entries);
        assert(rest@ == s);
        let mut i: usize = 0;
        let n = rest.len();
        while rest.len() > 0
            invariant
                n == s.len(),
                rest@ == s.skip(i as int),
                i <= n,
                out@ == s.take(i as int).map_values(|p: Pending<T>| p.handle),
                self.entries@ == Seq::<Pending<T>>::empty(),
            decreases rest@.len(),
        {
            let p = rest.remove(0);
            out.push(p.handle);
            proof {
                assert(s.skip(i as int)[0] == p);
                assert(rest@ =~= s.skip(i + 1));
                assert(out@ =~= s.take(i + 1).map_values(|p: Pending<T>| p.handle));
            }
            i = i + 1;
        }
        assert(i == n);
        assert(s.take(n as int) =~= s);
        out
    }

    /// Ends the requests that have waited more than `max_age` at `now`: their handles
    /// come back, oldest first, and the others stay in order.
    pub fn expire(&mut self, now: u64, max_age: u64) -> (r: Vec<T>)
        requires
            old(self).wf(),
        ensures
            final(self).wf(),
            final(self).view() == old(self).view().filter(fresh_at(now, max_age)),
            r@ == handles(old(self).view().filter(stale_at(now, max_age))),
    {
        let ghost s = self.entries@;
        let ghost fresh = fresh_at::<T>(now, max_age);
        let ghost stale = stale_at::<T>(now, max_age);
        let mut rest: Vec<Pending<T>> = Vec::new();
        std::mem::swap(&mut rest, &mut self.entries);
        let mut out: Vec<T> = Vec::new();
        let mut i: usize = 0;
        let n = rest.len();
        assert(s.take(0).filter(fresh) =~= Seq::<Pending<T>>::empty());
        assert(s.take(0).filter(stale) =~= Seq::<Pending<T>>::empty());
        while rest.len() > 0
            invariant
                n == s.len(),
                i <= n,
                rest@ == s.skip(i as int),
                self.entries@ == s.take(i as int).filter(fresh),
                out@ == handles(s.take(i as int).filter(stale)),
                unique_keys(s, pending_key()),
                fresh == fresh_at::<T>(now, max_age),
                stale == stale_at::<T>(now, max_age),
            decreases rest@.len(),
        {
            let p = rest.remove(0);
            proof {
                assert(s.skip(i as int)[0] == p);
                assert(rest@ =~= s.skip(i + 1));
                assert(s.take(i + 1) =~= s.take(i as int).push(p));
                reveal(Seq::filter);
                assert(s.take(i + 1).drop_last() =~= s.take(i as int));
                assert(s.take(i + 1).last() == p);
            }
            let old_enough = now >= p.sent_at && now - p.sent_at > max_age;
            let ghost pg = p;
            assert(old_enough == is_stale(pg.sent_at, now, max_age));
            assert(stale(pg) == is_stale(pg.sent_at, now, max_age));
            assert(fresh(pg) == !is_stale(pg.sent_at, now, max_age));
            if old_enough {
                proof {
                    assert(stale(pg));
                    assert(s.take(i + 1).filter(stale) == s.take(i as int).filter(stale).push(pg));
                    assert(s.take(i + 1).filter(fresh) == s.take(i as int).filter(fresh));
                }
                out.push(p.handle);
                proof {
                    assert(out@ =~= handles(s.take(i + 1).filter(stale)));
                }
            } else {
                proof {
                    assert(fresh(pg));
                    assert(s.take(i + 1).filter(fresh) == s.take(i as int).filter(fresh).push(pg));
                    assert(s.take(i + 1).filter(stale) == s.take(i as int).filter(stale));
                }
                self.entries.push(p);
            }
            i = i + 1;
        }
        assert(s.take(n as int) =~= s);
        proof {
            lemma_filter_keeps_unique(s, fresh);
        }
        out
    }
}

/// Filtering keeps ids unique.
proof fn lemma_filter_keeps_unique<T>(s: Seq<Pending<T>>, f: spec_fn(Pending<T>) -> bool)
    requires
        unique_keys(s, pending_key()),
    ensures
        unique_keys(s.filter(f), pending_key()),
    decreases s.len(),
{
    reveal(Seq::filter);
    if s.len() > 0 {
        let p = s.drop_last();
        assert(unique_keys(p, pending_key())) by {
            assert forall|a: int, b: int| 0 <= a < b < p.len() implies pending_key::<T>()(p[a])
                != pending_key::<T>()(p[b]) by {
                assert(p[a] == s[a] && p[b] == s[b]);
            }
        }
        lemma_filter_keeps_unique(p, f);
        let fp = p.filter(f);
        if f(s.last()) {
            let t = fp.push(s.last());
            assert forall|j: int| 0 <= j < fp.len() implies pending_key::<T>()(fp[j]) != pending_key::<T>()(
                s.last(),
            ) by {
                assert(fp.contains(fp[j]));
                p.lemma_filter_contains_rev(f, fp[j]);
                let k = choose|k: int| 0 <= k < p.len() && p[k] == fp[j];
                assert(s[k] == p[k]);
            }
            assert forall|a: int, b: int| 0 <= a < b < t.len() implies pending_key::<T>()(t[a])
                != pending_key::<T>()(t[b]) by {
                if b == fp.len() {
                    assert(t[a] == fp[a]);
                } else {
                    assert(t[a] == fp[a] && t[b] == fp[b]);
                }
            }
        }
    }
}

/// Whether two strings hold the same characters.
fn str_same(a: &str, b: &str) -> (r: bool)
    ensures
        r == (a@ == b@),
{
    let n = a.unicode_len();
    if n != b.unicode_len() {
        return false;
    }
    let mut i: usize = 0;
    while i < n
        invariant
            n == a@.len(),
            n == b@.len(),
            i <= n,
            forall|j: int| 0 <= j < i ==> a@[j] == b@[j],
        decreases n - i,
    {
        if a.get_char(i) != b.get_char(i) {
            return false;
        }
        i = i + 1;
    }
    assert(a@ =~= b@);
    true
}

} // verus!
