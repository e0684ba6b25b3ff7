use vstd::prelude::*;

use crate::buffer::{le64, put_i64, put_str};
use crate::reader::{e_str, lemma_p_i64, lemma_p_str, p_i64, p_str, ReadablePacketBuffer};
use crate::text::no_nul;

verus! {

/// The characters of each string.
pub open spec fn strings_view(v: Seq<String>) -> Seq<Seq<char>> {
    v.map_values(|s: String| s@)
}

/// Strings one after the other, each NUL-terminated.
pub open spec fn strs_body(ss: Seq<Seq<char>>) -> Seq<u8>
    decreases ss.len(),
{
    if ss.len() == 0 {
        seq![]
    } else {
        e_str(ss[0]) + strs_body(ss.drop_first())
    }
}

/// `n` NUL-terminated strings off the front of `b`.
pub open spec fn p_strs(b: Seq<u8>, n: nat) -> Option<(Seq<Seq<char>>, Seq<u8>)>
    decreases n,
{
    if n == 0 {
        Some((seq![], b))
    } else {
        match p_str(b) {
            None => None,
            Some((s, b2)) => match p_strs(b2, (n - 1) as nat) {
                None => None,
                Some((t, b3)) => Some((seq![s] + t, b3)),
            },
        }
    }
}

/// No string of the list holds a NUL.
pub open spec fn all_no_nul(ss: Seq<Seq<char>>) -> bool {
    forall|i: int| 0 <= i < ss.len() ==> no_nul(#[trigger] ss[i])
}

pub proof fn lemma_p_strs(ss: Seq<Seq<char>>, rest: Seq<u8>)
    requires
        all_no_nul(ss),
    ensures
        p_strs(strs_body(ss) + rest, ss.len()) == Some((ss, rest)),
    decreases ss.len(),
{
    if ss.len() > 0 {
        let t = ss.drop_first();
        assert(all_no_nul(t)) by {
            assert forall|i: int| 0 <= i < t.len() implies no_nul(#[trigger] t[i]) by {
                assert(t[i] == ss[i + 1]);
            }
        }
        assert(no_nul(ss[0]));
        lemma_p_strs(t, rest);
        assert(strs_body(ss) + rest =~= e_str(ss[0]) + (strs_body(t) + rest));
        lemma_p_str(ss[0], strs_body(t) + rest);
        assert(seq![ss[0]] + t =~= ss);
    }
}

/// Integers one after the other, eight bytes each.
pub open spec fn i64s_body(v: Seq<i64>) -> Seq<u8>
    decreases v.len(),
{
    if v.len() == 0 {
        seq![]
    } else {
        le64(v[0]) + i64s_body(v.drop_first())
    }
}

/// `n` integers off the front of `b`.
pub open spec fn p_i64s(b: Seq<u8>, n: nat) -> Option<(Seq<i64>, Seq<u8>)>
    decreases n,
{
    if n == 0 {
        Some((seq![], b))
    } else {
        match p_i64(b) {
            None => None,
            Some((x, b2)) => match p_i64s(b2, (n - 1) as nat) {
                None => None,
                Some((t, b3)) => Some((seq![x] + t, b3)),
            },
        }
    }
}

pub proof fn lemma_p_i64s(v: Seq<i64>, rest: Seq<u8>)
    ensures
        p_i64s(i64s_body(v) + rest, v.len()) == Some((v, rest)),
    decreases v.len(),
{
    if v.len() > 0 {
        let t = v.drop_first();
        lemma_p_i64s(t, rest);
        assert(i64s_body(v) + rest =~= le64(v[0]) + (i64s_body(t) + rest));
        lemma_p_i64(v[0], i64s_body(t) + rest);
        assert(seq![v[0]] + t =~= v);
    }
}

/// Appends each string, NUL-terminated.
pub fn put_strs(b: &mut Vec<u8>, ss: &Vec<String>)
    ensures
        final(b)@ == old(b)@ + strs_body(strings_view(ss@)),
{
    let n = ss.len();
    let mut i: usize = 0;
    assert(strings_view(ss@).skip(0) =~= strings_view(ss@));
    while i < n
        invariant
            n == ss@.len(),
            i <= n,
            b@ + strs_body(strings_view(ss@).skip(i as int)) == old(b)@ + strs_body(strings_view(ss@)),
        decreases n - i,
    {
        let ghost sv = strings_view(ss@).skip(i as int);
        assert(sv[0] == ss@[i as int]@);
        assert(sv.drop_first() =~= strings_view(ss@).skip(i + 1));
        put_str(b, ss[i].as_str());
        i = i + 1;
    }
    assert(strings_view(ss@).skip(n as int) =~= Seq::<Seq<char>>::empty());
    assert(b@ + Seq::<u8>::empty() =~= b@);
}

/// Appends each integer, little-endian.
pub fn put_i64s(b: &mut Vec<u8>, v: &Vec<i64>)
    ensures
        final(b)@ == old(b)@ + i64s_body(v@),
{
    let n = v.len();
    let mut i: usize = 0;
    assert(v@.skip(0) =~= v@);
    while i < n
        invariant
            n == v@.len(),
            i <= n,
            b@ + i64s_body(v@.skip(i as int)) == old(b)@ + i64s_body(v@),
        decreases n - i,
    {
        let ghost sv = v@.skip(i as int);
        assert(sv.drop_first() =~= v@.skip(i + 1));
        put_i64(b, v[i]);
        i = i + 1;
    }
    assert(v@.skip(n as int) =~= Seq::<i64>::empty());
    assert(b@ + Seq::<u8>::empty() =~= b@);
}

/// Reads `n` NUL-terminated strings.
pub fn read_strs(rd: &mut ReadablePacketBuffer, n: usize) -> (r: Option<Vec<String>>)
    requires
        old(rd).wf(),
    ensures
        final(rd).wf(),
        match p_strs(old(rd).rest(), n as nat) {
            Some((ss, rest)) => r is Some && strings_view(r->Some_0@) == ss && final(rd).rest() == rest,
            None => r is None,
        },
        r is Some ==> r->Some_0@.len() == n,
{
    let mut out: Vec<String> = Vec::new();
    let mut i: usize = 0;
    while i < n
        invariant
            rd.wf(),
            i <= n,
            out@.len() == i,
            p_strs(old(rd).rest(), n as nat) == match p_strs(rd.rest(), (n - i) as nat) {
                Some((t, rest)) => Some((strings_view(out@) + t, rest)),
                None => None::<(Seq<Seq<char>>, Seq<u8>)>,
            },
        decreases n - i,
    {
        let ghost before = rd.rest();
        let s = match rd.read_string() {
            Some(s) => s,
            None => {
                return None;
            },
        };
        proof {
            let k = (n - i) as nat;
            assert(p_str(before) == Some((s@, rd.rest())));
            match p_strs(rd.rest(), (k - 1) as nat) {
                Some((t, rest)) => {
                    assert(strings_view(out@.push(s)) =~= strings_view(out@).push(s@));
                    assert(strings_view(out@).push(s@) + t =~= strings_view(out@) + (seq![s@] + t));
                },
                None => {},
            }
        }
        out.push(s);
        i = i + 1;
    }
    assert(strings_view(out@) + Seq::<Seq<char>>::empty() =~= strings_view(out@));
    Some(out)
}

/// Reads `n` little-endian integers.
pub fn read_i64s(rd: &mut ReadablePacketBuffer, n: usize) -> (r: Option<Vec<i64>>)
    requires
        old(rd).wf(),
    ensures
        final(rd).wf(),
        match p_i64s(old(rd).rest(), n as nat) {
            Some((v, rest)) => r is Some && r->Some_0@ == v && final(rd).rest() == rest,
            None => r is None,
        },
{
    let mut out: Vec<i64> = Vec::new();
    let mut i: usize = 0;
    while i < n
        invariant
            rd.wf(),
            i <= n,
            p_i64s(old(rd).rest(), n as nat) == match p_i64s(rd.rest(), (n - i) as nat) {
                Some((t, rest)) => Some((out@ + t, rest)),
                None => None::<(Seq<i64>, Seq<u8>)>,
            },
        decreases n - i,
    {
        let ghost before = rd.rest();
        let x = match rd.read_i64() {
            Some(x) => x,
            None => {
                return None;
            },
        };
        proof {
            let k = (n - i) as nat;
            assert(p_i64(before) == Some((x, rd.rest())));
            match p_i64s(rd.rest(), (k - 1) as nat) {
                Some((t, rest)) => {
                    assert(out@.push(x) + t =~= out@ + (seq![x] + t));
                },
                None => {},
            }
        }
        out.push(x);
        i = i + 1;
    }
    assert(out@ + Seq::<i64>::empty() =~= out@);
    Some(out)
}

} // verus!
