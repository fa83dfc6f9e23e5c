//! Verified core of a two-tier real-time communications backend: the state
//! machines of a cluster of selective-forwarding media nodes, the call broker
//! that places calls on those nodes, the cluster-bus event model that links
//! them, and the binary-framed RPC session layer that clients speak to.
//!
//! Everything that computes or decides lives here with a contract; the
//! unverifiable edges (sockets, the shared key-value broker, the document
//! store, the RTC engine) live outside and feed plain values in.
use vstd::prelude::*;

pub mod api;
pub mod encryption;
pub mod errors;
pub mod node;
pub mod peer;
pub mod rtc;
pub mod permissions;
pub mod calls;
pub mod channels;
pub mod emojis;
pub mod events;
pub mod infractions;
pub mod invites;
pub mod messages;
pub mod scopes;
pub mod socket;
pub mod members;
pub mod methods;
pub mod roles;
pub mod spaces;
pub mod users;
pub mod webrtc;

verus! {

/// True when `member` occurs in `members`.
pub open spec fn spec_contains_id(members: Seq<String>, member: Seq<char>) -> bool {
    exists|i: int| 0 <= i < members.len() && members[i]@ == member
}

/// Linear search for an id in a list of ids.
pub fn contains_id(members: &Vec<String>, member: &String) -> (r: bool)
    ensures
        r == spec_contains_id(members@, member@),
{
    let mut i: usize = 0;
    while i < members.len()
        invariant
            0 <= i <= members@.len(),
            forall|j: int| 0 <= j < i ==> members@[j]@ != member@,
        decreases members@.len() - i,
    {
        let hit = members[i].eq(member);
        if hit {
            assert(members@[i as int]@ == member@);
            return true;
        }
        assert(members@[i as int]@ != member@);
        i += 1;
    }
    false
}

/// Whether two string slices hold the same characters.
pub fn str_eq(a: &str, b: &str) -> (r: bool)
    ensures
        r == (a@ == b@),
{
    a.to_owned().eq(&b.to_owned())
}

/// The first index of `s` satisfying `p`, or -1 when none does.
pub open spec fn first_where<A>(s: Seq<A>, p: spec_fn(A) -> bool) -> int
    decreases s.len(),
{
    if s.len() == 0 {
        -1
    } else if p(s[0]) {
        0
    } else {
        let r = first_where(s.drop_first(), p);
        if r == -1 {
            -1
        } else {
            r + 1
        }
    }
}

/// What `first_where` finds: -1 means no index matches; otherwise the result
/// is the least matching index.
pub proof fn lemma_first_where<A>(s: Seq<A>, p: spec_fn(A) -> bool)
    ensures
        first_where(s, p) == -1 ==> forall|i: int| 0 <= i < s.len() ==> !p(s[i]),
        first_where(s, p) != -1 ==> 0 <= first_where(s, p) < s.len() && p(
            s[first_where(s, p)],
        ) && forall|i: int| 0 <= i < first_where(s, p) ==> !p(s[i]),
    decreases s.len(),
{
    if s.len() == 0 {
    } else if p(s[0]) {
    } else {
        let sub = s.drop_first();
        lemma_first_where(sub, p);
        let r = first_where(sub, p);
        assert(forall|i: int| 0 <= i < sub.len() ==> sub[i] == s[i + 1]);
        if r == -1 {
            assert(first_where(s, p) == -1);
            assert forall|i: int| 0 <= i < s.len() implies !p(s[i]) by {
                if i > 0 {
                    assert(sub[i - 1] == s[i]);
                }
            }
        } else {
            assert(first_where(s, p) == r + 1);
            assert(s[r + 1] == sub[r]);
            assert forall|i: int| 0 <= i < r + 1 implies !p(s[i]) by {
                if i > 0 {
                    assert(sub[i - 1] == s[i]);
                }
            }
        }
    }
}

/// Filtering a sequence extended by one element keeps the element exactly
/// when it satisfies the predicate.
pub proof fn lemma_filter_push<A>(s: Seq<A>, p: spec_fn(A) -> bool, x: A)
    ensures
        s.push(x).filter(p) == if p(x) {
            s.filter(p).push(x)
        } else {
            s.filter(p)
        },
{
    reveal(Seq::filter);
    assert(s.push(x).drop_last() =~= s);
    assert(s.push(x).last() == x);
}

/// Filtering keeps a sequence whole when every element satisfies the
/// predicate.
pub proof fn lemma_filter_all<A>(s: Seq<A>, p: spec_fn(A) -> bool)
    requires
        forall|i: int| 0 <= i < s.len() ==> p(#[trigger] s[i]),
    ensures
        s.filter(p) == s,
    decreases s.len(),
{
    reveal(Seq::filter);
    if s.len() > 0 {
        lemma_filter_all(s.drop_last(), p);
        assert(s.drop_last().filter(p).push(s.last()) =~= s);
    } else {
        assert(s.filter(p) =~= s);
    }
}

/// ASCII whitespace, as trimming understands it.
pub open spec fn spec_is_ws(b: u8) -> bool {
    b == 32 || b == 9 || b == 10 || b == 13
}

/// The last index of `s` holding something other than whitespace, or -1.
pub open spec fn spec_last_non_ws(s: Seq<u8>) -> int
    decreases s.len(),
{
    if s.len() == 0 {
        -1
    } else if !spec_is_ws(s.last()) {
        s.len() - 1
    } else {
        spec_last_non_ws(s.drop_last())
    }
}

/// `s` without leading and trailing ASCII whitespace. Text is handled as
/// UTF-8 bytes; multi-byte characters contain no bytes in the ASCII range,
/// so trimming never splits one.
pub open spec fn spec_trim(s: Seq<u8>) -> Seq<u8> {
    let start = first_where(s, |b: u8| !spec_is_ws(b));
    if start == -1 {
        Seq::empty()
    } else {
        s.subrange(start, spec_last_non_ws(s) + 1)
    }
}

/// Position facts about the last non-whitespace byte.
pub proof fn lemma_last_non_ws(s: Seq<u8>)
    ensures
        spec_last_non_ws(s) == -1 ==> forall|i: int| 0 <= i < s.len() ==> spec_is_ws(s[i]),
        spec_last_non_ws(s) != -1 ==> 0 <= spec_last_non_ws(s) < s.len() && !spec_is_ws(
            s[spec_last_non_ws(s)],
        ) && forall|i: int| spec_last_non_ws(s) < i < s.len() ==> spec_is_ws(s[i]),
    decreases s.len(),
{
    if s.len() > 0 && spec_is_ws(s.last()) {
        lemma_last_non_ws(s.drop_last());
        assert(forall|i: int| 0 <= i < s.len() - 1 ==> s.drop_last()[i] == s[i]);
    }
}

/// A copy of `v` without leading and trailing ASCII whitespace.
pub fn trim_bytes(v: &Vec<u8>) -> (r: Vec<u8>)
    ensures
        r@ == spec_trim(v@),
{
    let ghost p = |b: u8| !spec_is_ws(b);
    let mut start: usize = 0;
    while start < v.len() && (v[start as usize] == 32 || v[start] == 9 || v[start] == 10 || v[start]
        == 13)
        invariant
            0 <= start <= v@.len(),
            forall|j: int| 0 <= j < start ==> spec_is_ws(#[trigger] v@[j]),
        decreases v@.len() - start,
    {
        start += 1;
    }
    proof {
        lemma_first_where(v@, p);
        if start < v@.len() {
            assert(first_where(v@, p) == start as int);
        } else {
            assert(first_where(v@, p) == -1);
        }
    }
    if start == v.len() {
        return Vec::new();
    }
    let mut end: usize = v.len();
    while end > start && (v[end - 1] == 32 || v[end - 1] == 9 || v[end - 1] == 10 || v[end - 1]
        == 13)
        invariant
            start < v@.len(),
            start <= end <= v@.len(),
            !spec_is_ws(v@[start as int]),
            forall|j: int| end <= j < v@.len() ==> spec_is_ws(#[trigger] v@[j]),
        decreases end,
    {
        end -= 1;
    }
    proof {
        lemma_last_non_ws(v@);
        assert(!spec_is_ws(v@[end - 1]));
        assert(spec_last_non_ws(v@) == end - 1);
    }
    let mut out: Vec<u8> = Vec::new();
    let mut i: usize = start;
    while i < end
        invariant
            start <= i <= end <= v@.len(),
            out@ == v@.subrange(start as int, i as int),
        decreases end - i,
    {
        out.push(v[i]);
        assert(out@ =~= v@.subrange(start as int, i + 1));
        i += 1;
    }
    out
}

} // verus!
