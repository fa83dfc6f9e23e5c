//! Role records and ordering.
use vstd::prelude::*;

verus! {

/// A role in a space: a bundle of permission flags with a position in the
/// space's role ladder. Higher positions outrank lower ones.
#[derive(Clone, Debug)]
pub struct Role {
    pub id: String,
    pub name: String,
    /// The permission flag word, as it travels on the wire.
    pub permissions: i64,
    pub color: Color,
    pub position: i32,
    pub space_id: String,
    pub scope_id: String,
}

#[derive(Clone, Copy, Debug, PartialEq, Eq, Structural)]
pub struct Color {
    pub red: i32,
    pub green: i32,
    pub blue: i32,
}

impl Role {
    /// The record as it stands after an edit.
    pub fn with_update(&self, name: String, permissions: i64, color: Color) -> (r: Role)
        ensures
            r.id@ == self.id@,
            r.name@ == name@,
            r.permissions == permissions,
            r.color == color,
            r.position == self.position,
            r.space_id@ == self.space_id@,
            r.scope_id@ == self.scope_id@,
    {
        Role {
            id: self.id.clone(),
            name,
            permissions,
            color,
            position: self.position,
            space_id: self.space_id.clone(),
            scope_id: self.scope_id.clone(),
        }
    }
}

/// Whether the positions of `roles` never increase: the order permission
/// evaluation walks them in.
pub open spec fn sorted_desc(roles: Seq<Role>) -> bool {
    forall|i: int, j: int|
        0 <= i < j < roles.len() ==> (#[trigger] roles[i]).position >= (
        #[trigger] roles[j]).position
}

/// Sort roles by descending position: a permutation of the input in the
/// order permission evaluation expects.
pub fn sort_roles_desc(roles: Vec<Role>) -> (r: Vec<Role>)
    ensures
        sorted_desc(r@),
        r@.to_multiset() == roles@.to_multiset(),
{
    broadcast use vstd::seq_lib::group_to_multiset_ensures;

    let ghost all = roles@.to_multiset();
    let mut remaining = roles;
    let mut sorted: Vec<Role> = Vec::new();
    while remaining.len() > 0
        invariant
            sorted@.to_multiset().add(remaining@.to_multiset()) == all,
            sorted_desc(sorted@),
            forall|i: int, j: int|
                0 <= i < sorted@.len() && 0 <= j < remaining@.len() ==> (
                #[trigger] sorted@[i]).position >= (#[trigger] remaining@[j]).position,
        decreases remaining@.len(),
    {
        let mut max: usize = 0;
        let mut k: usize = 1;
        while k < remaining.len()
            invariant
                0 <= max < k <= remaining@.len(),
                remaining@.len() > 0,
                forall|j: int|
                    0 <= j < k ==> (#[trigger] remaining@[j]).position
                        <= remaining@[max as int].position,
            decreases remaining@.len() - k,
        {
            if remaining[k].position > remaining[max].position {
                max = k;
            }
            k += 1;
        }
        let ghost prev = remaining@;
        let ghost sorted_prev = sorted@;
        let picked = remaining.remove(max);
        sorted.push(picked);
        proof {
            prev.to_multiset_ensures();
            sorted_prev.to_multiset_ensures();
            assert(remaining@ == prev.remove(max as int));
            assert(prev.contains(picked));
            assert(remaining@.to_multiset() =~= prev.to_multiset().remove(picked));
            assert(sorted@ == sorted_prev.push(picked));
            assert(sorted@.to_multiset() =~= sorted_prev.to_multiset().insert(picked));
            assert(prev.to_multiset().count(picked) > 0);
            assert(sorted@.to_multiset().add(remaining@.to_multiset()) =~= all);
            assert forall|j: int|
                0 <= j < remaining@.len() implies picked.position >= (
            #[trigger] remaining@[j]).position by {
                assert(remaining@[j] == (if j < max {
                    prev[j]
                } else {
                    prev[j + 1]
                }));
            }
            assert forall|i: int, j: int|
                0 <= i < j < sorted@.len() implies (#[trigger] sorted@[i]).position >= (
            #[trigger] sorted@[j]).position by {
                if j == sorted@.len() - 1 {
                    assert(sorted@[i] == sorted_prev[i]);
                    assert(prev[max as int] == picked);
                }
            }
        }
    }
    proof {
        assert(remaining@.to_multiset().len() == 0);
        assert(sorted@.to_multiset().add(remaining@.to_multiset()) =~= sorted@.to_multiset());
    }
    sorted
}

} // verus!
