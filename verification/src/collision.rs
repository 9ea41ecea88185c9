//! Named collision groups for colliders.
//!
//! A group pairs a membership mask with a filter mask; two colliders may
//! interact when each one's membership intersects the other's filter.  The
//! names are matched without regard to ASCII case; an unknown name yields
//! the group that interacts with everything.

use vstd::prelude::*;
use vstd::string::StringSliceAdditionalSpecFns;

verus! {

/// A collision-group assignment: membership bits and filter bits.
#[derive(Clone, Copy, Debug, PartialEq, Eq, Structural)]
pub struct InteractionGroups {
    pub memberships: u32,
    pub filter: u32,
}

/// The group for ship-like entities.
pub open spec fn ships_groups() -> InteractionGroups {
    InteractionGroups { memberships: 0b01, filter: 0b11 }
}

/// The group for projectiles.
pub open spec fn bullets_groups() -> InteractionGroups {
    InteractionGroups { memberships: 0b10, filter: 0b11 }
}

/// The group that interacts with everything.
pub open spec fn all_groups() -> InteractionGroups {
    InteractionGroups { memberships: 0xffffffff, filter: 0xffffffff }
}

/// `b` with an ASCII upper-case letter folded to lower case.
pub open spec fn lower_byte(b: u8) -> u8 {
    if 65 <= b <= 90 {
        (b + 32) as u8
    } else {
        b
    }
}

/// The two byte strings are equal once ASCII letters are folded to lower
/// case.
pub open spec fn eq_ignore_ascii_case(a: Seq<u8>, b: Seq<u8>) -> bool {
    a.len() == b.len() && forall|i: int|
        0 <= i < a.len() ==> lower_byte(#[trigger] a[i]) == lower_byte(b[i])
}

/// The bytes of `"ships"`.
pub open spec fn ships_keyword() -> Seq<u8> {
    seq![115u8, 104u8, 105u8, 112u8, 115u8]
}

/// The bytes of `"bullets"`.
pub open spec fn bullets_keyword() -> Seq<u8> {
    seq![98u8, 117u8, 108u8, 108u8, 101u8, 116u8, 115u8]
}

/// Which group a name denotes.
pub open spec fn group_of_name(bytes: Seq<u8>) -> InteractionGroups {
    if eq_ignore_ascii_case(bytes, ships_keyword()) {
        ships_groups()
    } else if eq_ignore_ascii_case(bytes, bullets_keyword()) {
        bullets_groups()
    } else {
        all_groups()
    }
}

fn ascii_lower(b: u8) -> (r: u8)
    ensures
        r == lower_byte(b),
{
    if 65 <= b && b <= 90 {
        b + 32
    } else {
        b
    }
}

fn eq_keyword(bytes: &[u8], kw: &Vec<u8>) -> (r: bool)
    ensures
        r == eq_ignore_ascii_case(bytes@, kw@),
{
    if bytes.len() != kw.len() {
        return false;
    }
    let n = bytes.len();
    let mut i: usize = 0;
    while i < n
        invariant
            n == bytes@.len(),
            n == kw@.len(),
            i <= n,
            forall|k: int| 0 <= k < i ==> lower_byte(#[trigger] bytes@[k]) == lower_byte(kw@[k]),
        decreases n - i,
    {
        if ascii_lower(bytes[i]) != ascii_lower(kw[i]) {
            return false;
        }
        i = i + 1;
    }
    true
}

/// The collision-group name table.
pub struct Collision;

impl Collision {
    /// Resolves a group name, ignoring ASCII case; unknown names fall back
    /// to the all-interacting group.
    pub fn from_str(s: &str) -> (g: InteractionGroups)
        ensures
            g == group_of_name(s.spec_bytes()),
    {
        let bytes = s.as_bytes();
        let ships: Vec<u8> = vec![115u8, 104u8, 105u8, 112u8, 115u8];
        let bullets: Vec<u8> = vec![98u8, 117u8, 108u8, 108u8, 101u8, 116u8, 115u8];
        proof {
            assert(ships@ =~= ships_keyword());
            assert(bullets@ =~= bullets_keyword());
        }
        if eq_keyword(bytes, &ships) {
            InteractionGroups { memberships: 0b01, filter: 0b11 }
        } else if eq_keyword(bytes, &bullets) {
            InteractionGroups { memberships: 0b10, filter: 0b11 }
        } else {
            InteractionGroups { memberships: 0xffffffff, filter: 0xffffffff }
        }
    }
}

} // verus!
