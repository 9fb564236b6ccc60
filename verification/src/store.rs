//! The list of kept points: each point is kept under a name, and keeping one
//! under a name already taken replaces that entry. Reading and writing the
//! file is the program's part.

use vstd::prelude::*;
use vstd::string::StringExecFns;
use crate::text::str_eq;

verus! {

/// A point kept under a name.
#[derive(Clone, Debug)]
pub struct NamedPoint<T> {
    pub name: String,
    pub state: T,
}

/// Whether entry `i` is the first one named `name`.
pub open spec fn is_first_named<T>(points: Seq<NamedPoint<T>>, name: Seq<char>, i: int) -> bool {
    &&& 0 <= i < points.len()
    &&& points[i].name@ == name
    &&& forall|j: int| 0 <= j < i ==> #[trigger] points[j].name@ != name
}

/// Whether some entry is named `name`.
pub open spec fn has_named<T>(points: Seq<NamedPoint<T>>, name: Seq<char>) -> bool {
    exists|j: int| 0 <= j < points.len() && #[trigger] points[j].name@ == name
}

/// Keeps `state` under `name`: the first entry of that name is replaced, or
/// the point is appended when no entry has it. Returns how many points the
/// list then holds.
pub fn keep<T>(points: &mut Vec<NamedPoint<T>>, name: &str, state: T) -> (r: usize)
    requires
        old(points)@.len() < usize::MAX,
    ensures
        r == final(points)@.len(),
        has_named(old(points)@, name@) ==> exists|i: int|
            #![trigger is_first_named(old(points)@, name@, i)]
            {
                &&& is_first_named(old(points)@, name@, i)
                &&& final(points)@.len() == old(points)@.len()
                &&& final(points)@[i].name@ == name@
                &&& final(points)@[i].state == state
                &&& forall|j: int| 0 <= j < old(points)@.len() && j != i ==> #[trigger] final(points)@[j] == old(points)@[j]
            },
        !has_named(old(points)@, name@) ==> {
            &&& final(points)@.len() == old(points)@.len() + 1
            &&& final(points)@.take(old(points)@.len() as int) == old(points)@
            &&& final(points)@.last().name@ == name@
            &&& final(points)@.last().state == state
        },
{
    let entry = NamedPoint { name: String::from_str(name), state };
    let mut i: usize = 0;
    while i < points.len()
        invariant
            points@ == old(points)@,
            entry.name@ == name@,
            entry.state == state,
            i <= points@.len(),
            forall|j: int| 0 <= j < i ==> #[trigger] points@[j].name@ != name@,
        decreases points@.len() - i,
    {
        if str_eq(points[i].name.as_str(), name) {
            let ghost before = points@;
            points.set(i, entry);
            assert(is_first_named(before, name@, i as int));
            return points.len();
        }
        i = i + 1;
    }
    points.push(entry);
    assert(points@.take(old(points)@.len() as int) =~= old(points)@);
    points.len()
}

} // verus!
