//! The named targets of the first recent-file layout.

use vstd::prelude::*;
use crate::text::str_eq;

verus! {

/// All targets.
pub struct Root {
    pub targets: Vec<Target>,
}

/// One target: its name, the last URL seen and where it is read.
pub struct Target {
    pub name: String,
    pub recent_url: String,
    pub domain: String,
}

/// The position of the first target called `name`, if any.
pub fn target_position(root: &Root, name: &str) -> (r: Option<usize>)
    ensures
        match r {
            Some(i) => i < root.targets.len() && root.targets@[i as int].name@ == name@
                && forall|j: int| 0 <= j < i ==> (#[trigger] root.targets@[j]).name@ != name@,
            None => forall|j: int| 0 <= j < root.targets.len() ==> (#[trigger] root.targets@[j]).name@ != name@,
        },
{
    let mut i: usize = 0;
    while i < root.targets.len()
        invariant
            i <= root.targets.len(),
            forall|j: int| 0 <= j < i ==> (#[trigger] root.targets@[j]).name@ != name@,
        decreases root.targets.len() - i,
    {
        if str_eq(root.targets[i].name.as_str(), name) {
            return Some(i);
        }
        i = i + 1;
    }
    None
}

} // verus!
