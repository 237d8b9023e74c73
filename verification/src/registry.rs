//! The tag registry: the set of element kinds a template may use. It is a
//! plain value, passed to each build, so it can be varied per build and
//! tested independently.

use vstd::prelude::*;

use crate::strutil::str_eq;

verus! {

/// Whether a registry holds a name.
pub open spec fn registry_contains(reg: Seq<Seq<char>>, name: Seq<char>) -> bool {
    exists|i: int| 0 <= i < reg.len() && reg[i] == name
}

/// The standard registry: `block`, `text`, `input`, `dropdown`.
pub open spec fn standard_tags() -> Seq<Seq<char>> {
    seq!["block"@, "text"@, "input"@, "dropdown"@]
}

/// The set of known element kinds, by name.
#[derive(Debug, Clone)]
pub struct TagRegistry {
    tags: Vec<String>,
}

impl TagRegistry {
    /// What this registry means: its tag names.
    pub closed spec fn model(&self) -> Seq<Seq<char>> {
        self.tags.deep_view()
    }

    /// A registry holding exactly the given names.
    pub fn new(tags: Vec<String>) -> (r: TagRegistry)
        ensures
            r.model() == tags.deep_view(),
    {
        TagRegistry { tags }
    }

    /// The standard registry: `block`, `text`, `input`, `dropdown`.
    pub fn standard() -> (r: TagRegistry)
        ensures
            r.model() == standard_tags(),
    {
        let mut tags: Vec<String> = Vec::new();
        tags.push("block".to_owned());
        tags.push("text".to_owned());
        tags.push("input".to_owned());
        tags.push("dropdown".to_owned());
        let r = TagRegistry { tags };
        proof {
            assert(r.model() =~= standard_tags());
        }
        r
    }

    /// Whether the registry holds a name.
    pub fn contains(&self, name: &str) -> (r: bool)
        ensures
            r == registry_contains(self.model(), name@),
    {
        let n = self.tags.len();
        let mut i: usize = 0;
        while i < n
            invariant
                n == self.tags@.len(),
                i <= n,
                forall|k: int| 0 <= k < i ==> self.model()[k] != name@,
            decreases n - i,
        {
            if str_eq(self.tags[i].as_str(), name) {
                proof {
                    assert(self.model()[i as int] == name@);
                }
                return true;
            }
            i = i + 1;
        }
        false
    }
}

} // verus!
