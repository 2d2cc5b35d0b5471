//! The layout of objects of a class, as the allocator sees it: the class's own fields, and its
//! parent's layout above it.

use std::sync::Arc;

use vstd::prelude::*;

use crate::java::FieldType;

verus! {

/// A field of a class, placed in the object's data.
pub struct FieldInfo {
    pub name: String,
    /// The type of the field.
    pub descriptor: FieldType,
    /// The offset of the field in the object.
    pub offset: usize,
    /// The width (in bytes) of this field in the object.
    pub width: usize,
}

/// The layout of the objects of a class.
pub struct ClassInfo {
    pub name: String,
    pub parent: Option<Arc<ClassInfo>>,
    /// The fields in this class, does not include parent fields.
    pub fields: Vec<Arc<FieldInfo>>,
    /// The total width of an object data in memory, always aligned to 4 bytes; the object's
    /// header is not counted.
    pub width: usize,
}

/// The class `c` and its ancestors, `c` first.
pub open spec fn hierarchy(c: ClassInfo) -> Seq<ClassInfo>
    decreases c,
{
    match c.parent {
        Some(p) => seq![c] + hierarchy(*p),
        None => seq![c],
    }
}

/// The index of the first class named `name` in `classes`, if any.
pub open spec fn first_named(classes: Seq<ClassInfo>, name: Seq<char>) -> Option<int>
    decreases classes.len(),
{
    if classes.len() == 0 {
        None
    } else if classes[0].name@ == name {
        Some(0)
    } else {
        match first_named(classes.drop_first(), name) {
            Some(i) => Some(i + 1),
            None => None,
        }
    }
}

/// A hierarchy starts with its class, followed by its parent's hierarchy.
proof fn lemma_hierarchy_first(c: ClassInfo)
    ensures
        hierarchy(c).len() >= 1,
        hierarchy(c)[0] == c,
        match c.parent {
            Some(p) => hierarchy(c).drop_first() == hierarchy(*p),
            None => hierarchy(c).len() == 1,
        },
{
    match c.parent {
        Some(p) => {
            assert((seq![c] + hierarchy(*p)).drop_first() =~= hierarchy(*p));
        },
        None => {},
    }
}

/// The first class with a name is the first one, from the start, to have it.
proof fn lemma_first_named(classes: Seq<ClassInfo>, name: Seq<char>, k: int)
    requires
        0 <= k <= classes.len(),
        forall|j: int| 0 <= j < k ==> classes[j].name@ != name,
    ensures
        k < classes.len() && classes[k].name@ == name ==> first_named(classes, name) == Some(k),
        k == classes.len() ==> first_named(classes, name) is None,
    decreases k,
{
    if k > 0 {
        lemma_first_named(classes.drop_first(), name, k - 1);
    }
}

impl ClassInfo {
    /// Find parents starting from the given class: the classes of its hierarchy, itself
    /// included, from the first one named `name` upwards; none when none has that name.
    pub fn find_parents_from(&self, name: &str) -> (parents: Vec<&ClassInfo>)
        ensures
            parents@.map_values(|c: &ClassInfo| *c) == match first_named(hierarchy(*self), name@) {
                Some(i) => hierarchy(*self).subrange(i, hierarchy(*self).len() as int),
                None => Seq::empty(),
            },
    {
        let ghost all = hierarchy(*self);
        let target = String::from_str(name);
        let mut parents: Vec<&ClassInfo> = Vec::new();
        let mut class: Option<&ClassInfo> = Some(self);
        let ghost mut k: int = 0;
        proof {
            assert(all.subrange(0, all.len() as int) =~= all);
        }
        // Walk up to the first class of that name.
        while class.is_some() && !(class.unwrap().name == target)
            invariant
                0 <= k <= all.len(),
                all == hierarchy(*self),
                target@ == name@,
                match class {
                    Some(c) => k < all.len() && hierarchy(*c) == all.subrange(k, all.len() as int),
                    None => k == all.len(),
                },
                forall|j: int| 0 <= j < k ==> all[j].name@ != name@,
            decreases all.len() - k,
        {
            let current = class.unwrap();
            proof {
                lemma_hierarchy_first(*current);
                assert(all.subrange(k, all.len() as int)[0] == all[k]);
            }
            class = match &current.parent {
                Some(p) => Some(&**p),
                None => None,
            };
            proof {
                k = k + 1;
                lemma_hierarchy_first(*current);
                match &current.parent {
                    Some(p) => {
                        assert(hierarchy(**p) =~= hierarchy(*current).drop_first());
                        assert(all.subrange(k - 1, all.len() as int).drop_first() =~= all.subrange(k, all.len() as int));
                    },
                    None => {
                        assert(hierarchy(*current).len() == 1);
                    },
                }
            }
        }
        proof {
            match class {
                Some(c) => {
                    lemma_hierarchy_first(*c);
                    assert(all.subrange(k, all.len() as int)[0] == all[k]);
                },
                None => {},
            }
            lemma_first_named(all, name@, k);
        }
        let ghost start = k;
        // Every class from there up.
        while class.is_some()
            invariant
                0 <= start <= k <= all.len(),
                all == hierarchy(*self),
                match class {
                    Some(c) => k < all.len() && hierarchy(*c) == all.subrange(k, all.len() as int),
                    None => k == all.len(),
                },
                parents@.map_values(|c: &ClassInfo| *c) == all.subrange(start, k),
            decreases all.len() - k,
        {
            let current = class.unwrap();
            let ghost before = parents@;
            parents.push(current);
            proof {
                assert(parents@ == before.push(current));
                assert(parents@.map_values(|c: &ClassInfo| *c) =~= before.map_values(|c: &ClassInfo| *c).push(*current));
                lemma_hierarchy_first(*current);
                assert(all.subrange(k, all.len() as int)[0] == all[k]);
                assert(parents@.map_values(|c: &ClassInfo| *c) =~= all.subrange(start, k + 1));
            }
            class = match &current.parent {
                Some(p) => Some(&**p),
                None => None,
            };
            proof {
                k = k + 1;
                lemma_hierarchy_first(*current);
                match &current.parent {
                    Some(p) => {
                        assert(hierarchy(**p) =~= hierarchy(*current).drop_first());
                        assert(all.subrange(k - 1, all.len() as int).drop_first() =~= all.subrange(k, all.len() as int));
                    },
                    None => {
                        assert(hierarchy(*current).len() == 1);
                    },
                }
            }
        }
        parents
    }

    /// The first class of the hierarchy of this one, itself included, named `name`.
    pub fn find_parent(&self, name: &str) -> (found: Option<&ClassInfo>)
        ensures
            match first_named(hierarchy(*self), name@) {
                Some(i) => found matches Some(c) && *c == hierarchy(*self)[i],
                None => found is None,
            },
    {
        let ghost all = hierarchy(*self);
        let target = String::from_str(name);
        let mut class: Option<&ClassInfo> = Some(self);
        let ghost mut k: int = 0;
        proof {
            assert(all.subrange(0, all.len() as int) =~= all);
        }
        while class.is_some()
            invariant
                0 <= k <= all.len(),
                all == hierarchy(*self),
                target@ == name@,
                match class {
                    Some(c) => k < all.len() && hierarchy(*c) == all.subrange(k, all.len() as int),
                    None => k == all.len(),
                },
                forall|j: int| 0 <= j < k ==> all[j].name@ != name@,
            decreases all.len() - k,
        {
            let current = class.unwrap();
            proof {
                lemma_hierarchy_first(*current);
                assert(all.subrange(k, all.len() as int)[0] == all[k]);
            }
            if current.name == target {
                proof {
                    lemma_first_named(all, name@, k);
                }
                return Some(current);
            }
            class = match &current.parent {
                Some(p) => Some(&**p),
                None => None,
            };
            proof {
                k = k + 1;
                lemma_hierarchy_first(*current);
                match &current.parent {
                    Some(p) => {
                        assert(hierarchy(**p) =~= hierarchy(*current).drop_first());
                        assert(all.subrange(k - 1, all.len() as int).drop_first() =~= all.subrange(k, all.len() as int));
                    },
                    None => {
                        assert(hierarchy(*current).len() == 1);
                    },
                }
            }
        }
        proof {
            lemma_first_named(all, name@, k);
        }
        None
    }
}

} // verus!
