//! Navigation resolver: a navigation property names a target role; the first
//! association end (associations in schema order, ends in declaration order)
//! whose role matches and which carries an entity-type reference decides the
//! target.  The target's local name is the qualified reference with the
//! schema's namespace prefix stripped, paired with that end's multiplicity.

use vstd::prelude::*;
use crate::model::{
    Association, AssociationEnd, Multiplicity, NavigationProperty, Schema, SpecAssociation,
    SpecAssociationEnd, SpecNavigation, SpecSchema,
};
use crate::text::strip_prefix;

verus! {

/// An end matches a role when it carries that role identifier and an
/// entity-type reference.
pub open spec fn end_matches(e: SpecAssociationEnd, role: Seq<char>) -> bool {
    e.role == Option::<Seq<char>>::Some(role) && e.entity_type is Some
}

/// First matching end within one association's end list.
pub open spec fn find_end_upto(ends: Seq<SpecAssociationEnd>, role: Seq<char>, i: int) -> Option<
    SpecAssociationEnd,
>
    decreases i,
{
    if i <= 0 {
        Option::None
    } else {
        match find_end_upto(ends, role, i - 1) {
            Option::Some(e) => Option::Some(e),
            Option::None => if end_matches(ends[i - 1], role) {
                Option::Some(ends[i - 1])
            } else {
                Option::None
            },
        }
    }
}

/// First matching end over a whole association list, scanned in order.
pub open spec fn find_end_in_assocs(
    assocs: Seq<SpecAssociation>,
    role: Seq<char>,
    i: int,
) -> Option<SpecAssociationEnd>
    decreases i,
{
    if i <= 0 {
        Option::None
    } else {
        match find_end_in_assocs(assocs, role, i - 1) {
            Option::Some(e) => Option::Some(e),
            Option::None => find_end_upto(assocs[i - 1].ends, role, assocs[i - 1].ends.len() as int),
        }
    }
}

/// The matching end for a navigation property, if the schema has one.
pub open spec fn matching_end(s: SpecSchema, nav: SpecNavigation) -> Option<SpecAssociationEnd> {
    find_end_in_assocs(s.associations, nav.to_role, s.associations.len() as int)
}

/// The resolver's result: the target's local name and the end's multiplicity.
/// `None` when no end matches, when the matching end's type reference does
/// not carry the schema's namespace prefix, or when it has no multiplicity.
pub open spec fn resolve_spec(s: SpecSchema, nav: SpecNavigation) -> Option<(Seq<char>, Multiplicity)> {
    match matching_end(s, nav) {
        Option::None => Option::None,
        Option::Some(e) => match (e.entity_type, e.multiplicity) {
            (Option::Some(qualified), Option::Some(m)) => match strip_prefix(qualified, s.namespace) {
                Option::Some(local) => Option::Some((local, m)),
                Option::None => Option::None,
            },
            _ => Option::None,
        },
    }
}

/// Target local name of a resolved navigation (meaningful only when resolved).
pub open spec fn resolve_target(s: SpecSchema, nav: SpecNavigation) -> Seq<char> {
    match resolve_spec(s, nav) {
        Option::Some(r) => r.0,
        Option::None => Seq::empty(),
    }
}

/// Multiplicity of a resolved navigation (meaningful only when resolved).
pub open spec fn resolve_mult(s: SpecSchema, nav: SpecNavigation) -> Multiplicity {
    match resolve_spec(s, nav) {
        Option::Some(r) => r.1,
        Option::None => Multiplicity::Many,
    }
}

/// Resolve a navigation property against the owning schema's associations.
pub fn lookup_entity_type(schema: &Schema, navigation_property: &NavigationProperty) -> (r: Option<
    (String, Multiplicity),
>)
    ensures
        match r {
            Option::Some(p) => resolve_spec(schema@, navigation_property@) == Option::Some(
                (p.0@, p.1),
            ),
            Option::None => resolve_spec(schema@, navigation_property@) is None,
        },
{
    let role = &navigation_property.to_role;
    let mut a: usize = 0;
    while a < schema.associations.len()
        invariant
            0 <= a <= schema.associations.len(),
            find_end_in_assocs(schema@.associations, role@, a as int) is None,
            schema@.associations == schema.associations@.map_values(|x: Association| x@),
            role@ == navigation_property@.to_role,
        decreases schema.associations.len() - a,
    {
        let association = &schema.associations[a];
        proof {
            assert(schema@.associations[a as int] == association@);
        }
        let mut e: usize = 0;
        while e < association.ends.len()
            invariant
                0 <= e <= association.ends.len(),
                find_end_upto(association@.ends, role@, e as int) is None,
                association@.ends == association.ends@.map_values(|x: AssociationEnd| x@),
                role@ == navigation_property@.to_role,
                a < schema.associations.len(),
                schema@.associations == schema.associations@.map_values(|x: Association| x@),
                find_end_in_assocs(schema@.associations, role@, a as int) is None,
                association@ == schema@.associations[a as int],
            decreases association.ends.len() - e,
        {
            let end = &association.ends[e];
            proof {
                assert(association@.ends[e as int] == end@);
            }
            let mut matched = false;
            if let Option::Some(end_role) = &end.role {
                if end_role.eq(role) && end.entity_type.is_some() {
                    matched = true;
                }
            }
            if matched {
                assert(end_matches(end@, role@));
                assert(find_end_upto(association@.ends, role@, e + 1) == Option::Some(end@));
                proof {
                    lemma_find_end_stable(association@.ends, role@, e + 1,
                        association@.ends.len() as int);
                    lemma_find_assocs_stable(schema@.associations, role@, a + 1,
                        schema@.associations.len() as int);
                }
                assert(matching_end(schema@, navigation_property@) == Option::Some(end@));
                let qualified = match &end.entity_type {
                    Option::Some(q) => q,
                    Option::None => {
                        proof {
                            assert(false);
                        }
                        role
                    },
                };
                let local = crate::text::strip_namespace_prefix(
                    qualified.as_str(),
                    schema.namespace.as_str(),
                );
                return match (local, end.multiplicity) {
                    (Option::Some(l), Option::Some(m)) => Option::Some((l, m)),
                    _ => Option::None,
                };
            }
            assert(!end_matches(end@, role@));
            assert(find_end_upto(association@.ends, role@, e + 1) is None);
            e += 1;
        }
        assert(find_end_in_assocs(schema@.associations, role@, a + 1) is None);
        a += 1;
    }
    assert(matching_end(schema@, navigation_property@) is None);
    Option::None
}

/// Once an end is found among the first `i`, scanning further keeps it.
proof fn lemma_find_end_stable(ends: Seq<SpecAssociationEnd>, role: Seq<char>, i: int, n: int)
    requires
        0 <= i <= n,
        find_end_upto(ends, role, i) is Some,
    ensures
        find_end_upto(ends, role, n) == find_end_upto(ends, role, i),
    decreases n - i,
{
    if i < n {
        lemma_find_end_stable(ends, role, i + 1, n);
    }
}

/// Once an end is found among the first `i` associations, scanning further
/// keeps it.
proof fn lemma_find_assocs_stable(assocs: Seq<SpecAssociation>, role: Seq<char>, i: int, n: int)
    requires
        0 <= i <= n,
        find_end_in_assocs(assocs, role, i) is Some,
    ensures
        find_end_in_assocs(assocs, role, n) == find_end_in_assocs(assocs, role, i),
    decreases n - i,
{
    if i < n {
        lemma_find_assocs_stable(assocs, role, i + 1, n);
    }
}

} // verus!
