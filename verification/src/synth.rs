//! Entity declaration and reflection synthesizers: one field per property in
//! source order, then (when expansion is enabled) one field per navigation
//! property in source order; a parallel descriptor table when reflection is
//! enabled.

use vstd::prelude::*;
use vstd::string::*;
use crate::model::{
    Config, EntityType, Multiplicity, NavigationProperty, Property, Schema, SpecEntityType,
    SpecNavigation, SpecProperty, SpecSchema, PrimitiveTag,
};
use crate::output::{
    EntityDecl, EntityReflection, EntityTypesEntry, FieldAnnotation, FieldDecl, FieldDescriptor,
    FieldType, RelationDescriptor, SpecEntityDecl, SpecEntityReflection, SpecEntityTypesEntry,
    SpecFieldAnnotation, SpecFieldDecl, SpecFieldDescriptor, SpecFieldType,
    SpecRelationDescriptor,
};
use crate::resolve::{lookup_entity_type, resolve_mult, resolve_spec, resolve_target};
use crate::text::{check_keyword, contains_upper, has_upper, is_keyword, lower_spec, to_lower};

verus! {

/// Annotations of a property field: the empty-string hint on optional-text
/// fields (when enabled), then a serialization rename whenever the original
/// name contains an upper-case character.  Disabling serialization support
/// suppresses every serialization annotation, not only the derivations.
pub open spec fn prop_annotations_spec(p: SpecProperty, cfg: Config) -> Seq<SpecFieldAnnotation> {
    if !cfg.serde {
        Seq::empty()
    } else {
        let hint: Seq<SpecFieldAnnotation> = if cfg.empty_string_is_null && p.nullable && p.tag
            is Text {
            seq![SpecFieldAnnotation::EmptyStringAsNone]
        } else {
            Seq::empty()
        };
        let rename: Seq<SpecFieldAnnotation> = if has_upper(p.name) {
            seq![SpecFieldAnnotation::SerdeRename { name: p.name }]
        } else {
            Seq::empty()
        };
        hint + rename
    }
}

/// The field a property synthesizes: lower-cased identifier, escaped when the
/// original name is a reserved keyword, the mapped type, its annotations.
pub open spec fn prop_field_spec(p: SpecProperty, cfg: Config) -> SpecFieldDecl {
    SpecFieldDecl {
        ident: lower_spec(p.name),
        escaped: is_keyword(p.name),
        ty: SpecFieldType::Primitive { tag: p.tag, nullable: p.nullable },
        annotations: prop_annotations_spec(p, cfg),
    }
}

/// Synthesize the field for one property.
pub fn property_field(property: &Property, cfg: &Config) -> (r: FieldDecl)
    ensures
        r@ == prop_field_spec(property@, *cfg),
{
    let ident = to_lower(property.name.as_str());
    let escaped = check_keyword(property.name.as_str());
    let mut annotations: Vec<FieldAnnotation> = Vec::new();
    if cfg.serde {
        if cfg.empty_string_is_null && property.nullable && matches!(
            property.tag,
            PrimitiveTag::Text,
        ) {
            annotations.push(FieldAnnotation::EmptyStringAsNone);
        }
        if contains_upper(property.name.as_str()) {
            annotations.push(FieldAnnotation::SerdeRename { name: property.name.clone() });
        }
    }
    let r = FieldDecl {
        ident,
        escaped,
        ty: FieldType::Primitive { tag: property.tag, nullable: property.nullable },
        annotations,
    };
    proof {
        assert(r@.annotations =~= prop_annotations_spec(property@, *cfg));
        assert(r@ =~= prop_field_spec(property@, *cfg));
    }
    r
}

/// The field a navigation property synthesizes, given that it resolves: a
/// `0..1` multiplicity produces an optional single reference, any other an
/// ordered collection; a rename-with-default annotation whenever the original
/// name contains an upper-case character and serialization support is on.
pub open spec fn nav_field_spec(s: SpecSchema, nav: SpecNavigation, cfg: Config) -> SpecFieldDecl {
    SpecFieldDecl {
        ident: lower_spec(nav.name),
        escaped: is_keyword(nav.name),
        ty: if resolve_mult(s, nav) is ZeroOrOne {
            SpecFieldType::OptionalSingle { target: resolve_target(s, nav) }
        } else {
            SpecFieldType::Collection { target: resolve_target(s, nav) }
        },
        annotations: if cfg.serde && has_upper(nav.name) {
            seq![SpecFieldAnnotation::SerdeRenameDefault { name: nav.name }]
        } else {
            Seq::empty()
        },
    }
}

/// Synthesize the field for one navigation property.
pub fn navigation_field(
    schema: &Schema,
    navigation_property: &NavigationProperty,
    cfg: &Config,
) -> (r: FieldDecl)
    requires
        resolve_spec(schema@, navigation_property@) is Some,
    ensures
        r@ == nav_field_spec(schema@, navigation_property@, *cfg),
{
    let resolved = lookup_entity_type(schema, navigation_property);
    let (target, mult) = match resolved {
        Option::Some(p) => p,
        Option::None => vstd::pervasive::unreached(),
    };
    let ident = to_lower(navigation_property.name.as_str());
    let escaped = check_keyword(navigation_property.name.as_str());
    let ty = match mult {
        Multiplicity::ZeroOrOne => FieldType::OptionalSingle { target },
        _ => FieldType::Collection { target },
    };
    let mut annotations: Vec<FieldAnnotation> = Vec::new();
    if cfg.serde && contains_upper(navigation_property.name.as_str()) {
        annotations.push(
            FieldAnnotation::SerdeRenameDefault { name: navigation_property.name.clone() },
        );
    }
    let r = FieldDecl { ident, escaped, ty, annotations };
    proof {
        assert(r@.annotations =~= nav_field_spec(schema@, navigation_property@, *cfg).annotations);
        assert(r@ =~= nav_field_spec(schema@, navigation_property@, *cfg));
    }
    r
}

/// One field descriptor: the key flag is set iff the property's name equals
/// the entity's designated key property name.
pub open spec fn field_descriptor_spec(p: SpecProperty, key: Seq<char>) -> SpecFieldDescriptor {
    SpecFieldDescriptor { name: p.name, tag: p.tag, nullable: p.nullable, key: p.name == key }
}

/// The reflection field table: exactly one descriptor per property, in
/// property declaration order.
pub open spec fn field_descriptors_spec(e: SpecEntityType) -> Seq<SpecFieldDescriptor> {
    e.properties.map_values(|p: SpecProperty| field_descriptor_spec(p, e.key))
}

/// Synthesize the reflection field table of one entity.
pub fn entity_type_reflection(entity: &EntityType) -> (r: Vec<FieldDescriptor>)
    ensures
        r@.map_values(|d: FieldDescriptor| d@) == field_descriptors_spec(entity@),
{
    let mut r: Vec<FieldDescriptor> = Vec::new();
    let mut i: usize = 0;
    proof {
        assert(r@.map_values(|d: FieldDescriptor| d@) =~= field_descriptors_spec(entity@).take(0));
    }
    while i < entity.properties.len()
        invariant
            0 <= i <= entity.properties.len(),
            entity@.properties == entity.properties@.map_values(|p: Property| p@),
            entity@.key == entity.key@,
            r@.map_values(|d: FieldDescriptor| d@) == field_descriptors_spec(entity@).take(i as int),
        decreases entity.properties.len() - i,
    {
        let property = &entity.properties[i];
        let key = property.name.eq(&entity.key);
        let ghost fv0 = r@.map_values(|d: FieldDescriptor| d@);
        let d = FieldDescriptor {
            name: property.name.clone(),
            tag: property.tag,
            nullable: property.nullable,
            key,
        };
        proof {
            assert(d@ == field_descriptor_spec(entity@.properties[i as int], entity@.key));
        }
        r.push(d);
        proof {
            assert(r@.map_values(|x: FieldDescriptor| x@) =~= fv0.push(d@));
            assert(fv0.push(d@) =~= field_descriptors_spec(entity@).take(i + 1));
        }
        i += 1;
    }
    proof {
        assert(field_descriptors_spec(entity@).take(entity@.properties.len() as int)
            =~= field_descriptors_spec(entity@));
    }
    r
}

/// Every navigation property of the entity resolves against the schema.
pub open spec fn all_navs_resolved(s: SpecSchema, e: SpecEntityType) -> bool {
    forall|i: int|
        0 <= i < e.navigations.len() ==> resolve_spec(s, #[trigger] e.navigations[i]) is Some
}

/// The relation table: one pair per navigation property, in source order.
pub open spec fn relation_descriptors_spec(s: SpecSchema, e: SpecEntityType) -> Seq<
    SpecRelationDescriptor,
> {
    e.navigations.map_values(
        |n: SpecNavigation| SpecRelationDescriptor { name: n.name, target: resolve_target(s, n) },
    )
}

/// Synthesize the relation table of one entity.
pub fn relation_descriptors(schema: &Schema, entity: &EntityType) -> (r: Vec<RelationDescriptor>)
    requires
        all_navs_resolved(schema@, entity@),
    ensures
        r@.map_values(|d: RelationDescriptor| d@) == relation_descriptors_spec(schema@, entity@),
{
    let mut r: Vec<RelationDescriptor> = Vec::new();
    let mut i: usize = 0;
    proof {
        assert(r@.map_values(|d: RelationDescriptor| d@) =~= relation_descriptors_spec(
            schema@,
            entity@,
        ).take(0));
    }
    while i < entity.navigations.len()
        invariant
            0 <= i <= entity.navigations.len(),
            all_navs_resolved(schema@, entity@),
            entity@.navigations == entity.navigations@.map_values(|n: NavigationProperty| n@),
            r@.map_values(|d: RelationDescriptor| d@) == relation_descriptors_spec(
                schema@,
                entity@,
            ).take(i as int),
        decreases entity.navigations.len() - i,
    {
        let nav = &entity.navigations[i];
        proof {
            assert(entity@.navigations[i as int] == nav@);
        }
        let resolved = lookup_entity_type(schema, nav);
        let (target, _mult) = match resolved {
            Option::Some(p) => p,
            Option::None => vstd::pervasive::unreached(),
        };
        let ghost fv0 = r@.map_values(|d: RelationDescriptor| d@);
        let d = RelationDescriptor { name: nav.name.clone(), target };
        r.push(d);
        proof {
            assert(r@.map_values(|x: RelationDescriptor| x@) =~= fv0.push(d@));
            assert(fv0.push(d@) =~= relation_descriptors_spec(schema@, entity@).take(i + 1));
        }
        i += 1;
    }
    proof {
        assert(relation_descriptors_spec(schema@, entity@).take(entity@.navigations.len() as int)
            =~= relation_descriptors_spec(schema@, entity@));
    }
    r
}

/// The full field list of an entity declaration: property fields in source
/// order, then (when expansion is enabled) navigation fields in source order.
pub open spec fn entity_fields_spec(s: SpecSchema, e: SpecEntityType, cfg: Config) -> Seq<
    SpecFieldDecl,
> {
    let props = e.properties.map_values(|p: SpecProperty| prop_field_spec(p, cfg));
    if cfg.expand {
        props + e.navigations.map_values(|n: SpecNavigation| nav_field_spec(s, n, cfg))
    } else {
        props
    }
}

/// The record declaration of one entity.
pub open spec fn entity_decl_spec(s: SpecSchema, e: SpecEntityType, cfg: Config) -> SpecEntityDecl {
    SpecEntityDecl { name: e.name, serde: cfg.serde, fields: entity_fields_spec(s, e, cfg) }
}

/// Synthesize the record declaration of one entity.
pub fn entity_decl(schema: &Schema, entity: &EntityType, cfg: &Config) -> (r: EntityDecl)
    requires
        cfg.expand ==> all_navs_resolved(schema@, entity@),
    ensures
        r@ == entity_decl_spec(schema@, entity@, *cfg),
{
    let ghost props = entity@.properties.map_values(|p: SpecProperty| prop_field_spec(p, *cfg));
    let mut fields: Vec<FieldDecl> = Vec::new();
    let mut i: usize = 0;
    proof {
        assert(fields@.map_values(|f: FieldDecl| f@) =~= props.take(0));
    }
    while i < entity.properties.len()
        invariant
            0 <= i <= entity.properties.len(),
            entity@.properties == entity.properties@.map_values(|p: Property| p@),
            props == entity@.properties.map_values(|p: SpecProperty| prop_field_spec(p, *cfg)),
            fields@.map_values(|f: FieldDecl| f@) == props.take(i as int),
        decreases entity.properties.len() - i,
    {
        let ghost fv0 = fields@.map_values(|f: FieldDecl| f@);
        let fd = property_field(&entity.properties[i], cfg);
        proof {
            assert(entity@.properties[i as int] == entity.properties@[i as int]@);
        }
        fields.push(fd);
        proof {
            assert(fields@.map_values(|f: FieldDecl| f@) =~= fv0.push(fd@));
            assert(fv0.push(fd@) =~= props.take(i + 1));
        }
        i += 1;
    }
    proof {
        assert(props.take(entity@.properties.len() as int) =~= props);
    }
    if cfg.expand {
        let ghost navs = entity@.navigations.map_values(
            |n: SpecNavigation| nav_field_spec(schema@, n, *cfg),
        );
        let mut j: usize = 0;
        proof {
            assert(fields@.map_values(|f: FieldDecl| f@) =~= props + navs.take(0));
        }
        while j < entity.navigations.len()
            invariant
                0 <= j <= entity.navigations.len(),
                cfg.expand,
                all_navs_resolved(schema@, entity@),
                entity@.navigations == entity.navigations@.map_values(
                    |n: NavigationProperty| n@,
                ),
                navs == entity@.navigations.map_values(
                    |n: SpecNavigation| nav_field_spec(schema@, n, *cfg),
                ),
                props == entity@.properties.map_values(|p: SpecProperty| prop_field_spec(p, *cfg)),
                fields@.map_values(|f: FieldDecl| f@) == props + navs.take(j as int),
            decreases entity.navigations.len() - j,
        {
            let ghost fv0 = fields@.map_values(|f: FieldDecl| f@);
            let nav = &entity.navigations[j];
            proof {
                assert(entity@.navigations[j as int] == nav@);
            }
            let fd = navigation_field(schema, nav, cfg);
            fields.push(fd);
            proof {
                assert(fields@.map_values(|f: FieldDecl| f@) =~= fv0.push(fd@));
                assert(fv0.push(fd@) =~= props + navs.take(j + 1));
            }
            j += 1;
        }
        proof {
            assert(navs.take(entity@.navigations.len() as int) =~= navs);
        }
    }
    let r = EntityDecl { name: entity.name.clone(), serde: cfg.serde, fields };
    proof {
        assert(r@ =~= entity_decl_spec(schema@, entity@, *cfg));
    }
    r
}

/// The reflection implementation paired with one entity declaration.
pub open spec fn entity_reflection_spec(s: SpecSchema, e: SpecEntityType, cfg: Config) -> SpecEntityReflection {
    SpecEntityReflection {
        entity: e.name,
        fields: field_descriptors_spec(e),
        relations: if cfg.expand {
            Option::Some(relation_descriptors_spec(s, e))
        } else {
            Option::None
        },
    }
}

/// Synthesize the reflection implementation of one entity.
pub fn entity_reflection(schema: &Schema, entity: &EntityType, cfg: &Config) -> (r: EntityReflection)
    requires
        cfg.expand ==> all_navs_resolved(schema@, entity@),
    ensures
        r@ == entity_reflection_spec(schema@, entity@, *cfg),
{
    let fields = entity_type_reflection(entity);
    let relations = if cfg.expand {
        Option::Some(relation_descriptors(schema, entity))
    } else {
        Option::None
    };
    let r = EntityReflection { entity: entity.name.clone(), fields, relations };
    proof {
        assert(r@ =~= entity_reflection_spec(schema@, entity@, *cfg));
    }
    r
}

/// The per-schema reflection table: one row per entity, in source order.
pub open spec fn entity_types_table_spec(s: SpecSchema) -> Seq<SpecEntityTypesEntry> {
    s.entities.map_values(
        |e: SpecEntityType| SpecEntityTypesEntry { entity: e.name, fields: field_descriptors_spec(e) },
    )
}

/// Synthesize the per-schema reflection table.
pub fn entity_types_table(schema: &Schema) -> (r: Vec<EntityTypesEntry>)
    ensures
        r@.map_values(|e: EntityTypesEntry| e@) == entity_types_table_spec(schema@),
{
    let mut r: Vec<EntityTypesEntry> = Vec::new();
    let mut i: usize = 0;
    proof {
        assert(r@.map_values(|e: EntityTypesEntry| e@) =~= entity_types_table_spec(schema@).take(0));
    }
    while i < schema.entities.len()
        invariant
            0 <= i <= schema.entities.len(),
            schema@.entities == schema.entities@.map_values(|e: EntityType| e@),
            r@.map_values(|e: EntityTypesEntry| e@) == entity_types_table_spec(schema@).take(
                i as int,
            ),
        decreases schema.entities.len() - i,
    {
        let entity = &schema.entities[i];
        proof {
            assert(schema@.entities[i as int] == entity@);
        }
        let ghost fv0 = r@.map_values(|e: EntityTypesEntry| e@);
        let fields = entity_type_reflection(entity);
        let row = EntityTypesEntry { entity: entity.name.clone(), fields };
        proof {
            assert(row@ =~= entity_types_table_spec(schema@)[i as int]);
        }
        r.push(row);
        proof {
            assert(r@.map_values(|x: EntityTypesEntry| x@) =~= fv0.push(row@));
            assert(fv0.push(row@) =~= entity_types_table_spec(schema@).take(i + 1));
        }
        i += 1;
    }
    proof {
        assert(entity_types_table_spec(schema@).take(schema@.entities.len() as int)
            =~= entity_types_table_spec(schema@));
    }
    r
}

} // verus!
