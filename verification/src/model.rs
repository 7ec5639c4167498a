//! Input model: the conceptual-schema graph the generator consumes.
//!
//! The graph is immutable input, read once per run: schemas, each with entity
//! types, associations and entity sets.  Every type carries a spec-level
//! mirror (`Spec*`) holding the same data over `Seq` values, reached through
//! `View`, so that contracts can speak of the input mathematically.

use vstd::prelude::*;

verus! {

/// The closed set of primitive EDM property types the generator understands.
/// `Text` stands for the `Edm.String` tag.
#[derive(Clone, Copy, Debug, PartialEq, Eq, Structural)]
pub enum PrimitiveTag {
    Binary,
    Boolean,
    Byte,
    DateTime,
    DateTimeOffset,
    Decimal,
    Double,
    Int16,
    Int32,
    Text,
}

/// Cardinality tag on an association end.
#[derive(Clone, Copy, Debug, PartialEq, Eq, Structural)]
pub enum Multiplicity {
    /// `"0..1"`: at most one related entity.
    ZeroOrOne,
    /// `"1"`: exactly one related entity.
    One,
    /// `"*"`: any number of related entities.
    Many,
}

/// A primitive-typed property of an entity type.
#[derive(Debug, PartialEq, Eq)]
pub struct Property {
    pub name: String,
    pub tag: PrimitiveTag,
    pub nullable: bool,
}

#[verifier::ext_equal]
pub struct SpecProperty {
    pub name: Seq<char>,
    pub tag: PrimitiveTag,
    pub nullable: bool,
}

impl View for Property {
    type V = SpecProperty;

    open spec fn view(&self) -> SpecProperty {
        SpecProperty { name: self.name@, tag: self.tag, nullable: self.nullable }
    }
}

/// A relationship-typed field, resolved against the schema's associations.
#[derive(Debug, PartialEq, Eq)]
pub struct NavigationProperty {
    pub name: String,
    /// Role identifier of the association end the navigation points at.
    pub to_role: String,
}

#[verifier::ext_equal]
pub struct SpecNavigation {
    pub name: Seq<char>,
    pub to_role: Seq<char>,
}

impl View for NavigationProperty {
    type V = SpecNavigation;

    open spec fn view(&self) -> SpecNavigation {
        SpecNavigation { name: self.name@, to_role: self.to_role@ }
    }
}

/// One end of an association: an optional role identifier, an optional
/// qualified entity-type reference, and an optional multiplicity.
#[derive(Debug, PartialEq, Eq)]
pub struct AssociationEnd {
    pub role: Option<String>,
    pub entity_type: Option<String>,
    pub multiplicity: Option<Multiplicity>,
}

#[verifier::ext_equal]
pub struct SpecAssociationEnd {
    pub role: Option<Seq<char>>,
    pub entity_type: Option<Seq<char>>,
    pub multiplicity: Option<Multiplicity>,
}

impl View for AssociationEnd {
    type V = SpecAssociationEnd;

    open spec fn view(&self) -> SpecAssociationEnd {
        SpecAssociationEnd {
            role: match self.role {
                Option::Some(r) => Option::Some(r@),
                Option::None => Option::None,
            },
            entity_type: match self.entity_type {
                Option::Some(t) => Option::Some(t@),
                Option::None => Option::None,
            },
            multiplicity: self.multiplicity,
        }
    }
}

/// A named relationship; its ends are scanned in declaration order.
#[derive(Debug, PartialEq, Eq)]
pub struct Association {
    pub ends: Vec<AssociationEnd>,
}

#[verifier::ext_equal]
pub struct SpecAssociation {
    pub ends: Seq<SpecAssociationEnd>,
}

impl View for Association {
    type V = SpecAssociation;

    open spec fn view(&self) -> SpecAssociation {
        SpecAssociation { ends: self.ends@.map_values(|e: AssociationEnd| e@) }
    }
}

/// A named, queryable collection typed over one entity type, given by its
/// qualified (dotted) name.
#[derive(Debug, PartialEq, Eq)]
pub struct EntitySet {
    pub name: String,
    pub entity_type: String,
}

#[verifier::ext_equal]
pub struct SpecEntitySet {
    pub name: Seq<char>,
    pub entity_type: Seq<char>,
}

impl View for EntitySet {
    type V = SpecEntitySet;

    open spec fn view(&self) -> SpecEntitySet {
        SpecEntitySet { name: self.name@, entity_type: self.entity_type@ }
    }
}

/// A named record type with a designated key property, ordinary properties,
/// and navigation properties.
#[derive(Debug, PartialEq, Eq)]
pub struct EntityType {
    pub name: String,
    /// Name of the designated key property.
    pub key: String,
    pub properties: Vec<Property>,
    pub navigations: Vec<NavigationProperty>,
}

#[verifier::ext_equal]
pub struct SpecEntityType {
    pub name: Seq<char>,
    pub key: Seq<char>,
    pub properties: Seq<SpecProperty>,
    pub navigations: Seq<SpecNavigation>,
}

impl View for EntityType {
    type V = SpecEntityType;

    open spec fn view(&self) -> SpecEntityType {
        SpecEntityType {
            name: self.name@,
            key: self.key@,
            properties: self.properties@.map_values(|p: Property| p@),
            navigations: self.navigations@.map_values(|n: NavigationProperty| n@),
        }
    }
}

/// One schema: a dotted namespace with its entity types, associations, and
/// (when the document declares a container) entity sets.
#[derive(Debug, PartialEq, Eq)]
pub struct Schema {
    pub namespace: String,
    pub entities: Vec<EntityType>,
    pub associations: Vec<Association>,
    pub entity_sets: Option<Vec<EntitySet>>,
}

#[verifier::ext_equal]
pub struct SpecSchema {
    pub namespace: Seq<char>,
    pub entities: Seq<SpecEntityType>,
    pub associations: Seq<SpecAssociation>,
    pub entity_sets: Option<Seq<SpecEntitySet>>,
}

impl View for Schema {
    type V = SpecSchema;

    open spec fn view(&self) -> SpecSchema {
        SpecSchema {
            namespace: self.namespace@,
            entities: self.entities@.map_values(|e: EntityType| e@),
            associations: self.associations@.map_values(|a: Association| a@),
            entity_sets: match self.entity_sets {
                Option::Some(ref sets) => Option::Some(sets@.map_values(|s: EntitySet| s@)),
                Option::None => Option::None,
            },
        }
    }
}

/// The whole parsed document: an ordered list of schemas.
#[derive(Debug, PartialEq, Eq)]
pub struct Document {
    pub schemas: Vec<Schema>,
}

#[verifier::ext_equal]
pub struct SpecDocument {
    pub schemas: Seq<SpecSchema>,
}

impl View for Document {
    type V = SpecDocument;

    open spec fn view(&self) -> SpecDocument {
        SpecDocument { schemas: self.schemas@.map_values(|s: Schema| s@) }
    }
}

/// Generation options, phrased positively: each flag enables one part of the
/// output that the command line can switch off.
#[derive(Clone, Copy, Debug, PartialEq, Eq, Structural)]
pub struct Config {
    /// Attach serialization-framework derivations to declarations.
    pub serde: bool,
    /// Attach the empty-string-to-null hint to optional-text fields.
    pub empty_string_is_null: bool,
    /// Emit reflection descriptors and the shared reflection contract.
    pub reflection: bool,
    /// Emit navigation fields and relation descriptors.
    pub expand: bool,
}

/// The key reference of an entity must name a property present in the same
/// entity's property list.
pub open spec fn wf_entity(e: SpecEntityType) -> bool {
    exists|i: int| 0 <= i < e.properties.len() && (#[trigger] e.properties[i]).name == e.key
}

/// A schema's namespace must be non-empty, and all its entities well-formed.
pub open spec fn wf_schema(s: SpecSchema) -> bool {
    &&& s.namespace.len() > 0
    &&& forall|i: int| 0 <= i < s.entities.len() ==> wf_entity(#[trigger] s.entities[i])
}

/// Invariant the loader must establish for the whole document.
pub open spec fn wf_document(d: SpecDocument) -> bool {
    forall|i: int| 0 <= i < d.schemas.len() ==> wf_schema(#[trigger] d.schemas[i])
}

/// Runtime check for `wf_entity`, for callers that receive an arbitrary graph.
pub fn check_entity(e: &EntityType) -> (r: bool)
    ensures
        r == wf_entity(e@),
{
    let mut i: usize = 0;
    while i < e.properties.len()
        invariant
            0 <= i <= e.properties.len(),
            forall|j: int| 0 <= j < i ==> (#[trigger] e@.properties[j]).name != e@.key,
        decreases e.properties.len() - i,
    {
        if e.properties[i].name.eq(&e.key) {
            assert(e@.properties[i as int].name == e@.key);
            return true;
        }
        i += 1;
    }
    false
}

/// Runtime check for `wf_schema`.
pub fn check_schema(s: &Schema) -> (r: bool)
    ensures
        r == wf_schema(s@),
{
    if s.namespace.as_str().unicode_len() == 0 {
        return false;
    }
    let mut i: usize = 0;
    while i < s.entities.len()
        invariant
            0 <= i <= s.entities.len(),
            s@.namespace.len() > 0,
            forall|j: int| 0 <= j < i ==> wf_entity(#[trigger] s@.entities[j]),
        decreases s.entities.len() - i,
    {
        if !check_entity(&s.entities[i]) {
            assert(!wf_entity(s@.entities[i as int]));
            return false;
        }
        assert(wf_entity(s@.entities[i as int]));
        i += 1;
    }
    true
}

/// Runtime check for `wf_document`.
pub fn check_document(d: &Document) -> (r: bool)
    ensures
        r == wf_document(d@),
{
    let mut i: usize = 0;
    while i < d.schemas.len()
        invariant
            0 <= i <= d.schemas.len(),
            forall|j: int| 0 <= j < i ==> wf_schema(#[trigger] d@.schemas[j]),
        decreases d.schemas.len() - i,
    {
        if !check_schema(&d.schemas[i]) {
            assert(!wf_schema(d@.schemas[i as int]));
            return false;
        }
        assert(wf_schema(d@.schemas[i as int]));
        i += 1;
    }
    true
}

} // verus!
