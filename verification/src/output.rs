//! Output model: the abstract declaration tree the generator synthesizes.
//! The emission layer renders it to source text; the tree itself carries the
//! decisions (fields, annotations, descriptors, module paths, re-exports).

use vstd::prelude::*;
use crate::model::PrimitiveTag;

verus! {

/// The shape of one field of a generated record declaration.
#[derive(Debug, PartialEq, Eq)]
pub enum FieldType {
    /// A primitive-typed property field (rendered through the type mapper).
    Primitive { tag: PrimitiveTag, nullable: bool },
    /// An optional single reference to another entity (`0..1` navigation).
    OptionalSingle { target: String },
    /// An ordered collection of references (`1` or `*` navigation).
    Collection { target: String },
}

#[verifier::ext_equal]
pub enum SpecFieldType {
    Primitive { tag: PrimitiveTag, nullable: bool },
    OptionalSingle { target: Seq<char> },
    Collection { target: Seq<char> },
}

impl View for FieldType {
    type V = SpecFieldType;

    open spec fn view(&self) -> SpecFieldType {
        match self {
            FieldType::Primitive { tag, nullable } => SpecFieldType::Primitive {
                tag: *tag,
                nullable: *nullable,
            },
            FieldType::OptionalSingle { target } => SpecFieldType::OptionalSingle {
                target: target@,
            },
            FieldType::Collection { target } => SpecFieldType::Collection { target: target@ },
        }
    }
}

/// A serialization annotation attached to one field.
#[derive(Debug, PartialEq, Eq)]
pub enum FieldAnnotation {
    /// Coerce an empty wire string into an absent optional-text value.
    EmptyStringAsNone,
    /// Serialize under the original property spelling.
    SerdeRename { name: String },
    /// Serialize under the original spelling, defaulting when absent.
    SerdeRenameDefault { name: String },
}

#[verifier::ext_equal]
pub enum SpecFieldAnnotation {
    EmptyStringAsNone,
    SerdeRename { name: Seq<char> },
    SerdeRenameDefault { name: Seq<char> },
}

impl View for FieldAnnotation {
    type V = SpecFieldAnnotation;

    open spec fn view(&self) -> SpecFieldAnnotation {
        match self {
            FieldAnnotation::EmptyStringAsNone => SpecFieldAnnotation::EmptyStringAsNone,
            FieldAnnotation::SerdeRename { name } => SpecFieldAnnotation::SerdeRename {
                name: name@,
            },
            FieldAnnotation::SerdeRenameDefault { name } => {
                SpecFieldAnnotation::SerdeRenameDefault { name: name@ }
            },
        }
    }
}

/// One field of a generated declaration: a lower-cased identifier, escaped
/// when it collides with the reserved-keyword set, its type, and its
/// annotations.
#[derive(Debug, PartialEq, Eq)]
pub struct FieldDecl {
    pub ident: String,
    pub escaped: bool,
    pub ty: FieldType,
    pub annotations: Vec<FieldAnnotation>,
}

#[verifier::ext_equal]
pub struct SpecFieldDecl {
    pub ident: Seq<char>,
    pub escaped: bool,
    pub ty: SpecFieldType,
    pub annotations: Seq<SpecFieldAnnotation>,
}

impl View for FieldDecl {
    type V = SpecFieldDecl;

    open spec fn view(&self) -> SpecFieldDecl {
        SpecFieldDecl {
            ident: self.ident@,
            escaped: self.escaped,
            ty: self.ty@,
            annotations: self.annotations@.map_values(|a: FieldAnnotation| a@),
        }
    }
}

/// One generated record declaration.
#[derive(Debug, PartialEq, Eq)]
pub struct EntityDecl {
    pub name: String,
    /// Carry serialization-framework derivations.
    pub serde: bool,
    pub fields: Vec<FieldDecl>,
}

#[verifier::ext_equal]
pub struct SpecEntityDecl {
    pub name: Seq<char>,
    pub serde: bool,
    pub fields: Seq<SpecFieldDecl>,
}

impl View for EntityDecl {
    type V = SpecEntityDecl;

    open spec fn view(&self) -> SpecEntityDecl {
        SpecEntityDecl {
            name: self.name@,
            serde: self.serde,
            fields: self.fields@.map_values(|f: FieldDecl| f@),
        }
    }
}

/// One field descriptor of the reflection table: the property's original
/// name, its primitive tag, and the nullable and key flags.
#[derive(Debug, PartialEq, Eq)]
pub struct FieldDescriptor {
    pub name: String,
    pub tag: PrimitiveTag,
    pub nullable: bool,
    pub key: bool,
}

#[verifier::ext_equal]
pub struct SpecFieldDescriptor {
    pub name: Seq<char>,
    pub tag: PrimitiveTag,
    pub nullable: bool,
    pub key: bool,
}

impl View for FieldDescriptor {
    type V = SpecFieldDescriptor;

    open spec fn view(&self) -> SpecFieldDescriptor {
        SpecFieldDescriptor {
            name: self.name@,
            tag: self.tag,
            nullable: self.nullable,
            key: self.key,
        }
    }
}

/// One relation descriptor: navigation name and target entity local name.
#[derive(Debug, PartialEq, Eq)]
pub struct RelationDescriptor {
    pub name: String,
    pub target: String,
}

#[verifier::ext_equal]
pub struct SpecRelationDescriptor {
    pub name: Seq<char>,
    pub target: Seq<char>,
}

impl View for RelationDescriptor {
    type V = SpecRelationDescriptor;

    open spec fn view(&self) -> SpecRelationDescriptor {
        SpecRelationDescriptor { name: self.name@, target: self.target@ }
    }
}

/// The reflection implementation paired with one entity declaration: the
/// entity's name, its field table, and (when expansion is enabled) its
/// relation table.
#[derive(Debug, PartialEq, Eq)]
pub struct EntityReflection {
    pub entity: String,
    pub fields: Vec<FieldDescriptor>,
    pub relations: Option<Vec<RelationDescriptor>>,
}

#[verifier::ext_equal]
pub struct SpecEntityReflection {
    pub entity: Seq<char>,
    pub fields: Seq<SpecFieldDescriptor>,
    pub relations: Option<Seq<SpecRelationDescriptor>>,
}

impl View for EntityReflection {
    type V = SpecEntityReflection;

    open spec fn view(&self) -> SpecEntityReflection {
        SpecEntityReflection {
            entity: self.entity@,
            fields: self.fields@.map_values(|d: FieldDescriptor| d@),
            relations: match self.relations {
                Option::Some(ref rels) => Option::Some(
                    rels@.map_values(|r: RelationDescriptor| r@),
                ),
                Option::None => Option::None,
            },
        }
    }
}

/// One row of a schema's `entity_types` reflection table.
#[derive(Debug, PartialEq, Eq)]
pub struct EntityTypesEntry {
    pub entity: String,
    pub fields: Vec<FieldDescriptor>,
}

#[verifier::ext_equal]
pub struct SpecEntityTypesEntry {
    pub entity: Seq<char>,
    pub fields: Seq<SpecFieldDescriptor>,
}

impl View for EntityTypesEntry {
    type V = SpecEntityTypesEntry;

    open spec fn view(&self) -> SpecEntityTypesEntry {
        SpecEntityTypesEntry {
            entity: self.entity@,
            fields: self.fields@.map_values(|d: FieldDescriptor| d@),
        }
    }
}

/// One declaration emitted into a namespace module, in emission order.
#[derive(Debug, PartialEq, Eq)]
pub enum ModuleItem {
    /// The per-schema reflection table function.
    EntityTypes { entries: Vec<EntityTypesEntry> },
    /// A record declaration for one entity.
    Entity { decl: EntityDecl },
    /// The reflection implementation for one entity.
    Reflection { refl: EntityReflection },
}

#[verifier::ext_equal]
pub enum SpecModuleItem {
    EntityTypes { entries: Seq<SpecEntityTypesEntry> },
    Entity { decl: SpecEntityDecl },
    Reflection { refl: SpecEntityReflection },
}

impl View for ModuleItem {
    type V = SpecModuleItem;

    open spec fn view(&self) -> SpecModuleItem {
        match self {
            ModuleItem::EntityTypes { entries } => SpecModuleItem::EntityTypes {
                entries: entries@.map_values(|e: EntityTypesEntry| e@),
            },
            ModuleItem::Entity { decl } => SpecModuleItem::Entity { decl: decl@ },
            ModuleItem::Reflection { refl } => SpecModuleItem::Reflection { refl: refl@ },
        }
    }
}

/// A re-export aliasing an entity set's name inside its namespace module:
/// the target's module path (lowered segments) and the set's name.
#[derive(Debug, PartialEq, Eq)]
pub struct ReExport {
    pub path: Vec<String>,
    pub name: String,
}

#[verifier::ext_equal]
pub struct SpecReExport {
    pub path: Seq<Seq<char>>,
    pub name: Seq<char>,
}

impl View for ReExport {
    type V = SpecReExport;

    open spec fn view(&self) -> SpecReExport {
        SpecReExport { path: self.path.deep_view(), name: self.name@ }
    }
}

/// One node of the namespace module tree, addressed by its owned path of
/// lowered segments.  Re-exports render before the node's declarations.
#[derive(Debug, PartialEq, Eq)]
pub struct ModuleNode {
    pub path: Vec<String>,
    pub imports: Vec<ReExport>,
    pub items: Vec<ModuleItem>,
}

#[verifier::ext_equal]
pub struct SpecModuleNode {
    pub path: Seq<Seq<char>>,
    pub imports: Seq<SpecReExport>,
    pub items: Seq<SpecModuleItem>,
}

impl View for ModuleNode {
    type V = SpecModuleNode;

    open spec fn view(&self) -> SpecModuleNode {
        SpecModuleNode {
            path: self.path.deep_view(),
            imports: self.imports@.map_values(|i: ReExport| i@),
            items: self.items@.map_values(|i: ModuleItem| i@),
        }
    }
}

/// The synthesized tree, handed to the emission layer: shared top-level
/// declarations (helper, reflection contract), the namespace modules in
/// creation order, the default-namespace re-export, and the non-ASCII
/// indicator computed from the tree.
#[derive(Debug, PartialEq, Eq)]
pub struct GeneratedTree {
    /// Emit the empty-string-to-null deserialization helper.
    pub empty_string_helper: bool,
    /// Emit the shared reflection contract and primitive-tag enumeration.
    pub reflection_contract: bool,
    pub modules: Vec<ModuleNode>,
    /// Lowered dotted namespace of the designated default schema, if any.
    pub default_reexport: Option<String>,
    /// True when some module path segment contains a non-ASCII character.
    pub contains_non_ascii: bool,
}

#[verifier::ext_equal]
pub struct SpecGeneratedTree {
    pub empty_string_helper: bool,
    pub reflection_contract: bool,
    pub modules: Seq<SpecModuleNode>,
    pub default_reexport: Option<Seq<char>>,
    pub contains_non_ascii: bool,
}

impl View for GeneratedTree {
    type V = SpecGeneratedTree;

    open spec fn view(&self) -> SpecGeneratedTree {
        SpecGeneratedTree {
            empty_string_helper: self.empty_string_helper,
            reflection_contract: self.reflection_contract,
            modules: self.modules@.map_values(|m: ModuleNode| m@),
            default_reexport: match self.default_reexport {
                Option::Some(ref ns) => Option::Some(ns@),
                Option::None => Option::None,
            },
            contains_non_ascii: self.contains_non_ascii,
        }
    }
}

/// A navigation property whose role matched no association end: the owning
/// entity and the navigation's name, for the aggregated diagnostic.
#[derive(Debug, PartialEq, Eq)]
pub struct NavResolutionError {
    pub entity: String,
    pub navigation: String,
}

#[verifier::ext_equal]
pub struct SpecNavResolutionError {
    pub entity: Seq<char>,
    pub navigation: Seq<char>,
}

impl View for NavResolutionError {
    type V = SpecNavResolutionError;

    open spec fn view(&self) -> SpecNavResolutionError {
        SpecNavResolutionError { entity: self.entity@, navigation: self.navigation@ }
    }
}

} // verus!
