use odata_rust_generator::generate::generate;
use odata_rust_generator::model::{
    Association, AssociationEnd, Config, Document, EntitySet, EntityType, Multiplicity,
    NavigationProperty, PrimitiveTag, Property, Schema,
};
use odata_rust_generator::model::{check_document, check_entity};
use odata_rust_generator::output::{
    FieldAnnotation, FieldDecl, FieldType, GeneratedTree, ModuleItem,
};
use odata_rust_generator::resolve::lookup_entity_type;
use odata_rust_generator::synth::{entity_decl, entity_type_reflection, navigation_field};
use odata_rust_generator::text::{contains_upper, split_namespace};
use odata_rust_generator::typemap::{edm_type_to_rust_type, tag_label};

fn prop(name: &str, tag: PrimitiveTag, nullable: bool) -> Property {
    Property { name: name.to_string(), tag, nullable }
}

fn all_tags() -> Vec<PrimitiveTag> {
    vec![
        PrimitiveTag::Binary,
        PrimitiveTag::Boolean,
        PrimitiveTag::Byte,
        PrimitiveTag::DateTime,
        PrimitiveTag::DateTimeOffset,
        PrimitiveTag::Decimal,
        PrimitiveTag::Double,
        PrimitiveTag::Int16,
        PrimitiveTag::Int32,
        PrimitiveTag::Text,
    ]
}

fn person_entity() -> EntityType {
    EntityType {
        name: "Person".to_string(),
        key: "Id".to_string(),
        properties: vec![
            prop("Id", PrimitiveTag::Int32, false),
            prop("Name", PrimitiveTag::Text, true),
        ],
        navigations: vec![],
    }
}

fn person_document() -> Document {
    Document {
        schemas: vec![Schema {
            namespace: "Test".to_string(),
            entities: vec![person_entity()],
            associations: vec![],
            entity_sets: None,
        }],
    }
}

fn default_config() -> Config {
    Config { serde: true, empty_string_is_null: true, reflection: true, expand: true }
}

#[test]
fn type_mapping_is_total_and_nonempty() {
    for tag in all_tags() {
        for nullable in [false, true] {
            let name = edm_type_to_rust_type(&prop("P", tag, nullable));
            assert!(!name.is_empty());
            if nullable {
                assert!(name.starts_with("Option<") && name.ends_with('>'));
            }
        }
    }
}

#[test]
fn type_mapping_exact_values() {
    let cases = [
        (PrimitiveTag::Binary, "Vec<u8>"),
        (PrimitiveTag::Boolean, "bool"),
        (PrimitiveTag::Byte, "u8"),
        (PrimitiveTag::DateTime, "chrono::NaiveDateTime"),
        (PrimitiveTag::DateTimeOffset, "std::time::Duration"),
        (PrimitiveTag::Decimal, "f64"),
        (PrimitiveTag::Double, "f64"),
        (PrimitiveTag::Int16, "i16"),
        (PrimitiveTag::Int32, "i32"),
        (PrimitiveTag::Text, "String"),
    ];
    for (tag, expected) in cases {
        assert_eq!(edm_type_to_rust_type(&prop("P", tag, false)), expected);
        assert_eq!(
            edm_type_to_rust_type(&prop("P", tag, true)),
            format!("Option<{}>", expected)
        );
    }
}

#[test]
fn tag_labels_exact_values() {
    assert_eq!(tag_label(PrimitiveTag::Binary), "Binary");
    assert_eq!(tag_label(PrimitiveTag::DateTimeOffset), "DateTimeOffset");
    assert_eq!(tag_label(PrimitiveTag::Text), "String");
}

#[test]
fn split_namespace_lowers_segments() {
    let segs = split_namespace("Foo.BarBaz.Qux");
    assert_eq!(segs, vec!["foo", "barbaz", "qux"]);
    let one = split_namespace("Single");
    assert_eq!(one, vec!["single"]);
}

#[test]
fn contains_upper_detects_case() {
    assert!(!contains_upper("abc"));
    assert!(contains_upper("aBc"));
    assert!(!contains_upper(""));
}

fn nav_schema(multiplicity: Option<Multiplicity>, entity_type: &str) -> Schema {
    Schema {
        namespace: "Test".to_string(),
        entities: vec![],
        associations: vec![Association {
            ends: vec![
                AssociationEnd {
                    role: Some("Other".to_string()),
                    entity_type: None,
                    multiplicity: None,
                },
                AssociationEnd {
                    role: Some("Friends".to_string()),
                    entity_type: Some(entity_type.to_string()),
                    multiplicity,
                },
            ],
        }],
        entity_sets: None,
    }
}

fn friends_nav() -> NavigationProperty {
    NavigationProperty { name: "Friends".to_string(), to_role: "Friends".to_string() }
}

#[test]
fn lookup_resolves_role_and_strips_namespace() {
    let schema = nav_schema(Some(Multiplicity::Many), "Test.Person");
    let resolved = lookup_entity_type(&schema, &friends_nav());
    assert_eq!(resolved, Some(("Person".to_string(), Multiplicity::Many)));
}

#[test]
fn lookup_unresolved_when_role_absent() {
    let schema = nav_schema(Some(Multiplicity::Many), "Test.Person");
    let nav = NavigationProperty { name: "Boss".to_string(), to_role: "Boss".to_string() };
    assert_eq!(lookup_entity_type(&schema, &nav), None);
}

#[test]
fn lookup_unresolved_when_namespace_differs() {
    let schema = nav_schema(Some(Multiplicity::Many), "Elsewhere.Person");
    assert_eq!(lookup_entity_type(&schema, &friends_nav()), None);
}

#[test]
fn lookup_unresolved_without_multiplicity() {
    let schema = nav_schema(None, "Test.Person");
    assert_eq!(lookup_entity_type(&schema, &friends_nav()), None);
}

#[test]
fn multiplicity_zero_or_one_gives_optional_single() {
    let schema = nav_schema(Some(Multiplicity::ZeroOrOne), "Test.Person");
    let field = navigation_field(&schema, &friends_nav(), &default_config());
    assert_eq!(field.ty, FieldType::OptionalSingle { target: "Person".to_string() });
}

#[test]
fn multiplicity_other_gives_collection() {
    for m in [Multiplicity::One, Multiplicity::Many] {
        let schema = nav_schema(Some(m), "Test.Person");
        let field = navigation_field(&schema, &friends_nav(), &default_config());
        assert_eq!(field.ty, FieldType::Collection { target: "Person".to_string() });
    }
}

#[test]
fn keyword_type_is_escaped_and_keeps_wire_name() {
    let schema = Schema {
        namespace: "Test".to_string(),
        entities: vec![],
        associations: vec![],
        entity_sets: None,
    };
    let entity = EntityType {
        name: "Thing".to_string(),
        key: "type".to_string(),
        properties: vec![prop("type", PrimitiveTag::Text, false)],
        navigations: vec![],
    };
    let decl = entity_decl(&schema, &entity, &default_config());
    assert_eq!(decl.fields.len(), 1);
    let field = &decl.fields[0];
    assert_eq!(field.ident, "type");
    assert!(field.escaped);
    // No rename: the lower-cased identifier already is the original spelling.
    assert!(field.annotations.is_empty());
}

#[test]
fn uppercase_name_gets_rename_and_no_escape() {
    let schema = Schema {
        namespace: "Test".to_string(),
        entities: vec![],
        associations: vec![],
        entity_sets: None,
    };
    let entity = EntityType {
        name: "Thing".to_string(),
        key: "Type".to_string(),
        properties: vec![prop("Type", PrimitiveTag::Text, false)],
        navigations: vec![],
    };
    let decl = entity_decl(&schema, &entity, &default_config());
    let field = &decl.fields[0];
    assert_eq!(field.ident, "type");
    assert!(!field.escaped);
    assert_eq!(
        field.annotations,
        vec![FieldAnnotation::SerdeRename { name: "Type".to_string() }]
    );
}

#[test]
fn reflection_marks_exactly_one_key() {
    let descs = entity_type_reflection(&person_entity());
    assert_eq!(descs.len(), 2);
    assert_eq!(descs[0].name, "Id");
    assert!(descs[0].key);
    assert!(!descs[0].nullable);
    assert_eq!(descs[0].tag, PrimitiveTag::Int32);
    assert_eq!(descs[1].name, "Name");
    assert!(!descs[1].key);
    assert!(descs[1].nullable);
    assert_eq!(descs[1].tag, PrimitiveTag::Text);
    assert_eq!(descs.iter().filter(|d| d.key).count(), 1);
}

fn expect_tree(result: Result<GeneratedTree, Vec<odata_rust_generator::output::NavResolutionError>>) -> GeneratedTree {
    match result {
        Ok(tree) => tree,
        Err(errs) => panic!("generation failed: {:?}", errs),
    }
}

#[test]
fn person_default_flags() {
    let doc = person_document();
    assert!(check_document(&doc));
    let tree = expect_tree(generate(&doc, &default_config()));
    assert!(tree.empty_string_helper);
    assert!(tree.reflection_contract);
    assert_eq!(tree.modules.len(), 1);
    let module = &tree.modules[0];
    assert_eq!(module.path, vec!["test"]);
    assert!(module.imports.is_empty());
    assert_eq!(module.items.len(), 3);
    match &module.items[0] {
        ModuleItem::EntityTypes { entries } => {
            assert_eq!(entries.len(), 1);
            assert_eq!(entries[0].entity, "Person");
            assert_eq!(entries[0].fields.len(), 2);
        }
        other => panic!("expected the reflection table first, got {:?}", other),
    }
    match &module.items[1] {
        ModuleItem::Entity { decl } => {
            assert_eq!(decl.name, "Person");
            assert!(decl.serde);
            assert_eq!(decl.fields.len(), 2);
            let id = &decl.fields[0];
            assert_eq!(id.ident, "id");
            assert!(!id.escaped);
            assert_eq!(id.ty, FieldType::Primitive { tag: PrimitiveTag::Int32, nullable: false });
            assert_eq!(
                id.annotations,
                vec![FieldAnnotation::SerdeRename { name: "Id".to_string() }]
            );
            let name = &decl.fields[1];
            assert_eq!(name.ident, "name");
            assert_eq!(name.ty, FieldType::Primitive { tag: PrimitiveTag::Text, nullable: true });
            assert_eq!(
                name.annotations,
                vec![
                    FieldAnnotation::EmptyStringAsNone,
                    FieldAnnotation::SerdeRename { name: "Name".to_string() },
                ]
            );
        }
        other => panic!("expected the entity declaration, got {:?}", other),
    }
    match &module.items[2] {
        ModuleItem::Reflection { refl } => {
            assert_eq!(refl.entity, "Person");
            assert_eq!(refl.fields.len(), 2);
            assert!(refl.fields[0].key);
            assert_eq!(refl.fields[0].name, "Id");
            assert!(!refl.fields[1].key);
            let relations = refl.relations.as_ref().expect("expansion enabled");
            assert!(relations.is_empty());
        }
        other => panic!("expected the reflection implementation, got {:?}", other),
    }
    assert_eq!(tree.default_reexport, None);
    assert!(!tree.contains_non_ascii);
}

#[test]
fn person_no_reflection() {
    let mut cfg = default_config();
    cfg.reflection = false;
    let tree = expect_tree(generate(&person_document(), &cfg));
    assert!(!tree.reflection_contract);
    let module = &tree.modules[0];
    assert_eq!(module.items.len(), 1);
    match &module.items[0] {
        ModuleItem::Entity { decl } => assert_eq!(decl.fields.len(), 2),
        other => panic!("expected only the entity declaration, got {:?}", other),
    }
}

#[test]
fn person_no_serde() {
    let mut cfg = default_config();
    cfg.serde = false;
    let tree = expect_tree(generate(&person_document(), &cfg));
    match &tree.modules[0].items[1] {
        ModuleItem::Entity { decl } => {
            assert!(!decl.serde);
            // Disabling serialization suppresses the field annotations too,
            // not only the derivations.
            assert!(decl.fields.iter().all(|f| f.annotations.is_empty()));
        }
        other => panic!("expected the entity declaration, got {:?}", other),
    }
}

#[test]
fn no_serde_suppresses_navigation_annotations() {
    let mut cfg = default_config();
    cfg.serde = false;
    let schema = nav_schema(Some(Multiplicity::Many), "Test.Person");
    let field = navigation_field(&schema, &friends_nav(), &cfg);
    assert!(field.annotations.is_empty());
    assert_eq!(field.ty, FieldType::Collection { target: "Person".to_string() });
}

#[test]
fn person_no_empty_string_hint() {
    let mut cfg = default_config();
    cfg.empty_string_is_null = false;
    let tree = expect_tree(generate(&person_document(), &cfg));
    assert!(!tree.empty_string_helper);
    match &tree.modules[0].items[1] {
        ModuleItem::Entity { decl } => {
            assert_eq!(
                decl.fields[1].annotations,
                vec![FieldAnnotation::SerdeRename { name: "Name".to_string() }]
            );
        }
        other => panic!("expected the entity declaration, got {:?}", other),
    }
}

#[test]
fn generation_is_deterministic() {
    let doc = person_document();
    let cfg = default_config();
    let first = generate(&doc, &cfg);
    let second = generate(&doc, &cfg);
    assert_eq!(first, second);
}

#[test]
fn unresolved_navigation_is_reported() {
    let mut entity = person_entity();
    entity.navigations.push(NavigationProperty {
        name: "Boss".to_string(),
        to_role: "Missing".to_string(),
    });
    let doc = Document {
        schemas: vec![Schema {
            namespace: "Test".to_string(),
            entities: vec![entity],
            associations: vec![],
            entity_sets: None,
        }],
    };
    assert!(check_document(&doc));
    let errs = generate(&doc, &default_config()).expect_err("must fail");
    assert_eq!(errs.len(), 1);
    assert_eq!(errs[0].entity, "Person");
    assert_eq!(errs[0].navigation, "Boss");
}

#[test]
fn unresolved_navigation_ignored_without_expand_and_reflection() {
    let mut entity = person_entity();
    entity.navigations.push(NavigationProperty {
        name: "Boss".to_string(),
        to_role: "Missing".to_string(),
    });
    let doc = Document {
        schemas: vec![Schema {
            namespace: "Test".to_string(),
            entities: vec![entity],
            associations: vec![],
            entity_sets: None,
        }],
    };
    let cfg = Config { serde: true, empty_string_is_null: true, reflection: false, expand: false };
    let tree = expect_tree(generate(&doc, &cfg));
    match &tree.modules[0].items[0] {
        ModuleItem::Entity { decl } => assert_eq!(decl.fields.len(), 2),
        other => panic!("expected the entity declaration, got {:?}", other),
    }
}

#[test]
fn field_completeness_with_navigation() {
    let mut schema = nav_schema(Some(Multiplicity::ZeroOrOne), "Test.Person");
    let mut entity = person_entity();
    entity.navigations.push(friends_nav());
    schema.entities.push(entity);
    let doc = Document { schemas: vec![schema] };
    assert!(check_document(&doc));
    let tree = expect_tree(generate(&doc, &default_config()));
    match &tree.modules[0].items[1] {
        ModuleItem::Entity { decl } => {
            assert_eq!(decl.fields.len(), 3);
            assert_eq!(decl.fields[0].ident, "id");
            assert_eq!(decl.fields[1].ident, "name");
            assert_eq!(decl.fields[2].ident, "friends");
            assert_eq!(
                decl.fields[2].ty,
                FieldType::OptionalSingle { target: "Person".to_string() }
            );
            assert_eq!(
                decl.fields[2].annotations,
                vec![FieldAnnotation::SerdeRenameDefault { name: "Friends".to_string() }]
            );
        }
        other => panic!("expected the entity declaration, got {:?}", other),
    }
    match &tree.modules[0].items[2] {
        ModuleItem::Reflection { refl } => {
            let relations = refl.relations.as_ref().expect("expansion enabled");
            assert_eq!(relations.len(), 1);
            assert_eq!(relations[0].name, "Friends");
            assert_eq!(relations[0].target, "Person");
        }
        other => panic!("expected the reflection implementation, got {:?}", other),
    }
}

#[test]
fn shared_namespace_prefix_reuses_nodes() {
    let schema_a = Schema {
        namespace: "Acme.Sales".to_string(),
        entities: vec![],
        associations: vec![],
        entity_sets: None,
    };
    let schema_b = Schema {
        namespace: "Acme.Billing".to_string(),
        entities: vec![],
        associations: vec![],
        entity_sets: None,
    };
    let doc = Document { schemas: vec![schema_a, schema_b] };
    let tree = expect_tree(generate(&doc, &default_config()));
    let paths: Vec<Vec<String>> = tree.modules.iter().map(|m| m.path.clone()).collect();
    assert_eq!(
        paths,
        vec![
            vec!["acme".to_string()],
            vec!["acme".to_string(), "sales".to_string()],
            vec!["acme".to_string(), "billing".to_string()],
        ]
    );
}

#[test]
fn entity_sets_become_reexports() {
    let schema = Schema {
        namespace: "Test".to_string(),
        entities: vec![person_entity()],
        associations: vec![],
        entity_sets: Some(vec![EntitySet {
            name: "People".to_string(),
            entity_type: "Test.Person".to_string(),
        }]),
    };
    let doc = Document { schemas: vec![schema] };
    let tree = expect_tree(generate(&doc, &default_config()));
    let module = &tree.modules[0];
    assert_eq!(module.imports.len(), 1);
    assert_eq!(module.imports[0].path, vec!["test"]);
    assert_eq!(module.imports[0].name, "People");
}

#[test]
fn default_schema_gets_root_reexport() {
    let schema = Schema {
        namespace: "Default".to_string(),
        entities: vec![person_entity()],
        associations: vec![],
        entity_sets: None,
    };
    let doc = Document { schemas: vec![schema] };
    let tree = expect_tree(generate(&doc, &default_config()));
    assert_eq!(tree.default_reexport, Some("default".to_string()));
}

#[test]
fn non_ascii_namespace_is_flagged_and_lowered() {
    let schema = Schema {
        namespace: "Firma.Æble".to_string(),
        entities: vec![],
        associations: vec![],
        entity_sets: None,
    };
    let doc = Document { schemas: vec![schema] };
    let tree = expect_tree(generate(&doc, &default_config()));
    assert_eq!(tree.modules.len(), 2);
    assert_eq!(tree.modules[1].path, vec!["firma", "æble"]);
    assert!(tree.contains_non_ascii);
}

#[test]
fn check_entity_requires_key_presence() {
    assert!(check_entity(&person_entity()));
    let mut broken = person_entity();
    broken.key = "Missing".to_string();
    assert!(!check_entity(&broken));
}

#[test]
fn check_document_rejects_empty_namespace() {
    let doc = Document {
        schemas: vec![Schema {
            namespace: String::new(),
            entities: vec![],
            associations: vec![],
            entity_sets: None,
        }],
    };
    assert!(!check_document(&doc));
}

#[test]
fn duplicate_key_named_properties_each_carry_the_flag() {
    // Two properties sharing the key's name: the descriptor key flag is a
    // plain name comparison, so both rows carry it.  Uniqueness of property
    // names is what guarantees a single key descriptor.
    let entity = EntityType {
        name: "Odd".to_string(),
        key: "Id".to_string(),
        properties: vec![
            prop("Id", PrimitiveTag::Int32, false),
            prop("Id", PrimitiveTag::Text, true),
        ],
        navigations: vec![],
    };
    let descs = entity_type_reflection(&entity);
    assert_eq!(descs.iter().filter(|d| d.key).count(), 2);
}

#[test]
fn schema_without_entities_yields_empty_module() {
    let doc = Document {
        schemas: vec![Schema {
            namespace: "Empty.Space".to_string(),
            entities: vec![],
            associations: vec![],
            entity_sets: None,
        }],
    };
    let tree = expect_tree(generate(&doc, &default_config()));
    assert_eq!(tree.modules.len(), 2);
    // No entities: no reflection table and no declarations in either node.
    assert!(tree.modules.iter().all(|m| m.items.is_empty() && m.imports.is_empty()));
}
