//! Properties of the generator, stated and proved over the same spec
//! functions its contracts use.

use vstd::prelude::*;
use crate::model::{Config, SpecDocument, SpecEntityType, SpecNavigation, SpecProperty, SpecSchema,
    wf_entity};
use crate::output::{SpecFieldAnnotation, SpecFieldType, SpecGeneratedTree, SpecNavResolutionError};
use crate::generate::{entity_nav_errors, entity_nav_errors_upto, doc_nav_errors_upto,
    generate_spec, nav_errors_spec, schema_nav_errors, schema_nav_errors_upto};
use crate::resolve::{resolve_mult, resolve_spec, resolve_target};
use crate::synth::{entity_decl_spec, field_descriptors_spec, nav_field_spec, prop_field_spec,
    prop_annotations_spec};
use crate::text::{ascii_lower_seq, is_keyword, lower_spec, seq_is_ascii, upper_char};

verus! {

/// Determinism: generation is a function of the document and configuration
/// alone, so any two results of generating from the same input are equal.
pub proof fn lemma_generation_deterministic(
    d: SpecDocument,
    cfg: Config,
    r1: Result<SpecGeneratedTree, Seq<SpecNavResolutionError>>,
    r2: Result<SpecGeneratedTree, Seq<SpecNavResolutionError>>,
)
    requires
        r1 == generate_spec(d, cfg),
        r2 == generate_spec(d, cfg),
    ensures
        r1 == r2,
{
}

/// Field completeness: the synthesized declaration holds exactly one field
/// per source property, in source order, followed (when expansion is
/// enabled) by exactly one field per navigation property, in source order.
pub proof fn lemma_field_completeness(s: SpecSchema, e: SpecEntityType, cfg: Config)
    ensures
        entity_decl_spec(s, e, cfg).fields.len() == e.properties.len() + if cfg.expand {
            e.navigations.len() as int
        } else {
            0
        },
        forall|i: int|
            0 <= i < e.properties.len() ==> entity_decl_spec(s, e, cfg).fields[i]
                == prop_field_spec(#[trigger] e.properties[i], cfg),
        cfg.expand ==> forall|j: int|
            0 <= j < e.navigations.len() ==> entity_decl_spec(s, e, cfg).fields[e.properties.len()
                + j] == nav_field_spec(s, #[trigger] e.navigations[j], cfg),
{
}

/// Key-flag correctness: when the key names a property and property names do
/// not repeat, exactly one field descriptor carries the key flag, and it is
/// the one whose name equals the entity's designated key property name.
pub proof fn lemma_key_flag_correctness(e: SpecEntityType)
    requires
        wf_entity(e),
        forall|i: int, j: int|
            0 <= i < j < e.properties.len() ==> (#[trigger] e.properties[i]).name != (
            #[trigger] e.properties[j]).name,
    ensures
        exists|k: int|
            {
                &&& 0 <= k < field_descriptors_spec(e).len()
                &&& (#[trigger] field_descriptors_spec(e)[k]).key
                &&& field_descriptors_spec(e)[k].name == e.key
                &&& forall|j: int|
                    0 <= j < field_descriptors_spec(e).len() && j != k ==> !(
                    #[trigger] field_descriptors_spec(e)[j]).key
            },
{
    let k = choose|k: int| 0 <= k < e.properties.len() && (#[trigger] e.properties[k]).name
        == e.key;
    let descs = field_descriptors_spec(e);
    assert(descs[k].key && descs[k].name == e.key);
    assert forall|j: int| 0 <= j < descs.len() && j != k implies !(#[trigger] descs[j]).key by {
        if j < k {
            assert(e.properties[j].name != e.properties[k].name);
        } else {
            assert(e.properties[k].name != e.properties[j].name);
        }
    }
}

/// Multiplicity mapping: a resolved `0..1` navigation produces an optional
/// single-reference field; any other multiplicity produces a collection
/// field, both pointing at the resolved target.
pub proof fn lemma_multiplicity_mapping(s: SpecSchema, nav: SpecNavigation, cfg: Config)
    requires
        resolve_spec(s, nav) is Some,
    ensures
        resolve_mult(s, nav) is ZeroOrOne ==> nav_field_spec(s, nav, cfg).ty
            == (SpecFieldType::OptionalSingle { target: resolve_target(s, nav) }),
        !(resolve_mult(s, nav) is ZeroOrOne) ==> nav_field_spec(s, nav, cfg).ty
            == (SpecFieldType::Collection { target: resolve_target(s, nav) }),
{
}

/// Keyword escaping for a property named `type`: its field identifier keeps
/// the name but is marked escaped (rendered behind the raw-identifier
/// prefix, so distinct from the bare keyword), and no rename annotation is
/// attached: the field still serializes under the original spelling.
pub proof fn lemma_keyword_escaping_property(p: SpecProperty, cfg: Config)
    requires
        p.name == "type"@,
    ensures
        prop_field_spec(p, cfg).escaped,
        prop_field_spec(p, cfg).ident == "type"@,
        !prop_annotations_spec(p, cfg).contains(
            SpecFieldAnnotation::SerdeRename { name: p.name },
        ),
{
    reveal_strlit("type");
    assert(seq_is_ascii("type"@));
    assert(prop_field_spec(p, cfg).ident =~= "type"@) by {
        assert(ascii_lower_seq("type"@) =~= "type"@);
    }
    assert(!crate::text::has_upper("type"@)) by {
        assert(forall|i: int| 0 <= i < "type"@.len() ==> !upper_char(#[trigger] "type"@[i]));
    }
    let anns = prop_annotations_spec(p, cfg);
    let rename = SpecFieldAnnotation::SerdeRename { name: p.name };
    assert(forall|i: int| 0 <= i < anns.len() ==> anns[i] != rename);
}

/// Keyword escaping for a navigation named `type`, under the same statement.
pub proof fn lemma_keyword_escaping_navigation(s: SpecSchema, nav: SpecNavigation, cfg: Config)
    requires
        nav.name == "type"@,
    ensures
        nav_field_spec(s, nav, cfg).escaped,
        nav_field_spec(s, nav, cfg).ident == "type"@,
        nav_field_spec(s, nav, cfg).annotations =~= Seq::<SpecFieldAnnotation>::empty(),
{
    reveal_strlit("type");
    assert(seq_is_ascii("type"@));
    assert(nav_field_spec(s, nav, cfg).ident =~= "type"@) by {
        assert(ascii_lower_seq("type"@) =~= "type"@);
    }
    assert(!crate::text::has_upper("type"@)) by {
        assert(forall|i: int| 0 <= i < "type"@.len() ==> !upper_char(#[trigger] "type"@[i]));
    }
}

proof fn lemma_concat_contains_left<T>(a: Seq<T>, b: Seq<T>, x: T)
    requires
        a.contains(x),
    ensures
        (a + b).contains(x),
{
    let k = choose|k: int| 0 <= k < a.len() && a[k] == x;
    assert((a + b)[k] == x);
}

proof fn lemma_concat_contains_right<T>(a: Seq<T>, b: Seq<T>, x: T)
    requires
        b.contains(x),
    ensures
        (a + b).contains(x),
{
    let k = choose|k: int| 0 <= k < b.len() && b[k] == x;
    assert((a + b)[a.len() + k] == x);
}

proof fn lemma_entity_err_contained(s: SpecSchema, e: SpecEntityType, ni: int, n: int)
    requires
        0 <= ni < n <= e.navigations.len(),
        resolve_spec(s, e.navigations[ni]) is None,
    ensures
        entity_nav_errors_upto(s, e, n).contains(
            SpecNavResolutionError { entity: e.name, navigation: e.navigations[ni].name },
        ),
    decreases n,
{
    let err = SpecNavResolutionError { entity: e.name, navigation: e.navigations[ni].name };
    if ni == n - 1 {
        let tail = seq![err];
        assert(tail[0] == err);
        lemma_concat_contains_right(entity_nav_errors_upto(s, e, n - 1), tail, err);
    } else {
        lemma_entity_err_contained(s, e, ni, n - 1);
        lemma_concat_contains_left(
            entity_nav_errors_upto(s, e, n - 1),
            if resolve_spec(s, e.navigations[n - 1]) is None {
                seq![
                    SpecNavResolutionError {
                        entity: e.name,
                        navigation: e.navigations[n - 1].name,
                    },
                ]
            } else {
                Seq::empty()
            },
            err,
        );
    }
}

proof fn lemma_schema_err_contained(s: SpecSchema, ei: int, n: int, err: SpecNavResolutionError)
    requires
        0 <= ei < n <= s.entities.len(),
        entity_nav_errors(s, s.entities[ei]).contains(err),
    ensures
        schema_nav_errors_upto(s, n).contains(err),
    decreases n,
{
    if ei == n - 1 {
        lemma_concat_contains_right(
            schema_nav_errors_upto(s, n - 1),
            entity_nav_errors(s, s.entities[n - 1]),
            err,
        );
    } else {
        lemma_schema_err_contained(s, ei, n - 1, err);
        lemma_concat_contains_left(
            schema_nav_errors_upto(s, n - 1),
            entity_nav_errors(s, s.entities[n - 1]),
            err,
        );
    }
}

proof fn lemma_doc_err_contained(d: SpecDocument, si: int, n: int, err: SpecNavResolutionError)
    requires
        0 <= si < n <= d.schemas.len(),
        schema_nav_errors(d.schemas[si]).contains(err),
    ensures
        doc_nav_errors_upto(d, n).contains(err),
    decreases n,
{
    if si == n - 1 {
        lemma_concat_contains_right(
            doc_nav_errors_upto(d, n - 1),
            schema_nav_errors(d.schemas[n - 1]),
            err,
        );
    } else {
        lemma_doc_err_contained(d, si, n - 1, err);
        lemma_concat_contains_left(
            doc_nav_errors_upto(d, n - 1),
            schema_nav_errors(d.schemas[n - 1]),
            err,
        );
    }
}

/// Unresolved navigation: whenever navigations are resolved at all (expansion
/// or reflection enabled) and some navigation's role matches no association
/// end, generation fails, and the aggregated diagnostic names that entity and
/// navigation.
pub proof fn lemma_unresolved_navigation_reported(
    d: SpecDocument,
    cfg: Config,
    si: int,
    ei: int,
    ni: int,
)
    requires
        cfg.expand || cfg.reflection,
        0 <= si < d.schemas.len(),
        0 <= ei < d.schemas[si].entities.len(),
        0 <= ni < d.schemas[si].entities[ei].navigations.len(),
        resolve_spec(d.schemas[si], d.schemas[si].entities[ei].navigations[ni]) is None,
    ensures
        generate_spec(d, cfg) is Err,
        generate_spec(d, cfg)->Err_0.contains(
            SpecNavResolutionError {
                entity: d.schemas[si].entities[ei].name,
                navigation: d.schemas[si].entities[ei].navigations[ni].name,
            },
        ),
{
    let s = d.schemas[si];
    let e = s.entities[ei];
    let err = SpecNavResolutionError { entity: e.name, navigation: e.navigations[ni].name };
    lemma_entity_err_contained(s, e, ni, e.navigations.len() as int);
    lemma_schema_err_contained(s, ei, s.entities.len() as int, err);
    lemma_doc_err_contained(d, si, d.schemas.len() as int, err);
    assert(nav_errors_spec(d, cfg).contains(err));
    assert(nav_errors_spec(d, cfg).len() > 0);
}

} // verus!
