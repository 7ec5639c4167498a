//! The transformation engine: one forward pass over the schema list.  For
//! each schema the module tree builder locates or creates the namespace path
//! in the output tree; the synthesizers fill the leaf node with declarations;
//! entity-set re-exports and the default-namespace re-export are appended.
//! Unresolved navigation properties are aggregated over the whole document
//! and reported together instead of aborting at the first one.

use vstd::prelude::*;
use vstd::string::*;
use crate::model::{Config, Document, EntityType, NavigationProperty, Schema, SpecDocument,
    SpecEntityType, SpecSchema, wf_document};
use crate::output::{GeneratedTree, ModuleItem, ModuleNode, NavResolutionError, ReExport,
    SpecGeneratedTree, SpecModuleItem, SpecModuleNode, SpecNavResolutionError, SpecReExport};
use crate::resolve::{lookup_entity_type, resolve_spec};
use crate::synth::{all_navs_resolved, entity_decl, entity_decl_spec, entity_reflection,
    entity_reflection_spec, entity_types_table, entity_types_table_spec};
use crate::text::{namespace_path, seq_is_ascii, split_namespace};

verus! {

/// Spec view of a module list.
pub open spec fn view_mods(s: Seq<ModuleNode>) -> Seq<SpecModuleNode> {
    s.map_values(|m: ModuleNode| m@)
}

/// Spec view of an error list.
pub open spec fn view_errors(s: Seq<NavResolutionError>) -> Seq<SpecNavResolutionError> {
    s.map_values(|e: NavResolutionError| e@)
}

// ---------------------------------------------------------------------------
// Aggregated navigation-resolution errors
// ---------------------------------------------------------------------------

/// Errors of the first `i` navigation properties of one entity.
pub open spec fn entity_nav_errors_upto(s: SpecSchema, e: SpecEntityType, i: int) -> Seq<
    SpecNavResolutionError,
>
    decreases i,
{
    if i <= 0 {
        Seq::empty()
    } else {
        entity_nav_errors_upto(s, e, i - 1) + if resolve_spec(s, e.navigations[i - 1]) is None {
            seq![
                SpecNavResolutionError { entity: e.name, navigation: e.navigations[i - 1].name },
            ]
        } else {
            Seq::empty()
        }
    }
}

/// All unresolved navigations of one entity, in source order.
pub open spec fn entity_nav_errors(s: SpecSchema, e: SpecEntityType) -> Seq<
    SpecNavResolutionError,
> {
    entity_nav_errors_upto(s, e, e.navigations.len() as int)
}

/// Errors of the first `i` entities of one schema.
pub open spec fn schema_nav_errors_upto(s: SpecSchema, i: int) -> Seq<SpecNavResolutionError>
    decreases i,
{
    if i <= 0 {
        Seq::empty()
    } else {
        schema_nav_errors_upto(s, i - 1) + entity_nav_errors(s, s.entities[i - 1])
    }
}

/// All unresolved navigations of one schema, in document order.
pub open spec fn schema_nav_errors(s: SpecSchema) -> Seq<SpecNavResolutionError> {
    schema_nav_errors_upto(s, s.entities.len() as int)
}

/// Errors of the first `i` schemas of the document.
pub open spec fn doc_nav_errors_upto(d: SpecDocument, i: int) -> Seq<SpecNavResolutionError>
    decreases i,
{
    if i <= 0 {
        Seq::empty()
    } else {
        doc_nav_errors_upto(d, i - 1) + schema_nav_errors(d.schemas[i - 1])
    }
}

/// The aggregated diagnostic: every (entity, navigation) pair whose role
/// matches no association end, in document order.  Navigations are only
/// resolved when expansion or reflection asks for them, so with both disabled
/// nothing is reported.
pub open spec fn nav_errors_spec(d: SpecDocument, cfg: Config) -> Seq<SpecNavResolutionError> {
    if cfg.expand || cfg.reflection {
        doc_nav_errors_upto(d, d.schemas.len() as int)
    } else {
        Seq::empty()
    }
}

proof fn lemma_entity_errors_empty(s: SpecSchema, e: SpecEntityType, i: int)
    requires
        0 <= i <= e.navigations.len(),
    ensures
        (entity_nav_errors_upto(s, e, i).len() == 0) <==> (forall|j: int|
            0 <= j < i ==> resolve_spec(s, #[trigger] e.navigations[j]) is Some),
    decreases i,
{
    if i > 0 {
        lemma_entity_errors_empty(s, e, i - 1);
    }
}

proof fn lemma_schema_errors_empty(s: SpecSchema, i: int)
    requires
        0 <= i <= s.entities.len(),
    ensures
        (schema_nav_errors_upto(s, i).len() == 0) <==> (forall|j: int|
            0 <= j < i ==> entity_nav_errors(s, #[trigger] s.entities[j]).len() == 0),
    decreases i,
{
    if i > 0 {
        lemma_schema_errors_empty(s, i - 1);
    }
}

proof fn lemma_doc_errors_empty(d: SpecDocument, i: int)
    requires
        0 <= i <= d.schemas.len(),
    ensures
        (doc_nav_errors_upto(d, i).len() == 0) <==> (forall|j: int|
            0 <= j < i ==> schema_nav_errors(#[trigger] d.schemas[j]).len() == 0),
    decreases i,
{
    if i > 0 {
        lemma_doc_errors_empty(d, i - 1);
    }
}

/// When the aggregated diagnostic is empty and navigations were resolved at
/// all, every navigation of every entity resolves.
pub proof fn lemma_no_errors_all_resolved(d: SpecDocument, cfg: Config)
    requires
        cfg.expand || cfg.reflection,
        nav_errors_spec(d, cfg).len() == 0,
    ensures
        forall|i: int, j: int|
            0 <= i < d.schemas.len() && 0 <= j < d.schemas[i].entities.len()
                ==> all_navs_resolved(#[trigger] d.schemas[i], #[trigger] d.schemas[i].entities[j]),
{
    lemma_doc_errors_empty(d, d.schemas.len() as int);
    assert forall|i: int, j: int|
        0 <= i < d.schemas.len() && 0 <= j < d.schemas[i].entities.len() implies all_navs_resolved(
        #[trigger] d.schemas[i],
        #[trigger] d.schemas[i].entities[j],
    ) by {
        let s = d.schemas[i];
        lemma_schema_errors_empty(s, s.entities.len() as int);
        let e = s.entities[j];
        lemma_entity_errors_empty(s, e, e.navigations.len() as int);
    }
}

/// Scan the whole document and collect every unresolved navigation.
pub fn collect_nav_errors(document: &Document, cfg: &Config) -> (r: Vec<NavResolutionError>)
    ensures
        view_errors(r@) == nav_errors_spec(document@, *cfg),
{
    let mut r: Vec<NavResolutionError> = Vec::new();
    if !cfg.expand && !cfg.reflection {
        proof {
            assert(view_errors(r@) =~= nav_errors_spec(document@, *cfg));
        }
        return r;
    }
    let mut si: usize = 0;
    proof {
        assert(view_errors(r@) =~= doc_nav_errors_upto(document@, 0));
    }
    while si < document.schemas.len()
        invariant
            0 <= si <= document.schemas.len(),
            document@.schemas == document.schemas@.map_values(|s: Schema| s@),
            view_errors(r@) == doc_nav_errors_upto(document@, si as int),
        decreases document.schemas.len() - si,
    {
        let schema = &document.schemas[si];
        proof {
            assert(document@.schemas[si as int] == schema@);
        }
        let ghost base_s = view_errors(r@);
        let mut ei: usize = 0;
        proof {
            assert(view_errors(r@) =~= base_s + schema_nav_errors_upto(schema@, 0));
        }
        while ei < schema.entities.len()
            invariant
                0 <= ei <= schema.entities.len(),
                schema@.entities == schema.entities@.map_values(|e: EntityType| e@),
                view_errors(r@) == base_s + schema_nav_errors_upto(schema@, ei as int),
            decreases schema.entities.len() - ei,
        {
            let entity = &schema.entities[ei];
            proof {
                assert(schema@.entities[ei as int] == entity@);
            }
            let ghost base_e = view_errors(r@);
            let mut ni: usize = 0;
            proof {
                assert(view_errors(r@) =~= base_e + entity_nav_errors_upto(schema@, entity@, 0));
            }
            while ni < entity.navigations.len()
                invariant
                    0 <= ni <= entity.navigations.len(),
                    entity@.navigations == entity.navigations@.map_values(
                        |n: NavigationProperty| n@,
                    ),
                    entity@.name == entity.name@,
                    view_errors(r@) == base_e + entity_nav_errors_upto(
                        schema@,
                        entity@,
                        ni as int,
                    ),
                decreases entity.navigations.len() - ni,
            {
                let nav = &entity.navigations[ni];
                proof {
                    assert(entity@.navigations[ni as int] == nav@);
                }
                let ghost ev0 = view_errors(r@);
                if lookup_entity_type(schema, nav).is_none() {
                    let err = NavResolutionError {
                        entity: entity.name.clone(),
                        navigation: nav.name.clone(),
                    };
                    r.push(err);
                    proof {
                        assert(view_errors(r@) =~= ev0.push(err@));
                        assert(view_errors(r@) =~= base_e + entity_nav_errors_upto(
                            schema@,
                            entity@,
                            ni + 1,
                        ));
                    }
                } else {
                    proof {
                        assert(view_errors(r@) =~= base_e + entity_nav_errors_upto(
                            schema@,
                            entity@,
                            ni + 1,
                        ));
                    }
                }
                ni += 1;
            }
            proof {
                assert(view_errors(r@) =~= base_s + schema_nav_errors_upto(schema@, ei + 1));
            }
            ei += 1;
        }
        proof {
            assert(view_errors(r@) =~= doc_nav_errors_upto(document@, si + 1));
        }
        si += 1;
    }
    r
}

// ---------------------------------------------------------------------------
// Module tree builder
// ---------------------------------------------------------------------------

/// First index among the first `i` modules whose path equals `path`, or -1.
pub open spec fn find_path_upto(mods: Seq<SpecModuleNode>, path: Seq<Seq<char>>, i: int) -> int
    decreases i,
{
    if i <= 0 {
        -1
    } else {
        let r = find_path_upto(mods, path, i - 1);
        if r >= 0 {
            r
        } else if mods[i - 1].path == path {
            i - 1
        } else {
            -1
        }
    }
}

/// First module with the given path, or -1 when none exists.
pub open spec fn find_path(mods: Seq<SpecModuleNode>, path: Seq<Seq<char>>) -> int {
    find_path_upto(mods, path, mods.len() as int)
}

proof fn lemma_find_upto_bounds(mods: Seq<SpecModuleNode>, path: Seq<Seq<char>>, i: int)
    requires
        0 <= i <= mods.len(),
    ensures
        find_path_upto(mods, path, i) == -1 || (0 <= find_path_upto(mods, path, i) < i
            && mods[find_path_upto(mods, path, i)].path == path),
    decreases i,
{
    if i > 0 {
        lemma_find_upto_bounds(mods, path, i - 1);
    }
}

proof fn lemma_find_upto_stable(mods: Seq<SpecModuleNode>, path: Seq<Seq<char>>, i: int, n: int)
    requires
        0 <= i <= n,
        find_path_upto(mods, path, i) >= 0,
    ensures
        find_path_upto(mods, path, n) == find_path_upto(mods, path, i),
    decreases n - i,
{
    if i < n {
        lemma_find_upto_stable(mods, path, i + 1, n);
    }
}

proof fn lemma_find_upto_snoc(mods: Seq<SpecModuleNode>, node: SpecModuleNode, path: Seq<Seq<char>>, i: int)
    requires
        0 <= i <= mods.len(),
    ensures
        find_path_upto(mods.push(node), path, i) == find_path_upto(mods, path, i),
    decreases i,
{
    if i > 0 {
        lemma_find_upto_snoc(mods, node, path, i - 1);
        assert(mods.push(node)[i - 1] == mods[i - 1]);
    }
}

/// An empty namespace node.
pub open spec fn empty_node(path: Seq<Seq<char>>) -> SpecModuleNode {
    SpecModuleNode { path, imports: Seq::empty(), items: Seq::empty() }
}

/// Locate-or-create every prefix of `path` up to length `k`, in order: the
/// chain of namespace nodes the schema's declarations live under.
pub open spec fn ensure_prefixes(
    mods: Seq<SpecModuleNode>,
    path: Seq<Seq<char>>,
    k: int,
) -> Seq<SpecModuleNode>
    decreases k,
{
    if k <= 0 {
        mods
    } else {
        let m1 = ensure_prefixes(mods, path, k - 1);
        if find_path(m1, path.take(k)) >= 0 {
            m1
        } else {
            m1.push(empty_node(path.take(k)))
        }
    }
}

/// After the whole path is ensured, its full-length node exists.
proof fn lemma_ensure_finds(mods: Seq<SpecModuleNode>, path: Seq<Seq<char>>, k: int)
    requires
        k >= 1,
    ensures
        0 <= find_path(ensure_prefixes(mods, path, k), path.take(k)) < ensure_prefixes(
            mods,
            path,
            k,
        ).len(),
{
    let m1 = ensure_prefixes(mods, path, k - 1);
    let p = path.take(k);
    lemma_find_upto_bounds(m1, p, m1.len() as int);
    if find_path(m1, p) >= 0 {
    } else {
        let m2 = m1.push(empty_node(p));
        lemma_find_upto_snoc(m1, empty_node(p), p, m1.len() as int);
        assert(find_path_upto(m2, p, m1.len() as int) == -1);
        assert(m2[m1.len() as int].path == p);
        assert(find_path_upto(m2, p, m1.len() as int + 1) == m1.len());
    }
}

/// One schema's contribution folded into the module list: ensure the
/// namespace chain, then append the schema's items and entity-set re-exports
/// to the leaf node.
pub open spec fn add_schema_spec(
    mods: Seq<SpecModuleNode>,
    s: SpecSchema,
    cfg: Config,
) -> Seq<SpecModuleNode> {
    let path = namespace_path(s.namespace);
    let m1 = ensure_prefixes(mods, path, path.len() as int);
    let i = find_path(m1, path);
    if 0 <= i < m1.len() {
        m1.update(
            i,
            SpecModuleNode {
                path: m1[i].path,
                imports: m1[i].imports + schema_imports_spec(s),
                items: m1[i].items + schema_items_spec(s, cfg),
            },
        )
    } else {
        m1
    }
}

/// The module list after the first `i` schemas.
pub open spec fn modules_upto(schemas: Seq<SpecSchema>, cfg: Config, i: int) -> Seq<SpecModuleNode>
    decreases i,
{
    if i <= 0 {
        Seq::empty()
    } else {
        add_schema_spec(modules_upto(schemas, cfg, i - 1), schemas[i - 1], cfg)
    }
}

/// The whole module tree of the document.
pub open spec fn modules_spec(d: SpecDocument, cfg: Config) -> Seq<SpecModuleNode> {
    modules_upto(d.schemas, cfg, d.schemas.len() as int)
}

// ---------------------------------------------------------------------------
// Per-schema declarations and re-exports
// ---------------------------------------------------------------------------

/// The declarations one entity contributes: its record declaration, then
/// (when reflection is enabled) its reflection implementation.
pub open spec fn entity_items_spec(s: SpecSchema, e: SpecEntityType, cfg: Config) -> Seq<
    SpecModuleItem,
> {
    seq![SpecModuleItem::Entity { decl: entity_decl_spec(s, e, cfg) }] + if cfg.reflection {
        seq![SpecModuleItem::Reflection { refl: entity_reflection_spec(s, e, cfg) }]
    } else {
        Seq::empty()
    }
}

/// Items of the first `i` entities of a schema.
pub open spec fn schema_items_upto(s: SpecSchema, cfg: Config, i: int) -> Seq<SpecModuleItem>
    decreases i,
{
    if i <= 0 {
        Seq::empty()
    } else {
        schema_items_upto(s, cfg, i - 1) + entity_items_spec(s, s.entities[i - 1], cfg)
    }
}

/// All declarations a schema appends to its namespace node: the reflection
/// table first (when reflection is enabled and the schema has entities),
/// then each entity's declarations in source order.
pub open spec fn schema_items_spec(s: SpecSchema, cfg: Config) -> Seq<SpecModuleItem> {
    let head: Seq<SpecModuleItem> = if cfg.reflection && s.entities.len() > 0 {
        seq![SpecModuleItem::EntityTypes { entries: entity_types_table_spec(s) }]
    } else {
        Seq::empty()
    };
    head + schema_items_upto(s, cfg, s.entities.len() as int)
}

/// The re-export an entity set contributes: the set's name aliased under the
/// target entity type's namespace path (its qualified name, lowered, minus
/// the trailing type segment).
pub open spec fn set_reexport_spec(set: crate::model::SpecEntitySet) -> SpecReExport {
    SpecReExport { path: namespace_path(set.entity_type).drop_last(), name: set.name }
}

/// All re-exports of a schema's entity sets, in declaration order.
pub open spec fn schema_imports_spec(s: SpecSchema) -> Seq<SpecReExport> {
    match s.entity_sets {
        Option::Some(sets) => sets.map_values(|set: crate::model::SpecEntitySet| set_reexport_spec(set)),
        Option::None => Seq::empty(),
    }
}

/// Build the declarations a schema appends to its namespace node.
pub fn build_schema_items(schema: &Schema, cfg: &Config) -> (r: Vec<ModuleItem>)
    requires
        cfg.expand ==> forall|j: int|
            0 <= j < schema@.entities.len() ==> all_navs_resolved(
                schema@,
                #[trigger] schema@.entities[j],
            ),
    ensures
        r@.map_values(|m: ModuleItem| m@) == schema_items_spec(schema@, *cfg),
{
    let ghost head: Seq<SpecModuleItem> = if cfg.reflection && schema@.entities.len() > 0 {
        seq![SpecModuleItem::EntityTypes { entries: entity_types_table_spec(schema@) }]
    } else {
        Seq::empty()
    };
    let mut r: Vec<ModuleItem> = Vec::new();
    if cfg.reflection && schema.entities.len() > 0 {
        let entries = entity_types_table(schema);
        r.push(ModuleItem::EntityTypes { entries });
    }
    proof {
        assert(r@.map_values(|m: ModuleItem| m@) =~= head + schema_items_upto(schema@, *cfg, 0));
    }
    let mut i: usize = 0;
    while i < schema.entities.len()
        invariant
            0 <= i <= schema.entities.len(),
            schema@.entities == schema.entities@.map_values(|e: EntityType| e@),
            cfg.expand ==> forall|j: int|
                0 <= j < schema@.entities.len() ==> all_navs_resolved(
                    schema@,
                    #[trigger] schema@.entities[j],
                ),
            r@.map_values(|m: ModuleItem| m@) == head + schema_items_upto(schema@, *cfg, i as int),
        decreases schema.entities.len() - i,
    {
        let entity = &schema.entities[i];
        proof {
            assert(schema@.entities[i as int] == entity@);
        }
        let ghost mv0 = r@.map_values(|m: ModuleItem| m@);
        let decl = entity_decl(schema, entity, cfg);
        r.push(ModuleItem::Entity { decl });
        if cfg.reflection {
            let refl = entity_reflection(schema, entity, cfg);
            r.push(ModuleItem::Reflection { refl });
            proof {
                assert(r@.map_values(|m: ModuleItem| m@) =~= mv0 + entity_items_spec(
                    schema@,
                    entity@,
                    *cfg,
                ));
            }
        } else {
            proof {
                assert(r@.map_values(|m: ModuleItem| m@) =~= mv0 + entity_items_spec(
                    schema@,
                    entity@,
                    *cfg,
                ));
            }
        }
        proof {
            assert(r@.map_values(|m: ModuleItem| m@) =~= head + schema_items_upto(
                schema@,
                *cfg,
                i + 1,
            ));
        }
        i += 1;
    }
    r
}

/// Build a schema's entity-set re-exports.
pub fn build_schema_imports(schema: &Schema) -> (r: Vec<ReExport>)
    ensures
        r@.map_values(|e: ReExport| e@) == schema_imports_spec(schema@),
{
    let mut r: Vec<ReExport> = Vec::new();
    let sets = match &schema.entity_sets {
        Option::Some(sets) => sets,
        Option::None => {
            proof {
                assert(r@.map_values(|e: ReExport| e@) =~= schema_imports_spec(schema@));
            }
            return r;
        },
    };
    let ghost spec_sets = schema@.entity_sets->Some_0;
    let mut i: usize = 0;
    proof {
        assert(r@.map_values(|e: ReExport| e@) =~= schema_imports_spec(schema@).take(0));
    }
    while i < sets.len()
        invariant
            0 <= i <= sets.len(),
            spec_sets == sets@.map_values(|s: crate::model::EntitySet| s@),
            schema_imports_spec(schema@) == spec_sets.map_values(
                |set: crate::model::SpecEntitySet| set_reexport_spec(set),
            ),
            r@.map_values(|e: ReExport| e@) == schema_imports_spec(schema@).take(i as int),
        decreases sets.len() - i,
    {
        let set = &sets[i];
        proof {
            assert(spec_sets[i as int] == set@);
        }
        let ghost rv0 = r@.map_values(|e: ReExport| e@);
        let mut path = split_namespace(set.entity_type.as_str());
        let popped = path.pop();
        proof {
            assert(popped is Some);
            assert(path.deep_view() =~= namespace_path(set@.entity_type).drop_last());
        }
        let re = ReExport { path, name: set.name.clone() };
        proof {
            assert(re@ =~= set_reexport_spec(set@));
        }
        r.push(re);
        proof {
            assert(r@.map_values(|e: ReExport| e@) =~= rv0.push(re@));
            assert(rv0.push(re@) =~= schema_imports_spec(schema@).take(i + 1));
        }
        i += 1;
    }
    proof {
        assert(schema_imports_spec(schema@).take(spec_sets.len() as int) =~= schema_imports_spec(
            schema@,
        ));
    }
    r
}

// ---------------------------------------------------------------------------
// Exec helpers on paths and modules
// ---------------------------------------------------------------------------

/// Equality of two owned paths.
fn paths_equal(a: &Vec<String>, b: &Vec<String>) -> (r: bool)
    ensures
        r == (a.deep_view() == b.deep_view()),
{
    if a.len() != b.len() {
        proof {
            assert(a.deep_view().len() != b.deep_view().len());
        }
        return false;
    }
    let mut i: usize = 0;
    while i < a.len()
        invariant
            0 <= i <= a.len(),
            a.len() == b.len(),
            forall|j: int| 0 <= j < i ==> a.deep_view()[j] == b.deep_view()[j],
        decreases a.len() - i,
    {
        if !a[i].eq(&b[i]) {
            proof {
                assert(a.deep_view()[i as int] != b.deep_view()[i as int]);
            }
            return false;
        }
        proof {
            assert(a.deep_view()[i as int] == b.deep_view()[i as int]);
        }
        i += 1;
    }
    proof {
        assert(a.deep_view() =~= b.deep_view());
    }
    true
}

/// Deep copy of an owned path.
fn clone_path(v: &Vec<String>) -> (r: Vec<String>)
    ensures
        r.deep_view() == v.deep_view(),
{
    let mut r: Vec<String> = Vec::new();
    let mut i: usize = 0;
    while i < v.len()
        invariant
            0 <= i <= v.len(),
            r.deep_view() =~= v.deep_view().take(i as int),
        decreases v.len() - i,
    {
        let ghost dv0 = r.deep_view();
        let s = v[i].clone();
        r.push(s);
        proof {
            assert(r.deep_view() =~= dv0.push(s@));
        }
        i += 1;
    }
    proof {
        assert(r.deep_view() =~= v.deep_view());
    }
    r
}

/// Locate the first module with the given path.
fn find_module(mods: &Vec<ModuleNode>, path: &Vec<String>) -> (r: Option<usize>)
    ensures
        match r {
            Option::Some(i) => i < mods.len() && find_path(view_mods(mods@), path.deep_view())
                == i as int,
            Option::None => find_path(view_mods(mods@), path.deep_view()) == -1,
        },
{
    let ghost mv = view_mods(mods@);
    let ghost pv = path.deep_view();
    let mut i: usize = 0;
    while i < mods.len()
        invariant
            0 <= i <= mods.len(),
            mv == view_mods(mods@),
            pv == path.deep_view(),
            find_path_upto(mv, pv, i as int) == -1,
        decreases mods.len() - i,
    {
        proof {
            assert(mv[i as int] == mods@[i as int]@);
        }
        if paths_equal(&mods[i].path, path) {
            proof {
                assert(find_path_upto(mv, pv, i + 1) == i as int);
                lemma_find_upto_stable(mv, pv, i + 1, mv.len() as int);
            }
            return Option::Some(i);
        }
        proof {
            assert(find_path_upto(mv, pv, i + 1) == -1);
        }
        i += 1;
    }
    Option::None
}

/// Does any module path segment hold a non-ASCII character?
pub open spec fn non_ascii_spec(mods: Seq<SpecModuleNode>) -> bool {
    exists|m: int, k: int|
        0 <= m < mods.len() && 0 <= k < mods[m].path.len() && !seq_is_ascii(
            #[trigger] mods[m].path[k],
        )
}

/// ASCII check on one string.
fn str_is_ascii(s: &str) -> (r: bool)
    ensures
        r == seq_is_ascii(s@),
{
    let n = s.unicode_len();
    let mut i: usize = 0;
    while i < n
        invariant
            0 <= i <= n == s@.len(),
            forall|j: int| 0 <= j < i ==> (#[trigger] s@[j] as u32) < 128,
        decreases n - i,
    {
        let c = s.get_char(i);
        if (c as u32) >= 128 {
            return false;
        }
        i += 1;
    }
    true
}

/// Compute the non-ASCII indicator from the synthesized tree.
fn scan_non_ascii(mods: &Vec<ModuleNode>) -> (r: bool)
    ensures
        r == non_ascii_spec(view_mods(mods@)),
{
    let ghost mv = view_mods(mods@);
    let mut m: usize = 0;
    while m < mods.len()
        invariant
            0 <= m <= mods.len(),
            mv == view_mods(mods@),
            forall|x: int, k: int|
                0 <= x < m && 0 <= k < mv[x].path.len() ==> seq_is_ascii(#[trigger] mv[x].path[k]),
        decreases mods.len() - m,
    {
        let node = &mods[m];
        proof {
            assert(mv[m as int] == node@);
        }
        let mut k: usize = 0;
        while k < node.path.len()
            invariant
                0 <= k <= node.path.len(),
                m < mods.len(),
                mv == view_mods(mods@),
                mv[m as int] == node@,
                node@.path == node.path.deep_view(),
                forall|j: int| 0 <= j < k ==> seq_is_ascii(#[trigger] node@.path[j]),
            decreases node.path.len() - k,
        {
            if !str_is_ascii(node.path[k].as_str()) {
                proof {
                    assert(!seq_is_ascii(node@.path[k as int]));
                    assert(mv[m as int].path[k as int] == node@.path[k as int]);
                }
                return true;
            }
            k += 1;
        }
        proof {
            assert(forall|k: int| 0 <= k < mv[m as int].path.len() ==> seq_is_ascii(
                #[trigger] mv[m as int].path[k],
            ));
        }
        m += 1;
    }
    false
}

/// The default-namespace re-export: the lowered namespace of the schema the
/// collection designates as default, which is the one named `Default`.
pub open spec fn default_reexport_spec(d: SpecDocument) -> Option<Seq<char>> {
    if exists|i: int| 0 <= i < d.schemas.len() && (#[trigger] d.schemas[i]).namespace == "Default"@ {
        Option::Some(crate::text::lower_spec("Default"@))
    } else {
        Option::None
    }
}

/// Find the default schema and lower its namespace.
fn find_default_reexport(document: &Document) -> (r: Option<String>)
    ensures
        match r {
            Option::Some(ns) => default_reexport_spec(document@) == Option::Some(ns@),
            Option::None => default_reexport_spec(document@) is None,
        },
{
    let target: String = "Default".to_owned();
    let mut i: usize = 0;
    while i < document.schemas.len()
        invariant
            0 <= i <= document.schemas.len(),
            target@ == "Default"@,
            document@.schemas == document.schemas@.map_values(|s: Schema| s@),
            forall|j: int| 0 <= j < i ==> (#[trigger] document@.schemas[j]).namespace != "Default"@,
        decreases document.schemas.len() - i,
    {
        let schema = &document.schemas[i];
        proof {
            assert(document@.schemas[i as int] == schema@);
        }
        if schema.namespace.eq(&target) {
            let lowered = crate::text::to_lower(schema.namespace.as_str());
            return Option::Some(lowered);
        }
        i += 1;
    }
    Option::None
}

// ---------------------------------------------------------------------------
// The generator
// ---------------------------------------------------------------------------

/// The synthesized tree for a document that resolves completely.
pub open spec fn tree_spec(d: SpecDocument, cfg: Config) -> SpecGeneratedTree {
    SpecGeneratedTree {
        empty_string_helper: cfg.empty_string_is_null,
        reflection_contract: cfg.reflection,
        modules: modules_spec(d, cfg),
        default_reexport: default_reexport_spec(d),
        contains_non_ascii: non_ascii_spec(modules_spec(d, cfg)),
    }
}

/// What generation returns: the tree, unless unresolved navigations were
/// found, in which case the whole aggregated diagnostic.
pub open spec fn generate_spec(d: SpecDocument, cfg: Config) -> Result<
    SpecGeneratedTree,
    Seq<SpecNavResolutionError>,
> {
    if nav_errors_spec(d, cfg).len() == 0 {
        Result::Ok(tree_spec(d, cfg))
    } else {
        Result::Err(nav_errors_spec(d, cfg))
    }
}

/// Run the whole transformation: one deterministic forward pass from the
/// schema graph to the declaration tree.
pub fn generate(document: &Document, config: &Config) -> (r: Result<
    GeneratedTree,
    Vec<NavResolutionError>,
>)
    requires
        wf_document(document@),
    ensures
        match r {
            Result::Ok(tree) => generate_spec(document@, *config) == Result::<
                SpecGeneratedTree,
                Seq<SpecNavResolutionError>,
            >::Ok(tree@),
            Result::Err(errs) => generate_spec(document@, *config) == Result::<
                SpecGeneratedTree,
                Seq<SpecNavResolutionError>,
            >::Err(view_errors(errs@)),
        },
{
    let errors = collect_nav_errors(document, config);
    if errors.len() > 0 {
        return Result::Err(errors);
    }
    proof {
        if config.expand || config.reflection {
            lemma_no_errors_all_resolved(document@, *config);
        }
    }
    let mut modules: Vec<ModuleNode> = Vec::new();
    let mut si: usize = 0;
    proof {
        assert(view_mods(modules@) =~= modules_upto(document@.schemas, *config, 0));
    }
    while si < document.schemas.len()
        invariant
            0 <= si <= document.schemas.len(),
            document@.schemas == document.schemas@.map_values(|s: Schema| s@),
            config.expand ==> forall|i: int, j: int|
                0 <= i < document@.schemas.len() && 0 <= j < document@.schemas[i].entities.len()
                    ==> all_navs_resolved(
                    #[trigger] document@.schemas[i],
                    #[trigger] document@.schemas[i].entities[j],
                ),
            view_mods(modules@) == modules_upto(document@.schemas, *config, si as int),
        decreases document.schemas.len() - si,
    {
        let schema = &document.schemas[si];
        proof {
            assert(document@.schemas[si as int] == schema@);
        }
        let ghost m_start = view_mods(modules@);
        let path = split_namespace(schema.namespace.as_str());
        let ghost pv = namespace_path(schema@.namespace);
        let mut prefix: Vec<String> = Vec::new();
        let mut k: usize = 0;
        proof {
            assert(prefix.deep_view() =~= pv.take(0));
        }
        while k < path.len()
            invariant
                0 <= k <= path.len(),
                path.deep_view() == pv,
                prefix.deep_view() == pv.take(k as int),
                view_mods(modules@) == ensure_prefixes(m_start, pv, k as int),
            decreases path.len() - k,
        {
            let ghost pd0 = prefix.deep_view();
            let seg = path[k].clone();
            prefix.push(seg);
            proof {
                assert(prefix.deep_view() =~= pd0.push(seg@));
                assert(prefix.deep_view() =~= pv.take(k + 1));
            }
            if find_module(&modules, &prefix).is_none() {
                let ghost mv0 = view_mods(modules@);
                let node = ModuleNode {
                    path: clone_path(&prefix),
                    imports: Vec::new(),
                    items: Vec::new(),
                };
                proof {
                    assert(node@ =~= empty_node(pv.take(k + 1)));
                }
                modules.push(node);
                proof {
                    assert(view_mods(modules@) =~= mv0.push(node@));
                    assert(view_mods(modules@) =~= ensure_prefixes(m_start, pv, k + 1));
                }
            } else {
                proof {
                    assert(view_mods(modules@) =~= ensure_prefixes(m_start, pv, k + 1));
                }
            }
            k += 1;
        }
        let ghost m1 = view_mods(modules@);
        proof {
            assert(pv.take(pv.len() as int) =~= pv);
            assert(m1 == ensure_prefixes(m_start, pv, pv.len() as int));
            lemma_ensure_finds(m_start, pv, pv.len() as int);
        }
        let head = match find_module(&modules, &path) {
            Option::Some(h) => h,
            Option::None => vstd::pervasive::unreached(),
        };
        proof {
            if config.expand {
                assert(forall|j: int|
                    0 <= j < schema@.entities.len() ==> all_navs_resolved(
                        schema@,
                        #[trigger] schema@.entities[j],
                    ));
            }
        }
        let mut items = build_schema_items(schema, config);
        let mut imports = build_schema_imports(schema);
        let ghost items_v = items@.map_values(|m: ModuleItem| m@);
        let ghost imports_v = imports@.map_values(|e: ReExport| e@);
        let node = &mut modules[head];
        node.items.append(&mut items);
        node.imports.append(&mut imports);
        proof {
            let updated = SpecModuleNode {
                path: m1[head as int].path,
                imports: m1[head as int].imports + schema_imports_spec(schema@),
                items: m1[head as int].items + schema_items_spec(schema@, *config),
            };
            let nf = modules@[head as int];
            assert(nf@.items =~= m1[head as int].items + items_v);
            assert(nf@.imports =~= m1[head as int].imports + imports_v);
            assert(nf@ =~= updated);
            assert(view_mods(modules@) =~= m1.update(head as int, updated));
            assert(view_mods(modules@) =~= add_schema_spec(m_start, schema@, *config));
            assert(view_mods(modules@) =~= modules_upto(document@.schemas, *config, si + 1));
        }
        si += 1;
    }
    proof {
        assert(view_mods(modules@) == modules_spec(document@, *config));
    }
    let contains_non_ascii = scan_non_ascii(&modules);
    let default_reexport = find_default_reexport(document);
    let tree = GeneratedTree {
        empty_string_helper: config.empty_string_is_null,
        reflection_contract: config.reflection,
        modules,
        default_reexport,
        contains_non_ascii,
    };
    proof {
        assert(tree@ =~= tree_spec(document@, *config));
    }
    Result::Ok(tree)
}

} // verus!
