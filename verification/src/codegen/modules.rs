//! The enums of records and unions, the module declarations, and the
//! constructors of the generated client's services.
use vstd::prelude::*;
use super::order::{entry_views, is_index_permutation, sorted_by_entries, sorted_order};
use super::defs::UserType;
use super::xrpc::{is_procedure_method, is_query_method, xrpc_impl_procedure, xrpc_impl_query, XrpcMethod};
use super::{
    definition_name, pascal_case, path_segments, ref_parts, resolve_path, resolve_path_segments,
    snake_all, snake_case, spec_resolve_path, to_pascal_case, to_snake_case,
};
use crate::text::{
    char_pred, join, join_strings, lemma_string_views_push, split_at_char, split_on, starts_with,
    str_eq, str_starts_with, string_views,
};

verus! {

/// The feature of the first namespace entry whose prefix a test accepts,
/// if that entry names one.
pub open spec fn first_feature(
    namespaces: Seq<(String, Option<String>)>,
    accepts: spec_fn(Seq<char>) -> bool,
) -> Option<Seq<char>>
    decreases namespaces.len(),
{
    if namespaces.len() == 0 {
        None
    } else if accepts(namespaces[0].0@) {
        match namespaces[0].1 {
            Some(f) => Some(f@),
            None => None,
        }
    } else {
        first_feature(namespaces.drop_first(), accepts)
    }
}

/// Being a prefix of a text, as a test.
pub open spec fn prefix_of(s: Seq<char>) -> spec_fn(Seq<char>) -> bool {
    |p: Seq<char>| starts_with(s, p)
}

/// Being equal to a text, as a test.
pub open spec fn equal_to(s: Seq<char>) -> spec_fn(Seq<char>) -> bool {
    |p: Seq<char>| p == s
}

/// The view of an optional string.
pub open spec fn opt_string_view(o: Option<String>) -> Option<Seq<char>> {
    match o {
        Some(s) => Some(s@),
        None => None,
    }
}

/// The feature for a text from the first namespace entry that is a prefix
/// of it (`exact` false) or equal to it (`exact` true).
fn find_feature(namespaces: &Vec<(String, Option<String>)>, s: &str, exact: bool) -> (r: Option<String>)
    ensures
        opt_string_view(r) == first_feature(
            namespaces@,
            if exact {
                equal_to(s@)
            } else {
                prefix_of(s@)
            },
        ),
{
    let ghost accepts = if exact {
        equal_to(s@)
    } else {
        prefix_of(s@)
    };
    let mut i: usize = 0;
    assert(namespaces@.skip(0) =~= namespaces@);
    while i < namespaces.len()
        invariant
            i <= namespaces@.len(),
            accepts == (if exact {
                equal_to(s@)
            } else {
                prefix_of(s@)
            }),
            first_feature(namespaces@, accepts) == first_feature(namespaces@.skip(i as int), accepts),
        decreases namespaces.len() - i,
    {
        let prefix = namespaces[i].0.as_str();
        let hit = if exact {
            str_eq(prefix, s)
        } else {
            str_starts_with(s, prefix)
        };
        assert(namespaces@.skip(i as int)[0] == namespaces@[i as int]);
        if hit {
            return match &namespaces[i].1 {
                Some(f) => Some(f.clone()),
                None => None,
            };
        }
        assert(namespaces@.skip(i as int).drop_first() =~= namespaces@.skip(i + 1));
        i = i + 1;
    }
    None
}

/// A variant of a generated enum of records or union members.
#[derive(Debug, Clone, PartialEq, Eq)]
pub struct EnumVariant {
    /// The feature that gates the variant, for records in a gated namespace.
    pub feature: Option<String>,
    /// The `$type` it is (de)serialized under.
    pub rename: String,
    /// The variant's name.
    pub name: String,
    /// The path of the boxed type it holds.
    pub path: String,
}

/// The segments of a reference's path after `crate`.
pub open spec fn variant_parts(reference: Seq<char>, default: Seq<char>) -> Seq<Seq<char>> {
    let (namespace, def) = ref_parts(reference, default);
    if namespace.len() == 0 {
        seq![pascal_case(def)]
    } else {
        snake_all(split_on(namespace, char_pred('.'))) + seq![definition_name(def)]
    }
}

/// The pascal-cased texts.
pub open spec fn pascal_all(s: Seq<Seq<char>>) -> Seq<Seq<char>> {
    s.map_values(|t: Seq<char>| pascal_case(t))
}

/// The name of the variant for a reference: the pascal-cased segments of
/// its path after `crate`, without the last one for a record.
pub open spec fn variant_name(reference: Seq<char>, is_record: bool) -> Seq<char> {
    let parts = pascal_all(
        variant_parts(
            reference,
            if is_record {
                "record"@
            } else {
                "main"@
            },
        ),
    );
    join(
        if is_record {
            parts.drop_last()
        } else {
            parts
        },
        Seq::empty(),
    )
}

/// Whether `v` is the variant generated for a reference: for records (no
/// schema id) the path defaults to `record` and a namespace entry may
/// gate it; a local reference (`#name`) is renamed with the schema id.
pub open spec fn is_variant(
    v: EnumVariant,
    reference: Seq<char>,
    schema_id: Option<Seq<char>>,
    namespaces: Seq<(String, Option<String>)>,
) -> bool {
    let is_record = schema_id is None;
    &&& v.path@ == spec_resolve_path(
        reference,
        if is_record {
            "record"@
        } else {
            "main"@
        },
    )
    &&& v.rename@ == (if starts_with(reference, "#"@) {
        schema_id->0 + reference
    } else {
        reference
    })
    &&& v.name@ == variant_name(reference, is_record)
    &&& opt_string_view(v.feature) == (if is_record {
        first_feature(namespaces, prefix_of(reference))
    } else {
        None
    })
}

/// Whether no reference is local (starts with `#`).
pub open spec fn no_local_refs(refs: Seq<String>) -> bool {
    forall|i: int| 0 <= i < refs.len() ==> !starts_with((#[trigger] refs[i])@, "#"@)
}

fn variant_name_exec(reference: &str, is_record: bool) -> (r: String)
    ensures
        r@ == variant_name(reference@, is_record),
{
    let default = if is_record {
        "record"
    } else {
        "main"
    };
    let segments = resolve_path_segments(reference, default);
    let ghost parts = variant_parts(reference@, default@);
    // the segments after `crate`, when there is a namespace
    let start: usize = if segments.len() > 1 {
        1
    } else {
        0
    };
    proof {
        let (namespace, def) = ref_parts(reference@, default@);
        if namespace.len() == 0 {
            assert(string_views(segments@).len() == 1);
            assert(parts =~= string_views(segments@));
        } else {
            assert(string_views(segments@) =~= seq!["crate"@] + parts);
            assert(parts =~= string_views(segments@).skip(1));
        }
    }
    assert(parts =~= string_views(segments@).skip(start as int));
    let end: usize = if is_record {
        segments.len() - 1
    } else {
        segments.len()
    };
    let mut out = String::new();
    let mut i: usize = start;
    let ghost kept = if is_record {
        pascal_all(parts).drop_last()
    } else {
        pascal_all(parts)
    };
    assert(kept.len() == end - start);
    while i < end
        invariant
            start <= i <= end,
            end <= segments@.len(),
            parts == string_views(segments@).skip(start as int),
            kept.len() == end - start,
            kept == (if is_record {
                pascal_all(parts).drop_last()
            } else {
                pascal_all(parts)
            }),
            out@ == join(kept.take(i - start), Seq::empty()),
        decreases end - i,
    {
        let p = to_pascal_case(segments[i].as_str());
        assert(kept[i - start] == pascal_case(parts[i - start]));
        assert(parts[i - start] == segments@[i as int]@);
        assert(kept.take(i + 1 - start).drop_last() =~= kept.take(i - start));
        out.push_str(p.as_str());
        proof {
            if i - start > 0 {
                assert(out@ =~= join(kept.take(i + 1 - start), Seq::empty()));
            } else {
                assert(out@ =~= join(kept.take(i + 1 - start), Seq::empty()));
            }
        }
        i = i + 1;
    }
    assert(kept.take(end - start) =~= kept);
    out
}

/// The enum generated for the records (no schema id) or the union members
/// (of the schema `schema_id`) that `refs` name.
#[derive(Debug, Clone, PartialEq, Eq)]
pub struct RecordEnum {
    pub name: String,
    pub variants: Vec<EnumVariant>,
}

/// The enum named `name` generated for references; see `is_variant`.
pub fn record_enum(
    refs: &Vec<String>,
    name: &str,
    schema_id: Option<&str>,
    namespaces: &Vec<(String, Option<String>)>,
) -> (r: RecordEnum)
    requires
        schema_id is Some || no_local_refs(refs@),
    ensures
        r.name@ == name@,
        r.variants@.len() == refs@.len(),
        forall|i: int|
            0 <= i < refs@.len() ==> is_variant(
                #[trigger] r.variants@[i],
                refs@[i]@,
                super::types::opt_view(schema_id),
                namespaces@,
            ),
{
    let is_record = schema_id.is_none();
    let mut variants: Vec<EnumVariant> = Vec::new();
    let mut i: usize = 0;
    while i < refs.len()
        invariant
            is_record == (schema_id is None),
            schema_id is Some || no_local_refs(refs@),
            i <= refs@.len(),
            variants@.len() == i,
            forall|j: int|
                0 <= j < i ==> is_variant(
                    #[trigger] variants@[j],
                    refs@[j]@,
                    super::types::opt_view(schema_id),
                    namespaces@,
                ),
        decreases refs.len() - i,
    {
        let reference = refs[i].as_str();
        let path = resolve_path(
            reference,
            if is_record {
                "record"
            } else {
                "main"
            },
        );
        let rename = if str_starts_with(reference, "#") {
            match schema_id {
                Some(id) => {
                    let mut r = id.to_owned();
                    r.push_str(reference);
                    r
                },
                None => reference.to_owned(),
            }
        } else {
            reference.to_owned()
        };
        let feature = if is_record {
            find_feature(namespaces, reference, false)
        } else {
            None
        };
        let v = EnumVariant { feature, rename, name: variant_name_exec(reference, is_record), path };
        assert(is_variant(v, refs@[i as int]@, super::types::opt_view(schema_id), namespaces@));
        variants.push(v);
        i = i + 1;
    }
    RecordEnum { name: name.to_owned(), variants }
}

/// A generated module declaration, gated by a feature or not.
#[derive(Debug, Clone, PartialEq, Eq)]
pub struct ModuleDecl {
    pub feature: Option<String>,
    pub name: String,
}

/// The dot-separated namespace of a module under the given components.
pub open spec fn module_namespace(components: Seq<String>, name: Seq<char>) -> Seq<char> {
    join(string_views(components).push(name), "."@)
}

/// The module declarations for the given names under the given
/// components: each gated by the feature of the namespace entry equal to
/// its namespace.
pub fn modules(names: &Vec<String>, components: &Vec<String>, namespaces: &Vec<(String, Option<String>)>) -> (r:
    Vec<ModuleDecl>)
    ensures
        r@.len() == names@.len(),
        forall|i: int|
            0 <= i < names@.len() ==> (#[trigger] r@[i]).name@ == names@[i]@ && opt_string_view(r@[i].feature)
                == first_feature(namespaces@, equal_to(module_namespace(components@, names@[i]@))),
{
    let mut out: Vec<ModuleDecl> = Vec::new();
    let mut i: usize = 0;
    while i < names.len()
        invariant
            i <= names@.len(),
            out@.len() == i,
            forall|j: int|
                0 <= j < i ==> (#[trigger] out@[j]).name@ == names@[j]@ && opt_string_view(out@[j].feature)
                    == first_feature(namespaces@, equal_to(module_namespace(components@, names@[j]@))),
        decreases names.len() - i,
    {
        let mut parts = components.clone();
        let ghost before = parts@;
        let name = names[i].clone();
        parts.push(name);
        proof {
            assert(string_views(parts@) =~= string_views(components@).push(names@[i as int]@)) by {
                assert forall|k: int| 0 <= k < components@.len() implies string_views(parts@)[k]
                    == string_views(components@)[k] by {
                    assert(parts@[k] == before[k]);
                    assert(before[k] == components@[k]);
                }
            }
        }
        let namespace = join_strings(&parts, ".");
        let feature = find_feature(namespaces, namespace.as_str(), true);
        out.push(ModuleDecl { feature, name: names[i].clone() });
        i = i + 1;
    }
    out
}

/// A member of a generated service: the service of a child namespace.
#[derive(Debug, Clone, PartialEq, Eq)]
pub struct ServiceMember {
    /// The feature that gates the member, from the namespace entry equal
    /// to the child's namespace.
    pub feature: Option<String>,
    /// The member's name: the child's name snake-cased.
    pub name: String,
    /// The path of the child's module.
    pub path: String,
}

/// The members that the constructor of a service sets.
#[derive(Debug, Clone, PartialEq, Eq)]
pub struct ServiceConstructor {
    /// The services of the child namespaces, in the order of their names.
    pub members: Vec<ServiceMember>,
    /// Whether the service itself sends requests (it has a method).
    pub has_xrpc: bool,
}

/// The mathematical value of a `ServiceMember`.
pub struct MemberView {
    pub feature: Option<Seq<char>>,
    pub name: Seq<char>,
    pub path: Seq<char>,
}

impl View for ServiceMember {
    type V = MemberView;

    open spec fn view(&self) -> MemberView {
        MemberView { feature: opt_string_view(self.feature), name: self.name@, path: self.path@ }
    }
}

/// The segments of a child's namespace under a key.
pub open spec fn child_parts(key: Seq<char>, name: Seq<char>) -> Seq<Seq<char>> {
    if key.len() == 0 {
        seq![name]
    } else {
        split_on(key, char_pred('.')).push(name)
    }
}

/// The member for the child `name` of the service at `key`.
pub open spec fn member_for(key: Seq<char>, name: Seq<char>, namespaces: Seq<(String, Option<String>)>) -> MemberView {
    let parts = child_parts(key, name);
    MemberView {
        feature: first_feature(namespaces, equal_to(join(parts, "."@))),
        name: snake_case(name),
        path: join(parts, "::"@),
    }
}

/// The children in the given order.
pub open spec fn children_in(children: Seq<(Seq<char>, bool)>, order: Seq<usize>) -> Seq<(Seq<char>, bool)> {
    order.map_values(|i: usize| children[i as int])
}

/// The members for the children that are namespaces (not methods).
pub open spec fn members_for(
    children: Seq<(Seq<char>, bool)>,
    key: Seq<char>,
    namespaces: Seq<(String, Option<String>)>,
) -> Seq<MemberView>
    decreases children.len(),
{
    if children.len() == 0 {
        Seq::empty()
    } else {
        let rest = members_for(children.drop_last(), key, namespaces);
        if children.last().1 {
            rest
        } else {
            rest.push(member_for(key, children.last().0, namespaces))
        }
    }
}

/// The views of members.
pub open spec fn member_views(s: Seq<ServiceMember>) -> Seq<MemberView> {
    s.map_values(|m: ServiceMember| m@)
}

fn member_exec(key: &str, name: &str, namespaces: &Vec<(String, Option<String>)>) -> (r: ServiceMember)
    ensures
        r@ == member_for(key@, name@, namespaces@),
{
    let mut parts: Vec<String> = if key.is_empty() {
        Vec::new()
    } else {
        split_at_char(key, '.')
    };
    let ghost before = parts@;
    let n = name.to_owned();
    proof {
        lemma_string_views_push(parts@, n);
    }
    parts.push(n);
    assert(string_views(parts@) =~= child_parts(key@, name@)) by {
        if key@.len() == 0 {
            assert(before.len() == 0);
        }
    }
    let namespace = join_strings(&parts, ".");
    ServiceMember {
        feature: find_feature(namespaces, namespace.as_str(), true),
        name: to_snake_case(name),
        path: join_strings(&parts, "::"),
    }
}

/// What the constructor of the service at `key` sets, for its children
/// (each a name and whether it is a method): the services of the child
/// namespaces in the order of `(name, is_method)`, and the request sender
/// when some child is a method.
pub fn client_new(children: &Vec<(String, bool)>, key: &str, namespaces: &Vec<(String, Option<String>)>) -> (r:
    ServiceConstructor)
    ensures
        r.has_xrpc == exists|i: int| 0 <= i < children@.len() && (#[trigger] children@[i]).1,
        exists|order: Seq<usize>|
            is_index_permutation(order, children@.len()) && sorted_by_entries(order, entry_views(children@))
                && member_views(r.members@) == members_for(
                children_in(entry_views(children@), order),
                key@,
                namespaces@,
            ),
{
    let order = sorted_order(children);
    let ghost cs = entry_views(children@);
    let mut members: Vec<ServiceMember> = Vec::new();
    let mut has_xrpc = false;
    let mut k: usize = 0;
    while k < order.len()
        invariant
            cs == entry_views(children@),
            is_index_permutation(order@, children@.len()),
            k <= order@.len(),
            member_views(members@) == members_for(children_in(cs, order@.take(k as int)), key@, namespaces@),
        decreases order.len() - k,
    {
        let j = order[k];
        assert(children_in(cs, order@.take(k + 1)).drop_last() =~= children_in(cs, order@.take(k as int)));
        assert(children_in(cs, order@.take(k + 1)).last() == cs[j as int]);
        assert(cs[j as int] == (children@[j as int].0@, children@[j as int].1));
        if !children[j].1 {
            let m = member_exec(key, children[j].0.as_str(), namespaces);
            let ghost before = members@;
            members.push(m);
            assert(member_views(members@) =~= member_views(before).push(m@));
        }
        k = k + 1;
    }
    assert(order@.take(k as int) =~= order@);
    let mut i: usize = 0;
    while i < children.len()
        invariant
            i <= children@.len(),
            has_xrpc == exists|j: int| 0 <= j < i && (#[trigger] children@[j]).1,
        decreases children.len() - i,
    {
        if children[i].1 {
            has_xrpc = true;
        }
        i = i + 1;
    }
    ServiceConstructor { members, has_xrpc }
}

/// The schema defined for an NSID: the first entry with that NSID.
pub open spec fn schema_for(schemas: Seq<(String, UserType)>, nsid: Seq<char>) -> Option<UserType>
    decreases schemas.len(),
{
    if schemas.len() == 0 {
        None
    } else if schemas[0].0@ == nsid {
        Some(schemas[0].1)
    } else {
        schema_for(schemas.drop_first(), nsid)
    }
}

/// The NSID of a method of the service at `key`.
pub open spec fn method_nsid(key: Seq<char>, name: Seq<char>) -> Seq<char> {
    key + seq!['.'] + name
}

/// Whether every method among the children of the service at `key` has
/// a query or procedure schema.
pub open spec fn methods_defined(
    children: Seq<(String, bool)>,
    key: Seq<char>,
    schemas: Seq<(String, UserType)>,
) -> bool {
    forall|i: int|
        0 <= i < children.len() && (#[trigger] children[i]).1 ==> match schema_for(
            schemas,
            method_nsid(key, children[i].0@),
        ) {
            Some(UserType::Query(_)) => true,
            Some(UserType::Procedure(_)) => true,
            _ => false,
        }
}

/// Whether `m` is the method generated for the NSID's schema.
pub open spec fn is_method_for(m: XrpcMethod, schemas: Seq<(String, UserType)>, nsid: Seq<char>) -> bool {
    match schema_for(schemas, nsid) {
        Some(UserType::Query(q)) => is_query_method(m, q, nsid),
        Some(UserType::Procedure(p)) => is_procedure_method(m, p, nsid),
        _ => false,
    }
}

/// The impl block generated for the service at a key of the namespace tree.
#[derive(Debug, Clone, PartialEq, Eq)]
pub struct ServiceImpl {
    /// The feature that gates it, from the first namespace entry that is a
    /// prefix of the key.
    pub feature: Option<String>,
    /// The path of the module that holds the service: none for the root.
    pub service_path: Option<String>,
    pub constructor: ServiceConstructor,
    /// The service's methods, in the order of their names.
    pub methods: Vec<XrpcMethod>,
}

/// The methods of a service for its children in the given order, as
/// NSIDs.
pub open spec fn method_nsids(children: Seq<(Seq<char>, bool)>, key: Seq<char>) -> Seq<Seq<char>>
    decreases children.len(),
{
    if children.len() == 0 {
        Seq::empty()
    } else {
        let rest = method_nsids(children.drop_last(), key);
        if children.last().1 {
            rest.push(method_nsid(key, children.last().0))
        } else {
            rest
        }
    }
}

fn schema_lookup(schemas: &Vec<(String, UserType)>, nsid: &str) -> (r: Option<usize>)
    ensures
        match r {
            Some(i) => i < schemas@.len() && schema_for(schemas@, nsid@) == Some(schemas@[i as int].1),
            None => schema_for(schemas@, nsid@) is None,
        },
{
    let mut i: usize = 0;
    assert(schemas@.skip(0) =~= schemas@);
    while i < schemas.len()
        invariant
            i <= schemas@.len(),
            schema_for(schemas@, nsid@) == schema_for(schemas@.skip(i as int), nsid@),
        decreases schemas.len() - i,
    {
        assert(schemas@.skip(i as int)[0] == schemas@[i as int]);
        if str_eq(schemas[i].0.as_str(), nsid) {
            return Some(i);
        }
        assert(schemas@.skip(i as int).drop_first() =~= schemas@.skip(i + 1));
        i = i + 1;
    }
    None
}

/// The impl block generated for the service at `key` with the given
/// children (each a name and whether it is a method).
pub fn client_impl(
    key: &str,
    children: &Vec<(String, bool)>,
    schemas: &Vec<(String, UserType)>,
    namespaces: &Vec<(String, Option<String>)>,
) -> (r: ServiceImpl)
    requires
        methods_defined(children@, key@, schemas@),
    ensures
        opt_string_view(r.feature) == first_feature(namespaces@, prefix_of(key@)),
        match r.service_path {
            Some(p) => key@.len() > 0 && p@ == join(split_on(key@, char_pred('.')), "::"@),
            None => key@.len() == 0,
        },
        r.constructor.has_xrpc == exists|i: int| 0 <= i < children@.len() && (#[trigger] children@[i]).1,
        exists|order: Seq<usize>|
            is_index_permutation(order, children@.len()) && sorted_by_entries(order, entry_views(children@))
                && member_views(r.constructor.members@) == members_for(
                children_in(entry_views(children@), order),
                key@,
                namespaces@,
            ),
        exists|order: Seq<usize>|
            is_index_permutation(order, children@.len()) && sorted_by_entries(order, entry_views(children@))
                && r.methods@.len() == method_nsids(children_in(entry_views(children@), order), key@).len()
                && forall|i: int|
                0 <= i < r.methods@.len() ==> is_method_for(
                    #[trigger] r.methods@[i],
                    schemas@,
                    method_nsids(children_in(entry_views(children@), order), key@)[i],
                ),
{
    let service_path = if key.is_empty() {
        None
    } else {
        let segments = split_at_char(key, '.');
        Some(join_strings(&segments, "::"))
    };
    let constructor = client_new(children, key, namespaces);
    let order = sorted_order(children);
    let ghost cs = entry_views(children@);
    let mut methods: Vec<XrpcMethod> = Vec::new();
    let mut k: usize = 0;
    while k < order.len()
        invariant
            cs == entry_views(children@),
            methods_defined(children@, key@, schemas@),
            is_index_permutation(order@, children@.len()),
            k <= order@.len(),
            methods@.len() == method_nsids(children_in(cs, order@.take(k as int)), key@).len(),
            forall|i: int|
                0 <= i < methods@.len() ==> is_method_for(
                    #[trigger] methods@[i],
                    schemas@,
                    method_nsids(children_in(cs, order@.take(k as int)), key@)[i],
                ),
        decreases order.len() - k,
    {
        let j = order[k];
        let ghost prev = method_nsids(children_in(cs, order@.take(k as int)), key@);
        assert(children_in(cs, order@.take(k + 1)).drop_last() =~= children_in(cs, order@.take(k as int)));
        assert(children_in(cs, order@.take(k + 1)).last() == cs[j as int]);
        assert(cs[j as int] == (children@[j as int].0@, children@[j as int].1));
        if children[j].1 {
            let mut nsid = key.to_owned();
            nsid.push('.');
            nsid.push_str(children[j].0.as_str());
            assert(nsid@ =~= method_nsid(key@, children@[j as int].0@));
            assert(children@[j as int].1);
            let found = schema_lookup(schemas, nsid.as_str());
            match found {
                Some(x) => {
                    let m = match &schemas[x].1 {
                        UserType::Query(q) => xrpc_impl_query(q, nsid.as_str()),
                        UserType::Procedure(p) => xrpc_impl_procedure(p, nsid.as_str()),
                        _ => {
                            assert(false);
                            xrpc_impl_query(
                                &super::xrpc::XrpcQuery { description: None, parameters: None, output: None, errors: None },
                                nsid.as_str(),
                            )
                        },
                    };
                    methods.push(m);
                },
                None => {
                    assert(false);
                },
            }
        }
        k = k + 1;
    }
    assert(order@.take(k as int) =~= order@);
    let feature = find_feature(namespaces, key, false);
    ServiceImpl { feature, service_path, constructor, methods }
}

/// A field of a generated service struct: the service of a child
/// namespace, whose module is generated for the child's target.
#[derive(Debug, Clone, PartialEq, Eq)]
pub struct ServiceField {
    /// The feature that gates the field and the child's module, from the
    /// namespace entry equal to `<target>.<name>`.
    pub feature: Option<String>,
    pub name: String,
    /// The key of the child in the namespace tree.
    pub target: String,
}

/// The mathematical value of a `ServiceField`.
pub struct ServiceFieldView {
    pub feature: Option<Seq<char>>,
    pub name: Seq<char>,
    pub target: Seq<char>,
}

impl View for ServiceField {
    type V = ServiceFieldView;

    open spec fn view(&self) -> ServiceFieldView {
        ServiceFieldView { feature: opt_string_view(self.feature), name: self.name@, target: self.target@ }
    }
}

/// One level of the generated service structs: the fields for the child
/// namespaces, in the order of their names, and whether the service sends
/// requests itself.
#[derive(Debug, Clone, PartialEq, Eq)]
pub struct ServiceLevel {
    pub fields: Vec<ServiceField>,
    pub has_xrpc: bool,
}

/// The key of a child namespace: its name under the root, else the
/// target, a dot and its name.
pub open spec fn child_target(target: Seq<char>, name: Seq<char>) -> Seq<char> {
    if target.len() == 0 {
        name
    } else {
        target + seq!['.'] + name
    }
}

/// The field for the child `name` of the service at `target`.
pub open spec fn field_for(target: Seq<char>, name: Seq<char>, namespaces: Seq<(String, Option<String>)>) -> ServiceFieldView {
    ServiceFieldView {
        feature: first_feature(namespaces, equal_to(target + seq!['.'] + name)),
        name,
        target: child_target(target, name),
    }
}

/// The fields for the children that are namespaces (not methods).
pub open spec fn fields_for(
    children: Seq<(Seq<char>, bool)>,
    target: Seq<char>,
    namespaces: Seq<(String, Option<String>)>,
) -> Seq<ServiceFieldView>
    decreases children.len(),
{
    if children.len() == 0 {
        Seq::empty()
    } else {
        let rest = fields_for(children.drop_last(), target, namespaces);
        if children.last().1 {
            rest
        } else {
            rest.push(field_for(target, children.last().0, namespaces))
        }
    }
}

/// The views of service fields.
pub open spec fn field_views(s: Seq<ServiceField>) -> Seq<ServiceFieldView> {
    s.map_values(|f: ServiceField| f@)
}

/// The level of the service struct at `target`, with its children in the
/// namespace tree (none when the target is not in the tree).
pub fn client_services_level(
    target: &str,
    children: Option<&Vec<(String, bool)>>,
    namespaces: &Vec<(String, Option<String>)>,
) -> (r: ServiceLevel)
    ensures
        match children {
            None => r.fields@.len() == 0 && !r.has_xrpc,
            Some(cs) => {
                &&& r.has_xrpc == exists|i: int| 0 <= i < cs@.len() && (#[trigger] cs@[i]).1
                &&& exists|order: Seq<usize>|
                    is_index_permutation(order, cs@.len()) && sorted_by_entries(order, entry_views(cs@))
                        && field_views(r.fields@) == fields_for(
                        children_in(entry_views(cs@), order),
                        target@,
                        namespaces@,
                    )
            },
        },
{
    match children {
        None => ServiceLevel { fields: Vec::new(), has_xrpc: false },
        Some(cs) => {
            let order = sorted_order(cs);
            let ghost ev = entry_views(cs@);
            let mut fields: Vec<ServiceField> = Vec::new();
            let mut k: usize = 0;
            while k < order.len()
                invariant
                    ev == entry_views(cs@),
                    is_index_permutation(order@, cs@.len()),
                    k <= order@.len(),
                    field_views(fields@) == fields_for(children_in(ev, order@.take(k as int)), target@, namespaces@),
                decreases order.len() - k,
            {
                let j = order[k];
                assert(children_in(ev, order@.take(k + 1)).drop_last() =~= children_in(ev, order@.take(k as int)));
                assert(children_in(ev, order@.take(k + 1)).last() == ev[j as int]);
                assert(ev[j as int] == (cs@[j as int].0@, cs@[j as int].1));
                if !cs[j].1 {
                    let name = cs[j].0.as_str();
                    let mut namespace = target.to_owned();
                    namespace.push('.');
                    namespace.push_str(name);
                    assert(namespace@ =~= target@ + seq!['.'] + cs@[j as int].0@);
                    let child = if target.is_empty() {
                        name.to_owned()
                    } else {
                        namespace.clone()
                    };
                    let f = ServiceField {
                        feature: find_feature(namespaces, namespace.as_str(), true),
                        name: name.to_owned(),
                        target: child,
                    };
                    assert(f@ == field_for(target@, cs@[j as int].0@, namespaces@));
                    let ghost before = fields@;
                    fields.push(f);
                    assert(field_views(fields@) =~= field_views(before).push(f@));
                }
                k = k + 1;
            }
            assert(order@.take(k as int) =~= order@);
            let mut has_xrpc = false;
            let mut i: usize = 0;
            while i < cs.len()
                invariant
                    i <= cs@.len(),
                    has_xrpc == exists|j: int| 0 <= j < i && (#[trigger] cs@[j]).1,
                decreases cs.len() - i,
            {
                if cs[i].1 {
                    has_xrpc = true;
                }
                i = i + 1;
            }
            ServiceLevel { fields, has_xrpc }
        },
    }
}

/// The enums generated for the unions of references of a schema, by name.
pub fn ref_unions(
    schema_id: &str,
    unions: &Vec<(String, Vec<String>)>,
    namespaces: &Vec<(String, Option<String>)>,
) -> (r: Vec<RecordEnum>)
    ensures
        r@.len() == unions@.len(),
        forall|i: int|
            0 <= i < unions@.len() ==> {
                &&& (#[trigger] r@[i]).name@ == unions@[i].0@
                &&& r@[i].variants@.len() == unions@[i].1@.len()
                &&& forall|j: int|
                    0 <= j < unions@[i].1@.len() ==> is_variant(
                        #[trigger] r@[i].variants@[j],
                        unions@[i].1@[j]@,
                        Some(schema_id@),
                        namespaces@,
                    )
            },
{
    let mut out: Vec<RecordEnum> = Vec::new();
    let mut i: usize = 0;
    while i < unions.len()
        invariant
            i <= unions@.len(),
            out@.len() == i,
            forall|k: int|
                0 <= k < i ==> {
                    &&& (#[trigger] out@[k]).name@ == unions@[k].0@
                    &&& out@[k].variants@.len() == unions@[k].1@.len()
                    &&& forall|j: int|
                        0 <= j < unions@[k].1@.len() ==> is_variant(
                            #[trigger] out@[k].variants@[j],
                            unions@[k].1@[j]@,
                            Some(schema_id@),
                            namespaces@,
                        )
                },
        decreases unions.len() - i,
    {
        let e = record_enum(&unions[i].1, unions[i].0.as_str(), Some(schema_id), namespaces);
        out.push(e);
        i = i + 1;
    }
    out
}

} // verus!
