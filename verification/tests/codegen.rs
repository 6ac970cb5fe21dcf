use bsky_sdk::codegen::defs::{user_type, UserType, UserTypeDef};
use bsky_sdk::codegen::modules::{client_impl, client_new, client_services_level, modules, record_enum, ref_unions};
use bsky_sdk::codegen::types::{
    integer_type, integer_type_supported, lex_object, string_type, ArrayItem, FieldAttribute,
    FieldType, IntegerType, ItemType, LexObject, ObjectProperty, StringFormat, StringType,
};
use bsky_sdk::codegen::xrpc::{
    xrpc_errors, xrpc_impl_procedure, xrpc_impl_query, BodySchema, HttpMethod, InputValue,
    MethodArg, OutputType, TypeArg, XrpcBody, XrpcError, XrpcParameters, XrpcProcedure, XrpcQuery,
};
use bsky_sdk::codegen::{collection, lex_token, resolve_path};

#[test]
fn integer_types_follow_the_bounds() {
    assert_eq!(integer_type(Some(0), Some(0xff)), IntegerType::U8);
    assert_eq!(integer_type(Some(0), Some(10)), IntegerType::LimitedU8(10));
    assert_eq!(integer_type(Some(0), Some(1000)), IntegerType::LimitedU16(1000));
    assert_eq!(integer_type(Some(0), Some(0xffff_ffff)), IntegerType::U32);
    assert_eq!(integer_type(Some(0), Some(0x1_0000_0000)), IntegerType::LimitedU64(0x1_0000_0000));
    assert_eq!(integer_type(Some(0), None), IntegerType::Usize);
    assert_eq!(integer_type(Some(1), Some(0xffff)), IntegerType::NonZeroU16);
    assert_eq!(integer_type(Some(1), Some(100)), IntegerType::LimitedNonZeroU8(100));
    assert_eq!(integer_type(Some(1), None), IntegerType::NonZeroU64);
    assert_eq!(integer_type(Some(2), Some(100)), IntegerType::BoundedU8(2, 100));
    assert_eq!(integer_type(Some(2), Some(300)), IntegerType::BoundedU16(2, 300));
    assert_eq!(integer_type(Some(5), None), IntegerType::BoundedU64(5, u64::MAX));
    assert_eq!(integer_type(Some(-0x80), Some(0x7f)), IntegerType::I8);
    assert_eq!(integer_type(Some(-0x8000_0000), Some(0x7fff_ffff)), IntegerType::I32);
    assert_eq!(integer_type(Some(-5), None), IntegerType::I64);
    assert_eq!(integer_type(None, None), IntegerType::I64);
}

#[test]
fn integer_types_without_a_rust_type() {
    assert!(!integer_type_supported(None, Some(5)));
    assert!(!integer_type_supported(Some(-1), Some(5)));
    assert!(integer_type_supported(Some(-1), None));
    assert!(integer_type_supported(Some(0), Some(-1)));
}

#[test]
fn string_types_follow_the_format() {
    assert_eq!(string_type(Some(StringFormat::Did)), StringType::Did);
    assert_eq!(string_type(Some(StringFormat::Datetime)), StringType::Datetime);
    assert_eq!(string_type(Some(StringFormat::AtUri)), StringType::Plain);
    assert_eq!(string_type(Some(StringFormat::Uri)), StringType::Plain);
    assert_eq!(string_type(None), StringType::Plain);
}

#[test]
fn paths_of_references() {
    assert_eq!(resolve_path("app.bsky.feed.post", "record"), "crate::app::bsky::feed::post::Record");
    assert_eq!(resolve_path("app.bsky.feed.defs#postView", "main"), "crate::app::bsky::feed::defs::PostView");
    assert_eq!(
        resolve_path("com.atproto.repo.strongRef", "main"),
        "crate::com::atproto::repo::strong_ref::Main"
    );
    assert_eq!(
        resolve_path("app.bsky.feed.getTimeline", "NSID"),
        "crate::app::bsky::feed::get_timeline::NSID"
    );
    assert_eq!(resolve_path("#replyRef", "main"), "ReplyRef");
}

#[test]
fn tokens_and_collections() {
    let t = lex_token("clickthroughItem", "app.bsky.feed.defs");
    assert_eq!(t.name, "CLICKTHROUGH_ITEM");
    assert_eq!(t.value, "app.bsky.feed.defs#clickthroughItem");
    let c = collection("post", "app.bsky.feed.post");
    assert_eq!(c.struct_name, "Post");
    assert_eq!(c.module_name, "post");
    assert_eq!(c.nsid, "app.bsky.feed.post");
}

#[test]
fn object_fields_are_sorted_and_optional_unless_required() {
    let object = LexObject {
        description: Some(String::from("An object.")),
        required: Some(vec![String::from("uri"), String::from("cid"), String::from("data")]),
        nullable: Some(vec![String::from("cid")]),
        properties: vec![
            (String::from("uri"), ObjectProperty::Str(Some(StringFormat::AtUri))),
            (String::from("data"), ObjectProperty::Bytes),
            (String::from("cid"), ObjectProperty::Str(Some(StringFormat::Cid))),
            (String::from("type"), ObjectProperty::Union(None)),
            (String::from("likeCount"), ObjectProperty::Integer { minimum: Some(0), maximum: None }),
            (String::from("blob"), ObjectProperty::Bytes),
            (String::from("items"), ObjectProperty::Array(ArrayItem::Union(Some(true)))),
        ],
    };
    let def = lex_object(&object, "postView");
    assert_eq!(def.struct_name, "PostViewData");
    assert_eq!(def.object_name, "PostView");
    assert_eq!(def.description.as_deref(), Some("An object."));
    let names: Vec<&str> = def.fields.iter().map(|f| f.name.as_str()).collect();
    assert_eq!(names, vec!["blob", "cid", "data", "items", "like_count", "r#type", "uri"]);
    let blob = &def.fields[0];
    assert!(blob.optional);
    assert_eq!(
        blob.attributes,
        vec![FieldAttribute::SerdeDefault, FieldAttribute::SerdeBytes, FieldAttribute::SkipIfNone]
    );
    let cid = &def.fields[1];
    assert!(cid.optional, "a nullable field is optional");
    assert_eq!(cid.ty, FieldType::Str(StringType::Cid));
    let data = &def.fields[2];
    assert!(!data.optional);
    assert_eq!(data.attributes, vec![FieldAttribute::SerdeBytes]);
    assert_eq!(
        def.fields[3].ty,
        FieldType::Vec(ItemType::RefUnion { name: String::from("PostViewItemsItem"), closed: true })
    );
    assert_eq!(def.fields[4].ty, FieldType::Integer(IntegerType::Usize));
    assert_eq!(
        def.fields[5].ty,
        FieldType::RefUnion { name: String::from("PostViewTypeRefs"), closed: false }
    );
    assert_eq!(def.fields[6].ty, FieldType::Str(StringType::Plain));
    assert!(!def.fields[6].optional);
    assert!(def.fields[6].attributes.is_empty());
}

fn body(encoding: &str, schema: Option<BodySchema>) -> XrpcBody {
    XrpcBody { description: None, encoding: encoding.into(), schema }
}

#[test]
fn query_methods() {
    let query = XrpcQuery {
        description: Some(String::from("Get a timeline.")),
        parameters: Some(XrpcParameters { description: None, required: None, properties: Vec::new() }),
        output: Some(body(
            "application/json",
            Some(BodySchema::Object(LexObject {
                description: None,
                required: None,
                nullable: None,
                properties: Vec::new(),
            })),
        )),
        errors: None,
    };
    let m = xrpc_impl_query(&query, "app.bsky.feed.getTimeline");
    assert_eq!(m.name, "get_timeline");
    assert_eq!(m.args, vec![MethodArg::Params(String::from("crate::app::bsky::feed::get_timeline::Parameters"))]);
    assert_eq!(m.type_args, vec![TypeArg::Infer, TypeArg::Unit, TypeArg::Infer, TypeArg::Infer]);
    assert_eq!(m.http_method, HttpMethod::Get);
    assert_eq!(m.nsid_path, "crate::app::bsky::feed::get_timeline::NSID");
    assert!(m.with_params);
    assert_eq!(m.input, InputValue::NoInput);
    assert_eq!(m.encoding, None);
    assert_eq!(m.output, OutputType::Data);
    assert_eq!(m.output_path.as_deref(), Some("crate::app::bsky::feed::get_timeline::Output"));
    assert_eq!(m.error_path, "crate::app::bsky::feed::get_timeline::Error");

    let bare = XrpcQuery { description: None, parameters: None, output: Some(body("*/*", None)), errors: None };
    let m = xrpc_impl_query(&bare, "com.atproto.sync.getBlob");
    assert!(m.args.is_empty());
    assert_eq!(m.type_args, vec![TypeArg::Unit, TypeArg::Unit, TypeArg::Unit, TypeArg::Infer]);
    assert_eq!(m.output, OutputType::Bytes);
    assert_eq!(m.output_path, None);
}

#[test]
fn procedure_methods() {
    let upload = XrpcProcedure {
        description: None,
        input: Some(body("*/*", None)),
        output: Some(body("application/json", Some(BodySchema::Ref(String::from("#output"), None)))),
        errors: None,
    };
    let m = xrpc_impl_procedure(&upload, "com.atproto.repo.uploadBlob");
    assert_eq!(m.name, "upload_blob");
    assert_eq!(m.args, vec![MethodArg::InputBytes]);
    assert_eq!(m.type_args, vec![TypeArg::Unit, TypeArg::Bytes, TypeArg::Infer, TypeArg::Infer]);
    assert_eq!(m.http_method, HttpMethod::Post);
    assert!(!m.with_params);
    assert_eq!(m.input, InputValue::Bytes);
    assert_eq!(m.encoding.as_deref(), Some("*/*"));

    let delete = XrpcProcedure {
        description: None,
        input: Some(body(
            "application/json",
            Some(BodySchema::Object(LexObject {
                description: None,
                required: None,
                nullable: None,
                properties: Vec::new(),
            })),
        )),
        output: None,
        errors: None,
    };
    let m = xrpc_impl_procedure(&delete, "com.atproto.repo.deleteRecord");
    assert_eq!(m.args, vec![MethodArg::Input(String::from("crate::com::atproto::repo::delete_record::Input"))]);
    assert_eq!(m.type_args, vec![TypeArg::Unit, TypeArg::Infer, TypeArg::Unit, TypeArg::Infer]);
    assert_eq!(m.input, InputValue::Data);
    assert_eq!(m.output, OutputType::NoOutput);
}

#[test]
fn error_variants() {
    let errors = Some(vec![
        XrpcError { name: String::from("InvalidSwap"), description: None },
        XrpcError { name: String::from("record-not-found"), description: Some(String::from("gone")) },
    ]);
    let variants = xrpc_errors(&errors);
    assert_eq!(variants.len(), 2);
    assert_eq!(variants[0].name, "InvalidSwap");
    assert_eq!(variants[0].title, "InvalidSwap");
    assert_eq!(variants[1].name, "RecordNotFound");
    assert_eq!(variants[1].title, "record-not-found");
    assert_eq!(variants[1].description.as_deref(), Some("gone"));
    assert!(xrpc_errors(&None).is_empty());
}

#[test]
fn user_types() {
    let token = user_type(&UserType::Token { description: None }, "app.bsky.feed.defs", "requestLess", false);
    match token {
        UserTypeDef::Token { def, .. } => {
            assert_eq!(def.name, "REQUEST_LESS");
            assert_eq!(def.value, "app.bsky.feed.defs#requestLess");
        },
        other => panic!("unexpected definition: {other:?}"),
    }
    let main = user_type(
        &UserType::Object(LexObject { description: None, required: None, nullable: None, properties: Vec::new() }),
        "app.bsky.embed.images",
        "main",
        true,
    );
    match main {
        UserTypeDef::Object(def) => assert_eq!(def.struct_name, "MainData"),
        other => panic!("unexpected definition: {other:?}"),
    }
    let array = user_type(
        &UserType::Array { description: None, item: ArrayItem::Str(Some(StringFormat::Did)) },
        "app.bsky.graph.defs",
        "listItems",
        false,
    );
    match array {
        UserTypeDef::ArrayAlias { name, item, .. } => {
            assert_eq!(name, "ListItems");
            assert_eq!(item, ItemType::Str(StringType::Did));
        },
        other => panic!("unexpected definition: {other:?}"),
    }
}

#[test]
fn record_and_union_enums() {
    let namespaces = vec![(String::from("app.bsky"), Some(String::from("bluesky"))), (String::from("com.atproto"), None)];
    let records = record_enum(
        &vec![String::from("app.bsky.feed.post"), String::from("com.atproto.lexicon.schema")],
        "KnownRecord",
        None,
        &namespaces,
    );
    assert_eq!(records.name, "KnownRecord");
    assert_eq!(records.variants[0].name, "AppBskyFeedPost");
    assert_eq!(records.variants[0].rename, "app.bsky.feed.post");
    assert_eq!(records.variants[0].path, "crate::app::bsky::feed::post::Record");
    assert_eq!(records.variants[0].feature.as_deref(), Some("bluesky"));
    assert_eq!(records.variants[1].name, "ComAtprotoLexiconSchema");
    assert_eq!(records.variants[1].feature, None);

    let union = record_enum(
        &vec![String::from("#view"), String::from("app.bsky.embed.images#view")],
        "ViewMediaRefs",
        Some("app.bsky.embed.recordWithMedia"),
        &namespaces,
    );
    assert_eq!(union.variants[0].name, "View");
    assert_eq!(union.variants[0].rename, "app.bsky.embed.recordWithMedia#view");
    assert_eq!(union.variants[0].path, "View");
    assert_eq!(union.variants[0].feature, None);
    assert_eq!(union.variants[1].name, "AppBskyEmbedImagesView");
    assert_eq!(union.variants[1].rename, "app.bsky.embed.images#view");
}

#[test]
fn module_declarations_and_services() {
    let namespaces = vec![(String::from("app.bsky"), Some(String::from("bluesky")))];
    let decls = modules(&vec![String::from("bsky"), String::from("other")], &vec![String::from("app")], &namespaces);
    assert_eq!(decls[0].name, "bsky");
    assert_eq!(decls[0].feature.as_deref(), Some("bluesky"));
    assert_eq!(decls[1].feature, None);

    let children = vec![
        (String::from("feed"), false),
        (String::from("getProfile"), true),
        (String::from("actor"), false),
    ];
    let c = client_new(&children, "app.bsky", &namespaces);
    assert!(c.has_xrpc);
    assert_eq!(c.members.len(), 2);
    assert_eq!(c.members[0].name, "actor");
    assert_eq!(c.members[0].path, "app::bsky::actor");
    assert_eq!(c.members[1].name, "feed");
    let root = client_new(&vec![(String::from("app"), false)], "", &vec![(String::from("app"), Some(String::from("x")))]);
    assert!(!root.has_xrpc);
    assert_eq!(root.members[0].path, "app");
    assert_eq!(root.members[0].feature.as_deref(), Some("x"));

    let schemas = vec![(
        String::from("app.bsky.getProfile"),
        UserType::Query(XrpcQuery { description: None, parameters: None, output: None, errors: None }),
    )];
    let service = client_impl("app.bsky", &children, &schemas, &namespaces);
    assert_eq!(service.feature.as_deref(), Some("bluesky"));
    assert_eq!(service.service_path.as_deref(), Some("app::bsky"));
    assert_eq!(service.methods.len(), 1);
    assert_eq!(service.methods[0].name, "get_profile");
    assert_eq!(service.methods[0].output, OutputType::NoOutput);
}

#[test]
fn service_levels() {
    let namespaces = vec![(String::from("app.bsky"), Some(String::from("bluesky"))), (String::from(".app"), None)];
    let root = client_services_level("", Some(&vec![(String::from("com"), false), (String::from("app"), false)]), &namespaces);
    assert!(!root.has_xrpc);
    assert_eq!(root.fields.len(), 2);
    assert_eq!(root.fields[0].name, "app");
    assert_eq!(root.fields[0].target, "app");
    assert_eq!(root.fields[0].feature, None);
    let app = client_services_level("app", Some(&vec![(String::from("bsky"), false)]), &namespaces);
    assert_eq!(app.fields[0].target, "app.bsky");
    assert_eq!(app.fields[0].feature.as_deref(), Some("bluesky"));
    let leaf = client_services_level("app.bsky.feed", Some(&vec![(String::from("getTimeline"), true)]), &namespaces);
    assert!(leaf.has_xrpc);
    assert!(leaf.fields.is_empty());
    let missing = client_services_level("nowhere", None, &namespaces);
    assert!(missing.fields.is_empty() && !missing.has_xrpc);
}

#[test]
fn union_enums_of_a_schema() {
    let unions = vec![(
        String::from("ReplyRefParentRefs"),
        vec![String::from("#postView"), String::from("#notFoundPost")],
    )];
    let enums = ref_unions("app.bsky.feed.defs", &unions, &Vec::new());
    assert_eq!(enums.len(), 1);
    assert_eq!(enums[0].name, "ReplyRefParentRefs");
    assert_eq!(enums[0].variants[0].name, "PostView");
    assert_eq!(enums[0].variants[0].rename, "app.bsky.feed.defs#postView");
    assert_eq!(enums[0].variants[1].path, "NotFoundPost");
}

#[test]
fn integer_types_hold_exactly_their_bounds() {
    fn bounds(t: IntegerType) -> (i128, i128) {
        match t {
            IntegerType::U8 => (0, 0xff),
            IntegerType::U16 => (0, 0xffff),
            IntegerType::U32 => (0, 0xffff_ffff),
            IntegerType::NonZeroU8 => (1, 0xff),
            IntegerType::NonZeroU16 => (1, 0xffff),
            IntegerType::NonZeroU32 => (1, 0xffff_ffff),
            IntegerType::I8 => (-0x80, 0x7f),
            IntegerType::I16 => (-0x8000, 0x7fff),
            IntegerType::I32 => (-0x8000_0000, 0x7fff_ffff),
            IntegerType::I64 => (i64::MIN as i128, i64::MAX as i128),
            IntegerType::LimitedU8(m) => (0, m as i128),
            IntegerType::LimitedU16(m) => (0, m as i128),
            IntegerType::LimitedU32(m) => (0, m as i128),
            IntegerType::LimitedU64(m) => (0, m as i128),
            IntegerType::LimitedNonZeroU8(m) => (1, m as i128),
            IntegerType::LimitedNonZeroU16(m) => (1, m as i128),
            IntegerType::LimitedNonZeroU32(m) => (1, m as i128),
            IntegerType::LimitedNonZeroU64(m) => (1, m as i128),
            IntegerType::BoundedU8(a, b) => (a as i128, b as i128),
            IntegerType::BoundedU16(a, b) => (a as i128, b as i128),
            IntegerType::BoundedU32(a, b) => (a as i128, b as i128),
            IntegerType::BoundedU64(a, b) => (a as i128, b as i128),
            other => panic!("unbounded type {other:?}"),
        }
    }
    let cases: [(i64, i64); 10] = [
        (0, 0),
        (0, 0xff),
        (0, 0x100),
        (1, 1),
        (1, 0xffff_ffff),
        (1, 0x1_0000_0000),
        (2, 0xff),
        (7, 0x1_0000),
        (-0x8000, 0x7fff),
        (i64::MIN, i64::MAX),
    ];
    for (min, max) in cases {
        assert!(integer_type_supported(Some(min), Some(max)));
        assert_eq!(bounds(integer_type(Some(min), Some(max))), (min as i128, max as i128));
    }
}
