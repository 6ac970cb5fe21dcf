//! What is generated for each definition of a schema.
use vstd::prelude::*;
use super::types::{
    array_item_type, is_object_def, lex_object, object_supported, opt_view, spec_array_item_type,
    ArrayItem, ItemType, LexObject, ObjectDef,
};
use super::xrpc::{
    body_supported, is_body_def, is_error_variants, parameters_object, xrpc_body, xrpc_errors,
    xrpc_parameters, BodyDef, ErrorVariant, XrpcBody, XrpcError, XrpcParameters, XrpcProcedure,
    XrpcQuery,
};
use super::{lex_token, pascal_case, shouty_snake_case, to_pascal_case, TokenDef};

verus! {

/// A subscription: its parameters and errors.
#[derive(Debug, Clone, PartialEq, Eq)]
pub struct XrpcSubscription {
    pub description: Option<String>,
    pub parameters: Option<XrpcParameters>,
    pub errors: Option<Vec<XrpcError>>,
}

/// What is generated for a query, procedure or subscription: a struct for
/// its parameters, its input and output bodies, and its error enum.
#[derive(Debug, Clone, PartialEq, Eq)]
pub struct XrpcDefs {
    pub params: Option<ObjectDef>,
    pub input: Option<BodyDef>,
    pub output: Option<BodyDef>,
    pub errors: Vec<ErrorVariant>,
}

/// Whether the generator handles a set of parameters.
pub open spec fn params_supported(p: Option<XrpcParameters>) -> bool {
    p matches Some(params) ==> object_supported(parameters_object(params), "Parameters"@)
}

/// Whether the generator handles an optional body.
pub open spec fn opt_body_supported(b: Option<XrpcBody>, name: Seq<char>) -> bool {
    b matches Some(body) ==> body_supported(body, name)
}

/// Whether `r` is what is generated for parameters, if any.
pub open spec fn is_params_def(r: Option<ObjectDef>, p: Option<XrpcParameters>) -> bool {
    match p {
        Some(params) => r matches Some(def) && is_object_def(def, parameters_object(params), "Parameters"@),
        None => r is None,
    }
}

/// Whether `r` is what is generated for an optional body: nothing without
/// the body, else what the body generates.
pub open spec fn is_opt_body_def(r: Option<BodyDef>, b: Option<XrpcBody>, name: Seq<char>) -> bool {
    match b {
        Some(body) => is_body_def(r, body, name),
        None => r is None,
    }
}

fn params_def(p: &Option<XrpcParameters>) -> (r: Option<ObjectDef>)
    requires
        params_supported(*p),
    ensures
        is_params_def(r, *p),
{
    match p {
        Some(params) => Some(xrpc_parameters(params)),
        None => None,
    }
}

fn opt_body_def(b: &Option<XrpcBody>, name: &str) -> (r: Option<BodyDef>)
    requires
        opt_body_supported(*b, name@),
    ensures
        is_opt_body_def(r, *b, name@),
{
    match b {
        Some(body) => xrpc_body(body, name),
        None => None,
    }
}

/// What is generated for a query: its parameters, its output and errors.
pub fn lex_query(query: &XrpcQuery) -> (r: XrpcDefs)
    requires
        params_supported(query.parameters),
        opt_body_supported(query.output, "Output"@),
    ensures
        is_params_def(r.params, query.parameters),
        r.input is None,
        is_opt_body_def(r.output, query.output, "Output"@),
        is_error_variants(r.errors@, query.errors),
{
    XrpcDefs {
        params: params_def(&query.parameters),
        input: None,
        output: opt_body_def(&query.output, "Output"),
        errors: xrpc_errors(&query.errors),
    }
}

/// What is generated for a procedure: its input, its output and errors.
pub fn lex_procedure(procedure: &XrpcProcedure) -> (r: XrpcDefs)
    requires
        opt_body_supported(procedure.input, "Input"@),
        opt_body_supported(procedure.output, "Output"@),
    ensures
        r.params is None,
        is_opt_body_def(r.input, procedure.input, "Input"@),
        is_opt_body_def(r.output, procedure.output, "Output"@),
        is_error_variants(r.errors@, procedure.errors),
{
    XrpcDefs {
        params: None,
        input: opt_body_def(&procedure.input, "Input"),
        output: opt_body_def(&procedure.output, "Output"),
        errors: xrpc_errors(&procedure.errors),
    }
}

/// What is generated for a subscription: its parameters and errors.
pub fn lex_subscription(subscription: &XrpcSubscription) -> (r: XrpcDefs)
    requires
        params_supported(subscription.parameters),
    ensures
        is_params_def(r.params, subscription.parameters),
        r.input is None,
        r.output is None,
        is_error_variants(r.errors@, subscription.errors),
{
    XrpcDefs {
        params: params_def(&subscription.parameters),
        input: None,
        output: None,
        errors: xrpc_errors(&subscription.errors),
    }
}

/// A definition of a schema, as far as the generator reads it.
#[derive(Debug, Clone, PartialEq, Eq)]
pub enum UserType {
    Record(LexObject),
    Query(XrpcQuery),
    Procedure(XrpcProcedure),
    Subscription(XrpcSubscription),
    Array { description: Option<String>, item: ArrayItem },
    Token { description: Option<String> },
    Object(LexObject),
    Str { description: Option<String> },
    /// A kind of definition the generator does not handle at the top level
    /// (a primitive other than a string, bytes, a blob, and the like).
    Other,
}

/// What is generated for a definition.
#[derive(Debug, Clone, PartialEq, Eq)]
pub enum UserTypeDef {
    Object(ObjectDef),
    Xrpc(XrpcDefs),
    /// A type alias to a vector of the item type.
    ArrayAlias { description: Option<String>, name: String, item: ItemType<String> },
    Token { description: Option<String>, def: TokenDef },
    /// A type alias to `String`.
    StringAlias { description: Option<String>, name: String },
}

/// The name of the struct for an object definition: `Main` for a
/// schema's main definition, its own name otherwise.
pub open spec fn object_name(name: Seq<char>, is_main: bool) -> Seq<char> {
    if is_main {
        "Main"@
    } else {
        name
    }
}

/// Whether the generator handles a definition named `name`.
pub open spec fn user_type_supported(def: UserType, name: Seq<char>, is_main: bool) -> bool {
    match def {
        UserType::Record(o) => object_supported(o, "Record"@),
        UserType::Query(q) => params_supported(q.parameters) && opt_body_supported(q.output, "Output"@),
        UserType::Procedure(p) => opt_body_supported(p.input, "Input"@) && opt_body_supported(
            p.output,
            "Output"@,
        ),
        UserType::Subscription(s) => params_supported(s.parameters),
        UserType::Array { item, .. } => spec_array_item_type(item, name, None) is Some,
        UserType::Token { .. } => true,
        UserType::Object(o) => object_supported(o, object_name(name, is_main)),
        UserType::Str { .. } => true,
        UserType::Other => false,
    }
}

/// Whether `r` is what is generated for a definition named `name` of the
/// schema `schema_id`.
pub open spec fn is_user_type_def(r: UserTypeDef, def: UserType, schema_id: Seq<char>, name: Seq<char>, is_main: bool) -> bool {
    match def {
        UserType::Record(o) => r matches UserTypeDef::Object(d) && is_object_def(d, o, "Record"@),
        UserType::Query(q) => r matches UserTypeDef::Xrpc(d) && is_params_def(d.params, q.parameters)
            && d.input is None && is_opt_body_def(d.output, q.output, "Output"@) && is_error_variants(
            d.errors@,
            q.errors,
        ),
        UserType::Procedure(p) => r matches UserTypeDef::Xrpc(d) && d.params is None && is_opt_body_def(
            d.input,
            p.input,
            "Input"@,
        ) && is_opt_body_def(d.output, p.output, "Output"@) && is_error_variants(d.errors@, p.errors),
        UserType::Subscription(s) => r matches UserTypeDef::Xrpc(d) && is_params_def(d.params, s.parameters)
            && d.input is None && d.output is None && is_error_variants(d.errors@, s.errors),
        UserType::Array { description, item } => r matches UserTypeDef::ArrayAlias {
            description: d,
            name: n,
            item: t,
        } && d == description && n@ == pascal_case(name) && spec_array_item_type(item, name, None) == Some(t@),
        UserType::Token { description } => r matches UserTypeDef::Token { description: d, def: t } && d
            == description && t.name@ == shouty_snake_case(name) && t.value@ == schema_id + seq!['#'] + name,
        UserType::Object(o) => r matches UserTypeDef::Object(d) && is_object_def(d, o, object_name(name, is_main)),
        UserType::Str { description } => r matches UserTypeDef::StringAlias { description: d, name: n } && d
            == description && n@ == pascal_case(name),
        UserType::Other => false,
    }
}

/// What is generated for a definition named `name` of the schema
/// `schema_id`; see `is_user_type_def`.
pub fn user_type(def: &UserType, schema_id: &str, name: &str, is_main: bool) -> (r: UserTypeDef)
    requires
        user_type_supported(*def, name@, is_main),
    ensures
        is_user_type_def(r, *def, schema_id@, name@, is_main),
{
    match def {
        UserType::Record(o) => UserTypeDef::Object(lex_object(o, "Record")),
        UserType::Query(q) => UserTypeDef::Xrpc(lex_query(q)),
        UserType::Procedure(p) => UserTypeDef::Xrpc(lex_procedure(p)),
        UserType::Subscription(s) => UserTypeDef::Xrpc(lex_subscription(s)),
        UserType::Array { description, item } => {
            assert(opt_view(None) == None::<Seq<char>>);
            UserTypeDef::ArrayAlias {
                description: description.clone(),
                name: to_pascal_case(name),
                item: array_item_type(item, name, None),
            }
        },
        UserType::Token { description } => UserTypeDef::Token {
            description: description.clone(),
            def: lex_token(name, schema_id),
        },
        UserType::Object(o) => {
            if is_main {
                UserTypeDef::Object(lex_object(o, "Main"))
            } else {
                UserTypeDef::Object(lex_object(o, name))
            }
        },
        UserType::Str { description } => UserTypeDef::StringAlias {
            description: description.clone(),
            name: to_pascal_case(name),
        },
        UserType::Other => UserTypeDef::StringAlias { description: None, name: String::new() },
    }
}

} // verus!
