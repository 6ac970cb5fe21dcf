//! The generated parts of XRPC schemas: parameters, bodies, errors, and
//! the client method that sends each query or procedure.
use vstd::prelude::*;
use super::types::{is_object_def, lex_object, lex_object_parts, object_supported, LexObject, ObjectDef, ObjectProperty};
use super::{pascal_case, resolve_path, snake_case, spec_resolve_path, to_pascal_case, to_snake_case};
use crate::text::{char_pred, split_at_char, split_on};

verus! {

/// A request or response body of an XRPC method.
#[derive(Debug, Clone, PartialEq, Eq)]
pub struct XrpcBody {
    pub description: Option<String>,
    /// Its MIME type.
    pub encoding: String,
    pub schema: Option<BodySchema>,
}

/// The schema of a body.
#[derive(Debug, Clone, PartialEq, Eq)]
pub enum BodySchema {
    /// A reference to a definition, with the reference's description.
    Ref(String, Option<String>),
    Object(LexObject),
    Union,
}

/// An error that an XRPC method declares.
#[derive(Debug, Clone, PartialEq, Eq)]
pub struct XrpcError {
    pub name: String,
    pub description: Option<String>,
}

/// The parameters of a query or subscription.
#[derive(Debug, Clone, PartialEq, Eq)]
pub struct XrpcParameters {
    pub description: Option<String>,
    pub required: Option<Vec<String>>,
    pub properties: Vec<(String, ObjectProperty)>,
}

/// The object that parameters are generated as: their properties, none
/// of them nullable.
pub open spec fn parameters_object(p: XrpcParameters) -> LexObject {
    LexObject { description: p.description, required: p.required, nullable: None, properties: p.properties }
}

/// Whether the generator handles a body: it handles no union schema, and
/// an object schema only when it handles each property.
pub open spec fn body_supported(body: XrpcBody, name: Seq<char>) -> bool {
    match body.schema {
        Some(BodySchema::Union) => false,
        Some(BodySchema::Object(o)) => object_supported(o, name),
        _ => true,
    }
}

/// What is generated for a body.
#[derive(Debug, Clone, PartialEq, Eq)]
pub enum BodyDef {
    /// A type alias to the referenced definition.
    Alias { description: Option<String>, name: String, target: String },
    Object(ObjectDef),
}

/// The struct generated for a query's or subscription's parameters.
pub fn xrpc_parameters(parameters: &XrpcParameters) -> (r: ObjectDef)
    requires
        object_supported(parameters_object(*parameters), "Parameters"@),
    ensures
        is_object_def(r, parameters_object(*parameters), "Parameters"@),
{
    lex_object_parts(&parameters.description, &parameters.required, &None, &parameters.properties, "Parameters")
}

/// Whether `r` is what is generated for a body named `name`: nothing
/// without a schema, an alias to a referenced definition, or a struct for
/// an object.
pub open spec fn is_body_def(r: Option<BodyDef>, body: XrpcBody, name: Seq<char>) -> bool {
    match body.schema {
        None => r is None,
        Some(BodySchema::Ref(reference, description)) => r matches Some(BodyDef::Alias { description: d, name: n, target })
            && d == description && n@ == pascal_case(name) && target@ == spec_resolve_path(reference@, "main"@),
        Some(BodySchema::Object(o)) => r matches Some(BodyDef::Object(def)) && is_object_def(def, o, name),
        Some(BodySchema::Union) => false,
    }
}

/// What is generated for a body named `name`; see `is_body_def`.
pub fn xrpc_body(body: &XrpcBody, name: &str) -> (r: Option<BodyDef>)
    requires
        body_supported(*body, name@),
    ensures
        is_body_def(r, *body, name@),
{
    match &body.schema {
        None => None,
        Some(BodySchema::Ref(reference, description)) => Some(
            BodyDef::Alias {
                description: description.clone(),
                name: to_pascal_case(name),
                target: resolve_path(reference.as_str(), "main"),
            },
        ),
        Some(BodySchema::Object(o)) => Some(BodyDef::Object(lex_object(o, name))),
        Some(BodySchema::Union) => None,
    }
}

/// A variant of the error enum generated for a method.
#[derive(Debug, Clone, PartialEq, Eq)]
pub struct ErrorVariant {
    pub description: Option<String>,
    /// The variant's name: the error's name pascal-cased.
    pub name: String,
    /// The text that displaying the error starts with: the error's name.
    pub title: String,
}

/// The errors a method declares, none when it declares none.
pub open spec fn declared_errors(errors: Option<Vec<XrpcError>>) -> Seq<XrpcError> {
    match errors {
        Some(v) => v@,
        None => Seq::empty(),
    }
}

/// Whether `r` lists the error variants for the declared errors, in order.
pub open spec fn is_error_variants(r: Seq<ErrorVariant>, errors: Option<Vec<XrpcError>>) -> bool {
    &&& r.len() == declared_errors(errors).len()
    &&& forall|i: int|
        0 <= i < r.len() ==> {
            let e = declared_errors(errors)[i];
            &&& (#[trigger] r[i]).description == e.description
            &&& r[i].name@ == pascal_case(e.name@)
            &&& r[i].title@ == e.name@
        }
}

/// The variants of the error enum generated for a method.
pub fn xrpc_errors(errors: &Option<Vec<XrpcError>>) -> (r: Vec<ErrorVariant>)
    ensures
        is_error_variants(r@, *errors),
{
    let mut out: Vec<ErrorVariant> = Vec::new();
    match errors {
        Some(v) => {
            let mut i: usize = 0;
            while i < v.len()
                invariant
                    *errors == Some(*v),
                    i <= v@.len(),
                    out@.len() == i,
                    forall|j: int|
                        0 <= j < i ==> {
                            let e = v@[j];
                            &&& (#[trigger] out@[j]).description == e.description
                            &&& out@[j].name@ == pascal_case(e.name@)
                            &&& out@[j].title@ == e.name@
                        },
                decreases v.len() - i,
            {
                let e = &v[i];
                out.push(
                    ErrorVariant {
                        description: e.description.clone(),
                        name: to_pascal_case(e.name.as_str()),
                        title: e.name.clone(),
                    },
                );
                i = i + 1;
            }
        },
        None => {},
    }
    out
}

/// What a method's response is.
#[derive(Debug, Clone, Copy, PartialEq, Eq, Structural)]
pub enum OutputType {
    /// No output: the response must be bytes, and is dropped.
    NoOutput,
    /// An output with a schema: data.
    Data,
    /// An output without a schema: bytes.
    Bytes,
}

/// The output type of a method with the given output body.
pub open spec fn spec_output_type(output: Option<XrpcBody>) -> OutputType {
    match output {
        Some(b) => if b.schema is Some {
            OutputType::Data
        } else {
            OutputType::Bytes
        },
        None => OutputType::NoOutput,
    }
}

fn output_type(output: &Option<XrpcBody>) -> (r: OutputType)
    ensures
        r == spec_output_type(*output),
{
    match output {
        Some(b) => if b.schema.is_some() {
            OutputType::Data
        } else {
            OutputType::Bytes
        },
        None => OutputType::NoOutput,
    }
}

/// An argument of a generated method, after `&self`.
#[derive(Debug, Clone, PartialEq, Eq)]
pub enum MethodArg<S> {
    /// `params` of the given parameters type.
    Params(S),
    /// `input` of the given input type.
    Input(S),
    /// `input` as bytes.
    InputBytes,
}

impl View for MethodArg<String> {
    type V = MethodArg<Seq<char>>;

    open spec fn view(&self) -> MethodArg<Seq<char>> {
        match self {
            MethodArg::Params(p) => MethodArg::Params(p@),
            MethodArg::Input(p) => MethodArg::Input(p@),
            MethodArg::InputBytes => MethodArg::InputBytes,
        }
    }
}

/// A type argument of the call that sends a request: `_`, `()` or `Vec<u8>`.
#[derive(Debug, Clone, Copy, PartialEq, Eq, Structural)]
pub enum TypeArg {
    Infer,
    Unit,
    Bytes,
}

/// The HTTP method of a request.
#[derive(Debug, Clone, Copy, PartialEq, Eq, Structural)]
pub enum HttpMethod {
    Get,
    Post,
}

/// The input that a request carries.
#[derive(Debug, Clone, Copy, PartialEq, Eq, Structural)]
pub enum InputValue {
    NoInput,
    Data,
    Bytes,
}

/// The client method generated for a query or procedure.
#[derive(Debug, Clone, PartialEq, Eq)]
pub struct XrpcMethod {
    pub description: Option<String>,
    /// The method's name: the NSID's last segment snake-cased.
    pub name: String,
    pub args: Vec<MethodArg<String>>,
    /// The four type arguments of the call: parameters, input, output, error.
    pub type_args: Vec<TypeArg>,
    pub http_method: HttpMethod,
    /// The path of the method's NSID constant.
    pub nsid_path: String,
    /// Whether the request carries the parameters.
    pub with_params: bool,
    pub input: InputValue,
    /// The input's MIME type, if there is an input.
    pub encoding: Option<String>,
    pub output: OutputType,
    /// The path of the output type, for data output.
    pub output_path: Option<String>,
    /// The path of the method's error type.
    pub error_path: String,
}

/// The views of a list of method arguments.
pub open spec fn arg_views(s: Seq<MethodArg<String>>) -> Seq<MethodArg<Seq<char>>> {
    s.map_values(|a: MethodArg<String>| a@)
}

/// The last dot-separated segment of an NSID.
pub open spec fn last_segment(nsid: Seq<char>) -> Seq<char> {
    split_on(nsid, char_pred('.')).last()
}

/// Whether `r` has what every generated method has: its name, the paths
/// of its NSID and error, its output and the output's path.
pub open spec fn common_parts(r: XrpcMethod, nsid: Seq<char>, description: Option<String>, output: OutputType) -> bool {
    &&& r.description == description
    &&& r.name@ == snake_case(last_segment(nsid))
    &&& r.nsid_path@ == spec_resolve_path(nsid, "NSID"@)
    &&& r.error_path@ == spec_resolve_path(nsid, "Error"@)
    &&& r.output == output
    &&& match r.output_path {
        Some(p) => output == OutputType::Data && p@ == spec_resolve_path(nsid, "Output"@),
        None => output != OutputType::Data,
    }
}

/// The type argument for the output.
pub open spec fn output_type_arg(output: OutputType) -> TypeArg {
    if output == OutputType::Data {
        TypeArg::Infer
    } else {
        TypeArg::Unit
    }
}

fn output_type_arg_exec(output: OutputType) -> (r: TypeArg)
    ensures
        r == output_type_arg(output),
{
    if output == OutputType::Data {
        TypeArg::Infer
    } else {
        TypeArg::Unit
    }
}

fn method_name(nsid: &str) -> (r: String)
    ensures
        r@ == snake_case(last_segment(nsid@)),
{
    let segments = split_at_char(nsid, '.');
    proof {
        crate::text::lemma_split_on_nonempty(nsid@, char_pred('.'));
    }
    let last = segments.len() - 1;
    assert(crate::text::string_views(segments@)[last as int] == segments@[last as int]@);
    to_snake_case(segments[last].as_str())
}

fn common(
    nsid: &str,
    description: &Option<String>,
    output: OutputType,
    args: Vec<MethodArg<String>>,
    type_args: Vec<TypeArg>,
    http_method: HttpMethod,
    with_params: bool,
    input: InputValue,
    encoding: Option<String>,
) -> (r: XrpcMethod)
    ensures
        common_parts(r, nsid@, *description, output),
        r.args == args,
        r.type_args == type_args,
        r.http_method == http_method,
        r.with_params == with_params,
        r.input == input,
        r.encoding == encoding,
{
    let output_path = if output == OutputType::Data {
        Some(resolve_path(nsid, "Output"))
    } else {
        None
    };
    XrpcMethod {
        description: description.clone(),
        name: method_name(nsid),
        args,
        type_args,
        http_method,
        nsid_path: resolve_path(nsid, "NSID"),
        with_params,
        input,
        encoding,
        output,
        output_path,
        error_path: resolve_path(nsid, "Error"),
    }
}

/// A query: its parameters, output and errors.
#[derive(Debug, Clone, PartialEq, Eq)]
pub struct XrpcQuery {
    pub description: Option<String>,
    pub parameters: Option<XrpcParameters>,
    pub output: Option<XrpcBody>,
    pub errors: Option<Vec<XrpcError>>,
}

/// A procedure: its input, output and errors.
#[derive(Debug, Clone, PartialEq, Eq)]
pub struct XrpcProcedure {
    pub description: Option<String>,
    pub input: Option<XrpcBody>,
    pub output: Option<XrpcBody>,
    pub errors: Option<Vec<XrpcError>>,
}

/// Whether `r` is the method generated for a query: a GET that takes
/// `params` when the query has parameters.
pub open spec fn is_query_method(r: XrpcMethod, query: XrpcQuery, nsid: Seq<char>) -> bool {
    let has_params = query.parameters is Some;
    let output = spec_output_type(query.output);
    &&& common_parts(r, nsid, query.description, output)
    &&& arg_views(r.args@) == (if has_params {
        seq![MethodArg::Params(spec_resolve_path(nsid, "Parameters"@))]
    } else {
        Seq::empty()
    })
    &&& r.type_args@ == seq![
        if has_params {
            TypeArg::Infer
        } else {
            TypeArg::Unit
        },
        TypeArg::Unit,
        output_type_arg(output),
        TypeArg::Infer,
    ]
    &&& r.http_method == HttpMethod::Get
    &&& r.with_params == has_params
    &&& r.input == InputValue::NoInput
    &&& r.encoding is None
}

/// The method generated for a query; see `is_query_method`.
pub fn xrpc_impl_query(query: &XrpcQuery, nsid: &str) -> (r: XrpcMethod)
    ensures
        is_query_method(r, *query, nsid@),
{
    let has_params = query.parameters.is_some();
    let output = output_type(&query.output);
    let mut args: Vec<MethodArg<String>> = Vec::new();
    if has_params {
        args.push(MethodArg::Params(resolve_path(nsid, "Parameters")));
    }
    let mut type_args: Vec<TypeArg> = Vec::new();
    type_args.push(if has_params { TypeArg::Infer } else { TypeArg::Unit });
    type_args.push(TypeArg::Unit);
    type_args.push(output_type_arg_exec(output));
    type_args.push(TypeArg::Infer);
    let r = common(nsid, &query.description, output, args, type_args, HttpMethod::Get, has_params, InputValue::NoInput, None);
    assert(arg_views(r.args@) =~= (if has_params {
        seq![MethodArg::Params(spec_resolve_path(nsid@, "Parameters"@))]
    } else {
        Seq::empty()
    }));
    assert(r.type_args@ =~= seq![
        if has_params {
            TypeArg::Infer
        } else {
            TypeArg::Unit
        },
        TypeArg::Unit,
        output_type_arg(output),
        TypeArg::Infer,
    ]);
    r
}

/// Whether `r` is the method generated for a procedure: a POST that takes
/// `input` as data when the input has a schema, as bytes when it has none,
/// and no input when there is none.
pub open spec fn is_procedure_method(r: XrpcMethod, procedure: XrpcProcedure, nsid: Seq<char>) -> bool {
    let output = spec_output_type(procedure.output);
    &&& common_parts(r, nsid, procedure.description, output)
    &&& arg_views(r.args@) == match procedure.input {
        Some(b) => if b.schema is Some {
            seq![MethodArg::Input(spec_resolve_path(nsid, "Input"@))]
        } else {
            seq![MethodArg::InputBytes]
        },
        None => Seq::empty(),
    }
    &&& r.type_args@ == seq![
        TypeArg::Unit,
        match procedure.input {
            Some(b) => if b.schema is Some {
                TypeArg::Infer
            } else {
                TypeArg::Bytes
            },
            None => TypeArg::Unit,
        },
        output_type_arg(output),
        TypeArg::Infer,
    ]
    &&& r.http_method == HttpMethod::Post
    &&& !r.with_params
    &&& r.input == match procedure.input {
        Some(b) => if b.schema is Some {
            InputValue::Data
        } else {
            InputValue::Bytes
        },
        None => InputValue::NoInput,
    }
    &&& match procedure.input {
        Some(b) => r.encoding matches Some(e) && e@ == b.encoding@,
        None => r.encoding is None,
    }
}

/// The method generated for a procedure; see `is_procedure_method`.
pub fn xrpc_impl_procedure(procedure: &XrpcProcedure, nsid: &str) -> (r: XrpcMethod)
    ensures
        is_procedure_method(r, *procedure, nsid@),
{
    let output = output_type(&procedure.output);
    let mut args: Vec<MethodArg<String>> = Vec::new();
    let (input_arg, input, encoding) = match &procedure.input {
        Some(body) => {
            if body.schema.is_some() {
                args.push(MethodArg::Input(resolve_path(nsid, "Input")));
                (TypeArg::Infer, InputValue::Data, Some(body.encoding.clone()))
            } else {
                args.push(MethodArg::InputBytes);
                (TypeArg::Bytes, InputValue::Bytes, Some(body.encoding.clone()))
            }
        },
        None => (TypeArg::Unit, InputValue::NoInput, None),
    };
    let mut type_args: Vec<TypeArg> = Vec::new();
    type_args.push(TypeArg::Unit);
    type_args.push(input_arg);
    type_args.push(output_type_arg_exec(output));
    type_args.push(TypeArg::Infer);
    let r = common(nsid, &procedure.description, output, args, type_args, HttpMethod::Post, false, input, encoding);
    assert(arg_views(r.args@) =~= match procedure.input {
        Some(b) => if b.schema is Some {
            seq![MethodArg::Input(spec_resolve_path(nsid@, "Input"@))]
        } else {
            seq![MethodArg::InputBytes]
        },
        None => Seq::empty(),
    });
    assert(r.type_args@ =~= seq![
        TypeArg::Unit,
        match procedure.input {
            Some(b) => if b.schema is Some {
                TypeArg::Infer
            } else {
                TypeArg::Bytes
            },
            None => TypeArg::Unit,
        },
        output_type_arg(output),
        TypeArg::Infer,
    ]);
    r
}

} // verus!
