//! Generates clients that call the `grpc` crate.
//!
//! The client of a service is Rust source, put together from fixed source and from what a description
//! of the service holds.
use proc_macro2::TokenStream;
use vstd::hash_set::StringHashSet;
use vstd::prelude::*;

use crate::tokens::{
    can_be_identifier, finish_goes_behind, holds, identifier, is_ascii_identifier,
    source_goes_behind, stream_clone, stream_extend, stream_new, tokens_of, Draft, DraftState, Token,
};

verus! {

/// A method of a service, as far as its client depends on it.
#[derive(Debug)]
pub struct Method {
    /// The name of the method in the client.
    pub name: String,
    /// The name under which comments on the method are disabled.
    pub qualified_name: String,
    /// The path that calls of the method go to.
    pub path: String,
    /// The method's comments, as doc attributes.
    pub doc: TokenStream,
    pub deprecated: bool,
    /// The type of the request's messages.
    pub request: TokenStream,
    /// The type of the response's messages.
    pub response: TokenStream,
    pub client_streaming: bool,
    pub server_streaming: bool,
}

/// A service, as far as its client depends on it.
#[derive(Debug)]
pub struct Service {
    /// The name of the service.
    pub name: String,
    /// The name of the service in snake case.
    pub snake_name: String,
    /// The package of the service.
    pub package: String,
    /// The name under which comments on the service are disabled, and attributes are given to it.
    pub qualified_name: String,
    /// The service's comments, as doc attributes.
    pub doc: TokenStream,
    pub methods: Vec<Method>,
}

/// The attributes that a client gets.
#[derive(Debug)]
pub struct Attributes {
    /// Those of the client's module.
    pub module: Vec<TokenStream>,
    /// Those of the client's struct.
    pub structure: Vec<TokenStream>,
}

/// Why no client could be generated.
#[derive(Clone, Copy, Debug, PartialEq, Eq, Structural)]
pub enum CodegenError {
    /// A name in the client would not be an identifier.
    NotAnIdentifier,
}

/// The names under which comments are disabled.
pub fn disabled_names(names: Vec<String>) -> (r: StringHashSet)
    ensures
        forall|name: Seq<char>| #[trigger]
            r@.contains(name) <==> exists|i: int|
                0 <= i < names@.len() && #[trigger] names@[i]@ == name,
{
    let mut set = StringHashSet::new();
    for i in 0..names.len()
        invariant
            forall|name: Seq<char>| #[trigger]
                set@.contains(name) <==> exists|k: int| 0 <= k < i && #[trigger] names@[k]@ == name,
    {
        let ghost before = set@;
        set.insert(names[i].clone());
        assert forall|name: Seq<char>| #[trigger] set@.contains(name) implies exists|k: int|
            0 <= k < i + 1 && #[trigger] names@[k]@ == name by {
            if name == names@[i as int]@ {
                assert(names@[i as int]@ == name);
            } else {
                assert(before.contains(name));
                let k = choose|k: int| 0 <= k < i && #[trigger] names@[k]@ == name;
                assert(names@[k]@ == name);
            }
        }
    }
    set
}

/// The attribute of deprecated methods.
pub const DEPRECATED: &'static str = "# [ deprecated ]";

/// Receives the single message of a response: up to the message's type, and on from there.
pub const RECV_INTO: &'static str = "let mut res_msg =";

pub const RECV_LOOP: &'static str = ":: default ( ) ;
let mut recv_adapter = ProstRecvMessage ( & mut res_msg ) ;
let mut response_md = tonic :: metadata :: MetadataMap :: new ( ) ;

loop {
    let item = rx . recv ( & mut recv_adapter ) . await ;
    match item {
        ResponseStreamItem :: Message => { } ,
        ResponseStreamItem :: Trailers ( t ) => {
            merge_grpc_metadata ( & mut response_md , t . metadata ( ) ) ;
            return match t . into_status ( ) {
                Ok ( ( ) ) => Ok ( tonic :: Response :: from_parts (
                    response_md , res_msg , tonic :: Extensions :: new ( )
                ) ) ,
                Err ( err ) => Err ( status_from_grpc_error ( & err , response_md ) ) ,
            } ;
        }
        ResponseStreamItem :: Headers ( h ) => {
            merge_grpc_metadata ( & mut response_md , h . metadata ( ) ) ;
        }
        ResponseStreamItem :: StreamClosed => {
            return Err ( tonic :: Status :: internal (";

pub const CLOSED_PREMATURELY: &'static str = "stream closed prematurely";

pub const RECV_LOOP_END: &'static str = ") ) ;
        }
    }
}";

/// Takes a request apart that is a stream of messages: up to the path.
pub const STREAMING_SETUP: &'static str = "let req = request . into_streaming_request ( ) ;
let ( grpc_md , deadline ) = convert_tonic_metadata_to_grpc ( req . metadata ( ) ) ;
let mut req_stream = Box :: pin ( req . into_inner ( ) ) ;
let headers = RequestHeaders :: new ( ) . with_method_name (";

/// Takes a request apart that is a single message: up to the path.
pub const SINGLE_SETUP: &'static str = "let req = request . into_request ( ) ;
let ( grpc_md , deadline ) = convert_tonic_metadata_to_grpc ( req . metadata ( ) ) ;
let req_msg = req . into_inner ( ) ;
let headers = RequestHeaders :: new ( ) . with_method_name (";

/// Takes a request apart: behind the path.
pub const SETUP_END: &'static str = ") . with_metadata ( grpc_md ) ;
let mut options = CallOptions :: default ( ) ;
if let Some ( d ) = deadline {
    options . set_deadline ( d ) ;
}";

/// Sends the messages of a streaming request in a task of its own.
pub const SEND_TASK: &'static str = "tokio :: spawn ( async move {
    use tokio_stream :: StreamExt ;
    while let Some ( msg ) = req_stream . next ( ) . await {
        let send_msg = ProstSendMessage ( & msg ) ;
        if tx . send ( & send_msg , SendOptions :: default ( ) ) . await . is_err ( ) {
            break ;
        }
    }
    drop ( tx ) ;
} )";

/// The head of a method: up to its name, and on from there.
pub const METHOD: &'static str = "pub async fn";

pub const SINGLE_PARAMETERS: &'static str = "(
    & mut self ,
    request : impl tonic :: IntoRequest <";

pub const STREAMING_PARAMETERS: &'static str = "(
    & mut self ,
    request : impl tonic :: IntoStreamingRequest < Message =";

pub const RESULT: &'static str = "> ,
) -> std :: result :: Result < tonic :: Response <";

pub const SINGLE_RESULT_END: &'static str = "> , tonic :: Status > {";

pub const STREAMING_RESULT: &'static str = "GrpcResponseStream <";

pub const STREAMING_RESULT_END: &'static str = ", T :: RecvStream >> , tonic :: Status > {";

/// Invokes a call whose response is a single message.
pub const INVOKE_SINGLE: &'static str = "let ( mut tx , rx ) =
    self . inner . invoke ( headers , options ) . await ;
let mut rx = RecvStreamValidator :: new ( rx , true ) ;";

/// Invokes a call whose response is a stream of messages.
pub const INVOKE_STREAMING: &'static str = "let ( mut tx , rx ) =
    self . inner . invoke ( headers , options ) . await ;
let rx = RecvStreamValidator :: new ( rx , false ) ;";

/// Sends the single message of a request, and marks it as the last one.
pub const SEND_SINGLE: &'static str = "let send_msg = ProstSendMessage ( & req_msg ) ;
let _ = tx . send ( & send_msg , SendOptions :: new ( ) . with_final_msg ( true ) ) . await ;";

/// Keeps the task that sends a request until the method returns.
pub const SEND_GUARD: &'static str = "let _send_guard = AbortOnDrop (";

pub const SEND_GUARD_END: &'static str = ") ;";

/// The stream of a response.
pub const RESPONSE_STREAM: &'static str = "let ( stream , headers_rx ) =
    GrpcResponseStream :: new ( rx ) ;";

/// Keeps the task that sends a request as long as the stream of the response.
pub const STREAM_GUARD: &'static str = "let stream = stream . with_send_guard ( AbortOnDrop (";

pub const STREAM_GUARD_END: &'static str = ") ) ;";

/// Returns the stream of a response once its headers are there.
pub const RETURN_STREAM: &'static str = "let response_md = headers_rx
    . await
    . map_err ( | _ | tonic :: Status :: internal (";

pub const CLOSED_BEFORE_HEADERS: &'static str = "stream closed before headers";

pub const RETURN_STREAM_END: &'static str = ") ) ? ? ;
Ok ( tonic :: Response :: from_parts (
    response_md ,
    stream ,
    tonic :: Extensions :: new ( ) ,
) )";

pub const METHOD_END: &'static str = "}";

/// The comment on a client's module.
pub const MODULE_DOC: &'static str = "# [ doc =";

pub const MODULE_DOC_TEXT: &'static str =
    " Generated client implementations using the `grpc` crate.";

pub const MODULE_DOC_END: &'static str = "]";

/// A client's module: up to its name, and on from there.
pub const MODULE: &'static str = "pub mod";

pub const MODULE_USES: &'static str = "{
    # ! [ allow (
        unused_variables ,
        dead_code ,
        missing_docs ,
        clippy :: wildcard_imports ,
        clippy :: let_unit_value ,
    ) ]
    use grpc :: client :: * ;
    use grpc :: client :: stream_util :: RecvStreamValidator ;
    use tonic_grpc :: client :: * ;";

/// A client's struct: up to its name, and on from there.
pub const STRUCT: &'static str = "# [ derive ( Debug , Clone ) ]
    pub struct";

pub const STRUCT_BODY: &'static str = "< T > {
        inner : T ,
    }

    impl < T >";

pub const CONSTRUCTORS: &'static str = "< T >
    where
        T : grpc :: client :: Invoke ,
    {
        pub fn new ( inner : T ) -> Self {
            Self { inner }
        }

        pub fn with_interceptor < F > ( inner : T , interceptor : F ) ->";

pub const INTERCEPTOR_BODY: &'static str = "< InterceptedChannel < T , F >>
        where
            F : tonic :: service :: Interceptor + Clone + Send + Sync + 'static ,
        {";

pub const ACCESSORS: &'static str = ":: new ( InterceptedChannel :: new ( inner , interceptor ) )
        }

        pub fn inner ( & self ) -> & T {
            & self . inner
        }

        pub fn inner_mut ( & mut self ) -> & mut T {
            & mut self . inner
        }

        pub fn into_inner ( self ) -> T {
            self . inner
        }";

pub const MODULE_END: &'static str = "}

    pub use tonic_grpc :: client :: {
        GrpcResponseStream , InterceptedChannel ,
    } ;
}";

/// The tokens of fixed source that stands for itself.
pub open spec fn fixed(source: Seq<char>) -> Seq<Token> {
    DraftState::start().source(source).finish()
}

/// Receives the single message of a response of the given type.
pub open spec fn recv_loop(response: Seq<Token>) -> Seq<Token> {
    DraftState::start().source(RECV_INTO@).given(response).source(RECV_LOOP@).text(
        CLOSED_PREMATURELY@,
    ).source(RECV_LOOP_END@).finish()
}

/// Takes a request apart for a call to `path`.
pub open spec fn request_setup(path: Seq<char>, streaming: bool) -> Seq<Token> {
    DraftState::start().source(
        if streaming {
            STREAMING_SETUP@
        } else {
            SINGLE_SETUP@
        },
    ).text(path).source(SETUP_END@).finish()
}

/// Returns the stream of a response once its headers are there.
pub open spec fn return_stream() -> Seq<Token> {
    DraftState::start().source(RETURN_STREAM@).text(CLOSED_BEFORE_HEADERS@).source(
        RETURN_STREAM_END@,
    ).finish()
}

/// A method up to the bracket that opens its body.
pub open spec fn method_head(
    ident: Seq<Token>,
    request: Seq<Token>,
    response: Seq<Token>,
    client_streaming: bool,
    server_streaming: bool,
) -> DraftState {
    let parameters = DraftState::start().source(METHOD@).given(ident).source(
        if client_streaming {
            STREAMING_PARAMETERS@
        } else {
            SINGLE_PARAMETERS@
        },
    ).given(request).source(RESULT@);
    if server_streaming {
        parameters.source(STREAMING_RESULT@).given(response).source(STREAMING_RESULT_END@)
    } else {
        parameters.given(response).source(SINGLE_RESULT_END@)
    }
}

/// The method for calls with a single message each way.
pub open spec fn unary(
    ident: Seq<Token>,
    request: Seq<Token>,
    response: Seq<Token>,
    path: Seq<char>,
) -> Seq<Token> {
    method_head(ident, request, response, false, false).given(request_setup(path, false)).source(
        INVOKE_SINGLE@,
    ).given(fixed(SEND_SINGLE@)).given(recv_loop(response)).source(METHOD_END@).finish()
}

/// The method for calls with a single message there and a stream back.
pub open spec fn server_streaming(
    ident: Seq<Token>,
    request: Seq<Token>,
    response: Seq<Token>,
    path: Seq<char>,
) -> Seq<Token> {
    method_head(ident, request, response, false, true).given(request_setup(path, false)).source(
        INVOKE_STREAMING@,
    ).given(fixed(SEND_SINGLE@)).source(RESPONSE_STREAM@).given(return_stream()).source(
        METHOD_END@,
    ).finish()
}

/// The method for calls with a stream there and a single message back.
pub open spec fn client_streaming(
    ident: Seq<Token>,
    request: Seq<Token>,
    response: Seq<Token>,
    path: Seq<char>,
) -> Seq<Token> {
    method_head(ident, request, response, true, false).given(request_setup(path, true)).source(
        INVOKE_SINGLE@,
    ).source(SEND_GUARD@).given(fixed(SEND_TASK@)).source(SEND_GUARD_END@).given(
        recv_loop(response),
    ).source(METHOD_END@).finish()
}

/// The method for calls with a stream each way.
pub open spec fn streaming(
    ident: Seq<Token>,
    request: Seq<Token>,
    response: Seq<Token>,
    path: Seq<char>,
) -> Seq<Token> {
    method_head(ident, request, response, true, true).given(request_setup(path, true)).source(
        INVOKE_STREAMING@,
    ).source(RESPONSE_STREAM@).source(STREAM_GUARD@).given(fixed(SEND_TASK@)).source(
        STREAM_GUARD_END@,
    ).given(return_stream()).source(METHOD_END@).finish()
}

/// The tokens of fixed source that stands for itself.
fn fixed_source(source: &str) -> (r: TokenStream)
    ensures
        tokens_of(r) == fixed(source@),
{
    let mut draft = Draft::new();
    draft.source(source);
    draft.finish()
}

/// Receives the single message of a response of the given type.
pub fn generate_unary_response_recv_loop(response: &TokenStream) -> (r: TokenStream)
    ensures
        tokens_of(r) == recv_loop(tokens_of(*response)),
{
    let mut draft = Draft::new();
    draft.source(RECV_INTO);
    draft.given(response);
    draft.source(RECV_LOOP);
    draft.text(CLOSED_PREMATURELY);
    draft.source(RECV_LOOP_END);
    draft.finish()
}

/// Takes a request apart for a call to `path`.
pub fn generate_request_setup(path: &str, is_streaming_req: bool) -> (r: TokenStream)
    ensures
        tokens_of(r) == request_setup(path@, is_streaming_req),
{
    let mut draft = Draft::new();
    if is_streaming_req {
        draft.source(STREAMING_SETUP);
    } else {
        draft.source(SINGLE_SETUP);
    }
    draft.text(path);
    draft.source(SETUP_END);
    draft.finish()
}

/// Sends the messages of a streaming request in a task of its own.
pub fn generate_send_task() -> (r: TokenStream)
    ensures
        tokens_of(r) == fixed(SEND_TASK@),
{
    fixed_source(SEND_TASK)
}

/// Returns the stream of a response once its headers are there.
fn generate_return_stream() -> (r: TokenStream)
    ensures
        tokens_of(r) == return_stream(),
{
    let mut draft = Draft::new();
    draft.source(RETURN_STREAM);
    draft.text(CLOSED_BEFORE_HEADERS);
    draft.source(RETURN_STREAM_END);
    draft.finish()
}

/// A method up to the bracket that opens its body.
fn draft_method(
    ident: &TokenStream,
    request: &TokenStream,
    response: &TokenStream,
    client_streaming: bool,
    server_streaming: bool,
) -> (r: Draft)
    ensures
        r@ == method_head(
            tokens_of(*ident),
            tokens_of(*request),
            tokens_of(*response),
            client_streaming,
            server_streaming,
        ),
{
    let mut draft = Draft::new();
    draft.source(METHOD);
    draft.given(ident);
    if client_streaming {
        draft.source(STREAMING_PARAMETERS);
    } else {
        draft.source(SINGLE_PARAMETERS);
    }
    draft.given(request);
    draft.source(RESULT);
    if server_streaming {
        draft.source(STREAMING_RESULT);
        draft.given(response);
        draft.source(STREAMING_RESULT_END);
    } else {
        draft.given(response);
        draft.source(SINGLE_RESULT_END);
    }
    draft
}

/// The method for calls with a single message each way.
pub fn generate_unary(
    ident: &TokenStream,
    request: &TokenStream,
    response: &TokenStream,
    path: &str,
) -> (r: TokenStream)
    ensures
        tokens_of(r) == unary(tokens_of(*ident), tokens_of(*request), tokens_of(*response), path@),
{
    let mut draft = draft_method(ident, request, response, false, false);
    draft.given(&generate_request_setup(path, false));
    draft.source(INVOKE_SINGLE);
    draft.given(&fixed_source(SEND_SINGLE));
    draft.given(&generate_unary_response_recv_loop(response));
    draft.source(METHOD_END);
    draft.finish()
}

/// The method for calls with a single message there and a stream back.
pub fn generate_server_streaming(
    ident: &TokenStream,
    request: &TokenStream,
    response: &TokenStream,
    path: &str,
) -> (r: TokenStream)
    ensures
        tokens_of(r) == server_streaming(
            tokens_of(*ident),
            tokens_of(*request),
            tokens_of(*response),
            path@,
        ),
{
    let mut draft = draft_method(ident, request, response, false, true);
    draft.given(&generate_request_setup(path, false));
    draft.source(INVOKE_STREAMING);
    draft.given(&fixed_source(SEND_SINGLE));
    draft.source(RESPONSE_STREAM);
    draft.given(&generate_return_stream());
    draft.source(METHOD_END);
    draft.finish()
}

/// The method for calls with a stream there and a single message back.
pub fn generate_client_streaming(
    ident: &TokenStream,
    request: &TokenStream,
    response: &TokenStream,
    path: &str,
) -> (r: TokenStream)
    ensures
        tokens_of(r) == client_streaming(
            tokens_of(*ident),
            tokens_of(*request),
            tokens_of(*response),
            path@,
        ),
{
    let mut draft = draft_method(ident, request, response, true, false);
    draft.given(&generate_request_setup(path, true));
    draft.source(INVOKE_SINGLE);
    draft.source(SEND_GUARD);
    draft.given(&generate_send_task());
    draft.source(SEND_GUARD_END);
    draft.given(&generate_unary_response_recv_loop(response));
    draft.source(METHOD_END);
    draft.finish()
}

/// The method for calls with a stream each way.
pub fn generate_streaming(
    ident: &TokenStream,
    request: &TokenStream,
    response: &TokenStream,
    path: &str,
) -> (r: TokenStream)
    ensures
        tokens_of(r) == streaming(
            tokens_of(*ident),
            tokens_of(*request),
            tokens_of(*response),
            path@,
        ),
{
    let mut draft = draft_method(ident, request, response, true, true);
    draft.given(&generate_request_setup(path, true));
    draft.source(INVOKE_STREAMING);
    draft.source(RESPONSE_STREAM);
    draft.source(STREAM_GUARD);
    draft.given(&generate_send_task());
    draft.source(STREAM_GUARD_END);
    draft.given(&generate_return_stream());
    draft.source(METHOD_END);
    draft.finish()
}

/// The method of a client for `method`, under the name `ident`: which kind it is depends on which
/// sides stream.
pub open spec fn call(method: Method, ident: Seq<Token>) -> Seq<Token> {
    let (request, response) = (tokens_of(method.request), tokens_of(method.response));
    match (method.client_streaming, method.server_streaming) {
        (false, false) => unary(ident, request, response, method.path@),
        (false, true) => server_streaming(ident, request, response, method.path@),
        (true, false) => client_streaming(ident, request, response, method.path@),
        (true, true) => streaming(ident, request, response, method.path@),
    }
}

/// What stands in front of a method: its comments, unless they are disabled, and whether it is
/// deprecated.
pub open spec fn preamble(method: Method, disabled: Set<Seq<char>>) -> Seq<Token> {
    (if disabled.contains(method.qualified_name@) {
        Seq::empty()
    } else {
        tokens_of(method.doc)
    }) + (if method.deprecated {
        fixed(DEPRECATED@)
    } else {
        Seq::empty()
    })
}

/// Whether the name of every method can be an identifier.
pub open spec fn can_be_named(methods: Seq<Method>) -> bool {
    forall|i: int| 0 <= i < methods.len() ==> can_be_identifier((#[trigger] methods[i]).name@)
}

/// Whether the name of every method is an identifier in ASCII.
pub open spec fn are_named_in_ascii(methods: Seq<Method>) -> bool {
    forall|i: int| 0 <= i < methods.len() ==> is_ascii_identifier((#[trigger] methods[i]).name@)
}

/// The methods of a client, in the order of the service's methods.
pub open spec fn calls(methods: Seq<Method>, disabled: Set<Seq<char>>) -> Seq<Token>
    decreases methods.len(),
{
    if methods.len() == 0 {
        Seq::empty()
    } else {
        let method = methods.last();
        calls(methods.drop_last(), disabled) + preamble(method, disabled) + call(
            method,
            seq![Token::Word(method.name@)],
        )
    }
}

/// Attributes, one after the other.
pub open spec fn attributes_tokens(attributes: Seq<TokenStream>) -> Seq<Token>
    decreases attributes.len(),
{
    if attributes.len() == 0 {
        Seq::empty()
    } else {
        attributes_tokens(attributes.drop_last()) + tokens_of(attributes.last())
    }
}

/// What stands in front of a client's struct: the service's comments, unless they are disabled.
pub open spec fn service_doc(service: Service, disabled: Set<Seq<char>>) -> Seq<Token> {
    if disabled.contains(service.qualified_name@) {
        Seq::empty()
    } else {
        tokens_of(service.doc)
    }
}

/// The name of a client's struct.
pub open spec fn client_ident_text(service: Service) -> Seq<char> {
    service.name@ + "Client"@
}

/// The name of a client's module.
pub open spec fn client_mod_text(service: Service) -> Seq<char> {
    service.snake_name@ + "_client"@
}

/// Whether every name in the client of a service can be an identifier.
pub open spec fn client_can_be_named(service: Service) -> bool {
    &&& can_be_identifier(client_ident_text(service))
    &&& can_be_identifier(client_mod_text(service))
    &&& can_be_named(service.methods@)
}

/// Whether every name in the client of a service is an identifier in ASCII.
pub open spec fn client_is_named_in_ascii(service: Service) -> bool {
    &&& is_ascii_identifier(client_ident_text(service))
    &&& is_ascii_identifier(client_mod_text(service))
    &&& are_named_in_ascii(service.methods@)
}

/// The client of a service.
pub open spec fn client(
    service: Service,
    attributes: Attributes,
    disabled: Set<Seq<char>>,
) -> Seq<Token> {
    let ident = seq![Token::Word(client_ident_text(service))];
    let module = seq![Token::Word(client_mod_text(service))];
    DraftState::start().source(MODULE_DOC@).text(MODULE_DOC_TEXT@).source(MODULE_DOC_END@).given(
        attributes_tokens(attributes.module@),
    ).source(MODULE@).given(module).source(MODULE_USES@).given(
        service_doc(service, disabled),
    ).given(attributes_tokens(attributes.structure@)).source(STRUCT@).given(ident).source(
        STRUCT_BODY@,
    ).given(ident).source(CONSTRUCTORS@).given(ident).source(INTERCEPTOR_BODY@).given(ident).source(
        ACCESSORS@,
    ).given(calls(service.methods@, disabled)).source(MODULE_END@).finish()
}

/// The token of a name.
fn name_token(name: &str) -> (r: Result<TokenStream, CodegenError>)
    ensures
        match r {
            Ok(stream) => can_be_identifier(name@) && tokens_of(stream) == seq![Token::Word(name@)],
            Err(e) => e == CodegenError::NotAnIdentifier && !is_ascii_identifier(name@),
        },
{
    match identifier(name) {
        Some(stream) => Ok(stream),
        None => Err(CodegenError::NotAnIdentifier),
    }
}

/// The method of a client for `method`, under the name `ident`.
fn generate_method(method: &Method, ident: &TokenStream) -> (r: TokenStream)
    ensures
        tokens_of(r) == call(*method, tokens_of(*ident)),
{
    let request = &method.request;
    let response = &method.response;
    let path = method.path.as_str();
    match (method.client_streaming, method.server_streaming) {
        (false, false) => generate_unary(ident, request, response, path),
        (false, true) => generate_server_streaming(ident, request, response, path),
        (true, false) => generate_client_streaming(ident, request, response, path),
        (true, true) => generate_streaming(ident, request, response, path),
    }
}

/// The methods of a client, in the order of the service's methods. It fails where the name of one is
/// not an identifier, which a lexer decides beyond ASCII.
pub fn generate_methods(service: &Service, disable_comments: &StringHashSet) -> (r: Result<
    TokenStream,
    CodegenError,
>)
    ensures
        match r {
            Ok(stream) => can_be_named(service.methods@) && tokens_of(stream) == calls(
                service.methods@,
                disable_comments@,
            ),
            Err(e) => e == CodegenError::NotAnIdentifier && !are_named_in_ascii(service.methods@),
        },
{
    let mut stream = stream_new();
    for i in 0..service.methods.len()
        invariant
            tokens_of(stream) == calls(service.methods@.take(i as int), disable_comments@),
            can_be_named(service.methods@.take(i as int)),
    {
        let method = &service.methods[i];
        let ghost before = tokens_of(stream);
        if !disable_comments.contains(method.qualified_name.as_str()) {
            stream_extend(&mut stream, stream_clone(&method.doc));
        }
        if method.deprecated {
            stream_extend(&mut stream, fixed_source(DEPRECATED));
        }
        assert(tokens_of(stream) =~= before + preamble(*method, disable_comments@));
        let ident = match name_token(method.name.as_str()) {
            Ok(ident) => ident,
            Err(e) => {
                assert(!is_ascii_identifier(service.methods@[i as int].name@));
                return Err(e);
            },
        };
        stream_extend(&mut stream, generate_method(method, &ident));
        assert(service.methods@.take(i + 1).drop_last() =~= service.methods@.take(i as int));
        assert forall|k: int| 0 <= k < i + 1 implies can_be_identifier(
            (#[trigger] service.methods@.take(i + 1)[k]).name@,
        ) by {
            if k < i {
                assert(service.methods@.take(i as int)[k] == service.methods@.take(i + 1)[k]);
            }
        }
    }
    assert(service.methods@.take(service.methods@.len() as int) =~= service.methods@);
    Ok(stream)
}

/// Adds attributes to a draft, one after the other.
fn add_attributes(draft: &mut Draft, attributes: &Vec<TokenStream>)
    ensures
        final(draft)@ == old(draft)@.given(attributes_tokens(attributes@)),
{
    assert(draft@.given(attributes_tokens(attributes@.take(0))) =~= draft@);
    for i in 0..attributes.len()
        invariant
            draft@ == old(draft)@.given(attributes_tokens(attributes@.take(i as int))),
    {
        draft.given(&attributes[i]);
        assert(attributes@.take(i + 1).drop_last() =~= attributes@.take(i as int));
        assert(draft@ =~= old(draft)@.given(attributes_tokens(attributes@.take(i + 1))));
    }
    assert(attributes@.take(attributes@.len() as int) =~= attributes@);
}

/// The name of a client's struct.
pub fn client_ident(service: &Service) -> (r: String)
    ensures
        r@ == client_ident_text(*service),
{
    let mut text = service.name.clone();
    text.append("Client");
    text
}

/// The name of a client's module.
pub fn client_mod(service: &Service) -> (r: String)
    ensures
        r@ == client_mod_text(*service),
{
    let mut text = service.snake_name.clone();
    text.append("_client");
    text
}

/// The package under whose name the attributes of a client's module are looked up: none, unless
/// packages are emitted.
pub fn attribute_package(service: &Service, emit_package: bool) -> (r: &str)
    ensures
        r@ == if emit_package {
            service.package@
        } else {
            ""@
        },
{
    if emit_package {
        service.package.as_str()
    } else {
        ""
    }
}

/// The client of a service under the names given, around its methods.
fn draft_client(
    service: &Service,
    attributes: &Attributes,
    disable_comments: &StringHashSet,
    service_ident: &TokenStream,
    client_mod: &TokenStream,
    methods: &TokenStream,
) -> (r: TokenStream)
    requires
        tokens_of(*service_ident) == seq![Token::Word(client_ident_text(*service))],
        tokens_of(*client_mod) == seq![Token::Word(client_mod_text(*service))],
        tokens_of(*methods) == calls(service.methods@, disable_comments@),
    ensures
        tokens_of(r) == client(*service, *attributes, disable_comments@),
{
    let mut draft = Draft::new();
    draft.source(MODULE_DOC);
    draft.text(MODULE_DOC_TEXT);
    draft.source(MODULE_DOC_END);
    add_attributes(&mut draft, &attributes.module);
    draft.source(MODULE);
    draft.given(client_mod);
    draft.source(MODULE_USES);
    if !disable_comments.contains(service.qualified_name.as_str()) {
        draft.given(&service.doc);
    } else {
        assert(draft@ =~= draft@.given(service_doc(*service, disable_comments@)));
    }
    add_attributes(&mut draft, &attributes.structure);
    draft.source(STRUCT);
    draft.given(service_ident);
    draft.source(STRUCT_BODY);
    draft.given(service_ident);
    draft.source(CONSTRUCTORS);
    draft.given(service_ident);
    draft.source(INTERCEPTOR_BODY);
    draft.given(service_ident);
    draft.source(ACCESSORS);
    draft.given(methods);
    draft.source(MODULE_END);
    draft.finish()
}

/// The client of a service. It fails where a name in it would not be an identifier, which a lexer
/// decides beyond ASCII.
pub fn generate_internal(
    service: &Service,
    attributes: &Attributes,
    disable_comments: &StringHashSet,
) -> (r: Result<TokenStream, CodegenError>)
    ensures
        match r {
            Ok(stream) => client_can_be_named(*service) && tokens_of(stream) == client(
                *service,
                *attributes,
                disable_comments@,
            ),
            Err(e) => e == CodegenError::NotAnIdentifier && !client_is_named_in_ascii(*service),
        },
{
    let service_ident = match name_token(client_ident(service).as_str()) {
        Ok(ident) => ident,
        Err(e) => return Err(e),
    };
    let client_mod = match name_token(client_mod(service).as_str()) {
        Ok(ident) => ident,
        Err(e) => return Err(e),
    };
    let methods = match generate_methods(service, disable_comments) {
        Ok(methods) => methods,
        Err(e) => return Err(e),
    };
    Ok(
        draft_client(
            service,
            attributes,
            disable_comments,
            &service_ident,
            &client_mod,
            &methods,
        ),
    )
}

/// Tokens that are added to a draft stand in all that the draft becomes.
proof fn given_is_held(draft: DraftState, part: Seq<Token>, tokens: Seq<Token>)
    requires
        draft.given(part).out.is_prefix_of(tokens),
    ensures
        holds(tokens, part),
{
    let after = tokens.skip((draft.out.len() + part.len()) as int);
    assert(draft.out + part + after =~= tokens);
}

/// Every call goes to the path of its method: what takes the request apart names it, and stands in
/// the method.
pub proof fn methods_call_their_path(method: Method, ident: Seq<Token>)
    ensures
        holds(call(method, ident), request_setup(method.path@, method.client_streaming)),
        request_setup(method.path@, method.client_streaming).contains(Token::Text(method.path@)),
{
    let path = method.path@;
    let setup = request_setup(path, method.client_streaming);
    let start = DraftState::start().source(
        if method.client_streaming {
            STREAMING_SETUP@
        } else {
            SINGLE_SETUP@
        },
    );
    let named = start.text(path);
    source_goes_behind(named, SETUP_END@);
    finish_goes_behind(named.source(SETUP_END@));
    assert(named.out.is_prefix_of(setup));
    let last = start.out.len() as int;
    assert(setup[last] == setup.subrange(0, named.out.len() as int)[last]);
    assert(named.out[last] == Token::Text(path));
    let head = draft_head(method, ident);
    method_goes_on(method, ident);
    given_is_held(head, setup, call(method, ident));
}

/// A method up to the bracket that opens its body.
spec fn draft_head(method: Method, ident: Seq<Token>) -> DraftState {
    method_head(
        ident,
        tokens_of(method.request),
        tokens_of(method.response),
        method.client_streaming,
        method.server_streaming,
    )
}

/// A method up to what sends its request.
spec fn before_sending(method: Method, ident: Seq<Token>) -> DraftState {
    let setup = draft_head(method, ident).given(
        request_setup(method.path@, method.client_streaming),
    );
    let invoked = setup.source(
        if method.server_streaming {
            INVOKE_STREAMING@
        } else {
            INVOKE_SINGLE@
        },
    );
    match (method.client_streaming, method.server_streaming) {
        (false, _) => invoked,
        (true, false) => invoked.source(SEND_GUARD@),
        (true, true) => invoked.source(RESPONSE_STREAM@).source(STREAM_GUARD@),
    }
}

/// What sends the request of a method.
pub open spec fn sending(method: Method) -> Seq<Token> {
    if method.client_streaming {
        fixed(SEND_TASK@)
    } else {
        fixed(SEND_SINGLE@)
    }
}

/// A method begins with what takes its request apart, and goes on with what sends it.
proof fn method_goes_on(method: Method, ident: Seq<Token>)
    ensures
        draft_head(method, ident).given(
            request_setup(method.path@, method.client_streaming),
        ).out.is_prefix_of(call(method, ident)),
        before_sending(method, ident).given(sending(method)).out.is_prefix_of(call(method, ident)),
{
    let response = tokens_of(method.response);
    let setup = draft_head(method, ident).given(
        request_setup(method.path@, method.client_streaming),
    );
    let invoke = if method.server_streaming {
        INVOKE_STREAMING@
    } else {
        INVOKE_SINGLE@
    };
    let invoked = setup.source(invoke);
    source_goes_behind(setup, invoke);
    let sent = before_sending(method, ident).given(sending(method));
    let end = match (method.client_streaming, method.server_streaming) {
        (false, false) => sent.given(recv_loop(response)),
        (false, true) => {
            source_goes_behind(sent, RESPONSE_STREAM@);
            sent.source(RESPONSE_STREAM@).given(return_stream())
        },
        (true, false) => {
            source_goes_behind(invoked, SEND_GUARD@);
            source_goes_behind(sent, SEND_GUARD_END@);
            sent.source(SEND_GUARD_END@).given(recv_loop(response))
        },
        (true, true) => {
            source_goes_behind(invoked, RESPONSE_STREAM@);
            source_goes_behind(invoked.source(RESPONSE_STREAM@), STREAM_GUARD@);
            source_goes_behind(sent, STREAM_GUARD_END@);
            sent.source(STREAM_GUARD_END@).given(return_stream())
        },
    };
    assert(invoked.out.is_prefix_of(sent.out));
    assert(sent.out.is_prefix_of(end.out));
    source_goes_behind(end, METHOD_END@);
    finish_goes_behind(end.source(METHOD_END@));
}

/// The messages of a streaming request are sent by a task of their own. The single message of any
/// other request is sent by the method itself, and marked as the last one.
pub proof fn streaming_requests_are_sent_by_a_task(method: Method, ident: Seq<Token>)
    ensures
        method.client_streaming ==> holds(call(method, ident), fixed(SEND_TASK@)),
        !method.client_streaming ==> holds(call(method, ident), fixed(SEND_SINGLE@)),
{
    method_goes_on(method, ident);
    given_is_held(before_sending(method, ident), sending(method), call(method, ident));
}

/// The methods of a client are independent of each other: those of a first part of a service's
/// methods stand in front of those of the rest.
pub proof fn methods_follow_each_other(
    first: Seq<Method>,
    rest: Seq<Method>,
    disabled: Set<Seq<char>>,
)
    ensures
        calls(first + rest, disabled) == calls(first, disabled) + calls(rest, disabled),
    decreases rest.len(),
{
    if rest.len() == 0 {
        assert(first + rest =~= first);
        assert(calls(first, disabled) =~= calls(first, disabled) + calls(rest, disabled));
    } else {
        methods_follow_each_other(first, rest.drop_last(), disabled);
        assert((first + rest).drop_last() =~= first + rest.drop_last());
        assert(calls(first + rest, disabled) =~= calls(first, disabled) + calls(rest, disabled));
    }
}

/// Whether two methods differ in disabled comments at most.
pub open spec fn same_but_disabled(a: Method, b: Method, disabled: Set<Seq<char>>) -> bool {
    &&& b == (Method { doc: b.doc, ..a })
    &&& disabled.contains(a.qualified_name@) || tokens_of(b.doc) == tokens_of(a.doc)
}

/// Comments that are disabled leave no trace: whatever they say, the client is the same.
pub proof fn disabled_comments_leave_no_trace(
    service: Service,
    other: Service,
    attributes: Attributes,
    disabled: Set<Seq<char>>,
)
    requires
        other == (Service { doc: other.doc, methods: other.methods, ..service }),
        disabled.contains(service.qualified_name@) || tokens_of(other.doc) == tokens_of(
            service.doc,
        ),
        other.methods@.len() == service.methods@.len(),
        forall|i: int|
            #![trigger other.methods@[i]]
            #![trigger service.methods@[i]]
            0 <= i < service.methods@.len() ==> same_but_disabled(
                service.methods@[i],
                other.methods@[i],
                disabled,
            ),
    ensures
        client(service, attributes, disabled) == client(other, attributes, disabled),
{
    disabled_method_comments_leave_no_trace(service.methods@, other.methods@, disabled);
}

/// Comments on methods that are disabled leave no trace in the methods of a client.
proof fn disabled_method_comments_leave_no_trace(
    methods: Seq<Method>,
    others: Seq<Method>,
    disabled: Set<Seq<char>>,
)
    requires
        others.len() == methods.len(),
        forall|i: int|
            #![trigger others[i]]
            #![trigger methods[i]]
            0 <= i < methods.len() ==> same_but_disabled(methods[i], others[i], disabled),
    ensures
        calls(methods, disabled) == calls(others, disabled),
    decreases methods.len(),
{
    if methods.len() > 0 {
        let last = methods.len() - 1;
        assert(same_but_disabled(methods[last], others[last], disabled));
        disabled_method_comments_leave_no_trace(methods.drop_last(), others.drop_last(), disabled);
    }
}

} // verus!
