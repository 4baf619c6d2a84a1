//! What holds of generated clients, whatever the service.
use proc_macro2::TokenStream;
use vstd::prelude::*;

use crate::client_grpc::{
    are_named_in_ascii, attributes_tokens, call, calls, can_be_named, client, client_can_be_named,
    client_ident_text, client_is_named_in_ascii, client_mod_text, client_streaming, fixed,
    method_head, preamble, recv_loop, request_setup, return_stream, server_streaming, service_doc,
    streaming, unary, Attributes, Method, Service, ACCESSORS, CLOSED_PREMATURELY, CONSTRUCTORS,
    DEPRECATED, INTERCEPTOR_BODY, INVOKE_SINGLE, INVOKE_STREAMING, METHOD, METHOD_END, MODULE,
    MODULE_DOC, MODULE_DOC_END, MODULE_DOC_TEXT, MODULE_END, MODULE_USES, RECV_INTO, RECV_LOOP,
    RECV_LOOP_END, RESPONSE_STREAM, RESULT, SEND_GUARD, SEND_GUARD_END, SEND_SINGLE, SEND_TASK,
    SETUP_END, SINGLE_PARAMETERS, SINGLE_RESULT_END, SINGLE_SETUP, STREAMING_PARAMETERS,
    STREAMING_RESULT, STREAMING_RESULT_END, STREAMING_SETUP, STREAM_GUARD, STREAM_GUARD_END, STRUCT,
    STRUCT_BODY,
};
use crate::token_laws::{
    a_word_is_a_token, added, an_operator_is_its_characters, brackets_open_and_close_groups,
    finishing_adds_the_same, groups_after, is_named_like_a_variable, is_operator_char,
    names_of_variables_are_identifiers, source_adds_the_same, source_is_read_piece_by_piece,
};
use crate::tokens::{
    can_be_identifier, holds, is_ascii_identifier, tokens_of, Bracket, DraftState, Token,
};

verus! {

/// What closes these groups.
spec fn closing(groups: Seq<Bracket>) -> Seq<Token> {
    DraftState { groups, out: Seq::empty() }.finish()
}

/// Whether `f` is the source around the parts of every piece of code that receives a single message.
pub open spec fn is_around_recv_loops(f: Seq<Seq<Token>>) -> bool {
    forall|response: Seq<Token>| #[trigger] recv_loop(response) == f[0] + response + f[1]
}

/// What receives a single message is the same source for every type of message, around that type.
pub proof fn recv_loops_differ_in_the_response_only()
    ensures
        exists|f: Seq<Seq<Token>>| #[trigger] is_around_recv_loops(f),
{
    let g0 = groups_after(Seq::empty(), RECV_INTO@);
    let g1 = groups_after(g0, RECV_LOOP@);
    let g2 = groups_after(g1, RECV_LOOP_END@);
    let tail = added(g0, RECV_LOOP@).push(Token::Text(CLOSED_PREMATURELY@)) + added(
        g1,
        RECV_LOOP_END@,
    ) + closing(g2);
    let f = seq![added(Seq::empty(), RECV_INTO@), tail];
    assert forall|response: Seq<Token>| #[trigger] recv_loop(response) == f[0] + response + f[1] by {
        let d0 = DraftState::start().source(RECV_INTO@);
        source_adds_the_same(DraftState::start(), RECV_INTO@);
        let d1 = d0.given(response).source(RECV_LOOP@);
        source_adds_the_same(d0.given(response), RECV_LOOP@);
        let d2 = d1.text(CLOSED_PREMATURELY@).source(RECV_LOOP_END@);
        source_adds_the_same(d1.text(CLOSED_PREMATURELY@), RECV_LOOP_END@);
        finishing_adds_the_same(d2);
        assert(recv_loop(response) =~= f[0] + response + f[1]);
    }
    assert(is_around_recv_loops(f));
}

/// Whether `f` is the source around the path in every piece of code that takes a request apart.
pub open spec fn is_around_request_setups(f: Seq<Seq<Token>>, streaming: bool) -> bool {
    forall|path: Seq<char>| #[trigger]
        request_setup(path, streaming) == f[0] + seq![Token::Text(path)] + f[1]
}

/// What takes a request apart is the same source for every path, around the literal of that path.
pub proof fn request_setups_differ_in_the_path_only(streaming: bool)
    ensures
        exists|f: Seq<Seq<Token>>| #[trigger] is_around_request_setups(f, streaming),
{
    let head = if streaming {
        STREAMING_SETUP@
    } else {
        SINGLE_SETUP@
    };
    let g0 = groups_after(Seq::empty(), head);
    let g1 = groups_after(g0, SETUP_END@);
    let f = seq![added(Seq::empty(), head), added(g0, SETUP_END@) + closing(g1)];
    assert forall|path: Seq<char>| #[trigger]
        request_setup(path, streaming) == f[0] + seq![Token::Text(path)] + f[1] by {
        let d0 = DraftState::start().source(head);
        source_adds_the_same(DraftState::start(), head);
        let d1 = d0.text(path).source(SETUP_END@);
        source_adds_the_same(d0.text(path), SETUP_END@);
        finishing_adds_the_same(d1);
        assert(request_setup(path, streaming) =~= f[0] + seq![Token::Text(path)] + f[1]);
    }
    assert(is_around_request_setups(f, streaming));
}

/// The parameters of a method, up to the type of the request's messages.
spec fn parameters(client_streaming: bool) -> Seq<char> {
    if client_streaming {
        STREAMING_PARAMETERS@
    } else {
        SINGLE_PARAMETERS@
    }
}

/// The source around what is given in the head of a method, and the groups that are open behind it.
spec fn head_frame(client_streaming: bool, server_streaming: bool) -> (
    Seq<Seq<Token>>,
    Seq<Bracket>,
) {
    let g0 = groups_after(Seq::empty(), METHOD@);
    let g1 = groups_after(g0, parameters(client_streaming));
    let g2 = groups_after(g1, RESULT@);
    let result = if server_streaming {
        added(g1, RESULT@) + added(g2, STREAMING_RESULT@)
    } else {
        added(g1, RESULT@)
    };
    let g3 = if server_streaming {
        groups_after(g2, STREAMING_RESULT@)
    } else {
        g2
    };
    let end = if server_streaming {
        STREAMING_RESULT_END@
    } else {
        SINGLE_RESULT_END@
    };
    (
        seq![
            added(Seq::empty(), METHOD@),
            added(g0, parameters(client_streaming)),
            result,
            added(g3, end),
        ],
        groups_after(g3, end),
    )
}

/// Heads of methods are the same source around what is given.
proof fn heads_differ_in_what_is_given_only(
    ident: Seq<Token>,
    request: Seq<Token>,
    response: Seq<Token>,
    client_streaming: bool,
    server_streaming: bool,
)
    ensures
        ({
            let (f, groups) = head_frame(client_streaming, server_streaming);
            let d = method_head(ident, request, response, client_streaming, server_streaming);
            &&& d.out == f[0] + ident + f[1] + request + f[2] + response + f[3]
            &&& d.groups == groups
        }),
{
    let (f, groups) = head_frame(client_streaming, server_streaming);
    let d0 = DraftState::start().source(METHOD@);
    source_adds_the_same(DraftState::start(), METHOD@);
    let d1 = d0.given(ident).source(parameters(client_streaming));
    source_adds_the_same(d0.given(ident), parameters(client_streaming));
    let d2 = d1.given(request).source(RESULT@);
    source_adds_the_same(d1.given(request), RESULT@);
    let d = method_head(ident, request, response, client_streaming, server_streaming);
    if server_streaming {
        let d3 = d2.source(STREAMING_RESULT@);
        source_adds_the_same(d2, STREAMING_RESULT@);
        source_adds_the_same(d3.given(response), STREAMING_RESULT_END@);
    } else {
        source_adds_the_same(d2.given(response), SINGLE_RESULT_END@);
    }
    assert(d.out =~= f[0] + ident + f[1] + request + f[2] + response + f[3]);
}

/// Whether `f` is the source around what is given in every method for calls with a single message each
/// way.
pub open spec fn is_around_unary(f: Seq<Seq<Token>>) -> bool {
    forall|ident: Seq<Token>, request: Seq<Token>, response: Seq<Token>, path: Seq<char>| #[trigger]
        unary(ident, request, response, path) == f[0] + ident + f[1] + request + f[2] + response
            + f[3] + seq![Token::Text(path)] + f[4] + response + f[5]
}

/// Whether `f` is the source around what is given in every method for calls with a single message
/// there and a stream back.
pub open spec fn is_around_server_streaming(f: Seq<Seq<Token>>) -> bool {
    forall|ident: Seq<Token>, request: Seq<Token>, response: Seq<Token>, path: Seq<char>| #[trigger]
        server_streaming(ident, request, response, path) == f[0] + ident + f[1] + request + f[2]
            + response + f[3] + seq![Token::Text(path)] + f[4]
}

/// Whether `f` is the source around what is given in every method for calls with a stream there and a
/// single message back.
pub open spec fn is_around_client_streaming(f: Seq<Seq<Token>>) -> bool {
    forall|ident: Seq<Token>, request: Seq<Token>, response: Seq<Token>, path: Seq<char>| #[trigger]
        client_streaming(ident, request, response, path) == f[0] + ident + f[1] + request + f[2]
            + response + f[3] + seq![Token::Text(path)] + f[4] + response + f[5]
}

/// Whether `f` is the source around what is given in every method for calls with a stream each way.
pub open spec fn is_around_streaming(f: Seq<Seq<Token>>) -> bool {
    forall|ident: Seq<Token>, request: Seq<Token>, response: Seq<Token>, path: Seq<char>| #[trigger]
        streaming(ident, request, response, path) == f[0] + ident + f[1] + request + f[2] + response
            + f[3] + seq![Token::Text(path)] + f[4]
}

/// Methods for calls with a single message each way differ in their name, in the types of request and
/// response, and in the path that they call, and in nothing else.
pub proof fn unary_methods_differ_in_what_is_given_only()
    ensures
        exists|f: Seq<Seq<Token>>| #[trigger] is_around_unary(f),
{
    recv_loops_differ_in_the_response_only();
    request_setups_differ_in_the_path_only(false);
    let loops = choose|f: Seq<Seq<Token>>| #[trigger] is_around_recv_loops(f);
    let setups = choose|f: Seq<Seq<Token>>| #[trigger] is_around_request_setups(f, false);
    let (h, g0) = head_frame(false, false);
    let g1 = groups_after(g0, INVOKE_SINGLE@);
    let g2 = groups_after(g1, METHOD_END@);
    let f = seq![
        h[0],
        h[1],
        h[2],
        h[3] + setups[0],
        setups[1] + added(g0, INVOKE_SINGLE@) + fixed(SEND_SINGLE@) + loops[0],
        loops[1] + added(g1, METHOD_END@) + closing(g2),
    ];
    assert forall|ident: Seq<Token>, request: Seq<Token>, response: Seq<Token>, path: Seq<char>|
        #[trigger] unary(ident, request, response, path) == f[0] + ident + f[1] + request + f[2]
            + response + f[3] + seq![Token::Text(path)] + f[4] + response + f[5] by {
        heads_differ_in_what_is_given_only(ident, request, response, false, false);
        let setup = request_setup(path, false);
        let received = recv_loop(response);
        let d0 = method_head(ident, request, response, false, false).given(setup);
        let d1 = d0.source(INVOKE_SINGLE@).given(fixed(SEND_SINGLE@)).given(received);
        source_adds_the_same(d0, INVOKE_SINGLE@);
        source_adds_the_same(d1, METHOD_END@);
        finishing_adds_the_same(d1.source(METHOD_END@));
        assert(unary(ident, request, response, path) =~= f[0] + ident + f[1] + request + f[2]
            + response + f[3] + seq![Token::Text(path)] + f[4] + response + f[5]);
    }
    assert(is_around_unary(f));
}

/// Methods for calls with a single message there and a stream back differ in their name, in the types of
/// request and response, and in the path that they call, and in nothing else.
pub proof fn server_streaming_methods_differ_in_what_is_given_only()
    ensures
        exists|f: Seq<Seq<Token>>| #[trigger] is_around_server_streaming(f),
{
    request_setups_differ_in_the_path_only(false);
    let setups = choose|f: Seq<Seq<Token>>| #[trigger] is_around_request_setups(f, false);
    let (h, g0) = head_frame(false, true);
    let g1 = groups_after(g0, INVOKE_STREAMING@);
    let g2 = groups_after(g1, RESPONSE_STREAM@);
    let g3 = groups_after(g2, METHOD_END@);
    let f = seq![
        h[0],
        h[1],
        h[2],
        h[3] + setups[0],
        setups[1] + added(g0, INVOKE_STREAMING@) + fixed(SEND_SINGLE@) + added(g1, RESPONSE_STREAM@)
            + return_stream() + added(g2, METHOD_END@) + closing(g3),
    ];
    assert forall|ident: Seq<Token>, request: Seq<Token>, response: Seq<Token>, path: Seq<char>|
        #[trigger] server_streaming(ident, request, response, path) == f[0] + ident + f[1] + request
            + f[2] + response + f[3] + seq![Token::Text(path)] + f[4] by {
        heads_differ_in_what_is_given_only(ident, request, response, false, true);
        let setup = request_setup(path, false);
        let d0 = method_head(ident, request, response, false, true).given(setup);
        let d1 = d0.source(INVOKE_STREAMING@).given(fixed(SEND_SINGLE@));
        let d2 = d1.source(RESPONSE_STREAM@).given(return_stream());
        source_adds_the_same(d0, INVOKE_STREAMING@);
        source_adds_the_same(d1, RESPONSE_STREAM@);
        source_adds_the_same(d2, METHOD_END@);
        finishing_adds_the_same(d2.source(METHOD_END@));
        assert(server_streaming(ident, request, response, path) =~= f[0] + ident + f[1] + request
            + f[2] + response + f[3] + seq![Token::Text(path)] + f[4]);
    }
    assert(is_around_server_streaming(f));
}

/// Methods for calls with a stream there and a single message back differ in their name, in the types of
/// request and response, and in the path that they call, and in nothing else.
pub proof fn client_streaming_methods_differ_in_what_is_given_only()
    ensures
        exists|f: Seq<Seq<Token>>| #[trigger] is_around_client_streaming(f),
{
    recv_loops_differ_in_the_response_only();
    request_setups_differ_in_the_path_only(true);
    let loops = choose|f: Seq<Seq<Token>>| #[trigger] is_around_recv_loops(f);
    let setups = choose|f: Seq<Seq<Token>>| #[trigger] is_around_request_setups(f, true);
    let (h, g0) = head_frame(true, false);
    let g1 = groups_after(g0, INVOKE_SINGLE@);
    let g2 = groups_after(g1, SEND_GUARD@);
    let g3 = groups_after(g2, SEND_GUARD_END@);
    let g4 = groups_after(g3, METHOD_END@);
    let f = seq![
        h[0],
        h[1],
        h[2],
        h[3] + setups[0],
        setups[1] + added(g0, INVOKE_SINGLE@) + added(g1, SEND_GUARD@) + fixed(SEND_TASK@) + added(
            g2,
            SEND_GUARD_END@,
        ) + loops[0],
        loops[1] + added(g3, METHOD_END@) + closing(g4),
    ];
    assert forall|ident: Seq<Token>, request: Seq<Token>, response: Seq<Token>, path: Seq<char>|
        #[trigger] client_streaming(ident, request, response, path) == f[0] + ident + f[1] + request
            + f[2] + response + f[3] + seq![Token::Text(path)] + f[4] + response + f[5] by {
        heads_differ_in_what_is_given_only(ident, request, response, true, false);
        let setup = request_setup(path, true);
        let received = recv_loop(response);
        let d0 = method_head(ident, request, response, true, false).given(setup);
        let d1 = d0.source(INVOKE_SINGLE@);
        let d2 = d1.source(SEND_GUARD@).given(fixed(SEND_TASK@));
        let d3 = d2.source(SEND_GUARD_END@).given(received);
        source_adds_the_same(d0, INVOKE_SINGLE@);
        source_adds_the_same(d1, SEND_GUARD@);
        source_adds_the_same(d2, SEND_GUARD_END@);
        source_adds_the_same(d3, METHOD_END@);
        finishing_adds_the_same(d3.source(METHOD_END@));
        assert(client_streaming(ident, request, response, path) =~= f[0] + ident + f[1] + request
            + f[2] + response + f[3] + seq![Token::Text(path)] + f[4] + response + f[5]);
    }
    assert(is_around_client_streaming(f));
}

/// Methods for calls with a stream each way differ in their name, in the types of request and response,
/// and in the path that they call, and in nothing else.
pub proof fn streaming_methods_differ_in_what_is_given_only()
    ensures
        exists|f: Seq<Seq<Token>>| #[trigger] is_around_streaming(f),
{
    request_setups_differ_in_the_path_only(true);
    let setups = choose|f: Seq<Seq<Token>>| #[trigger] is_around_request_setups(f, true);
    let (h, g0) = head_frame(true, true);
    let g1 = groups_after(g0, INVOKE_STREAMING@);
    let g2 = groups_after(g1, RESPONSE_STREAM@);
    let g3 = groups_after(g2, STREAM_GUARD@);
    let g4 = groups_after(g3, STREAM_GUARD_END@);
    let g5 = groups_after(g4, METHOD_END@);
    let f = seq![
        h[0],
        h[1],
        h[2],
        h[3] + setups[0],
        setups[1] + added(g0, INVOKE_STREAMING@) + added(g1, RESPONSE_STREAM@) + added(
            g2,
            STREAM_GUARD@,
        ) + fixed(SEND_TASK@) + added(g3, STREAM_GUARD_END@) + return_stream() + added(
            g4,
            METHOD_END@,
        ) + closing(g5),
    ];
    assert forall|ident: Seq<Token>, request: Seq<Token>, response: Seq<Token>, path: Seq<char>|
        #[trigger] streaming(ident, request, response, path) == f[0] + ident + f[1] + request + f[2]
            + response + f[3] + seq![Token::Text(path)] + f[4] by {
        heads_differ_in_what_is_given_only(ident, request, response, true, true);
        let setup = request_setup(path, true);
        let d0 = method_head(ident, request, response, true, true).given(setup);
        let d1 = d0.source(INVOKE_STREAMING@);
        let d2 = d1.source(RESPONSE_STREAM@);
        let d3 = d2.source(STREAM_GUARD@).given(fixed(SEND_TASK@));
        let d4 = d3.source(STREAM_GUARD_END@).given(return_stream());
        source_adds_the_same(d0, INVOKE_STREAMING@);
        source_adds_the_same(d1, RESPONSE_STREAM@);
        source_adds_the_same(d2, STREAM_GUARD@);
        source_adds_the_same(d3, STREAM_GUARD_END@);
        source_adds_the_same(d4, METHOD_END@);
        finishing_adds_the_same(d4.source(METHOD_END@));
        assert(streaming(ident, request, response, path) =~= f[0] + ident + f[1] + request + f[2]
            + response + f[3] + seq![Token::Text(path)] + f[4]);
    }
    assert(is_around_streaming(f));
}

/// Which kind of method is generated follows from which sides stream, and from nothing else; name, types
/// and path are those of the method.
pub proof fn the_kind_of_a_method_follows_from_what_streams(method: Method, ident: Seq<Token>)
    ensures
        ({
            let (request, response) = (tokens_of(method.request), tokens_of(method.response));
            let generated = call(method, ident);
            &&& !method.client_streaming && !method.server_streaming ==> generated == unary(
                ident,
                request,
                response,
                method.path@,
            )
            &&& !method.client_streaming && method.server_streaming ==> generated
                == server_streaming(ident, request, response, method.path@)
            &&& method.client_streaming && !method.server_streaming ==> generated
                == client_streaming(ident, request, response, method.path@)
            &&& method.client_streaming && method.server_streaming ==> generated == streaming(
                ident,
                request,
                response,
                method.path@,
            )
        }),
{
}

/// The attribute of deprecated methods, as tokens.
proof fn deprecated_is_an_attribute()
    ensures
        fixed(DEPRECATED@) == seq![
            Token::Mark('#', false),
            Token::Open(Bracket::Square),
            Token::Word("deprecated"@),
            Token::Close(Bracket::Square),
        ],
{
    reveal_strlit("# [ deprecated ]");
    reveal_strlit("deprecated");
    reveal_strlit("!#$%&'*+,-./:;<=>?@^|~");
    let start = DraftState::start();
    let (a, b, c, d) = (seq!['#'], seq!['['], "deprecated"@, seq![']']);
    let cd = c + seq![' '] + d;
    let bcd = b + seq![' '] + cd;
    assert(DEPRECATED@ =~= a + seq![' '] + bcd);
    source_is_read_piece_by_piece(start, a, ' ', bcd);
    let d1 = start.source(a);
    source_is_read_piece_by_piece(d1, b, ' ', cd);
    let d2 = d1.source(b);
    source_is_read_piece_by_piece(d2, c, ' ', d);
    let d3 = d2.source(c);
    assert("!#$%&'*+,-./:;<=>?@^|~"@[1] == '#');
    assert(is_operator_char(a[0]));
    an_operator_is_its_characters(start, a);
    let first: int = 0;
    assert(d1.out[start.out.len() + first] == Token::Mark('#', false));
    brackets_open_and_close_groups(d1);
    a_word_is_a_token(d2, c);
    brackets_open_and_close_groups(d3);
    let d4 = d3.source(d);
    finishing_adds_the_same(d4);
    assert(d4.groups =~= Seq::empty());
    assert(d4.finish() == d4.out);
    assert(d1.out =~= seq![Token::Mark('#', false)]);
    assert(d4.out =~= seq![
        Token::Mark('#', false),
        Token::Open(Bracket::Square),
        Token::Word("deprecated"@),
        Token::Close(Bracket::Square),
    ]);
}

/// The methods of a client are generated one by one, in order. In front of each stand its comments,
/// unless they are disabled under its name, and `#[deprecated]` exactly where it is deprecated, whichever
/// sides stream.
pub proof fn methods_are_generated_one_by_one(
    first: Seq<Method>,
    method: Method,
    disabled: Set<Seq<char>>,
)
    ensures
        calls(Seq::empty(), disabled) == Seq::<Token>::empty(),
        calls(first.push(method), disabled) == calls(first, disabled) + (if disabled.contains(
            method.qualified_name@,
        ) {
            Seq::<Token>::empty()
        } else {
            tokens_of(method.doc)
        }) + (if method.deprecated {
            seq![
                Token::Mark('#', false),
                Token::Open(Bracket::Square),
                Token::Word("deprecated"@),
                Token::Close(Bracket::Square),
            ]
        } else {
            Seq::<Token>::empty()
        }) + call(method, seq![Token::Word(method.name@)]),
{
    deprecated_is_an_attribute();
    let all = first.push(method);
    assert(all.drop_last() =~= first);
    assert(all.last() == method);
    let (doc, mark) = (
        if disabled.contains(method.qualified_name@) {
            Seq::<Token>::empty()
        } else {
            tokens_of(method.doc)
        },
        if method.deprecated {
            fixed(DEPRECATED@)
        } else {
            Seq::<Token>::empty()
        },
    );
    let generated = call(method, seq![Token::Word(method.name@)]);
    assert(preamble(method, disabled) == doc + mark);
    assert(calls(first, disabled) + (doc + mark) + generated =~= calls(first, disabled) + doc + mark
        + generated);
}

/// Attributes follow each other, each as it is given.
pub proof fn attributes_follow_each_other(first: Seq<TokenStream>, attribute: TokenStream)
    ensures
        attributes_tokens(Seq::empty()) == Seq::<Token>::empty(),
        attributes_tokens(first.push(attribute)) == attributes_tokens(first) + tokens_of(attribute),
{
    assert(first.push(attribute).drop_last() =~= first);
}

/// Whether `f` is the source around what is given in every client.
pub open spec fn is_around_clients(f: Seq<Seq<Token>>) -> bool {
    forall|service: Service, attributes: Attributes, disabled: Set<Seq<char>>| #[trigger]
        client(service, attributes, disabled) == {
            let ident = seq![Token::Word(service.name@ + "Client"@)];
            let module = seq![Token::Word(service.snake_name@ + "_client"@)];
            let doc = if disabled.contains(service.qualified_name@) {
                Seq::<Token>::empty()
            } else {
                tokens_of(service.doc)
            };
            f[0] + attributes_tokens(attributes.module@) + f[1] + module + f[2] + doc
                + attributes_tokens(attributes.structure@) + f[3] + ident + f[4] + ident + f[5]
                + ident + f[6] + ident + f[7] + calls(service.methods@, disabled) + f[8]
        }
}

/// Clients differ in the attributes and names of their module and struct, in the service's comments,
/// which can be disabled under its name, and in their methods, and in nothing else. All of these stand in
/// every client.
pub proof fn clients_differ_in_what_is_given_only()
    ensures
        exists|f: Seq<Seq<Token>>| #[trigger] is_around_clients(f),
{
    let s0 = DraftState::start().source(MODULE_DOC@).text(MODULE_DOC_TEXT@).source(MODULE_DOC_END@);
    let g0 = s0.groups;
    let g1 = groups_after(g0, MODULE@);
    let g2 = groups_after(g1, MODULE_USES@);
    let g3 = groups_after(g2, STRUCT@);
    let g4 = groups_after(g3, STRUCT_BODY@);
    let g5 = groups_after(g4, CONSTRUCTORS@);
    let g6 = groups_after(g5, INTERCEPTOR_BODY@);
    let g7 = groups_after(g6, ACCESSORS@);
    let g8 = groups_after(g7, MODULE_END@);
    let f = seq![
        s0.out,
        added(g0, MODULE@),
        added(g1, MODULE_USES@),
        added(g2, STRUCT@),
        added(g3, STRUCT_BODY@),
        added(g4, CONSTRUCTORS@),
        added(g5, INTERCEPTOR_BODY@),
        added(g6, ACCESSORS@),
        added(g7, MODULE_END@) + closing(g8),
    ];
    assert forall|service: Service, attributes: Attributes, disabled: Set<Seq<char>>| #[trigger]
        client(service, attributes, disabled) == {
            let ident = seq![Token::Word(service.name@ + "Client"@)];
            let module = seq![Token::Word(service.snake_name@ + "_client"@)];
            let doc = if disabled.contains(service.qualified_name@) {
                Seq::<Token>::empty()
            } else {
                tokens_of(service.doc)
            };
            f[0] + attributes_tokens(attributes.module@) + f[1] + module + f[2] + doc
                + attributes_tokens(attributes.structure@) + f[3] + ident + f[4] + ident + f[5]
                + ident + f[6] + ident + f[7] + calls(service.methods@, disabled) + f[8]
        } by {
        let ident = seq![Token::Word(service.name@ + "Client"@)];
        let module = seq![Token::Word(service.snake_name@ + "_client"@)];
        let doc = service_doc(service, disabled);
        let methods = calls(service.methods@, disabled);
        let d0 = s0.given(attributes_tokens(attributes.module@));
        source_adds_the_same(d0, MODULE@);
        let d1 = d0.source(MODULE@).given(module);
        source_adds_the_same(d1, MODULE_USES@);
        let d2 = d1.source(MODULE_USES@).given(doc).given(
            attributes_tokens(attributes.structure@),
        );
        source_adds_the_same(d2, STRUCT@);
        let d3 = d2.source(STRUCT@).given(ident);
        source_adds_the_same(d3, STRUCT_BODY@);
        let d4 = d3.source(STRUCT_BODY@).given(ident);
        source_adds_the_same(d4, CONSTRUCTORS@);
        let d5 = d4.source(CONSTRUCTORS@).given(ident);
        source_adds_the_same(d5, INTERCEPTOR_BODY@);
        let d6 = d5.source(INTERCEPTOR_BODY@).given(ident);
        source_adds_the_same(d6, ACCESSORS@);
        let d7 = d6.source(ACCESSORS@).given(methods);
        source_adds_the_same(d7, MODULE_END@);
        let d8 = d7.source(MODULE_END@);
        finishing_adds_the_same(d8);
        assert(client(service, attributes, disabled) == d8.finish());
        assert(d8.finish() =~= d7.out + f[8]);
    }
    assert(is_around_clients(f));
}

/// The client of a service holds all of its methods, whatever their number, and so every single one.
pub proof fn clients_hold_their_methods(
    service: Service,
    attributes: Attributes,
    disabled: Set<Seq<char>>,
)
    ensures
        holds(client(service, attributes, disabled), calls(service.methods@, disabled)),
        forall|i: int|
            #![trigger service.methods@[i]]
            0 <= i < service.methods@.len() ==> holds(
                client(service, attributes, disabled),
                call(service.methods@[i], seq![Token::Word(service.methods@[i].name@)]),
            ),
{
    clients_differ_in_what_is_given_only();
    let f = choose|f: Seq<Seq<Token>>| #[trigger] is_around_clients(f);
    let all = client(service, attributes, disabled);
    let methods = calls(service.methods@, disabled);
    let ident = seq![Token::Word(service.name@ + "Client"@)];
    let module = seq![Token::Word(service.snake_name@ + "_client"@)];
    let doc = if disabled.contains(service.qualified_name@) {
        Seq::<Token>::empty()
    } else {
        tokens_of(service.doc)
    };
    let before = f[0] + attributes_tokens(attributes.module@) + f[1] + module + f[2] + doc
        + attributes_tokens(attributes.structure@) + f[3] + ident + f[4] + ident + f[5] + ident
        + f[6] + ident + f[7];
    assert(all == before + methods + f[8]);
    assert(holds(all, methods));
    assert forall|i: int|
        #![trigger service.methods@[i]]
        0 <= i < service.methods@.len() implies holds(
        all,
        call(service.methods@[i], seq![Token::Word(service.methods@[i].name@)]),
    ) by {
        methods_hold_each_of_them(service.methods@, disabled, i);
        what_is_held_is_held_outside(
            all,
            methods,
            call(service.methods@[i], seq![Token::Word(service.methods@[i].name@)]),
        );
    }
}

/// The methods of a client hold each of them.
proof fn methods_hold_each_of_them(methods: Seq<Method>, disabled: Set<Seq<char>>, i: int)
    requires
        0 <= i < methods.len(),
    ensures
        holds(calls(methods, disabled), call(methods[i], seq![Token::Word(methods[i].name@)])),
    decreases methods.len(),
{
    let first = methods.drop_last();
    let last = methods.last();
    let part = call(methods[i], seq![Token::Word(methods[i].name@)]);
    let end = call(last, seq![Token::Word(last.name@)]);
    let before = calls(first, disabled) + preamble(last, disabled);
    assert(calls(methods, disabled) == before + end);
    if i == methods.len() - 1 {
        assert(before + part + Seq::<Token>::empty() =~= before + end);
    } else {
        methods_hold_each_of_them(first, disabled, i);
        assert(first[i] == methods[i]);
        let none = Seq::<Token>::empty();
        let rest = preamble(last, disabled) + end;
        assert(none + calls(first, disabled) + rest =~= before + end);
        what_is_held_is_held_outside(calls(methods, disabled), calls(first, disabled), part);
    }
}

/// What a part holds, the whole holds.
proof fn what_is_held_is_held_outside(all: Seq<Token>, part: Seq<Token>, inner: Seq<Token>)
    requires
        holds(all, part),
        holds(part, inner),
    ensures
        holds(all, inner),
{
    let (a, b) = choose|a: Seq<Token>, b: Seq<Token>| #[trigger] (a + part + b) == all;
    let (c, d) = choose|c: Seq<Token>, d: Seq<Token>| #[trigger] (c + inner + d) == part;
    assert((a + c) + inner + (d + b) =~= a + part + b);
}

/// Methods can be generated where each of their names can be an identifier, and it is known that they
/// are where each name is an identifier in ASCII, as those are that can be names of variables.
pub proof fn methods_need_names(methods: Seq<Method>)
    ensures
        (forall|i: int|
            0 <= i < methods.len() ==> is_named_like_a_variable((#[trigger] methods[i]).name@))
            ==> are_named_in_ascii(methods),
        can_be_named(methods) <==> (forall|i: int|
            0 <= i < methods.len() ==> can_be_identifier((#[trigger] methods[i]).name@)),
        are_named_in_ascii(methods) <==> (forall|i: int|
            0 <= i < methods.len() ==> is_ascii_identifier((#[trigger] methods[i]).name@)),
{
    assert forall|i: int|
        0 <= i < methods.len() && is_named_like_a_variable(
            (#[trigger] methods[i]).name@,
        ) implies is_ascii_identifier(methods[i].name@) by {
        let name = methods[i].name@;
        names_of_variables_are_identifiers(name, name);
    }
}

/// A client is named after its service.
pub proof fn clients_are_named_after_their_service(service: Service)
    ensures
        client_ident_text(service) == service.name@ + "Client"@,
        client_mod_text(service) == service.snake_name@ + "_client"@,
{
}

/// A client can be generated where the names of its struct, its module and each of its methods can be
/// identifiers, and it is known that they are where each is an identifier in ASCII, as those are that can
/// be names of variables.
pub proof fn clients_need_names(service: Service)
    ensures
        is_named_like_a_variable(service.name@ + "Client"@) && is_named_like_a_variable(
            service.snake_name@ + "_client"@,
        ) && (forall|i: int|
            0 <= i < service.methods@.len() ==> is_named_like_a_variable(
                (#[trigger] service.methods@[i]).name@,
            )) ==> client_is_named_in_ascii(service),
        client_can_be_named(service) <==> can_be_identifier(service.name@ + "Client"@)
            && can_be_identifier(service.snake_name@ + "_client"@) && (forall|i: int|
            0 <= i < service.methods@.len() ==> can_be_identifier(
                (#[trigger] service.methods@[i]).name@,
            )),
        client_is_named_in_ascii(service) <==> is_ascii_identifier(service.name@ + "Client"@)
            && is_ascii_identifier(service.snake_name@ + "_client"@) && (forall|i: int|
            0 <= i < service.methods@.len() ==> is_ascii_identifier(
                (#[trigger] service.methods@[i]).name@,
            )),
{
    let (ident, module) = (service.name@ + "Client"@, service.snake_name@ + "_client"@);
    names_of_variables_are_identifiers(ident, ident);
    names_of_variables_are_identifiers(module, module);
    methods_need_names(service.methods@);
}

} // verus!
