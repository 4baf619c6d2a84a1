use std::str::FromStr;

use proc_macro2::{Delimiter, Spacing, TokenStream, TokenTree};
use tonic_grpc::client_grpc::{
    attribute_package, client_ident, client_mod, disabled_names, generate_client_streaming, generate_internal,
    generate_methods, generate_request_setup, generate_send_task, generate_server_streaming,
    generate_streaming, generate_unary, generate_unary_response_recv_loop, Attributes, CodegenError,
    Method, Service,
};

fn tokens(text: &str) -> TokenStream {
    TokenStream::from_str(text).unwrap()
}

/// Writes every token down, brackets included. How an operator's characters are spaced is left out.
fn flat(stream: TokenStream) -> Vec<String> {
    let mut out = Vec::new();
    for tree in stream {
        match tree {
            TokenTree::Group(group) => {
                let (open, close) = match group.delimiter() {
                    Delimiter::Parenthesis => ("(", ")"),
                    Delimiter::Bracket => ("[", "]"),
                    Delimiter::Brace => ("{", "}"),
                    Delimiter::None => ("", ""),
                };
                out.push(open.to_string());
                out.extend(flat(group.stream()));
                out.push(close.to_string());
            }
            other => out.push(other.to_string()),
        }
    }
    out
}

fn assert_source(stream: TokenStream, source: &str) {
    assert_eq!(flat(stream), flat(tokens(source)));
}

const RECV_LOOP: &str = r#"
    let mut res_msg = super::HelloReply::default();
    let mut recv_adapter = ProstRecvMessage(&mut res_msg);
    let mut response_md = tonic::metadata::MetadataMap::new();

    loop {
        let item = rx.recv(&mut recv_adapter).await;
        match item {
            ResponseStreamItem::Message => {},
            ResponseStreamItem::Trailers(t) => {
                merge_grpc_metadata(&mut response_md, t.metadata());
                return match t.into_status() {
                    Ok(()) => Ok(tonic::Response::from_parts(response_md, res_msg, tonic::Extensions::new())),
                    Err(err) => Err(status_from_grpc_error(&err, response_md)),
                };
            }
            ResponseStreamItem::Headers(h) => {
                merge_grpc_metadata(&mut response_md, h.metadata());
            }
            ResponseStreamItem::StreamClosed => {
                return Err(tonic::Status::internal("stream closed prematurely"));
            }
        }
    }
"#;

const SINGLE_SETUP: &str = r#"
    let req = request.into_request();
    let (grpc_md, deadline) = convert_tonic_metadata_to_grpc(req.metadata());
    let req_msg = req.into_inner();
    let headers = RequestHeaders::new().with_method_name("/hello.Greeter/Say").with_metadata(grpc_md);
    let mut options = CallOptions::default();
    if let Some(d) = deadline {
        options.set_deadline(d);
    }
"#;

const STREAMING_SETUP: &str = r#"
    let req = request.into_streaming_request();
    let (grpc_md, deadline) = convert_tonic_metadata_to_grpc(req.metadata());
    let mut req_stream = Box::pin(req.into_inner());
    let headers = RequestHeaders::new().with_method_name("/hello.Greeter/Say").with_metadata(grpc_md);
    let mut options = CallOptions::default();
    if let Some(d) = deadline {
        options.set_deadline(d);
    }
"#;

const SEND_TASK: &str = r#"
    tokio::spawn(async move {
        use tokio_stream::StreamExt;
        while let Some(msg) = req_stream.next().await {
            let send_msg = ProstSendMessage(&msg);
            if tx.send(&send_msg, SendOptions::default()).await.is_err() {
                break;
            }
        }
        drop(tx);
    })
"#;

const RETURN_STREAM: &str = r#"
    let response_md = headers_rx
        .await
        .map_err(|_| tonic::Status::internal("stream closed before headers"))??;

    Ok(tonic::Response::from_parts(
        response_md,
        stream,
        tonic::Extensions::new(),
    ))
"#;

fn unary() -> String {
    format!(
        r#"
        pub async fn say(
            &mut self,
            request: impl tonic::IntoRequest<super::HelloRequest>,
        ) -> std::result::Result<tonic::Response<super::HelloReply>, tonic::Status> {{
            {SINGLE_SETUP}

            let (mut tx, rx) = self.inner.invoke(headers, options).await;
            let mut rx = RecvStreamValidator::new(rx, true);

            let send_msg = ProstSendMessage(&req_msg);
            let _ = tx.send(&send_msg, SendOptions::new().with_final_msg(true)).await;

            {RECV_LOOP}
        }}
        "#
    )
}

fn server_streaming() -> String {
    format!(
        r#"
        pub async fn say(
            &mut self,
            request: impl tonic::IntoRequest<super::HelloRequest>,
        ) -> std::result::Result<tonic::Response<GrpcResponseStream<super::HelloReply, T::RecvStream>>, tonic::Status> {{
            {SINGLE_SETUP}

            let (mut tx, rx) = self.inner.invoke(headers, options).await;
            let rx = RecvStreamValidator::new(rx, false);

            let send_msg = ProstSendMessage(&req_msg);
            let _ = tx.send(&send_msg, SendOptions::new().with_final_msg(true)).await;

            let (stream, headers_rx) = GrpcResponseStream::new(rx);
            {RETURN_STREAM}
        }}
        "#
    )
}

fn client_streaming() -> String {
    format!(
        r#"
        pub async fn say(
            &mut self,
            request: impl tonic::IntoStreamingRequest<Message = super::HelloRequest>,
        ) -> std::result::Result<tonic::Response<super::HelloReply>, tonic::Status> {{
            {STREAMING_SETUP}

            let (mut tx, rx) = self.inner.invoke(headers, options).await;
            let mut rx = RecvStreamValidator::new(rx, true);

            let _send_guard = AbortOnDrop({SEND_TASK});

            {RECV_LOOP}
        }}
        "#
    )
}

fn streaming() -> String {
    format!(
        r#"
        pub async fn say(
            &mut self,
            request: impl tonic::IntoStreamingRequest<Message = super::HelloRequest>,
        ) -> std::result::Result<tonic::Response<GrpcResponseStream<super::HelloReply, T::RecvStream>>, tonic::Status> {{
            {STREAMING_SETUP}

            let (mut tx, rx) = self.inner.invoke(headers, options).await;
            let rx = RecvStreamValidator::new(rx, false);

            let (stream, headers_rx) = GrpcResponseStream::new(rx);
            let stream = stream.with_send_guard(AbortOnDrop({SEND_TASK}));
            {RETURN_STREAM}
        }}
        "#
    )
}

fn method(client_streaming: bool, server_streaming: bool) -> Method {
    Method {
        name: "say".to_string(),
        qualified_name: "hello.Greeter.Say".to_string(),
        path: "/hello.Greeter/Say".to_string(),
        doc: tokens("#[doc = \" Says hello.\"]"),
        deprecated: false,
        request: tokens("super::HelloRequest"),
        response: tokens("super::HelloReply"),
        client_streaming,
        server_streaming,
    }
}

fn service(methods: Vec<Method>) -> Service {
    Service {
        name: "Greeter".to_string(),
        snake_name: "greeter".to_string(),
        package: "hello".to_string(),
        qualified_name: "hello.Greeter".to_string(),
        doc: tokens("#[doc = \" Greets.\"]"),
        methods,
    }
}

fn no_attributes() -> Attributes {
    Attributes { module: vec![], structure: vec![] }
}


#[test]
fn recv_loop_is_generated_for_the_response_type() {
    assert_source(generate_unary_response_recv_loop(&tokens("super::HelloReply")), RECV_LOOP);
}

#[test]
fn request_setup_is_generated() {
    assert_source(generate_request_setup("/hello.Greeter/Say", false), SINGLE_SETUP);
    assert_source(generate_request_setup("/hello.Greeter/Say", true), STREAMING_SETUP);
}

#[test]
fn path_is_written_as_a_literal() {
    let flat = flat(generate_request_setup("/a\"b\\c", false));
    assert!(flat.contains(&"\"/a\\\"b\\\\c\"".to_string()));
    assert!(!flat.contains(&"/a\"b\\c".to_string()));
}

#[test]
fn send_task_is_generated() {
    assert_source(generate_send_task(), SEND_TASK);
}

#[test]
fn operators_hold_together_and_nothing_else_does() {
    let trees: Vec<TokenTree> = generate_send_task().into_iter().collect();
    let spacing: Vec<(char, Spacing)> = trees
        .iter()
        .filter_map(|tree| match tree {
            TokenTree::Punct(punct) => Some((punct.as_char(), punct.spacing())),
            _ => None,
        })
        .collect();
    assert_eq!(spacing, vec![(':', Spacing::Joint), (':', Spacing::Alone)]);

    let method = generate_streaming(
        &tokens("say"),
        &tokens("Request"),
        &tokens("Reply"),
        "/hello.Greeter/Say",
    );
    let marks: Vec<(char, Spacing)> = method
        .into_iter()
        .filter_map(|tree| match tree {
            TokenTree::Punct(punct) => Some((punct.as_char(), punct.spacing())),
            _ => None,
        })
        .collect();
    let result: Vec<(char, Spacing)> = vec![
        ('-', Spacing::Joint),
        ('>', Spacing::Alone),
        (':', Spacing::Joint),
        (':', Spacing::Alone),
        (':', Spacing::Joint),
        (':', Spacing::Alone),
        ('<', Spacing::Alone),
        (':', Spacing::Joint),
        (':', Spacing::Alone),
        ('<', Spacing::Alone),
        ('<', Spacing::Alone),
        (',', Spacing::Alone),
        (':', Spacing::Joint),
        (':', Spacing::Alone),
        ('>', Spacing::Joint),
        ('>', Spacing::Alone),
        (',', Spacing::Alone),
        (':', Spacing::Joint),
        (':', Spacing::Alone),
        ('>', Spacing::Alone),
    ];
    assert_eq!(marks, result);
}

#[test]
fn kinds_of_methods_are_generated() {
    let (ident, request, response) =
        (tokens("say"), tokens("super::HelloRequest"), tokens("super::HelloReply"));
    let path = "/hello.Greeter/Say";
    assert_source(generate_unary(&ident, &request, &response, path), &unary());
    assert_source(
        generate_server_streaming(&ident, &request, &response, path),
        &server_streaming(),
    );
    assert_source(
        generate_client_streaming(&ident, &request, &response, path),
        &client_streaming(),
    );
    assert_source(generate_streaming(&ident, &request, &response, path), &streaming());
}

#[test]
fn kind_of_a_method_follows_from_what_streams() {
    let none = disabled_names(vec![]);
    let doc = "#[doc = \" Says hello.\"]";
    for (client, server, source) in [
        (false, false, unary()),
        (false, true, server_streaming()),
        (true, false, client_streaming()),
        (true, true, streaming()),
    ] {
        let methods = generate_methods(&service(vec![method(client, server)]), &none).unwrap();
        assert_source(methods, &format!("{doc} {source}"));
    }
}

#[test]
fn requests_are_sent_as_they_stream() {
    let none = disabled_names(vec![]);
    let task = flat(generate_send_task());
    for server in [false, true] {
        for client in [false, true] {
            let methods = generate_methods(&service(vec![method(client, server)]), &none).unwrap();
            let methods = flat(methods);
            let sent_by_task = methods.windows(task.len()).any(|part| part == task);
            let sent_as_last = methods.contains(&"with_final_msg".to_string());
            assert_eq!(sent_by_task, client);
            assert_eq!(sent_as_last, !client);
            assert!(methods.contains(&"\"/hello.Greeter/Say\"".to_string()));
        }
    }
}

#[test]
fn deprecated_methods_are_marked() {
    let old = Method { deprecated: true, ..method(false, false) };
    let methods = generate_methods(&service(vec![old]), &disabled_names(vec![])).unwrap();
    assert_source(methods, &format!("#[doc = \" Says hello.\"] #[deprecated] {}", unary()));
}

#[test]
fn comments_on_methods_can_be_disabled() {
    let old = Method { deprecated: true, ..method(false, false) };
    let none = disabled_names(vec!["hello.Greeter.Say".to_string()]);
    let methods = generate_methods(&service(vec![old]), &none).unwrap();
    assert_source(methods, &format!("#[deprecated] {}", unary()));
    let other = disabled_names(vec!["hello.Greeter".to_string(), "Say".to_string()]);
    let methods = generate_methods(&service(vec![method(false, false)]), &other).unwrap();
    assert_source(methods, &format!("#[doc = \" Says hello.\"] {}", unary()));
}

#[test]
fn methods_keep_their_order() {
    let none = disabled_names(vec![]);
    let second = || Method { name: "sing".to_string(), ..method(true, true) };
    let both = generate_methods(&service(vec![method(false, false), second()]), &none).unwrap();
    let mut parts = flat(generate_methods(&service(vec![method(false, false)]), &none).unwrap());
    parts.extend(flat(generate_methods(&service(vec![second()]), &none).unwrap()));
    assert_eq!(flat(both), parts);
}

#[test]
fn service_without_methods_has_none() {
    let methods = generate_methods(&service(vec![]), &disabled_names(vec![])).unwrap();
    assert!(methods.is_empty());
}

fn client(doc: &str, module: &str, structure: &str, methods: &str) -> String {
    format!(
        r#"
        #[doc = " Generated client implementations using the `grpc` crate."]
        {module}
        pub mod greeter_client {{
            #![allow(
                unused_variables,
                dead_code,
                missing_docs,
                clippy::wildcard_imports,
                clippy::let_unit_value,
            )]
            use grpc::client::*;
            use grpc::client::stream_util::RecvStreamValidator;
            use tonic_grpc::client::*;

            {doc}
            {structure}
            #[derive(Debug, Clone)]
            pub struct GreeterClient<T> {{
                inner: T,
            }}

            impl<T> GreeterClient<T>
            where
                T: grpc::client::Invoke,
            {{
                pub fn new(inner: T) -> Self {{
                    Self {{ inner }}
                }}

                pub fn with_interceptor<F>(inner: T, interceptor: F) -> GreeterClient<InterceptedChannel<T, F>>
                where
                    F: tonic::service::Interceptor + Clone + Send + Sync + 'static,
                {{
                    GreeterClient::new(InterceptedChannel::new(inner, interceptor))
                }}

                pub fn inner(&self) -> &T {{
                    &self.inner
                }}

                pub fn inner_mut(&mut self) -> &mut T {{
                    &mut self.inner
                }}

                pub fn into_inner(self) -> T {{
                    self.inner
                }}

                {methods}
            }}

            pub use tonic_grpc::client::{{
                GrpcResponseStream, InterceptedChannel,
            }};
        }}
        "#
    )
}

#[test]
fn client_is_generated() {
    let methods = format!("#[doc = \" Says hello.\"] {}", unary());
    let generated =
        generate_internal(&service(vec![method(false, false)]), &no_attributes(), &disabled_names(vec![]));
    assert_source(generated.unwrap(), &client("#[doc = \" Greets.\"]", "", "", &methods));
}

#[test]
fn comments_on_services_can_be_disabled() {
    let generated =
        generate_internal(&service(vec![]), &no_attributes(), &disabled_names(vec!["hello.Greeter".to_string()]));
    assert_source(generated.unwrap(), &client("", "", "", ""));
}

#[test]
fn disabled_comments_leave_no_trace() {
    let names = disabled_names(vec!["hello.Greeter".to_string(), "hello.Greeter.Say".to_string()]);
    let plain = generate_internal(&service(vec![method(true, false)]), &no_attributes(), &names);
    let silent = Method { doc: tokens("#[doc = \" Else.\"]"), ..method(true, false) };
    let other = Service { doc: TokenStream::new(), ..service(vec![silent]) };
    let other = generate_internal(&other, &no_attributes(), &names);
    assert_eq!(plain.unwrap().to_string(), other.unwrap().to_string());
}

#[test]
fn clients_get_their_attributes_in_order() {
    let attributes = Attributes {
        module: vec![tokens("#[cfg(feature = \"client\")]"), tokens("#[rustfmt::skip]")],
        structure: vec![tokens("#[must_use]"), tokens("#[repr(transparent)]")],
    };
    let generated = generate_internal(&service(vec![]), &attributes, &disabled_names(vec![]));
    assert_source(
        generated.unwrap(),
        &client(
            "#[doc = \" Greets.\"]",
            "#[cfg(feature = \"client\")] #[rustfmt::skip]",
            "#[must_use] #[repr(transparent)]",
            "",
        ),
    );
}

#[test]
fn names_that_are_not_identifiers_are_refused() {
    let broken = Service { name: "Gree(ter".to_string(), ..service(vec![]) };
    assert_eq!(
        generate_internal(&broken, &no_attributes(), &disabled_names(vec![])).unwrap_err(),
        CodegenError::NotAnIdentifier
    );
    let broken = Service { snake_name: "gree)ter".to_string(), ..service(vec![]) };
    assert_eq!(
        generate_internal(&broken, &no_attributes(), &disabled_names(vec![])).unwrap_err(),
        CodegenError::NotAnIdentifier
    );
    let broken = service(vec![method(false, false), Method {
        name: "\"".to_string(),
        ..method(false, false)
    }]);
    assert_eq!(generate_methods(&broken, &disabled_names(vec![])).unwrap_err(), CodegenError::NotAnIdentifier);
    assert_eq!(
        generate_internal(&broken, &no_attributes(), &disabled_names(vec![])).unwrap_err(),
        CodegenError::NotAnIdentifier
    );
}

#[test]
fn identifiers_are_what_names_have_to_be() {
    let name = |text: &str| {
        let named = Method { name: text.to_string(), ..method(false, false) };
        generate_methods(&service(vec![named]), &disabled_names(vec![]))
    };
    for text in ["say", "_", "fn", "_0", "r#fn", "gr\u{f6}\u{df}e", "r#gr\u{f6}\u{df}e"] {
        assert!(flat(name(text).unwrap()).contains(&text.to_string()), "{text}");
    }
    for text in [
        "", "0", "a b", " a", "a/**/", "a-b", "r#", "r#0", "r#_", "r#self", "r#Self", "r#super",
        "r#crate", "'a", "\u{e9} b", " \u{e9}", "\u{e9}/**/", "\u{20ac}", "\u{feff}a",
    ] {
        assert_eq!(name(text).unwrap_err(), CodegenError::NotAnIdentifier, "{text}");
    }
}

#[test]
fn raw_names_stay_raw() {
    let raw = Method { name: "r#type".to_string(), ..method(false, false) };
    let methods = flat(generate_methods(&service(vec![raw]), &disabled_names(vec![])).unwrap());
    assert!(methods.contains(&"r#type".to_string()));
}

#[test]
fn names_of_a_client() {
    let service = service(vec![]);
    assert_eq!(client_ident(&service), "GreeterClient");
    assert_eq!(client_mod(&service), "greeter_client");
}

#[test]
fn attributes_are_looked_up_by_package_where_packages_are_emitted() {
    let service = service(vec![]);
    assert_eq!(attribute_package(&service, true), "hello");
    assert_eq!(attribute_package(&service, false), "");
}
