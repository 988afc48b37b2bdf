use ungrammar_lsp::{
    tokenize, Action, Diagnostic, Error, Location, Notification, Position, Range, Request, Server,
    Severity, TextRange, SERVER_NAME,
};

fn loc(line: usize, column: usize) -> Location {
    Location { line, column }
}

fn pos(line: u32, character: u32) -> Position {
    Position { line, character }
}

fn simple(message: &str, location: Option<Location>) -> Error {
    Error::Simple { message: message.to_string(), location }
}

#[test]
fn display_uses_one_based_coordinates() {
    assert_eq!(simple("bad", Some(loc(0, 0))).to_string(), "bad; 1:1: ");
    assert_eq!(simple("bad", Some(loc(9, 41))).to_string(), "bad; 10:42: ");
    assert_eq!(simple("bad", None).to_string(), "bad");
    let e = Error::Range {
        message: "span".to_string(),
        range: Range { begin: loc(0, 1), ex_end: loc(2, 99) },
    };
    assert_eq!(e.to_string(), "span; 1:2 - 3:100");
    let far = simple("far", Some(loc(usize::MAX, 0)));
    assert_eq!(far.to_string(), format!("far; {}:1: ", usize::MAX as u128 + 1));
}

#[test]
fn with_location_sets_a_missing_location_only() {
    match simple("m", None).with_location(loc(1, 2)) {
        Error::Simple { message, location } => {
            assert_eq!(message, "m");
            assert_eq!(location, Some(loc(1, 2)));
        }
        other => panic!("unexpected {other:?}"),
    }
    match simple("m", Some(loc(3, 4))).with_location(loc(1, 2)) {
        Error::Simple { location, .. } => assert_eq!(location, Some(loc(3, 4))),
        other => panic!("unexpected {other:?}"),
    }
    let range = Range { begin: loc(0, 0), ex_end: loc(0, 3) };
    match (Error::Range { message: "r".to_string(), range }).with_location(loc(1, 2)) {
        Error::Range { range: r, .. } => assert_eq!(r, range),
        other => panic!("unexpected {other:?}"),
    }
}

#[test]
fn positions_pass_through_when_they_fit() {
    assert_eq!(loc(0, 0).try_into_position(), Some(pos(0, 0)));
    assert_eq!(loc(7, 3).try_into_position(), Some(pos(7, 3)));
    assert_eq!(loc(u32::MAX as usize, 1).try_into_position(), Some(pos(u32::MAX, 1)));
    assert_eq!(loc(u32::MAX as usize + 1, 0).try_into_position(), None);
    assert_eq!(loc(0, u32::MAX as usize + 1).try_into_position(), None);
    assert_eq!(Position::default(), pos(0, 0));
}

#[test]
fn point_error_covers_one_character() {
    let r = simple("m", Some(loc(2, 5))).range();
    assert_eq!(r, TextRange { start: pos(2, 5), end: pos(2, 6) });
    let r = simple("m", Some(loc(0, 0))).range();
    assert_eq!(r, TextRange { start: pos(0, 0), end: pos(0, 1) });
}

#[test]
fn unlocated_or_unfitting_error_falls_back_to_origin() {
    let origin = TextRange { start: pos(0, 0), end: pos(0, 0) };
    assert_eq!(simple("m", None).range(), origin);
    assert_eq!(simple("m", Some(loc(0, u32::MAX as usize))).range(), origin);
    assert_eq!(simple("m", Some(loc(u32::MAX as usize + 5, 0))).range(), origin);
}

#[test]
fn span_error_maps_its_span() {
    let e = Error::Range {
        message: "span".to_string(),
        range: Range { begin: loc(1, 2), ex_end: loc(3, 4) },
    };
    assert_eq!(e.range(), TextRange { start: pos(1, 2), end: pos(3, 4) });
    assert_eq!(e.msg(), "span");
}

#[test]
fn lexer_error_becomes_a_diagnostic() {
    let err = tokenize("A = 'open").unwrap_err();
    let d = err.into_lsp_diagnostic(Some(Severity::Warning), Some("here".to_string()));
    assert_eq!(
        d,
        Diagnostic {
            range: TextRange { start: pos(0, 4), end: pos(0, 5) },
            message: "unclosed token literal".to_string(),
            severity: Some(Severity::Warning),
            source: Some("here".to_string()),
        }
    );
    let d = simple("none", None).into_lsp_diagnostic(None, None);
    assert_eq!(d.severity, None);
    assert_eq!(d.source, None);
    assert_eq!(d.message, "none");
}

fn publish(actions: Vec<Action>) -> (String, Vec<Diagnostic>, Option<i32>) {
    assert_eq!(actions.len(), 1);
    match actions.into_iter().next().unwrap() {
        Action::Publish { uri, diagnostics, version } => (uri, diagnostics, version),
        _ => panic!("expected a publication"),
    }
}

fn save(server: &mut Server, uri: &str, text: &str) -> Vec<Action> {
    server.handle_notification(Notification::DidSave {
        uri: uri.to_string(),
        text: Some(text.to_string()),
    })
}

#[test]
fn save_change_lifecycle() {
    let mut server = Server::new();
    let uri = "file:///tmp/keg.ungram";

    let (u, diagnostics, version) = publish(save(&mut server, uri, "Foo = bar"));
    assert_eq!(u, uri);
    assert!(diagnostics.is_empty());
    assert_eq!(version, None);

    let (u, diagnostics, version) = publish(save(&mut server, uri, "Foo = 'unterminated"));
    assert_eq!(u, uri);
    assert_eq!(version, None);
    assert_eq!(diagnostics.len(), 1);
    assert!(diagnostics[0].message.contains("unclosed"));
    assert_eq!(diagnostics[0].severity, Some(Severity::Error));
    assert_eq!(diagnostics[0].source.as_deref(), Some(SERVER_NAME));
    assert_eq!(diagnostics[0].range, TextRange { start: pos(0, 6), end: pos(0, 7) });

    let change = server.handle_notification(Notification::DidChange {
        uri: uri.to_string(),
        version: 7,
    });
    let (u, diagnostics, version) = publish(change);
    assert_eq!(u, uri);
    assert!(diagnostics.is_empty());
    assert_eq!(version, Some(7));
}

#[test]
fn change_on_unknown_document_retracts_too() {
    let mut server = Server::new();
    let (u, diagnostics, version) = publish(server.handle_notification(Notification::DidChange {
        uri: "file:///new".to_string(),
        version: 1,
    }));
    assert_eq!(u, "file:///new");
    assert!(diagnostics.is_empty());
    assert_eq!(version, Some(1));
}

#[test]
fn documents_are_kept_apart() {
    let mut server = Server::new();
    let (_, d, _) = publish(save(&mut server, "file:///a", "$"));
    assert_eq!(d.len(), 1);
    assert_eq!(d[0].message, "unexpected character: `$`");
    let (_, d, _) = publish(save(&mut server, "file:///b", "B = 'ok'"));
    assert!(d.is_empty());
    let (_, d, _) = publish(save(&mut server, "file:///a", "A\r\n"));
    assert_eq!(d[0].message, "unexpected `\\r`, only Unix-style line endings allowed");
    assert_eq!(d[0].range, TextRange { start: pos(0, 1), end: pos(0, 2) });
}

#[test]
fn save_without_text_asks_for_the_document() {
    let mut server = Server::new();
    let actions = server.handle_notification(Notification::DidSave {
        uri: "file:///x".to_string(),
        text: None,
    });
    assert_eq!(actions.len(), 1);
    match &actions[0] {
        Action::ReadDocument { uri } => assert_eq!(uri, "file:///x"),
        _ => panic!("expected a read"),
    }
}

#[test]
fn other_messages_are_ignored_and_shutdown_acknowledged() {
    let mut server = Server::new();
    let actions = server.handle_notification(Notification::Other {
        method: "textDocument/didOpen".to_string(),
    });
    match &actions[0] {
        Action::Ignore { method } => assert_eq!(method, "textDocument/didOpen"),
        _ => panic!("expected the method to be ignored"),
    }
    assert!(matches!(server.handle_request(Request::Shutdown)[0], Action::AcknowledgeShutdown));
    match &server.handle_request(Request::Other { method: "textDocument/hover".to_string() })[0] {
        Action::Ignore { method } => assert_eq!(method, "textDocument/hover"),
        _ => panic!("expected the method to be ignored"),
    }
}
