//! Message handling of the language server: which diagnostics each document
//! shows, and when they are published or retracted.
use vstd::prelude::*;
use vstd::string::*;

use crate::diagnostic::{point_range, same_diagnostic, Diagnostic, Severity};
use crate::lexer::{lex, tokenize};
use crate::location::Location;

verus! {

/// Name under which the server reports its diagnostics.
pub const SERVER_NAME: &'static str = "ungrammar_lsp";

/// A notification from the editor.
pub enum Notification {
    /// A document was saved; the editor may send its text along.
    DidSave { uri: String, text: Option<String> },
    /// A document was edited, reaching `version`.
    DidChange { uri: String, version: i32 },
    /// Any other notification.
    Other { method: String },
}

/// A request from the editor.
pub enum Request {
    /// The editor asks the server to shut down.
    Shutdown,
    /// Any other request.
    Other { method: String },
}

/// What the server asks its transport to do.
pub enum Action {
    /// Publish `diagnostics` as the whole set for the document at `uri`.
    Publish { uri: String, diagnostics: Vec<Diagnostic>, version: Option<i32> },
    /// The save came without text: read the document at `uri` and hand its
    /// text back as a save that carries it.
    ReadDocument { uri: String },
    /// Answer the shutdown request with an empty success.
    AcknowledgeShutdown,
    /// Nothing is done for `method`; note it in the log.
    Ignore { method: String },
}

/// The diagnostics last published for one document, and the version last seen.
pub struct DocumentState {
    pub uri: String,
    pub version: Option<i32>,
    pub diagnostics: Vec<Diagnostic>,
}

/// `d` reports the lexer failure `message` at `loc`, as this server does.
pub open spec fn reports_lex_error(d: Diagnostic, message: Seq<char>, loc: Location) -> bool {
    &&& d.range == point_range(Some(loc))
    &&& d.message@ == message
    &&& d.severity == Some(Severity::Error)
    &&& d.source matches Some(s) && s@ == SERVER_NAME@
}

/// `ds` are the diagnostics for a document with text `text`: none where it
/// lexes, else exactly one that reports the failure.
pub open spec fn diagnostics_for(ds: Seq<Diagnostic>, text: Seq<char>) -> bool {
    match lex(text) {
        Ok(_) => ds.len() == 0,
        Err((m, loc)) => ds.len() == 1 && reports_lex_error(ds[0], m, loc),
    }
}

/// The diagnostics that a document with text `text` shows.
pub fn diagnose(text: &str) -> (r: Vec<Diagnostic>)
    ensures
        diagnostics_for(r@, text@),
{
    match tokenize(text) {
        Ok(_) => Vec::new(),
        Err(err) => {
            let d = err.into_lsp_diagnostic(
                Some(Severity::Error),
                Some(String::from_str(SERVER_NAME)),
            );
            vec![d]
        },
    }
}

fn duplicate_all(ds: &Vec<Diagnostic>) -> (r: Vec<Diagnostic>)
    ensures
        r@.len() == ds@.len(),
        forall|k: int| 0 <= k < ds@.len() ==> same_diagnostic(#[trigger] r@[k], ds@[k]),
{
    let mut r: Vec<Diagnostic> = Vec::new();
    let mut i: usize = 0;
    while i < ds.len()
        invariant
            i <= ds@.len(),
            r@.len() == i,
            forall|k: int| 0 <= k < i ==> same_diagnostic(#[trigger] r@[k], ds@[k]),
        decreases ds@.len() - i,
    {
        r.push(ds[i].duplicate());
        i = i + 1;
    }
    r
}

/// Diagnostics state of every document the server has heard of.
pub struct Server {
    documents: Vec<DocumentState>,
}

impl Server {
    /// No two entries are for the same document.
    pub closed spec fn wf(&self) -> bool {
        forall|i: int, j: int|
            0 <= i < j < self.documents@.len() ==> #[trigger] self.documents@[i].uri@
                != #[trigger] self.documents@[j].uri@
    }

    /// The version and diagnostics held for the document at `uri`; `None` for a
    /// document not heard of yet.
    pub closed spec fn document(&self, uri: Seq<char>) -> Option<(Option<i32>, Seq<Diagnostic>)> {
        if exists|i: int| 0 <= i < self.documents@.len() && #[trigger] self.documents@[i].uri@ == uri {
            let i = choose|i: int|
                0 <= i < self.documents@.len() && #[trigger] self.documents@[i].uri@ == uri;
            Some((self.documents@[i].version, self.documents@[i].diagnostics@))
        } else {
            None
        }
    }

    /// A server that has heard of no document.
    pub fn new() -> (r: Server)
        ensures
            r.wf(),
            forall|uri: Seq<char>| r.document(uri) is None,
    {
        Server { documents: Vec::new() }
    }

    fn find(&self, uri: &String) -> (r: Option<usize>)
        requires
            self.wf(),
        ensures
            match r {
                Some(i) => i < self.documents@.len() && self.documents@[i as int].uri@ == uri@,
                None => forall|i: int|
                    0 <= i < self.documents@.len() ==> #[trigger] self.documents@[i].uri@ != uri@,
            },
    {
        let mut i: usize = 0;
        while i < self.documents.len()
            invariant
                i <= self.documents@.len(),
                forall|k: int| 0 <= k < i ==> #[trigger] self.documents@[k].uri@ != uri@,
            decreases self.documents@.len() - i,
        {
            if self.documents[i].uri == *uri {
                return Some(i);
            }
            i = i + 1;
        }
        None
    }

    /// Records `version` and `diagnostics` for the document at `uri`.
    fn record(&mut self, uri: String, version: Option<i32>, diagnostics: Vec<Diagnostic>)
        requires
            old(self).wf(),
        ensures
            final(self).wf(),
            final(self).document(uri@) == Some((version, diagnostics@)),
            forall|u: Seq<char>| u != uri@ ==> final(self).document(u) == old(self).document(u),
    {
        let ghost key = uri@;
        let ghost entry = (version, diagnostics@);
        match self.find(&uri) {
            Some(i) => {
                self.documents.set(i, DocumentState { uri, version, diagnostics });
                proof {
                    assert(self.documents@[i as int].uri@ == key);
                    assert forall|u: Seq<char>| u != key implies self.document(u) == old(
                        self,
                    ).document(u) by {
                        if exists|j: int|
                            0 <= j < old(self).documents@.len()
                                && #[trigger] old(self).documents@[j].uri@ == u {
                            let j = choose|j: int|
                                0 <= j < old(self).documents@.len()
                                    && #[trigger] old(self).documents@[j].uri@ == u;
                            assert(self.documents@[j].uri@ == u);
                        }
                        if exists|j: int|
                            0 <= j < self.documents@.len() && #[trigger] self.documents@[j].uri@
                                == u {
                            let j = choose|j: int|
                                0 <= j < self.documents@.len() && #[trigger] self.documents@[j].uri@
                                    == u;
                            assert(old(self).documents@[j].uri@ == u);
                        }
                    }
                }
            },
            None => {
                self.documents.push(DocumentState { uri, version, diagnostics });
                proof {
                    let n = old(self).documents@.len() as int;
                    assert(self.documents@[n].uri@ == key);
                    assert forall|u: Seq<char>| u != key implies self.document(u) == old(
                        self,
                    ).document(u) by {
                        if exists|j: int|
                            0 <= j < old(self).documents@.len()
                                && #[trigger] old(self).documents@[j].uri@ == u {
                            let j = choose|j: int|
                                0 <= j < old(self).documents@.len()
                                    && #[trigger] old(self).documents@[j].uri@ == u;
                            assert(self.documents@[j].uri@ == u);
                        }
                        if exists|j: int|
                            0 <= j < self.documents@.len() && #[trigger] self.documents@[j].uri@
                                == u {
                            let j = choose|j: int|
                                0 <= j < self.documents@.len() && #[trigger] self.documents@[j].uri@
                                    == u;
                            assert(old(self).documents@[j].uri@ == u);
                        }
                    }
                }
            },
        }
    }

    /// Handles a notification from the editor and says what to send back.
    ///
    /// A save with text lexes it and publishes its diagnostics, without a
    /// version: none where it lexes, one for the failure otherwise. A save
    /// without text asks for the document to be read. A change retracts every
    /// diagnostic of the document under the new version, whatever the change.
    /// Any other notification is ignored.
    pub fn handle_notification(&mut self, notif: Notification) -> (actions: Vec<Action>)
        requires
            old(self).wf(),
        ensures
            final(self).wf(),
            actions@.len() == 1,
            match notif {
                Notification::DidSave { uri, text: Some(text) } => {
                    &&& actions@[0] matches Action::Publish { uri: u, diagnostics, version: None }
                        && u@ == uri@ && diagnostics_for(diagnostics@, text@)
                    &&& final(self).document(uri@) matches Some((None, ds)) && diagnostics_for(
                        ds,
                        text@,
                    )
                    &&& forall|o: Seq<char>|
                        o != uri@ ==> final(self).document(o) == old(self).document(o)
                },
                Notification::DidSave { uri, text: None } => {
                    &&& actions@[0] matches Action::ReadDocument { uri: u } && u@ == uri@
                    &&& *final(self) == *old(self)
                },
                Notification::DidChange { uri, version } => {
                    &&& actions@[0] matches Action::Publish { uri: u, diagnostics, version: v }
                        && u@ == uri@ && diagnostics@.len() == 0 && v == Some(version)
                    &&& final(self).document(uri@) == Some((Some(version), Seq::<Diagnostic>::empty()))
                    &&& forall|o: Seq<char>|
                        o != uri@ ==> final(self).document(o) == old(self).document(o)
                },
                Notification::Other { method } => {
                    &&& actions@[0] matches Action::Ignore { method: m } && m@ == method@
                    &&& *final(self) == *old(self)
                },
            },
    {
        match notif {
            Notification::DidSave { uri, text: Some(text) } => {
                let diagnostics = diagnose(text.as_str());
                let kept = duplicate_all(&diagnostics);
                let published_uri = uri.clone();
                self.record(uri, None, kept);
                vec![Action::Publish { uri: published_uri, diagnostics, version: None }]
            },
            Notification::DidSave { uri, text: None } => vec![Action::ReadDocument { uri }],
            Notification::DidChange { uri, version } => {
                let published_uri = uri.clone();
                let kept: Vec<Diagnostic> = Vec::new();
                self.record(uri, Some(version), kept);
                vec![
                    Action::Publish {
                        uri: published_uri,
                        diagnostics: Vec::new(),
                        version: Some(version),
                    },
                ]
            },
            Notification::Other { method } => vec![Action::Ignore { method }],
        }
    }

    /// Handles a request from the editor: a shutdown is acknowledged at once,
    /// anything else is ignored.
    pub fn handle_request(&self, req: Request) -> (actions: Vec<Action>)
        ensures
            actions@.len() == 1,
            match req {
                Request::Shutdown => actions@[0] is AcknowledgeShutdown,
                Request::Other { method } => actions@[0] matches Action::Ignore { method: m }
                    && m@ == method@,
            },
    {
        match req {
            Request::Shutdown => vec![Action::AcknowledgeShutdown],
            Request::Other { method } => vec![Action::Ignore { method }],
        }
    }
}

} // verus!
