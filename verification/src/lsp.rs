//! The language server client: which server serves which language. Completions and
//! diagnostics are not implemented yet and are always empty.
use crate::text;
use crate::text::str_eq;
use vstd::prelude::*;

verus! {

pub struct LspServer {
    pub name: String,
    pub command: String,
    pub args: Vec<String>,
}

/// A server as text: name, command, arguments.
pub type ServerView = (Seq<char>, Seq<char>, Seq<Seq<char>>);

pub open spec fn server_view(s: LspServer) -> ServerView {
    (s.name@, s.command@, text::seqs(s.args@))
}

/// The server registered for `language` among `servers`.
pub open spec fn server_of(servers: Seq<(String, LspServer)>, language: Seq<char>) -> Option<ServerView>
    decreases servers.len(),
{
    if servers.len() == 0 {
        None
    } else if servers.last().0@ == language {
        Some(server_view(servers.last().1))
    } else {
        server_of(servers.drop_last(), language)
    }
}

pub struct LspClient {
    /// Language and server, one entry per language.
    pub servers: Vec<(String, LspServer)>,
}

#[derive(Debug, Clone)]
pub struct Completion {
    pub label: String,
    pub detail: Option<String>,
    pub documentation: Option<String>,
}

#[derive(Debug)]
pub struct Diagnostic {
    pub range: ((usize, usize), (usize, usize)),
    pub severity: DiagnosticSeverity,
    pub message: String,
}

impl Clone for Diagnostic {
    fn clone(&self) -> (d: Self)
        ensures
            d.range == self.range && d.severity == self.severity && d.message@ == self.message@,
    {
        Diagnostic { range: self.range, severity: self.severity, message: text::owned(self.message.as_str()) }
    }
}

#[derive(Debug, Clone, Copy, PartialEq, Eq, Structural)]
pub enum DiagnosticSeverity {
    Error,
    Warning,
    Information,
    Hint,
}

/// Replacing the entry of a language leaves the other languages' servers as they were.
proof fn lemma_update_other(s: Seq<(String, LspServer)>, i: int, e: (String, LspServer), l: Seq<char>)
    requires
        0 <= i < s.len(),
        s[i].0@ == e.0@,
        l != e.0@,
    ensures
        server_of(s.update(i, e), l) == server_of(s, l),
    decreases s.len(),
{
    let u = s.update(i, e);
    if i == s.len() - 1 {
        assert(u.drop_last() =~= s.drop_last());
    } else {
        assert(u.drop_last() =~= s.drop_last().update(i, e));
        lemma_update_other(s.drop_last(), i, e, l);
    }
}

/// With each language listed once, replacing its entry makes it that language's server.
proof fn lemma_update_found(s: Seq<(String, LspServer)>, i: int, e: (String, LspServer))
    requires
        0 <= i < s.len(),
        s[i].0@ == e.0@,
        forall|a: int, b: int| 0 <= a < b < s.len() ==> #[trigger] s[a].0@ != #[trigger] s[b].0@,
    ensures
        server_of(s.update(i, e), e.0@) == Some(server_view(e.1)),
    decreases s.len(),
{
    let u = s.update(i, e);
    if i < s.len() - 1 {
        assert(s[i].0@ != s[s.len() - 1].0@);
        assert(u.drop_last() =~= s.drop_last().update(i, e));
        lemma_update_found(s.drop_last(), i, e);
    }
}

impl LspClient {
    /// No language is served twice.
    pub open spec fn well_formed(&self) -> bool {
        forall|i: int, j: int|
            0 <= i < j < self.servers@.len() ==> #[trigger] self.servers@[i].0@ != #[trigger] self.servers@[j].0@
    }

    /// The server of each language.
    pub open spec fn server_for(&self, language: Seq<char>) -> Option<ServerView> {
        server_of(self.servers@, language)
    }

    pub fn new() -> (c: Self)
        ensures
            c.well_formed(),
            forall|l: Seq<char>| #[trigger] c.server_for(l) is None,
    {
        Self { servers: Vec::new() }
    }

    /// Where `language` is listed, if it is.
    fn position_of(servers: &Vec<(String, LspServer)>, language: &str) -> (r: Option<usize>)
        ensures
            match r {
                Some(i) => i < servers@.len() && servers@[i as int].0@ == language@,
                None => forall|j: int| 0 <= j < servers@.len() ==> #[trigger] servers@[j].0@ != language@,
            },
    {
        let mut i: usize = 0;
        while i < servers.len()
            invariant
                i <= servers@.len(),
                forall|j: int| 0 <= j < i ==> #[trigger] servers@[j].0@ != language@,
            decreases servers@.len() - i,
        {
            if str_eq(servers[i].0.as_str(), language) {
                return Some(i);
            }
            i = i + 1;
        }
        None
    }

    /// Registers `server` for `language`, in place of the one it had.
    pub fn register_server(&mut self, language: String, server: LspServer)
        requires
            old(self).well_formed(),
        ensures
            final(self).well_formed(),
            final(self).server_for(language@) == Some(server_view(server)),
            forall|l: Seq<char>| l != language@ ==> #[trigger] final(self).server_for(l) == old(self).server_for(l),
    {
        let ghost old_servers = self.servers@;
        let ghost lang = language@;
        let ghost sv = server_view(server);
        let found = Self::position_of(&self.servers, language.as_str());
        if let Some(i) = found {
            let ghost k = i as int;
            let ghost entry = (language, server);
            self.servers.set(i, (language, server));
            proof {
                assert(self.servers@ == old_servers.update(k, entry));
                lemma_update_found(old_servers, k, entry);
                assert forall|l: Seq<char>| l != lang implies #[trigger] server_of(self.servers@, l) == server_of(old_servers, l) by {
                    lemma_update_other(old_servers, k, entry, l);
                }
            }
        } else {
            self.servers.push((language, server));
            proof {
                assert(self.servers@.drop_last() =~= old_servers);
                assert forall|l: Seq<char>| l != lang implies #[trigger] server_of(self.servers@, l) == server_of(old_servers, l) by {
                }
            }
        }
    }

    /// Completions at a position of a file: not implemented, always none.
    pub fn get_completions(&self, _file_path: &str, _position: (usize, usize)) -> (r: Vec<Completion>)
        ensures
            r@.len() == 0,
    {
        Vec::new()
    }

    /// Diagnostics of a file: not implemented, always none.
    pub fn get_diagnostics(&self, _file_path: &str) -> (r: Vec<Diagnostic>)
        ensures
            r@.len() == 0,
    {
        Vec::new()
    }
}

impl Default for LspClient {
    fn default() -> (c: Self)
        ensures
            c.well_formed(),
            forall|l: Seq<char>| #[trigger] c.server_for(l) is None,
    {
        Self::new()
    }
}

} // verus!
