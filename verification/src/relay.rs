//! The log relay: scans the child's stdout lines for the readiness marker,
//! extracts the session credential, composes the access URL, and tracks the
//! lifecycle signals (ready at most once; exited only after both streams end).

use vstd::prelude::*;

use crate::text::{
    ascii_bytes, dec_rep, find_first, matches_at, push_dec, str_to_bytes, trimmed, trimmed_copy,
};

verus! {

/// The case-sensitive marker that precedes the session credential on stdout.
pub open spec fn token_marker() -> Seq<u8> {
    ascii_bytes("Session token:"@)
}

fn token_marker_vec() -> (v: Vec<u8>)
    ensures
        v@ == token_marker(),
        1 <= v@.len(),
{
    let s = "Session token:";
    proof {
        reveal_strlit("Session token:");
    }
    str_to_bytes(s)
}

/// The credential carried by a line: the text after the first occurrence of
/// the marker, trimmed of surrounding ASCII whitespace; none when the marker
/// does not occur.
pub open spec fn token_after(s: Seq<u8>) -> Option<Seq<u8>>
    decreases s.len(),
{
    if s.len() == 0 || s.len() < token_marker().len() {
        None
    } else if s.subrange(0, token_marker().len() as int) == token_marker() {
        Some(trimmed(s.subrange(token_marker().len() as int, s.len() as int)))
    } else {
        token_after(s.drop_first())
    }
}

proof fn lemma_marker_len()
    ensures
        token_marker().len() == 14,
{
    reveal_strlit("Session token:");
}

proof fn lemma_token_after_at(s: Seq<u8>, i: int)
    requires
        matches_at(s, token_marker(), i),
        forall|j: int| 0 <= j < i ==> !matches_at(s, token_marker(), j),
    ensures
        token_after(s) == Some(trimmed(s.subrange(i + token_marker().len(), s.len() as int))),
    decreases i,
{
    lemma_marker_len();
    let m = token_marker().len() as int;
    if i == 0 {
        assert(s.subrange(0, m) == token_marker());
    } else {
        assert(!matches_at(s, token_marker(), 0));
        assert(s.len() >= m);
        if s.subrange(0, m) == token_marker() {
            assert(matches_at(s, token_marker(), 0));
        }
        let d = s.drop_first();
        assert forall|j: int| 0 <= j < i - 1 implies !matches_at(d, token_marker(), j) by {
            if 0 <= j && j + m <= d.len() {
                assert(d.subrange(j, j + m) =~= s.subrange(j + 1, j + 1 + m));
                if d.subrange(j, j + m) == token_marker() {
                    assert(matches_at(s, token_marker(), j + 1));
                }
            }
        }
        assert(d.subrange(i - 1, i - 1 + m) =~= s.subrange(i, i + m));
        lemma_token_after_at(d, i - 1);
        assert(d.subrange(i - 1 + m, d.len() as int) =~= s.subrange(i + m, s.len() as int));
    }
}

proof fn lemma_token_after_none(s: Seq<u8>)
    requires
        forall|j: int| !matches_at(s, token_marker(), j),
    ensures
        token_after(s) is None,
    decreases s.len(),
{
    lemma_marker_len();
    let m = token_marker().len() as int;
    if s.len() >= m {
        if s.subrange(0, m) == token_marker() {
            assert(matches_at(s, token_marker(), 0));
        }
        let d = s.drop_first();
        assert forall|j: int| !matches_at(d, token_marker(), j) by {
            if 0 <= j && j + m <= d.len() {
                assert(d.subrange(j, j + m) =~= s.subrange(j + 1, j + 1 + m));
                if d.subrange(j, j + m) == token_marker() {
                    assert(matches_at(s, token_marker(), j + 1));
                }
            }
        }
        lemma_token_after_none(d);
    }
}

/// Extracts the session credential from a stdout line, if its marker occurs.
pub fn scan_for_token(line: &Vec<u8>) -> (r: Option<Vec<u8>>)
    ensures
        match r {
            Some(t) => token_after(line@) == Some(t@),
            None => token_after(line@) is None,
        },
{
    let pat = token_marker_vec();
    match find_first(line, &pat) {
        Some(i) => {
            proof {
                lemma_token_after_at(line@, i as int);
            }
            let n = line.len();
            proof {
                assert(i + pat@.len() <= n);
            }
            Some(trimmed_copy(line, i + pat.len()))
        },
        None => {
            proof {
                lemma_token_after_none(line@);
            }
            None
        },
    }
}

/// The access URL composed from the two ports and the session credential.
pub open spec fn url_of(client_port: u16, server_port: u16, token: Seq<u8>) -> Seq<u8> {
    ascii_bytes("http://localhost:"@) + dec_rep(client_port as nat) + ascii_bytes(
        "?MCP_PROXY_PORT="@,
    ) + dec_rep(server_port as nat) + ascii_bytes("&MCP_PROXY_AUTH_TOKEN="@) + token
}

/// Builds the access URL `http://localhost:{client}?MCP_PROXY_PORT={server}&MCP_PROXY_AUTH_TOKEN={token}`.
pub fn compose_url(client_port: u16, server_port: u16, token: &Vec<u8>) -> (r: Vec<u8>)
    ensures
        r@ == url_of(client_port, server_port, token@),
{
    proof {
        reveal_strlit("http://localhost:");
        reveal_strlit("?MCP_PROXY_PORT=");
        reveal_strlit("&MCP_PROXY_AUTH_TOKEN=");
    }
    let mut v = str_to_bytes("http://localhost:");
    push_dec(client_port as u32, &mut v);
    let mut mid = str_to_bytes("?MCP_PROXY_PORT=");
    v.append(&mut mid);
    push_dec(server_port as u32, &mut v);
    let mut tail = str_to_bytes("&MCP_PROXY_AUTH_TOKEN=");
    v.append(&mut tail);
    v.extend_from_slice(token.as_slice());
    proof {
        assert(v@ =~= url_of(client_port, server_port, token@));
    }
    v
}

/// Which of the child's standard streams a line came from.
#[derive(Clone, Copy, Debug, PartialEq, Eq, Structural)]
pub enum StreamKind {
    Stdout,
    Stderr,
}

/// One decoded line, tagged for the observation sink.
pub struct LogEvent {
    pub kind: StreamKind,
    pub text: Vec<u8>,
    pub session_id: String,
}

/// Per-process relay state: owns the readiness latch and the end-of-stream
/// accounting for the terminal "exited" signal.
pub struct LogRelay {
    pub client_port: u16,
    pub server_port: u16,
    pub session_id: String,
    pub url_emitted: bool,
    pub stdout_open: bool,
    pub stderr_open: bool,
    pub exit_emitted: bool,
}

impl LogRelay {
    pub fn new(client_port: u16, server_port: u16, session_id: String) -> (r: LogRelay)
        ensures
            r.client_port == client_port,
            r.server_port == server_port,
            r.session_id == session_id,
            !r.url_emitted,
            r.stdout_open,
            r.stderr_open,
            !r.exit_emitted,
    {
        LogRelay {
            client_port,
            server_port,
            session_id,
            url_emitted: false,
            stdout_open: true,
            stderr_open: true,
            exit_emitted: false,
        }
    }

    /// Handles one decoded line: returns the tagged event to forward, and the
    /// composed access URL exactly when this line carries the first credential
    /// seen on stdout.
    pub fn on_line(&mut self, kind: StreamKind, line: Vec<u8>) -> (r: (LogEvent, Option<Vec<u8>>))
        ensures
            r.0.kind == kind,
            r.0.text@ == line@,
            r.0.session_id == old(self).session_id,
            final(self).client_port == old(self).client_port,
            final(self).server_port == old(self).server_port,
            final(self).session_id == old(self).session_id,
            final(self).stdout_open == old(self).stdout_open,
            final(self).stderr_open == old(self).stderr_open,
            final(self).exit_emitted == old(self).exit_emitted,
            (r.1 is Some) <==> (kind == StreamKind::Stdout && !old(self).url_emitted
                && token_after(line@) is Some),
            match r.1 {
                Some(u) => u@ == url_of(
                    old(self).client_port,
                    old(self).server_port,
                    token_after(line@).unwrap(),
                ),
                None => true,
            },
            final(self).url_emitted == (old(self).url_emitted || (kind == StreamKind::Stdout
                && token_after(line@) is Some)),
    {
        let mut ready: Option<Vec<u8>> = None;
        if matches!(kind, StreamKind::Stdout) {
            if let Some(token) = scan_for_token(&line) {
                if !self.url_emitted {
                    ready = Some(compose_url(self.client_port, self.server_port, &token));
                }
                self.url_emitted = true;
            }
        }
        let event = LogEvent { kind, text: line, session_id: self.session_id.clone() };
        (event, ready)
    }

    /// Notes that one stream reached end-of-stream: returns the session id of
    /// the terminal "exited" signal exactly when both streams have now ended
    /// and the signal has not been emitted before.
    pub fn on_eof(&mut self, kind: StreamKind) -> (r: Option<String>)
        ensures
            final(self).client_port == old(self).client_port,
            final(self).server_port == old(self).server_port,
            final(self).session_id == old(self).session_id,
            final(self).url_emitted == old(self).url_emitted,
            final(self).stdout_open == (old(self).stdout_open && kind != StreamKind::Stdout),
            final(self).stderr_open == (old(self).stderr_open && kind != StreamKind::Stderr),
            final(self).exit_emitted == (old(self).exit_emitted || (!final(self).stdout_open
                && !final(self).stderr_open)),
            (r is Some) <==> (!old(self).exit_emitted && !final(self).stdout_open
                && !final(self).stderr_open),
            match r {
                Some(sid) => sid == old(self).session_id,
                None => true,
            },
    {
        match kind {
            StreamKind::Stdout => {
                self.stdout_open = false;
            },
            StreamKind::Stderr => {
                self.stderr_open = false;
            },
        }
        if !self.stdout_open && !self.stderr_open && !self.exit_emitted {
            self.exit_emitted = true;
            Some(self.session_id.clone())
        } else {
            if !self.stdout_open && !self.stderr_open {
                self.exit_emitted = true;
            }
            None
        }
    }
}

} // verus!
