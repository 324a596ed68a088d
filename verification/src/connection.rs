//! Connection and target resolution.
//!
//! [`extract_port_from_ws_url`] reads the port out of a WebSocket URL.
//! [`select_target`] is the pure selection policy choosing one target
//! from an ordered list. [`ConnectionResolver`] is the priority chain
//! deciding how to reach the browser: it is a step machine whose every
//! transition is specified, while the caller performs the network
//! probes it asks for.

use crate::error::{
    no_chrome_found_message, no_page_targets_message, stale_session_message,
    target_not_found_message, AppError, ExitCode,
};
use crate::text::{
    after_last, before_first, chars_of, find_char, has_prefix, last_index_of,
    lemma_first_index_of_found, lemma_first_index_of_none, lemma_last_index_of_found,
    lemma_last_index_of_none, parse_u16_chars, parse_u16_spec, parse_usize_chars,
    parse_usize_spec, rfind_char, str_eq, subvec,
};
use vstd::prelude::*;
use vstd::pervasive::unreached;
use vstd::string::StringExecFns;

verus! {

/// One addressable browsing context (tab, background page, worker, ...)
/// reported by the browser.
#[derive(Debug)]
pub struct TargetInfo {
    pub id: String,
    pub target_type: String,
    pub title: String,
    pub url: String,
    pub ws_debugger_url: Option<String>,
}

impl Clone for TargetInfo {
    /// An owned copy equal to the original.
    fn clone(&self) -> (r: Self)
        ensures
            r == *self,
    {
        TargetInfo {
            id: self.id.clone(),
            target_type: self.target_type.clone(),
            title: self.title.clone(),
            url: self.url.clone(),
            ws_debugger_url: match &self.ws_debugger_url {
                Some(u) => Some(u.clone()),
                None => None,
            },
        }
    }
}

/// Resolved connection info ready for use by a command. The port is a
/// 16-bit value by construction.
#[derive(Debug)]
pub struct ResolvedConnection {
    pub ws_url: String,
    pub host: String,
    pub port: u16,
}

/// The remainder of `s` after a recognized WebSocket scheme prefix,
/// plain variant first, or `None` if neither scheme is present.
pub open spec fn strip_ws_scheme(s: Seq<char>) -> Option<Seq<char>> {
    if s.len() >= 5 && s.subrange(0, 5) == "ws://"@ {
        Some(s.subrange(5, s.len() as int))
    } else if s.len() >= 6 && s.subrange(0, 6) == "wss://"@ {
        Some(s.subrange(6, s.len() as int))
    } else {
        None
    }
}

/// The port of a WebSocket URL `ws://host:port/path` or
/// `wss://host:port/path`: after the scheme, the part up to the first
/// `/` is taken, and its suffix after the last colon is parsed as a
/// 16-bit unsigned integer. Any failure — unrecognized scheme, missing
/// colon, non-numeric or out-of-range token — yields `None`.
pub open spec fn extract_port_spec(url: Seq<char>) -> Option<u16> {
    match strip_ws_scheme(url) {
        Some(rest) => {
            let host_port = before_first(rest, '/');
            if last_index_of(host_port, ':') is Some {
                parse_u16_spec(after_last(host_port, ':'))
            } else {
                None
            }
        },
        None => None,
    }
}

/// The port an explicit WebSocket URL resolves to: the parsed port if
/// one can be extracted, the caller-supplied default otherwise.
pub open spec fn explicit_port(url: Seq<char>, default_port: u16) -> u16 {
    match extract_port_spec(url) {
        Some(p) => p,
        None => default_port,
    }
}

/// Extract the port from a WebSocket URL like `ws://host:port/path`.
///
/// Best-effort enrichment of an explicit address: it never raises an
/// error, absence simply triggers the caller's fallback port.
pub fn extract_port_from_ws_url(url: &str) -> (r: Option<u16>)
    ensures
        r == extract_port_spec(url@),
{
    let cs = chars_of(url);
    let n = cs.len();
    proof {
        reveal_strlit("ws://");
        reveal_strlit("wss://");
    }
    let start: usize;
    if has_prefix(&cs, "ws://") {
        start = 5;
    } else if has_prefix(&cs, "wss://") {
        start = 6;
    } else {
        return None;
    }
    let ghost rest = url@.subrange(start as int, n as int);
    let end = match find_char(&cs, start, n, '/') {
        Some(i) => {
            proof {
                assert forall|j: int| 0 <= j < i - start implies rest[j] != '/' by {
                    assert(rest[j] == cs@[start + j]);
                }
                lemma_first_index_of_found(rest, '/', i - start);
            }
            i
        },
        None => {
            proof {
                assert forall|j: int| 0 <= j < rest.len() implies rest[j] != '/' by {
                    assert(rest[j] == cs@[start + j]);
                }
                lemma_first_index_of_none(rest, '/');
            }
            n
        },
    };
    let ghost host_port = before_first(rest, '/');
    proof {
        assert(host_port =~= url@.subrange(start as int, end as int));
    }
    let tok_start = match rfind_char(&cs, start, end, ':') {
        Some(i) => {
            proof {
                assert(host_port[i - start] == cs@[i as int]);
                assert forall|j: int| i - start < j < host_port.len() implies host_port[j] != ':' by {
                    assert(host_port[j] == cs@[start + j]);
                }
                lemma_last_index_of_found(host_port, ':', i - start);
            }
            i + 1
        },
        None => {
            proof {
                assert forall|j: int| 0 <= j < host_port.len() implies host_port[j] != ':' by {
                    assert(host_port[j] == cs@[start + j]);
                }
                lemma_last_index_of_none(host_port, ':');
            }
            return None;
        },
    };
    let token = subvec(&cs, tok_start, end);
    proof {
        assert(token@ =~= after_last(host_port, ':'));
    }
    parse_u16_chars(&token)
}

/// Whether a target is a page-typed browsing context.
pub open spec fn is_page(t: TargetInfo) -> bool {
    t.target_type@ == "page"@
}

/// The index of the first page-typed target, if any.
pub open spec fn first_page_index(ts: Seq<TargetInfo>) -> Option<int>
    decreases ts.len(),
{
    if ts.len() == 0 {
        None
    } else if is_page(ts[0]) {
        Some(0)
    } else {
        match first_page_index(ts.drop_first()) {
            Some(i) => Some(i + 1),
            None => None,
        }
    }
}

/// The index of the first target whose ID is exactly `id`, if any.
pub open spec fn first_id_index(ts: Seq<TargetInfo>, id: Seq<char>) -> Option<int>
    decreases ts.len(),
{
    if ts.len() == 0 {
        None
    } else if ts[0].id@ == id {
        Some(0)
    } else {
        match first_id_index(ts.drop_first(), id) {
            Some(i) => Some(i + 1),
            None => None,
        }
    }
}

proof fn lemma_first_page_index(ts: Seq<TargetInfo>)
    ensures
        match first_page_index(ts) {
            Some(i) => 0 <= i < ts.len() && is_page(ts[i]) && (forall|j: int|
                0 <= j < i ==> !is_page(#[trigger] ts[j])),
            None => forall|j: int| 0 <= j < ts.len() ==> !is_page(#[trigger] ts[j]),
        },
    decreases ts.len(),
{
    if ts.len() > 0 && !is_page(ts[0]) {
        let d = ts.drop_first();
        lemma_first_page_index(d);
        match first_page_index(d) {
            Some(i) => {
                assert(d[i] == ts[i + 1]);
                assert forall|j: int| 0 <= j < i + 1 implies !is_page(#[trigger] ts[j]) by {
                    if j > 0 {
                        assert(d[j - 1] == ts[j]);
                        assert(!is_page(d[j - 1]));
                    }
                }
            },
            None => {
                assert forall|j: int| 0 <= j < ts.len() implies !is_page(#[trigger] ts[j]) by {
                    if j > 0 {
                        assert(d[j - 1] == ts[j]);
                        assert(!is_page(d[j - 1]));
                    }
                }
            },
        }
    }
}

proof fn lemma_first_id_index(ts: Seq<TargetInfo>, id: Seq<char>)
    ensures
        match first_id_index(ts, id) {
            Some(i) => 0 <= i < ts.len() && ts[i].id@ == id && (forall|j: int|
                0 <= j < i ==> (#[trigger] ts[j]).id@ != id),
            None => forall|j: int| 0 <= j < ts.len() ==> (#[trigger] ts[j]).id@ != id,
        },
    decreases ts.len(),
{
    if ts.len() > 0 && ts[0].id@ != id {
        let d = ts.drop_first();
        lemma_first_id_index(d, id);
        match first_id_index(d, id) {
            Some(i) => {
                assert(d[i] == ts[i + 1]);
                assert forall|j: int| 0 <= j < i + 1 implies (#[trigger] ts[j]).id@ != id by {
                    if j > 0 {
                        assert(d[j - 1] == ts[j]);
                        assert(d[j - 1].id@ != id);
                    }
                }
            },
            None => {
                assert forall|j: int| 0 <= j < ts.len() implies (#[trigger] ts[j]).id@ != id by {
                    if j > 0 {
                        assert(d[j - 1] == ts[j]);
                        assert(d[j - 1].id@ != id);
                    }
                }
            },
        }
    }
}

proof fn lemma_first_page_index_found(ts: Seq<TargetInfo>, k: int)
    requires
        0 <= k < ts.len(),
        is_page(ts[k]),
        forall|j: int| 0 <= j < k ==> !is_page(#[trigger] ts[j]),
    ensures
        first_page_index(ts) == Some(k),
    decreases ts.len(),
{
    if k > 0 {
        let d = ts.drop_first();
        assert(forall|j: int| 0 <= j < k - 1 ==> d[j] == #[trigger] ts[j + 1]);
        lemma_first_page_index_found(d, k - 1);
    }
}

proof fn lemma_first_id_index_found(ts: Seq<TargetInfo>, id: Seq<char>, k: int)
    requires
        0 <= k < ts.len(),
        ts[k].id@ == id,
        forall|j: int| 0 <= j < k ==> (#[trigger] ts[j]).id@ != id,
    ensures
        first_id_index(ts, id) == Some(k),
    decreases ts.len(),
{
    if k > 0 {
        let d = ts.drop_first();
        assert(forall|j: int| 0 <= j < k - 1 ==> d[j] == #[trigger] ts[j + 1]);
        lemma_first_id_index_found(d, id, k - 1);
    }
}

proof fn lemma_first_page_index_none(ts: Seq<TargetInfo>)
    requires
        forall|j: int| 0 <= j < ts.len() ==> !is_page(#[trigger] ts[j]),
    ensures
        first_page_index(ts) is None,
    decreases ts.len(),
{
    if ts.len() > 0 {
        let d = ts.drop_first();
        assert(forall|j: int| 0 <= j < d.len() ==> d[j] == #[trigger] ts[j + 1]);
        lemma_first_page_index_none(d);
    }
}

proof fn lemma_first_id_index_none(ts: Seq<TargetInfo>, id: Seq<char>)
    requires
        forall|j: int| 0 <= j < ts.len() ==> (#[trigger] ts[j]).id@ != id,
    ensures
        first_id_index(ts, id) is None,
    decreases ts.len(),
{
    if ts.len() > 0 {
        let d = ts.drop_first();
        assert(forall|j: int| 0 <= j < d.len() ==> d[j] == #[trigger] ts[j + 1]);
        lemma_first_id_index_none(d, id);
    }
}

/// The view of an optional selector string.
pub open spec fn selector_view(tab: Option<&str>) -> Option<Seq<char>> {
    match tab {
        Some(s) => Some(s@),
        None => None,
    }
}

/// The index of the target that `select_target` picks, or `None` where
/// selection fails. Without a selector, the first page-typed entry is
/// chosen. A selector that parses as a non-negative integer is always a
/// zero-based index into the full, unfiltered list, never an ID; any
/// other selector names the earliest entry with exactly that ID.
pub open spec fn selected_index(ts: Seq<TargetInfo>, tab: Option<Seq<char>>) -> Option<int> {
    match tab {
        None => first_page_index(ts),
        Some(sel) => match parse_usize_spec(sel) {
            Some(idx) => if idx < ts.len() {
                Some(idx as int)
            } else {
                None
            },
            None => first_id_index(ts, sel),
        },
    }
}

/// Select a target from an ordered list given an optional selector.
///
/// Without a selector this returns the first page-typed target in list
/// order, or a `TargetError` ("no page targets") if none exists. A
/// selector is first read as a non-negative integer and then indexes
/// the full, unfiltered list; a non-numeric selector is matched against
/// target IDs, earliest occurrence first. A selector that matches
/// nothing yields a `TargetError` carrying the selector text.
pub fn select_target<'a>(targets: &'a [TargetInfo], tab: Option<&str>) -> (r: Result<
    &'a TargetInfo,
    AppError,
>)
    ensures
        match selected_index(targets@, selector_view(tab)) {
            Some(i) => r matches Ok(t) && 0 <= i < targets@.len() && *t == targets@[i],
            None => match tab {
                None => r matches Err(e) && e.code == ExitCode::TargetError && e.message@
                    == no_page_targets_message(),
                Some(sel) => r matches Err(e) && e.code == ExitCode::TargetError && e.message@
                    == target_not_found_message(sel@),
            },
        },
{
    match tab {
        None => {
            let n = targets.len();
            let mut i: usize = 0;
            while i < n
                invariant
                    tab is None,
                    i <= n,
                    n == targets@.len(),
                    forall|j: int| 0 <= j < i ==> !is_page(#[trigger] targets@[j]),
                decreases n - i,
            {
                let t = &targets[i];
                if str_eq(t.target_type.as_str(), "page") {
                    proof {
                        lemma_first_page_index_found(targets@, i as int);
                    }
                    return Ok(t);
                }
                i += 1;
            }
            proof {
                lemma_first_page_index_none(targets@);
            }
            Err(AppError::no_page_targets())
        },
        Some(value) => {
            let vchars = chars_of(value);
            match parse_usize_chars(&vchars) {
                Some(index) => {
                    if index < targets.len() {
                        Ok(&targets[index])
                    } else {
                        Err(AppError::target_not_found(value))
                    }
                },
                None => {
                    let n = targets.len();
                    let mut i: usize = 0;
                    while i < n
                        invariant
                            selector_view(tab) == Some(value@),
                            parse_usize_spec(value@) is None,
                            i <= n,
                            n == targets@.len(),
                            forall|j: int| 0 <= j < i ==> (#[trigger] targets@[j]).id@ != value@,
                        decreases n - i,
                    {
                        let t = &targets[i];
                        if str_eq(t.id.as_str(), value) {
                            proof {
                                lemma_first_id_index_found(targets@, value@, i as int);
                            }
                            return Ok(t);
                        }
                        i += 1;
                    }
                    proof {
                        lemma_first_id_index_none(targets@, value@);
                    }
                    Err(AppError::target_not_found(value))
                },
            }
        },
    }
}

/// Law: without a selector, a list that holds no page-typed entry
/// always fails selection, whatever its length or the ordering of its
/// other entries. The empty list is the special case with nothing to
/// rule out.
pub proof fn lemma_no_pages_means_no_default(ts: Seq<TargetInfo>)
    requires
        forall|j: int| 0 <= j < ts.len() ==> !is_page(#[trigger] ts[j]),
    ensures
        selected_index(ts, None) is None,
{
    lemma_first_page_index_none(ts);
}

/// Law: without a selector, selection picks exactly the first
/// page-typed entry in the server-supplied order, even when pages are
/// interleaved with entries of other types.
pub proof fn lemma_default_picks_first_page(ts: Seq<TargetInfo>)
    requires
        exists|j: int| 0 <= j < ts.len() && is_page(#[trigger] ts[j]),
    ensures
        selected_index(ts, None) matches Some(i) && 0 <= i < ts.len() && is_page(ts[i]) && (
        forall|j: int| 0 <= j < i ==> !is_page(#[trigger] ts[j])),
{
    lemma_first_page_index(ts);
    if first_page_index(ts) is None {
        let j = choose|j: int| 0 <= j < ts.len() && is_page(#[trigger] ts[j]);
        assert(!is_page(ts[j]));
    }
}

/// Law: a selector that parses as a non-negative integer is always a
/// zero-based index into the full, unfiltered list — never an ID, even
/// if some ID is all digits. In range it picks exactly that element,
/// whatever its type; out of range, selection fails.
pub proof fn lemma_numeric_selector_is_index(ts: Seq<TargetInfo>, sel: Seq<char>, idx: usize)
    requires
        parse_usize_spec(sel) == Some(idx),
    ensures
        selected_index(ts, Some(sel)) == if (idx as int) < ts.len() {
            Some(idx as int)
        } else {
            None::<int>
        },
{
}

/// Law: a selector that does not parse as an integer names a target ID:
/// it picks exactly the earliest entry with that ID, and fails exactly
/// when no entry has it.
pub proof fn lemma_id_selector_matches_earliest(ts: Seq<TargetInfo>, sel: Seq<char>)
    requires
        parse_usize_spec(sel) is None,
    ensures
        match selected_index(ts, Some(sel)) {
            Some(i) => 0 <= i < ts.len() && ts[i].id@ == sel && (forall|j: int|
                0 <= j < i ==> (#[trigger] ts[j]).id@ != sel),
            None => forall|j: int| 0 <= j < ts.len() ==> (#[trigger] ts[j]).id@ != sel,
        },
{
    lemma_first_id_index(ts, sel);
}

/// A connection descriptor cached by a prior run: a websocket address
/// and its port. It is read-only here and possibly stale, so it is
/// trusted only after a successful liveness probe.
pub struct SessionRecord {
    pub ws_url: String,
    pub port: u16,
}

/// A network probe the resolver asks its caller to perform. The caller
/// answers with the matching outcome.
pub enum ProbeRequest {
    /// Read the cached session record, if any.
    ReadSession,
    /// Probe liveness (a version/info query) at the resolver's host and
    /// the given port.
    CheckLiveness { port: u16 },
    /// Probe for a running debuggable instance at the resolver's host
    /// and the given port.
    Discover { port: u16 },
}

/// What the resolver decided after a step: either the next probe to
/// perform, or the terminal outcome of resolution.
pub enum ResolveStep {
    /// Resolution needs the given probe next.
    Probe(ProbeRequest),
    /// Resolution succeeded.
    Resolved(ResolvedConnection),
    /// Resolution failed; no further step follows.
    Failed(AppError),
}

/// Where the resolver stands in the priority chain.
pub enum ResolvePhase {
    /// Waiting for the cached session record to be read.
    AwaitSession,
    /// Waiting for the liveness probe of the cached record.
    AwaitLiveness { record: SessionRecord },
    /// Waiting for the discovery probe.
    AwaitDiscovery,
    /// Resolution ended; no further step is accepted.
    Finished,
}

/// The priority chain deciding how to reach the browser, evaluated in
/// fixed order with the first applicable strategy winning: an explicit
/// websocket URL (trusted as-is, no liveness check), then a cached
/// session record (only if it passes a liveness probe; a failing probe
/// is terminal and never falls through to discovery), then network
/// discovery at the default port.
///
/// The resolver performs no I/O itself: [`ConnectionResolver::start`]
/// and the `on_*` steps return a [`ResolveStep`] naming the probe whose
/// outcome the caller must feed back next, until the step is terminal.
pub struct ConnectionResolver {
    pub host: String,
    pub default_port: u16,
    pub phase: ResolvePhase,
}

impl ConnectionResolver {
    /// Begin resolution. With an explicit websocket URL the resolution
    /// ends at once: the URL is taken as-is and its port is the parsed
    /// one, or `default_port` where no port can be extracted. Without
    /// one, the resolver first asks for the cached session record.
    pub fn start(host: &str, default_port: u16, ws_url: Option<&str>) -> (r: (
        ConnectionResolver,
        ResolveStep,
    ))
        ensures
            r.0.host@ == host@,
            r.0.default_port == default_port,
            match ws_url {
                Some(u) => {
                    &&& r.0.phase is Finished
                    &&& r.1 matches ResolveStep::Resolved(c)
                    &&& c.ws_url@ == u@
                    &&& c.host@ == host@
                    &&& c.port == explicit_port(u@, default_port)
                },
                None => {
                    &&& r.0.phase is AwaitSession
                    &&& r.1 matches ResolveStep::Probe(p)
                    &&& p is ReadSession
                },
            },
    {
        match ws_url {
            Some(u) => {
                let port = match extract_port_from_ws_url(u) {
                    Some(p) => p,
                    None => default_port,
                };
                let conn = ResolvedConnection { ws_url: u.to_owned(), host: host.to_owned(), port };
                let resolver = ConnectionResolver {
                    host: host.to_owned(),
                    default_port,
                    phase: ResolvePhase::Finished,
                };
                (resolver, ResolveStep::Resolved(conn))
            },
            None => {
                let resolver = ConnectionResolver {
                    host: host.to_owned(),
                    default_port,
                    phase: ResolvePhase::AwaitSession,
                };
                (resolver, ResolveStep::Probe(ProbeRequest::ReadSession))
            },
        }
    }

    /// Feed in the outcome of reading the session store. A record moves
    /// the chain to the liveness probe of that record's port; no record
    /// moves it to discovery at the default port; a read failure is
    /// propagated unchanged and ends resolution.
    pub fn on_session(&mut self, read: Result<Option<SessionRecord>, AppError>) -> (step:
        ResolveStep)
        requires
            old(self).phase is AwaitSession,
        ensures
            final(self).host@ == old(self).host@,
            final(self).default_port == old(self).default_port,
            match read {
                Ok(Some(record)) => {
                    &&& final(self).phase matches ResolvePhase::AwaitLiveness { record: held }
                    &&& held == record
                    &&& step matches ResolveStep::Probe(ProbeRequest::CheckLiveness { port })
                    &&& port == record.port
                },
                Ok(None) => {
                    &&& final(self).phase is AwaitDiscovery
                    &&& step matches ResolveStep::Probe(ProbeRequest::Discover { port })
                    &&& port == old(self).default_port
                },
                Err(e) => {
                    &&& final(self).phase is Finished
                    &&& step matches ResolveStep::Failed(out)
                    &&& out == e
                },
            },
    {
        match read {
            Ok(Some(record)) => {
                let port = record.port;
                self.phase = ResolvePhase::AwaitLiveness { record };
                ResolveStep::Probe(ProbeRequest::CheckLiveness { port })
            },
            Ok(None) => {
                self.phase = ResolvePhase::AwaitDiscovery;
                ResolveStep::Probe(ProbeRequest::Discover { port: self.default_port })
            },
            Err(e) => {
                self.phase = ResolvePhase::Finished;
                ResolveStep::Failed(e)
            },
        }
    }

    /// Feed in the outcome of the liveness probe of the cached record.
    /// A live endpoint resolves to a connection built from the record;
    /// a dead one ends resolution with the stale-session connection
    /// error. Either way the step is terminal: in particular, a failed
    /// liveness probe never falls through to a discovery probe.
    pub fn on_liveness(&mut self, alive: bool) -> (step: ResolveStep)
        requires
            old(self).phase is AwaitLiveness,
        ensures
            final(self).host@ == old(self).host@,
            final(self).default_port == old(self).default_port,
            final(self).phase is Finished,
            !(step is Probe),
            old(self).phase matches ResolvePhase::AwaitLiveness { record } ==> if alive {
                &&& step matches ResolveStep::Resolved(c)
                &&& c.ws_url@ == record.ws_url@
                &&& c.host@ == old(self).host@
                &&& c.port == record.port
            } else {
                &&& step matches ResolveStep::Failed(e)
                &&& e.code == ExitCode::ConnectionError
                &&& e.message@ == stale_session_message()
            },
    {
        if !alive {
            self.phase = ResolvePhase::Finished;
            return ResolveStep::Failed(AppError::stale_session());
        }
        let conn = match &self.phase {
            ResolvePhase::AwaitLiveness { record } => ResolvedConnection {
                ws_url: record.ws_url.clone(),
                host: self.host.clone(),
                port: record.port,
            },
            _ => unreached(),
        };
        self.phase = ResolvePhase::Finished;
        ResolveStep::Resolved(conn)
    }

    /// Feed in the outcome of the discovery probe: the websocket URL
    /// and port of a discovered instance resolve to exactly that
    /// address, and a failed probe ends resolution with the no-browser
    /// connection error. Either way the step is terminal.
    pub fn on_discovery(&mut self, found: Option<(String, u16)>) -> (step: ResolveStep)
        requires
            old(self).phase is AwaitDiscovery,
        ensures
            final(self).host@ == old(self).host@,
            final(self).default_port == old(self).default_port,
            final(self).phase is Finished,
            !(step is Probe),
            match found {
                Some(endpoint) => {
                    &&& step matches ResolveStep::Resolved(c)
                    &&& c.ws_url@ == endpoint.0@
                    &&& c.host@ == old(self).host@
                    &&& c.port == endpoint.1
                },
                None => {
                    &&& step matches ResolveStep::Failed(e)
                    &&& e.code == ExitCode::ConnectionError
                    &&& e.message@ == no_chrome_found_message()
                },
            },
    {
        self.phase = ResolvePhase::Finished;
        match found {
            Some((ws_url, port)) => ResolveStep::Resolved(
                ResolvedConnection { ws_url, host: self.host.clone(), port },
            ),
            None => ResolveStep::Failed(AppError::no_chrome_found()),
        }
    }
}

} // verus!
