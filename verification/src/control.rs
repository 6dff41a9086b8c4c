//! Proxy start/stop bookkeeping behind the desktop workbench.

use vstd::prelude::*;
use crate::PLATFORM_NAME;

verus! {

/// What the desktop shell knows about its proxy.
#[derive(Debug)]
pub struct ProxyState {
    pub session_id: Option<String>,
    pub listen: Option<String>,
    pub ca_path: Option<String>,
    pub mitm: bool,
    pub running: bool,
}

/// Status report sent to the user interface.
#[derive(Debug)]
pub struct ProxyStatus {
    pub platform: String,
    pub version: String,
    pub running: bool,
    pub session_id: Option<String>,
    pub listen: Option<String>,
    pub ca_path: Option<String>,
    pub mitm: bool,
}

/// Text of the refusal to start a second proxy.
pub open spec fn already_running_text() -> Seq<char> {
    "proxy already running"@
}

fn clone_text(s: &Option<String>) -> (r: Option<String>)
    ensures
        r == *s,
{
    match s {
        Some(t) => Some(t.clone()),
        None => None,
    }
}

impl ProxyState {
    /// Nothing started yet.
    pub fn new() -> (s: Self)
        ensures
            !s.running,
            !s.mitm,
            s.session_id is None,
            s.listen is None,
            s.ca_path is None,
    {
        ProxyState { session_id: None, listen: None, ca_path: None, mitm: false, running: false }
    }

    /// The status report for the current state.
    pub fn status(&self, version: &str) -> (st: ProxyStatus)
        ensures
            st.platform@ == PLATFORM_NAME@,
            st.version@ == version@,
            st.running == self.running,
            st.session_id == self.session_id,
            st.listen == self.listen,
            st.ca_path == self.ca_path,
            st.mitm == self.mitm,
    {
        ProxyStatus {
            platform: String::from_str(PLATFORM_NAME),
            version: String::from_str(version),
            running: self.running,
            session_id: clone_text(&self.session_id),
            listen: clone_text(&self.listen),
            ca_path: clone_text(&self.ca_path),
            mitm: self.mitm,
        }
    }

    /// Whether a start request may proceed: refused while a proxy runs.
    pub fn check_can_start(&self) -> (r: Result<(), String>)
        ensures
            may_start(*self) <==> r is Ok,
            r matches Err(m) ==> m@ == already_running_text(),
    {
        if self.running {
            Err(String::from_str("proxy already running"))
        } else {
            Ok(())
        }
    }

    /// Records a proxy that started for `session_id`, listening on `listen`,
    /// with its CA certificate at `ca_path`.
    pub fn record_started(&mut self, session_id: String, listen: String, ca_path: String, mitm: bool)
        ensures
            final(self).running,
            final(self).session_id == Some(session_id),
            final(self).listen == Some(listen),
            final(self).ca_path == Some(ca_path),
            final(self).mitm == mitm,
    {
        self.session_id = Some(session_id);
        self.listen = Some(listen);
        self.ca_path = Some(ca_path);
        self.mitm = mitm;
        self.running = true;
    }

    /// Records a stop request: the proxy no longer runs; what it ran with is
    /// kept for display.
    pub fn record_stopped(&mut self)
        ensures
            *final(self) == stopped(*old(self)),
            !final(self).running,
            final(self).session_id == old(self).session_id,
            final(self).listen == old(self).listen,
            final(self).ca_path == old(self).ca_path,
            final(self).mitm == old(self).mitm,
    {
        self.running = false;
    }
}

/// Whether a start request may proceed in a state.
pub open spec fn may_start(s: ProxyState) -> bool {
    !s.running
}

/// The state after a stop request: not running, the rest kept.
pub open spec fn stopped(s: ProxyState) -> ProxyState {
    ProxyState { running: false, ..s }
}

/// Stopping twice leaves the state of stopping once, and a stopped proxy
/// may be started again.
pub proof fn law_stop_idempotent(s: ProxyState)
    ensures
        stopped(stopped(s)) == stopped(s),
        may_start(stopped(s)),
{
}

/// A stopped proxy always makes room for a new start, and a started one
/// refuses the next start until it is stopped.
pub proof fn law_start_stop(s: ProxyState, session_id: String, listen: String, ca_path: String, mitm: bool)
    ensures
        may_start(ProxyState { running: false, ..s }),
        !may_start(ProxyState { session_id: Some(session_id), listen: Some(listen), ca_path: Some(ca_path), mitm, running: true }),
{
}

} // verus!
