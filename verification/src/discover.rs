//! The decision core of host discovery: try one direct, timeout-bounded
//! connection first; only if it fails, sweep the 254 addresses of a /24
//! prefix and take any first success; if nothing answers, fail with a
//! record naming the port and prefix searched. The connection attempts
//! themselves are network work and live with the caller; this machine
//! decides what to try next and what the outcome is.
use vstd::prelude::*;
use vstd::string::*;
use crate::fail::{Attempt, Fail};
use crate::locate::ErrDetails;
use crate::text::{dec_rep, occurs_at};

verus! {

/// An established peer, identified by the address that answered.
pub struct Connection {
    addr: String,
}

impl Connection {
    /// The peer's address.
    pub closed spec fn spec_addr(&self) -> Seq<char> {
        self.addr@
    }

    /// Wraps the address that a successful attempt reached.
    pub fn new(addr: String) -> (r: Connection)
        ensures
            r.spec_addr() == addr@,
    {
        Connection { addr }
    }

    /// The peer's address, for display and logging.
    pub fn peer_addr(&self) -> (r: &str)
        ensures
            r@ == self.spec_addr(),
    {
        self.addr.as_str()
    }
}

/// Where discovery stands: before the direct attempt, before the sweep,
/// or finished with its outcome.
pub enum Phase {
    Direct,
    Sweep,
    Done(Attempt<Connection>),
}

/// The shape of a phase, for stating how the machine moves.
pub enum PhaseKind {
    Direct,
    Sweep,
    DoneOk,
    DoneErr,
}

/// The shape of `p`.
pub open spec fn kind_of(p: Phase) -> PhaseKind {
    match p {
        Phase::Direct => PhaseKind::Direct,
        Phase::Sweep => PhaseKind::Sweep,
        Phase::Done(a) => if a is Ok {
            PhaseKind::DoneOk
        } else {
            PhaseKind::DoneErr
        },
    }
}

/// How one reported attempt moves the machine: a success finishes it, a
/// failed direct attempt falls back to the sweep, a failed sweep exhausts
/// it, and a finished machine no longer moves.
pub open spec fn kind_step(k: PhaseKind, success: bool) -> PhaseKind {
    match k {
        PhaseKind::Direct => if success {
            PhaseKind::DoneOk
        } else {
            PhaseKind::Sweep
        },
        PhaseKind::Sweep => if success {
            PhaseKind::DoneOk
        } else {
            PhaseKind::DoneErr
        },
        other => other,
    }
}

/// What the caller should do next: one direct attempt, one concurrent
/// sweep over the listed candidates, or nothing.
pub enum Action {
    TryDirect(String, u16, u64),
    TrySweep(Vec<String>, u16, u64),
    Finished,
}

/// The message of an exhausted search, naming the prefix and the port.
pub open spec fn notfound_msg_spec(prefix: Seq<char>, port: u16) -> Seq<char> {
    "No reachable server found for LAN at address: "@ + prefix + "X:"@ + dec_rep(port as nat)
}

/// Composes the exhausted-search message.
pub fn notfound_msg(prefix: &str, port: u16) -> (r: String)
    ensures
        r@ == notfound_msg_spec(prefix@, port),
{
    let mut out = String::new();
    out.append("No reachable server found for LAN at address: ");
    out.append(prefix);
    out.append("X:");
    let p = crate::text::u64_to_string(port as u64);
    out.append(p.as_str());
    proof {
        assert(out@ =~= notfound_msg_spec(prefix@, port));
    }
    out
}

/// Law: the exhausted-search message names the configured port; its
/// decimal rendering stands at the end of the message.
pub proof fn lemma_notfound_names_port(prefix: Seq<char>, port: u16)
    ensures
        occurs_at(
            notfound_msg_spec(prefix, port),
            dec_rep(port as nat),
            notfound_msg_spec(prefix, port).len() - dec_rep(port as nat).len(),
        ),
{
    let s = notfound_msg_spec(prefix, port);
    let d = dec_rep(port as nat);
    assert(s.subrange(s.len() - d.len(), s.len() as int) =~= d);
}

/// The sweep candidates: `prefix` followed by each of `1` to `254`.
pub fn candidates(prefix: &str) -> (v: Vec<String>)
    ensures
        v@.len() == 254,
        forall|i: int| 0 <= i < 254 ==> (#[trigger] v@[i])@ == prefix@ + dec_rep((i + 1) as nat),
{
    let mut v: Vec<String> = Vec::new();
    let mut k: u64 = 1;
    while k <= 254
        invariant
            1 <= k <= 255,
            v@.len() == k - 1,
            forall|i: int| 0 <= i < k - 1 ==> (#[trigger] v@[i])@ == prefix@ + dec_rep((i + 1) as nat),
        decreases 255 - k,
    {
        let num = crate::text::u64_to_string(k);
        let addr = prefix.to_owned().concat(num.as_str());
        v.push(addr);
        k = k + 1;
    }
    v
}

/// The discovery state machine: the configured target, the sweep prefix,
/// the place failures are attributed to, and the current phase.
pub struct Discovery {
    ip: String,
    port: u16,
    timeout_ms: u64,
    prefix: String,
    place: ErrDetails,
    phase: Phase,
}

impl Discovery {
    /// The configured direct target address.
    pub closed spec fn spec_ip(&self) -> Seq<char> {
        self.ip@
    }

    /// The configured port.
    pub closed spec fn spec_port(&self) -> u16 {
        self.port
    }

    /// The configured per-attempt timeout, in milliseconds.
    pub closed spec fn spec_timeout(&self) -> u64 {
        self.timeout_ms
    }

    /// The configured sweep prefix.
    pub closed spec fn spec_prefix(&self) -> Seq<char> {
        self.prefix@
    }

    /// The place a terminal failure is attributed to.
    pub closed spec fn spec_place(&self) -> ErrDetails {
        self.place
    }

    /// The current phase.
    pub closed spec fn spec_phase(&self) -> Phase {
        self.phase
    }

    /// A discovery of `ip:port`, sweeping `prefix` on failure, each
    /// attempt bounded by `timeout_ms`; it starts before the direct
    /// attempt.
    pub fn new(ip: String, port: u16, timeout_ms: u64, prefix: String, place: ErrDetails) -> (d:
        Discovery)
        ensures
            d.spec_ip() == ip@,
            d.spec_port() == port,
            d.spec_timeout() == timeout_ms,
            d.spec_prefix() == prefix@,
            d.spec_place() == place,
            d.spec_phase() is Direct,
    {
        Discovery { ip, port, timeout_ms, prefix, place, phase: Phase::Direct }
    }

    /// What to attempt next. Only the direct phase asks for the direct
    /// attempt, only the sweep phase asks for a sweep, and a finished
    /// machine asks for nothing, so a discovery whose direct attempt
    /// succeeds never issues a sweep.
    pub fn next_action(&self) -> (a: Action)
        ensures
            self.spec_phase() is Direct ==> (a matches Action::TryDirect(addr, p, t) && addr@
                == self.spec_ip() && p == self.spec_port() && t == self.spec_timeout()),
            self.spec_phase() is Sweep ==> (a matches Action::TrySweep(v, p, t) && v@.len() == 254
                && (forall|i: int|
                0 <= i < 254 ==> (#[trigger] v@[i])@ == self.spec_prefix() + dec_rep(
                    (i + 1) as nat,
                )) && p == self.spec_port() && t == self.spec_timeout()),
            self.spec_phase() is Done ==> a is Finished,
    {
        match &self.phase {
            Phase::Direct => Action::TryDirect(self.ip.clone(), self.port, self.timeout_ms),
            Phase::Sweep => Action::TrySweep(
                candidates(self.prefix.as_str()),
                self.port,
                self.timeout_ms,
            ),
            Phase::Done(_) => Action::Finished,
        }
    }

    /// Reports the outcome of the attempted action: `Some(i)` when an
    /// attempt succeeded (`i` names the winning sweep candidate; the
    /// direct phase ignores it), `None` when every attempt failed. A
    /// successful direct attempt finishes with a connection to the
    /// configured address; a failed one falls back to the sweep. A
    /// successful sweep finishes with a connection to the winning
    /// candidate - whichever candidate won; a failed sweep finishes with
    /// a failure record attributed to the configured place, whose message
    /// names the prefix and the port.
    pub fn on_result(&mut self, winner: Option<usize>)
        requires
            old(self).spec_phase() is Sweep && winner is Some ==> winner->0 < 254,
        ensures
            final(self).spec_ip() == old(self).spec_ip(),
            final(self).spec_port() == old(self).spec_port(),
            final(self).spec_timeout() == old(self).spec_timeout(),
            final(self).spec_prefix() == old(self).spec_prefix(),
            final(self).spec_place() == old(self).spec_place(),
            kind_of(final(self).spec_phase()) == kind_step(
                kind_of(old(self).spec_phase()),
                winner is Some,
            ),
            old(self).spec_phase() is Direct && winner is Some ==> (final(self).spec_phase()
                matches Phase::Done(a) && a is Ok && a->Ok_0.spec_addr() == old(self).spec_ip()),
            old(self).spec_phase() is Direct && winner is None ==> final(self).spec_phase()
                is Sweep,
            old(self).spec_phase() is Sweep && winner is Some ==> (final(self).spec_phase()
                matches Phase::Done(a) && a is Ok && a->Ok_0.spec_addr() == old(self).spec_prefix()
                + dec_rep((winner->0 + 1) as nat)),
            old(self).spec_phase() is Sweep && winner is None ==> (final(self).spec_phase()
                matches Phase::Done(a) && a is Err && a->Err_0.wf() && a->Err_0.spec_places()
                == seq![old(self).spec_place()] && a->Err_0.spec_msg() == notfound_msg_spec(
                old(self).spec_prefix(),
                old(self).spec_port(),
            )),
            old(self).spec_phase() is Done ==> final(self).spec_phase() == old(self).spec_phase(),
    {
        match &self.phase {
            Phase::Direct => match winner {
                Some(_) => {
                    let conn = Connection::new(self.ip.clone());
                    self.phase = Phase::Done(Ok(conn));
                },
                None => {
                    self.phase = Phase::Sweep;
                },
            },
            Phase::Sweep => match winner {
                Some(i) => {
                    let num = crate::text::u64_to_string((i as u64) + 1);
                    let addr = self.prefix.clone().concat(num.as_str());
                    let conn = Connection::new(addr);
                    self.phase = Phase::Done(Ok(conn));
                },
                None => {
                    let msg = notfound_msg(self.prefix.as_str(), self.port);
                    let f = Fail::new(self.place.duplicate(), msg);
                    self.phase = Phase::Done(Err(f));
                },
            },
            Phase::Done(_) => {},
        }
    }

    /// The outcome, once the machine is finished.
    pub fn into_result(self) -> (r: Option<Attempt<Connection>>)
        ensures
            match self.spec_phase() {
                Phase::Done(a) => r == Some(a),
                _ => r is None,
            },
    {
        match self.phase {
            Phase::Done(a) => Some(a),
            _ => None,
        }
    }
}

/// Law: a discovery whose direct attempt succeeds is finished at once,
/// and stays finished whatever is reported later; it never reaches the
/// sweep phase, the only phase whose next action is a sweep.
pub proof fn lemma_direct_success_skips_sweep()
    ensures
        kind_step(PhaseKind::Direct, true) == PhaseKind::DoneOk,
        forall|s: bool| kind_step(PhaseKind::DoneOk, s) == PhaseKind::DoneOk,
{
}

/// Law: a failed direct attempt falls back to the sweep, and a sweep with
/// a reachable candidate finishes discovery with a connection.
pub proof fn lemma_fallback_finds_candidate()
    ensures
        kind_step(PhaseKind::Direct, false) == PhaseKind::Sweep,
        kind_step(kind_step(PhaseKind::Direct, false), true) == PhaseKind::DoneOk,
{
}

/// Law: when neither the direct attempt nor any sweep candidate answers,
/// discovery finishes with a failure.
pub proof fn lemma_exhausted_search_fails()
    ensures
        kind_step(kind_step(PhaseKind::Direct, false), false) == PhaseKind::DoneErr,
{
}

} // verus!
