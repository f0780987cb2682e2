//! The state of the PAC server and what starting and stopping it does to
//! that state. Listening, threads and locks stay with the caller; the state
//! says what the server serves and where.

use vstd::prelude::*;
use vstd::string::StringExecFns;
use crate::http::{page_text, response_text, Route, CONTENT_TYPE_PAC, STATUS_OK};
use crate::pac::{
    make_pac_body, make_pac_direct_body, make_pac_url, pac_body_text, pac_url_text,
    PAC_DIRECT_BODY,
};

verus! {

/// The first port that the PAC server tries to listen on.
pub const PAC_PORT_START: u16 = 8787;

/// The last port that the PAC server tries before it asks the system for one.
pub const PAC_PORT_END: u16 = 8887;

/// The start of the error reported when no port can be had for the PAC
/// server; the system's reason follows.
pub const NO_PAC_PORT_PREFIX: &'static str = "PAC için uygun port bulunamadı: ";

/// What the PAC server serves and where.
pub struct PacServerState {
    /// The PAC script served at `/proxy.pac`.
    pub pac_body: String,
    /// The port the server listens on (0 before the first start).
    pub pac_port: u16,
    /// The address of the PAC script shown on the setup page.
    pub pac_url: String,
    /// Whether a server thread is running.
    pub running: bool,
    /// Whether the server thread has been told to stop.
    pub shutdown: bool,
}

/// The answer to a start request: the port of the PAC server.
pub struct PacResponse {
    pub pac_port: u16,
}

/// The first step of a start: either the server already runs (and only the
/// script and its address were updated), or a listener must be found.
pub enum StartStep {
    AlreadyRunning { pac_port: u16 },
    NeedListener,
}

/// The state of the PAC server as plain values.
pub struct PacServerModel {
    pub pac_body: Seq<char>,
    pub pac_port: u16,
    pub pac_url: Seq<char>,
    pub running: bool,
    pub shutdown: bool,
}

impl View for PacServerState {
    type V = PacServerModel;

    open spec fn view(&self) -> PacServerModel {
        PacServerModel {
            pac_body: self.pac_body@,
            pac_port: self.pac_port,
            pac_url: self.pac_url@,
            running: self.running,
            shutdown: self.shutdown,
        }
    }
}

/// A stopped server that would send every request direct.
pub open spec fn initial_model() -> PacServerModel {
    PacServerModel {
        pac_body: PAC_DIRECT_BODY@,
        pac_port: 0,
        pac_url: seq![],
        running: false,
        shutdown: false,
    }
}

/// The state after a start request for the proxy at `lan_ip:proxy_port`
/// has updated the script (and, on a running server, the address).
pub open spec fn begin_start_model(m: PacServerModel, lan_ip: Seq<char>, proxy_port: u16) -> PacServerModel {
    PacServerModel {
        pac_body: pac_body_text(lan_ip, proxy_port),
        pac_url: if m.running {
            pac_url_text(lan_ip, m.pac_port)
        } else {
            m.pac_url
        },
        ..m
    }
}

/// What the first step of a start request reports.
pub open spec fn begin_start_step(m: PacServerModel) -> StartStep {
    if m.running {
        StartStep::AlreadyRunning { pac_port: m.pac_port }
    } else {
        StartStep::NeedListener
    }
}

/// The state once a listener on `port` of `lan_ip` serves.
pub open spec fn finish_start_model(m: PacServerModel, lan_ip: Seq<char>, port: u16) -> PacServerModel {
    PacServerModel {
        pac_port: port,
        pac_url: pac_url_text(lan_ip, port),
        running: true,
        shutdown: false,
        ..m
    }
}

/// The state after the proxy stops: the script sends everything direct.
pub open spec fn stop_model(m: PacServerModel) -> PacServerModel {
    PacServerModel { pac_body: PAC_DIRECT_BODY@, ..m }
}

/// The state as the application exits: script direct, thread told to end.
pub open spec fn force_stop_model(m: PacServerModel) -> PacServerModel {
    PacServerModel { pac_body: PAC_DIRECT_BODY@, running: false, shutdown: true, ..m }
}

impl Default for PacServerState {
    /// A stopped server that would send every request direct.
    fn default() -> (state: Self)
        ensures
            state@ == initial_model(),
    {
        PacServerState {
            pac_body: make_pac_direct_body(),
            pac_port: 0,
            pac_url: String::new(),
            running: false,
            shutdown: false,
        }
    }
}

impl PacServerState {
    /// Switches the served script to the proxy at `lan_ip:proxy_port`. When
    /// the server runs, also points its address at `lan_ip` on the current
    /// port and reports that port; otherwise asks for a listener.
    pub fn begin_start(&mut self, lan_ip: &str, proxy_port: u16) -> (step: StartStep)
        ensures
            final(self)@ == begin_start_model(old(self)@, lan_ip@, proxy_port),
            step == begin_start_step(old(self)@),
    {
        self.pac_body = make_pac_body(lan_ip, proxy_port);
        if self.running {
            self.pac_url = make_pac_url(lan_ip, self.pac_port);
            StartStep::AlreadyRunning { pac_port: self.pac_port }
        } else {
            StartStep::NeedListener
        }
    }

    /// Records a server that now listens on `port` of `lan_ip`.
    pub fn finish_start(&mut self, lan_ip: &str, port: u16) -> (response: PacResponse)
        ensures
            final(self)@ == finish_start_model(old(self)@, lan_ip@, port),
            response.pac_port == port,
    {
        self.pac_port = port;
        self.pac_url = make_pac_url(lan_ip, port);
        self.shutdown = false;
        self.running = true;
        PacResponse { pac_port: port }
    }

    /// Sends every request direct again; the server keeps running, so
    /// devices keep their connection.
    pub fn stop(&mut self)
        ensures
            final(self)@ == stop_model(old(self)@),
    {
        self.pac_body = make_pac_direct_body();
    }

    /// Sends every request direct and tells the server thread to end, as
    /// the application exits.
    pub fn force_stop(&mut self)
        ensures
            final(self)@ == force_stop_model(old(self)@),
    {
        self.pac_body = make_pac_direct_body();
        self.shutdown = true;
        self.running = false;
    }
}

/// After a stop, and after an exit, every device is sent direct, whatever
/// the server served before; a stop leaves the server listening where it
/// was.
pub proof fn stopped_server_sends_direct(m: PacServerModel)
    ensures
        stop_model(m).pac_body == PAC_DIRECT_BODY@,
        force_stop_model(m).pac_body == PAC_DIRECT_BODY@,
        stop_model(m).running == m.running,
        stop_model(m).pac_port == m.pac_port,
        stop_model(m).pac_url == m.pac_url,
{
}

/// Stopping twice is stopping once.
pub proof fn stop_is_idempotent(m: PacServerModel)
    ensures
        stop_model(stop_model(m)) == stop_model(m),
        force_stop_model(force_stop_model(m)) == force_stop_model(m),
{
}

/// A start request on a running server keeps its port: it reports the port
/// the server listens on, and the published address keeps that port.
pub proof fn restart_keeps_port(m: PacServerModel, lan_ip: Seq<char>, proxy_port: u16)
    requires
        m.running,
    ensures
        begin_start_step(m) == (StartStep::AlreadyRunning { pac_port: m.pac_port }),
        begin_start_model(m, lan_ip, proxy_port).pac_port == m.pac_port,
        begin_start_model(m, lan_ip, proxy_port).pac_url == pac_url_text(lan_ip, m.pac_port),
        begin_start_model(m, lan_ip, proxy_port).running,
{
}

/// A full start serves the proxy script and publishes the address of the
/// port it reports, whether the server was running or not.
pub proof fn start_serves_proxy_script(
    m: PacServerModel,
    lan_ip: Seq<char>,
    proxy_port: u16,
    listener_port: u16,
)
    ensures
        ({
            let b = begin_start_model(m, lan_ip, proxy_port);
            let after = if m.running {
                b
            } else {
                finish_start_model(b, lan_ip, listener_port)
            };
            let port = match begin_start_step(m) {
                StartStep::AlreadyRunning { pac_port } => pac_port,
                StartStep::NeedListener => listener_port,
            };
            &&& after.running
            &&& after.pac_body == pac_body_text(lan_ip, proxy_port)
            &&& after.pac_port == port
            &&& after.pac_url == pac_url_text(lan_ip, port)
        }),
{
}

/// After the exit, a start request needs a new listener.
pub proof fn exit_needs_new_listener(m: PacServerModel)
    ensures
        begin_start_step(force_stop_model(m)) == StartStep::NeedListener,
{
}

/// Stopping the proxy and then starting it again serves the proxy script
/// once more, on the same server.
pub proof fn stop_then_start_restores_proxy(m: PacServerModel, lan_ip: Seq<char>, proxy_port: u16)
    ensures
        begin_start_model(stop_model(m), lan_ip, proxy_port).pac_body == pac_body_text(
            lan_ip,
            proxy_port,
        ),
        begin_start_step(stop_model(m)) == begin_start_step(m),
{
}

/// Once the proxy stops, a device that fetches the PAC script is told to
/// go direct; while a started proxy runs, it is told to use the proxy.
pub proof fn served_script_follows_the_proxy(
    m: PacServerModel,
    lan_ip: Seq<char>,
    proxy_port: u16,
    pac_url: Seq<char>,
)
    ensures
        page_text(Route::PacScript, stop_model(m).pac_body, pac_url) == response_text(
            STATUS_OK@,
            CONTENT_TYPE_PAC@,
            PAC_DIRECT_BODY@,
        ),
        page_text(
            Route::PacScript,
            begin_start_model(m, lan_ip, proxy_port).pac_body,
            pac_url,
        ) == response_text(STATUS_OK@, CONTENT_TYPE_PAC@, pac_body_text(lan_ip, proxy_port)),
{
}

/// The error reported when no port can be had for the PAC server.
pub fn no_pac_port_error(reason: &str) -> (message: String)
    ensures
        message@ == NO_PAC_PORT_PREFIX@ + reason@,
{
    let mut message = String::from_str(NO_PAC_PORT_PREFIX);
    message.append(reason);
    message
}

/// The ports to try for a listener, in order: `start..=end`, then 0, which
/// asks the system for any free port.
pub fn listener_ports(start: u16, end: u16) -> (ports: Vec<u16>)
    ensures
        ports@.len() == (if start <= end {
            end - start + 1
        } else {
            0
        }) + 1,
        forall|k: int| 0 <= k < ports@.len() - 1 ==> ports@[k] == start + k,
        ports@.last() == 0,
{
    let mut ports = port_candidates(start, end);
    ports.push(0);
    ports
}

/// What the search for a listener asks for next.
#[derive(PartialEq, Eq, Structural, Clone, Copy, Debug)]
pub enum PortStep {
    /// Try to listen on this port and report whether it worked.
    Try(u16),
    /// Listen on this port: it is the first that could be bound.
    Use(u16),
    /// No port could be bound.
    Exhausted,
}

/// The search for a listener: the ports of `listener_ports` are tried in
/// order, and the first that can be bound is used.
pub struct PortSearch {
    ports: Vec<u16>,
    index: usize,
    done: bool,
}

/// The search as plain values: the ports in order, how many have failed,
/// and whether it is over.
pub struct PortSearchModel {
    pub ports: Seq<u16>,
    pub index: nat,
    pub done: bool,
}

impl View for PortSearch {
    type V = PortSearchModel;

    closed spec fn view(&self) -> PortSearchModel {
        PortSearchModel { ports: self.ports@, index: self.index as nat, done: self.done }
    }
}

/// The ports `listener_ports(start, end)` yields.
pub open spec fn listener_port_seq(start: u16, end: u16) -> Seq<u16> {
    Seq::new(
        (if start <= end {
            end - start + 1
        } else {
            0
        }) as nat,
        |k: int| (start + k) as u16,
    ).push(0)
}

/// The step of a search over `ports` once the first `index` ports failed
/// and the next binds go as `binds`.
pub open spec fn search_outcome(ports: Seq<u16>, index: nat, binds: Seq<bool>) -> PortStep
    decreases binds.len(),
{
    if index >= ports.len() {
        PortStep::Exhausted
    } else if binds.len() == 0 {
        PortStep::Try(ports[index as int])
    } else if binds[0] {
        PortStep::Use(ports[index as int])
    } else {
        search_outcome(ports, index + 1, binds.drop_first())
    }
}

impl PortSearch {
    /// Whether the search waits for the result of a bind.
    pub open spec fn awaits_bind(self) -> bool {
        !self@.done && self@.index < self@.ports.len()
    }

    /// Starts a search over `start..=end`, then port 0 (any free port).
    pub fn new(start: u16, end: u16) -> (r: (PortSearch, PortStep))
        ensures
            r.0@.ports == listener_port_seq(start, end),
            r.0@.ports.len() == (if start <= end {
                end - start + 1
            } else {
                0
            }) + 1,
            forall|k: int| 0 <= k < r.0@.ports.len() - 1 ==> r.0@.ports[k] == start + k,
            r.0@.ports.last() == 0,
            r.0@.index == 0,
            !r.0@.done,
            r.0.awaits_bind(),
            r.1 == PortStep::Try(listener_port_seq(start, end)[0]),
    {
        let ports = listener_ports(start, end);
        assert(ports@ =~= listener_port_seq(start, end));
        assert(ports@.last() == 0);
        let first = ports[0];
        (PortSearch { ports, index: 0, done: false }, PortStep::Try(first))
    }

    /// Whether the search waits for the result of a bind.
    pub fn waiting(&self) -> (b: bool)
        ensures
            b == self.awaits_bind(),
    {
        !self.done && self.index < self.ports.len()
    }

    /// The next step, once the port last asked for could (`bound`) or could
    /// not be bound.
    pub fn after_bind(&mut self, bound: bool) -> (step: PortStep)
        requires
            old(self).awaits_bind(),
        ensures
            final(self)@.ports == old(self)@.ports,
            step == search_outcome(old(self)@.ports, old(self)@.index, seq![bound]),
            bound ==> step == PortStep::Use(old(self)@.ports[old(self)@.index as int])
                && final(self)@.done,
            !bound ==> final(self)@.index == old(self)@.index + 1,
            !bound ==> step == search_outcome(final(self)@.ports, final(self)@.index, seq![]),
            step is Try <==> final(self).awaits_bind(),
            step matches PortStep::Try(p) ==> final(self)@.index < final(self)@.ports.len() && p
                == final(self)@.ports[final(self)@.index as int],
            step matches PortStep::Use(p) ==> bound && p == old(self)@.ports[old(self)@.index as int],
            step is Exhausted ==> !bound && final(self)@.index == final(self)@.ports.len(),
    {
        proof {
            let bs = seq![bound];
            assert(bs.drop_first() =~= Seq::<bool>::empty());
        }
        if bound {
            self.done = true;
            return PortStep::Use(self.ports[self.index]);
        }
        let n: usize = self.ports.len();
        assert(self.index < n);
        self.index = self.index + 1;
        if self.index < self.ports.len() {
            PortStep::Try(self.ports[self.index])
        } else {
            self.done = true;
            PortStep::Exhausted
        }
    }
}

/// The search uses the first port that can be bound: when the first `k`
/// tries fail and the next succeeds, it uses the `k`-th port of the list;
/// when every port fails, it gives up.
pub proof fn search_uses_first_bindable_port(ports: Seq<u16>, binds: Seq<bool>, k: int)
    requires
        0 <= k < ports.len(),
        k < binds.len(),
        binds[k],
        forall|j: int| 0 <= j < k ==> !binds[j],
    ensures
        search_outcome(ports, 0, binds) == PortStep::Use(ports[k]),
{
    lemma_search_from(ports, 0, binds, k);
}

proof fn lemma_search_from(ports: Seq<u16>, i: nat, binds: Seq<bool>, k: int)
    requires
        0 <= k,
        i + k < ports.len(),
        k < binds.len(),
        binds[k],
        forall|j: int| 0 <= j < k ==> !binds[j],
    ensures
        search_outcome(ports, i, binds) == PortStep::Use(ports[i + k]),
    decreases k,
{
    if k > 0 {
        assert(!binds[0]);
        assert forall|j: int| 0 <= j < k - 1 implies !binds.drop_first()[j] by {
            assert(binds.drop_first()[j] == binds[j + 1]);
        }
        lemma_search_from(ports, i + 1, binds.drop_first(), k - 1);
    }
}

/// After `n` failed binds, and while ports remain, the search tries the
/// `n`-th port of the list: ports are tried one after another, in order.
pub proof fn search_tries_ports_in_order(ports: Seq<u16>, binds: Seq<bool>)
    requires
        binds.len() < ports.len(),
        forall|j: int| 0 <= j < binds.len() ==> !binds[j],
    ensures
        search_outcome(ports, 0, binds) == PortStep::Try(ports[binds.len() as int]),
{
    lemma_search_tries(ports, 0, binds);
}

proof fn lemma_search_tries(ports: Seq<u16>, i: nat, binds: Seq<bool>)
    requires
        i + binds.len() < ports.len(),
        forall|j: int| 0 <= j < binds.len() ==> !binds[j],
    ensures
        search_outcome(ports, i, binds) == PortStep::Try(ports[(i + binds.len()) as int]),
    decreases binds.len(),
{
    if binds.len() > 0 {
        assert(!binds[0]);
        assert forall|j: int| 0 <= j < binds.len() - 1 implies !binds.drop_first()[j] by {
            assert(binds.drop_first()[j] == binds[j + 1]);
        }
        lemma_search_tries(ports, i + 1, binds.drop_first());
    }
}

/// When no port of the list can be bound, the search gives up.
pub proof fn search_gives_up_when_nothing_binds(ports: Seq<u16>, binds: Seq<bool>)
    requires
        binds.len() >= ports.len(),
        forall|j: int| 0 <= j < ports.len() ==> !binds[j],
    ensures
        search_outcome(ports, 0, binds) == PortStep::Exhausted,
{
    lemma_search_gives_up(ports, 0, binds);
}

proof fn lemma_search_gives_up(ports: Seq<u16>, i: nat, binds: Seq<bool>)
    requires
        i <= ports.len(),
        binds.len() >= ports.len() - i,
        forall|j: int| 0 <= j < ports.len() - i ==> !binds[j],
    ensures
        search_outcome(ports, i, binds) == PortStep::Exhausted,
    decreases ports.len() - i,
{
    if i < ports.len() {
        assert forall|j: int| 0 <= j < ports.len() - (i + 1) implies !binds.drop_first()[j] by {
            assert(binds.drop_first()[j] == binds[j + 1]);
        }
        lemma_search_gives_up(ports, i + 1, binds.drop_first());
    }
}

/// The ports `start..=end`, in the order they are tried.
pub fn port_candidates(start: u16, end: u16) -> (ports: Vec<u16>)
    ensures
        ports@.len() == if start <= end {
            end - start + 1
        } else {
            0
        },
        forall|k: int| 0 <= k < ports@.len() ==> ports@[k] == start + k,
{
    let mut ports: Vec<u16> = Vec::new();
    if start > end {
        return ports;
    }
    let mut p: u16 = start;
    loop
        invariant
            start <= p <= end,
            ports@.len() == p - start,
            forall|k: int| 0 <= k < ports@.len() ==> ports@[k] == start + k,
        decreases end - p,
    {
        ports.push(p);
        if p == end {
            return ports;
        }
        p = p + 1;
    }
}

} // verus!
