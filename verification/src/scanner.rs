//! The scan loop as a state machine.
//!
//! A scan takes a source address on the network device, probes the services
//! from it, gives the address back and only then hands out what the probes
//! found. The machine decides; its caller runs the commands, sends the
//! probes and waits between scans, and reports back what came of each.
//!
//! ```text
//! Idle --Tick--> Adding --Exited--> Probing --Probed--> Releasing --Exited--> Idle
//!          \---> Showing --Exited-----^            \--(address not owned)----^
//! ```
//!
//! A command that fails ends the run: the machine stops and takes no
//! further event.

use crate::config::ScanConfig;
use crate::ip_pool::{
    clean_exit, listed_address, mask_of, mix, IPAddrPool, IpHold, Lease, PoolError,
};
use crate::ipv4::{ipv4_text, push_ipv4};
use crate::status::{current_time, Service, ServiceStatus, Status, Timestamp};
use vstd::arithmetic::div_mod::{
    lemma_fundamental_div_mod, lemma_fundamental_div_mod_converse, lemma_mod_bound,
};
use vstd::prelude::*;
use vstd::string::StringExecFns;

verus! {

/// A call of the `ip` program on a network device.
#[derive(Debug, PartialEq, Eq)]
pub enum DeviceCommand<'a> {
    /// Put the address on the device.
    Add { dev: &'a str, addr: u32 },
    /// Take the address off the device.
    Delete { dev: &'a str, addr: u32 },
    /// List the addresses of the device.
    Show { dev: &'a str },
}

/// What the caller is to do next.
#[derive(Debug, PartialEq, Eq)]
pub enum Action<'a> {
    /// Run the command and report `Event::Exited`.
    Run(DeviceCommand<'a>),
    /// Probe the services with `source` as the local address, asking the
    /// web shop for `url`, and report `Event::Probed`.
    Probe { source: u32, url: String },
    /// Store the status, wait for the scan interval and report
    /// `Event::Tick`.
    Commit { ecom: Status },
    /// End the run: an address could not be had or not be given back.
    Abort(PoolError),
}

/// What the caller reports.
#[derive(Debug, PartialEq, Eq)]
pub enum Event {
    /// A scan is due.
    Tick,
    /// The command ended with status `code` (`None` where a signal ended
    /// it) and wrote `output`.
    Exited { code: Option<i32>, output: String },
    /// The probes are done; the web shop's status is `ecom`.
    Probed { ecom: Status },
}

/// What a command says, as contracts speak of it.
pub enum CommandView {
    Add { dev: Seq<char>, addr: u32 },
    Delete { dev: Seq<char>, addr: u32 },
    Show { dev: Seq<char> },
}

/// What an action says, as contracts speak of it.
pub enum ActionView {
    Run(CommandView),
    Probe { source: u32, url: Seq<char> },
    Commit { ecom: Status },
    Abort(PoolError),
}

/// Where a scan stands.
pub enum StageView {
    /// Between scans.
    Idle,
    /// `Add` is under way for this address.
    Adding { addr: u32 },
    /// `Show` is under way.
    Showing,
    /// The probes are under way from the leased address.
    Probing { lease: Lease },
    /// `Delete` is under way; the probes' result is held back.
    Releasing { lease: Lease, ecom: Status },
    /// The run has ended.
    Stopped,
}

/// The state of the machine.
pub struct ScannerView {
    /// The index of the pool that the next scan takes its address from.
    pub cursor: nat,
    pub stage: StageView,
}

enum Stage<'a> {
    Idle,
    Adding { addr: u32 },
    Showing,
    Probing { hold: IpHold<'a> },
    Releasing { hold: IpHold<'a>, ecom: Status },
    Stopped,
}

/// The scan loop's state: which pool is next, and where the scan stands.
pub struct Scanner<'a> {
    config: &'a ScanConfig,
    cursor: usize,
    stage: Stage<'a>,
}

impl<'a> View for DeviceCommand<'a> {
    type V = CommandView;

    open spec fn view(&self) -> CommandView {
        match *self {
            DeviceCommand::Add { dev, addr } => CommandView::Add { dev: dev@, addr },
            DeviceCommand::Delete { dev, addr } => CommandView::Delete { dev: dev@, addr },
            DeviceCommand::Show { dev } => CommandView::Show { dev: dev@ },
        }
    }
}

impl<'a> View for Action<'a> {
    type V = ActionView;

    open spec fn view(&self) -> ActionView {
        match *self {
            Action::Run(command) => ActionView::Run(command@),
            Action::Probe { source, url } => ActionView::Probe { source, url: url@ },
            Action::Commit { ecom } => ActionView::Commit { ecom },
            Action::Abort(error) => ActionView::Abort(error),
        }
    }
}

impl<'a> View for Stage<'a> {
    type V = StageView;

    closed spec fn view(&self) -> StageView {
        match *self {
            Stage::Idle => StageView::Idle,
            Stage::Adding { addr } => StageView::Adding { addr },
            Stage::Showing => StageView::Showing,
            Stage::Probing { hold } => StageView::Probing { lease: hold@ },
            Stage::Releasing { hold, ecom } => StageView::Releasing { lease: hold@, ecom },
            Stage::Stopped => StageView::Stopped,
        }
    }
}

impl<'a> View for Scanner<'a> {
    type V = ScannerView;

    closed spec fn view(&self) -> ScannerView {
        ScannerView { cursor: self.cursor as nat, stage: self.stage@ }
    }
}

/// The arguments that the `ip` program takes for a command. Addresses are
/// given with a prefix length of 32.
pub open spec fn args_of(command: CommandView) -> Seq<Seq<char>> {
    match command {
        CommandView::Add { dev, addr } => seq![
            "addr"@,
            "add"@,
            "dev"@,
            dev,
            ipv4_text(addr) + "/32"@,
        ],
        CommandView::Delete { dev, addr } => seq![
            "addr"@,
            "del"@,
            "dev"@,
            dev,
            ipv4_text(addr) + "/32"@,
        ],
        CommandView::Show { dev } => seq!["addr"@, "show"@, "dev"@, dev],
    }
}

/// The pool index after `cursor` where there are `len` pools: the next
/// one, and the first after the last.
pub open spec fn next_cursor(len: nat, cursor: nat) -> nat {
    if cursor + 1 < len {
        cursor + 1
    } else {
        0
    }
}

/// The pool index that the scan after `ticks` earlier scans uses.
pub open spec fn cursor_at(len: nat, ticks: nat) -> nat
    decreases ticks,
{
    if ticks == 0 {
        0
    } else {
        next_cursor(len, cursor_at(len, (ticks - 1) as nat))
    }
}

/// What the machine does on `event` in state `state`: the state it goes to
/// and the action it hands out, or `None` where the event does not belong
/// to the state. `draw` is the random number that selects the address when
/// a scan starts.
///
/// The status of a scan is handed out by `Commit` only, and only once the
/// leased address is off the device again or was never put there.
pub open spec fn next(config: ScanConfig, state: ScannerView, event: Event, draw: u32) -> Option<
    (ScannerView, ActionView),
> {
    let dev = config.dev@;
    let pools = config.ip_pools@;
    let url = config.ecom.url_text();
    let stopped = ScannerView { cursor: state.cursor, stage: StageView::Stopped };
    match (state.stage, event) {
        (StageView::Idle, Event::Tick) => if pools.len() == 0 {
            Some(
                (
                    ScannerView { cursor: state.cursor, stage: StageView::Showing },
                    ActionView::Run(CommandView::Show { dev }),
                ),
            )
        } else {
            let pool = pools[state.cursor as int]@;
            let addr = mix(pool.0, pool.1, draw);
            Some(
                (
                    ScannerView {
                        cursor: next_cursor(pools.len(), state.cursor),
                        stage: StageView::Adding { addr },
                    },
                    ActionView::Run(CommandView::Add { dev, addr }),
                ),
            )
        },
        (StageView::Adding { addr }, Event::Exited { code, output }) => if clean_exit(code) {
            Some(
                (
                    ScannerView {
                        cursor: state.cursor,
                        stage: StageView::Probing { lease: Lease { addr, owned: true, dev } },
                    },
                    ActionView::Probe { source: addr, url },
                ),
            )
        } else {
            Some((stopped, ActionView::Abort(PoolError::AddressAssignmentFailed)))
        },
        (StageView::Showing, Event::Exited { code, output }) => match listed_address(output@) {
            None => Some((stopped, ActionView::Abort(PoolError::NoAddressFound))),
            Some(addr) => if clean_exit(code) {
                Some(
                    (
                        ScannerView {
                            cursor: state.cursor,
                            stage: StageView::Probing { lease: Lease { addr, owned: false, dev } },
                        },
                        ActionView::Probe { source: addr, url },
                    ),
                )
            } else {
                Some((stopped, ActionView::Abort(PoolError::AddressAssignmentFailed)))
            },
        },
        (StageView::Probing { lease }, Event::Probed { ecom }) => if lease.owned {
            Some(
                (
                    ScannerView {
                        cursor: state.cursor,
                        stage: StageView::Releasing { lease, ecom },
                    },
                    ActionView::Run(CommandView::Delete { dev: lease.dev, addr: lease.addr }),
                ),
            )
        } else {
            Some(
                (
                    ScannerView { cursor: state.cursor, stage: StageView::Idle },
                    ActionView::Commit { ecom },
                ),
            )
        },
        (StageView::Releasing { lease, ecom }, Event::Exited { code, output }) => if !lease.owned
            || clean_exit(code) {
            Some(
                (
                    ScannerView { cursor: state.cursor, stage: StageView::Idle },
                    ActionView::Commit { ecom },
                ),
            )
        } else {
            Some((stopped, ActionView::Abort(PoolError::AddressReleaseFailed)))
        },
        _ => None,
    }
}

/// Every service has an entry in `store`, and each entry is the placeholder
/// of the moment `now`.
pub open spec fn all_placeholders(store: Map<Service, Status>, now: Timestamp) -> bool {
    forall|service: Service| #[trigger]
        store.dom().contains(service) && is_placeholder(store[service], now)
}

/// The machine went from `before` to `after` and handed out `action` as
/// `outcome` says; where `outcome` is `None`, nothing changed and nothing
/// was handed out.
pub open spec fn taken<'a>(
    outcome: Option<(ScannerView, ActionView)>,
    before: ScannerView,
    after: ScannerView,
    action: Option<Action<'a>>,
) -> bool {
    match outcome {
        Some((state, todo)) => after == state && action is Some && action.unwrap()@ == todo,
        None => after == before && action is None,
    }
}

/// The placeholder that stands for a service before its first probe: down
/// since `now`, not yet checked.
pub open spec fn is_placeholder(status: Status, now: Timestamp) -> bool {
    &&& !status.up
    &&& status.last == now
    &&& status.failure_reason@ == "not yet checked"@
}

impl<'a> DeviceCommand<'a> {
    /// The arguments to call the `ip` program with.
    pub fn args(&self) -> (args: Vec<String>)
        ensures
            args.deep_view() == args_of(self@),
    {
        let mut args: Vec<String> = Vec::new();
        args.push("addr".to_owned());
        match self {
            DeviceCommand::Add { dev, addr } => {
                args.push("add".to_owned());
                args.push("dev".to_owned());
                args.push((*dev).to_owned());
                let mut last = String::new();
                push_ipv4(&mut last, *addr);
                last.append("/32");
                assert(last@ =~= ipv4_text(*addr) + "/32"@);
                args.push(last);
            },
            DeviceCommand::Delete { dev, addr } => {
                args.push("del".to_owned());
                args.push("dev".to_owned());
                args.push((*dev).to_owned());
                let mut last = String::new();
                push_ipv4(&mut last, *addr);
                last.append("/32");
                assert(last@ =~= ipv4_text(*addr) + "/32"@);
                args.push(last);
            },
            DeviceCommand::Show { dev } => {
                args.push("show".to_owned());
                args.push("dev".to_owned());
                args.push((*dev).to_owned());
            },
        }
        assert(args.deep_view() =~= args_of(self@));
        args
    }
}

impl<'a> Scanner<'a> {
    #[verifier::type_invariant]
    spec fn valid(self) -> bool {
        self.cursor < self.config.ip_pools@.len() || self.cursor == 0
    }

    /// The configuration that the machine runs on.
    pub closed spec fn config(self) -> ScanConfig {
        *self.config
    }

    /// A machine between scans, with the first pool next.
    pub fn new(config: &'a ScanConfig) -> (scanner: Self)
        ensures
            scanner.config() == *config,
            scanner@ == (ScannerView { cursor: 0, stage: StageView::Idle }),
    {
        Scanner { config, cursor: 0, stage: Stage::Idle }
    }

    /// Whether the run has ended.
    pub fn stopped(&self) -> (r: bool)
        ensures
            r == (self@.stage is Stopped),
    {
        match self.stage {
            Stage::Stopped => true,
            _ => false,
        }
    }

    /// Takes `event` with `draw` as the random number for the address of a
    /// scan that starts. Where the event does not belong to the state,
    /// nothing changes and there is nothing to do.
    pub fn step_with(&mut self, event: Event, draw: u32) -> (action: Option<Action<'a>>)
        ensures
            final(self).config() == old(self).config(),
            taken(next(old(self).config(), old(self)@, event, draw), old(self)@, final(self)@, action),
    {
        proof {
            use_type_invariant(&*self);
        }
        let config: &'a ScanConfig = self.config;
        let mut stage = Stage::Stopped;
        core::mem::swap(&mut self.stage, &mut stage);
        match (stage, event) {
            (Stage::Idle, Event::Tick) => {
                let n = config.ip_pools.len();
                if n == 0 {
                    self.stage = Stage::Showing;
                    Some(Action::Run(DeviceCommand::Show { dev: config.dev.as_str() }))
                } else {
                    let addr = config.ip_pools[self.cursor].address_for(draw);
                    self.cursor = if self.cursor + 1 < n {
                        self.cursor + 1
                    } else {
                        0
                    };
                    self.stage = Stage::Adding { addr };
                    Some(Action::Run(DeviceCommand::Add { dev: config.dev.as_str(), addr }))
                }
            },
            (Stage::Adding { addr }, Event::Exited { code, output }) => {
                match IPAddrPool::create_ip(config.dev.as_str(), addr, code) {
                    Ok(hold) => {
                        let source = hold.ip();
                        self.stage = Stage::Probing { hold };
                        Some(Action::Probe { source, url: config.ecom.url() })
                    },
                    Err(e) => Some(Action::Abort(e)),
                }
            },
            (Stage::Showing, Event::Exited { code, output }) => {
                match IPAddrPool::default_ip(config.dev.as_str(), output.as_str(), code) {
                    Ok(hold) => {
                        let source = hold.ip();
                        self.stage = Stage::Probing { hold };
                        Some(Action::Probe { source, url: config.ecom.url() })
                    },
                    Err(e) => Some(Action::Abort(e)),
                }
            },
            (Stage::Probing { hold }, Event::Probed { ecom }) => {
                if hold.owned() {
                    let command = DeviceCommand::Delete { dev: hold.device(), addr: hold.ip() };
                    self.stage = Stage::Releasing { hold, ecom };
                    Some(Action::Run(command))
                } else {
                    match hold.drop(None) {
                        Ok(()) => {
                            self.stage = Stage::Idle;
                            Some(Action::Commit { ecom })
                        },
                        Err(e) => Some(Action::Abort(e)),
                    }
                }
            },
            (Stage::Releasing { hold, ecom }, Event::Exited { code, output }) => {
                match hold.drop(code) {
                    Ok(()) => {
                        self.stage = Stage::Idle;
                        Some(Action::Commit { ecom })
                    },
                    Err(e) => Some(Action::Abort(e)),
                }
            },
            (stage, _) => {
                self.stage = stage;
                None
            },
        }
    }

    /// Takes `event`. A scan that starts takes its address from the next
    /// pool with a fresh random number.
    pub fn step(&mut self, event: Event) -> (action: Option<Action<'a>>)
        ensures
            final(self).config() == old(self).config(),
            exists|draw: u32|
                taken(
                    #[trigger] next(old(self).config(), old(self)@, event, draw),
                    old(self)@,
                    final(self)@,
                    action,
                ),
    {
        let draw = crate::ip_pool::random_draw();
        self.step_with(event, draw)
    }
}

/// What a launch prepares before anything is run: the store, in which
/// every service has the placeholder status of the moment `now`, and the
/// scan loop's machine at its start.
pub fn rocket_at<'a>(config: &'a ScanConfig, now: Timestamp) -> (r: (ServiceStatus, Scanner<'a>))
    ensures
        all_placeholders(r.0@, now),
        r.1.config() == *config,
        r.1@ == (ScannerView { cursor: 0, stage: StageView::Idle }),
{
    let placeholder = Status {
        up: false,
        last: now,
        failure_reason: "not yet checked".to_owned(),
    };
    (ServiceStatus::new(placeholder), Scanner::new(config))
}

/// What a launch prepares before anything is run, at the time of the call.
pub fn rocket<'a>(config: &'a ScanConfig) -> (r: (ServiceStatus, Scanner<'a>))
    ensures
        exists|now: Timestamp| #[trigger] all_placeholders(r.0@, now),
        r.1.config() == *config,
        r.1@ == (ScannerView { cursor: 0, stage: StageView::Idle }),
{
    let now = current_time();
    let r = rocket_at(config, now);
    assert(all_placeholders(r.0@, now));
    r
}

/// Scans take the pools in turn: the scan after `ticks` earlier ones uses
/// the pool with index `ticks` modulo the number of pools.
pub proof fn lemma_round_robin(len: nat, ticks: nat)
    requires
        len > 0,
    ensures
        cursor_at(len, ticks) == ticks % len,
    decreases ticks,
{
    if ticks > 0 {
        lemma_round_robin(len, (ticks - 1) as nat);
        let t = (ticks - 1) as int;
        let l = len as int;
        let q = t / l;
        let r = t % l;
        lemma_fundamental_div_mod(t, l);
        lemma_mod_bound(t, l);
        assert(q * l == l * q) by (nonlinear_arith);
        if r + 1 < l {
            lemma_fundamental_div_mod_converse(ticks as int, l, q, r + 1);
        } else {
            assert((q + 1) * l == q * l + l) by (nonlinear_arith);
            lemma_fundamental_div_mod_converse(ticks as int, l, q + 1, 0);
        }
    } else {
        lemma_fundamental_div_mod_converse(0, len as int, 0, 0);
    }
}

/// A scan that starts takes an address of the pool whose turn it is, and
/// the turn passes to the next pool. The address differs from the pool's
/// base in the low bits only, as many as the pool's bit count.
pub proof fn lemma_scan_starts_in_turn(config: ScanConfig, state: ScannerView, draw: u32)
    requires
        state.stage is Idle,
        state.cursor < config.ip_pools@.len(),
        config.ip_pools@[state.cursor as int]@.1 <= 32,
    ensures
        ({
            let pool = config.ip_pools@[state.cursor as int]@;
            &&& next(config, state, Event::Tick, draw) matches Some((after, todo))
            &&& after.cursor == next_cursor(config.ip_pools@.len(), state.cursor)
            &&& todo matches ActionView::Run(CommandView::Add { dev, addr })
            &&& dev == config.dev@
            &&& after.stage == (StageView::Adding { addr })
            &&& addr & !mask_of(pool.1) == pool.0 & !mask_of(pool.1)
        }),
{
    let pool = config.ip_pools@[state.cursor as int]@;
    crate::ip_pool::lemma_mix_keeps_high_bits(pool.0, pool.1, draw);
}

/// The address that a scan put on the device is the address that it takes
/// off again, on the same device, before the scan's result is handed out.
pub proof fn lemma_release_before_commit(
    config: ScanConfig,
    state: ScannerView,
    event: Event,
    draw: u32,
)
    ensures
        match next(config, state, event, draw) {
            Some((after, ActionView::Commit { ecom })) => {
                &&& after.stage is Idle
                &&& state.stage matches StageView::Probing { lease } ==> !lease.owned
            },
            Some((after, ActionView::Run(CommandView::Delete { dev, addr }))) => {
                &&& state.stage matches StageView::Probing { lease }
                &&& lease.owned
                &&& lease.dev == dev
                &&& lease.addr == addr
                &&& after.stage matches StageView::Releasing { lease: held, ecom }
                &&& held == lease
            },
            _ => true,
        },
{
}

} // verus!
