//! The monitor: its shared state, and the decisions of one check cycle as a
//! state machine. The caller performs each action (Docker calls, requests,
//! file reads, pauses) and hands back what came of it as the next event.
use vstd::prelude::*;
use crate::config::{
    dependents_text, describe_dependents, Config, DependentContainers, DependentsView,
};
use crate::text::{copy_strings, owned};
use crate::containers::{
    container_id, container_is_up, dependents_in, discover_dependents, find_container, is_up,
    out_of_sync_dependents, running_since, running_since_spec, short_id_is_text, short_id_usable,
    stale_dependents, ContainerState, ContainerSummary,
};
use crate::docker::{test_site, verdict, ExecOutcome, SiteResult, SiteStatus};
use crate::failures::{
    after_results, below_threshold, law_below_threshold_kept, law_round_keeps_below_threshold,
    law_round_with_distinct_sites, round_fits,
    reaches_threshold, results_fit, sites_distinct,
    outcomes, FailureCounts,
};
use crate::sites::{load_sites, sites_in};
use crate::upstream::{endpoint_url, is_tunnel_up, tunnel_up, url_join, GluetunEndpoint, JsonBody};

verus! {

/// The monitor's state, shared with the status route.
#[derive(Debug)]
pub struct MonitorState {
    pub is_monitoring: bool,
    pub check_interval_secs: u64,
    pub dependent_containers: String,
    pub site_failures: FailureCounts,
}

impl MonitorState {
    /// The state before the monitor starts: not monitoring, no failures.
    pub fn new(config: &Config) -> (s: Self)
        ensures
            !s.is_monitoring,
            s.check_interval_secs == config.check_interval,
            s.dependent_containers@ == dependents_text(config.dependent_containers@),
            s.site_failures@ == Map::<Seq<char>, u32>::empty(),
    {
        MonitorState {
            is_monitoring: false,
            check_interval_secs: config.check_interval,
            dependent_containers: describe_dependents(&config.dependent_containers),
            site_failures: FailureCounts::new(),
        }
    }
}

/// How a check cycle ended.
#[derive(PartialEq, Eq, Structural, Debug, Clone, Copy)]
pub enum CycleOutcome {
    /// The tunnel is not up yet: nothing was probed.
    TunnelDown,
    /// Gluetun's container is not in Docker's list.
    GluetunNotFound,
    /// The sites file lists no site.
    NoSites,
    /// The sites were probed and no failure count reached the threshold.
    Checked,
    /// A failure count reached the threshold: Gluetun was restarted (and came
    /// back healthy, or not) and the dependents were restarted.
    Recovered { healthy: bool },
}

/// Where a check cycle stands.
#[derive(Debug)]
pub enum Phase {
    Idle,
    HealGluetunInspect,
    HealList { reference: (i64, u32) },
    HealInspectEach { reference: (i64, u32), names: Vec<String> },
    HealRestarts,
    TunnelCheck,
    FindGluetun,
    ReadingSites { container_id: String },
    Probing { sites: Vec<String> },
    RestartingGluetun,
    HealthWait,
    HealthPause,
    DnsSettle,
    RecoveryList { healthy: bool },
    RecoveryRestarts { healthy: bool },
    Done,
}

pub enum PhaseView {
    Idle,
    HealGluetunInspect,
    HealList { reference: (i64, u32) },
    HealInspectEach { reference: (i64, u32), names: Seq<Seq<char>> },
    HealRestarts,
    TunnelCheck,
    FindGluetun,
    ReadingSites { container_id: Seq<char> },
    Probing { sites: Seq<Seq<char>> },
    RestartingGluetun,
    HealthWait,
    HealthPause,
    DnsSettle,
    RecoveryList { healthy: bool },
    RecoveryRestarts { healthy: bool },
    Done,
}

impl View for Phase {
    type V = PhaseView;

    open spec fn view(&self) -> PhaseView {
        match self {
            Phase::Idle => PhaseView::Idle,
            Phase::HealGluetunInspect => PhaseView::HealGluetunInspect,
            Phase::HealList { reference } => PhaseView::HealList { reference: *reference },
            Phase::HealInspectEach { reference, names } => PhaseView::HealInspectEach {
                reference: *reference,
                names: names.deep_view(),
            },
            Phase::HealRestarts => PhaseView::HealRestarts,
            Phase::TunnelCheck => PhaseView::TunnelCheck,
            Phase::FindGluetun => PhaseView::FindGluetun,
            Phase::ReadingSites { container_id } => PhaseView::ReadingSites { container_id: container_id@ },
            Phase::Probing { sites } => PhaseView::Probing { sites: sites.deep_view() },
            Phase::RestartingGluetun => PhaseView::RestartingGluetun,
            Phase::HealthWait => PhaseView::HealthWait,
            Phase::HealthPause => PhaseView::HealthPause,
            Phase::DnsSettle => PhaseView::DnsSettle,
            Phase::RecoveryList { healthy } => PhaseView::RecoveryList { healthy: *healthy },
            Phase::RecoveryRestarts { healthy } => PhaseView::RecoveryRestarts { healthy: *healthy },
            Phase::Done => PhaseView::Done,
        }
    }
}

/// What the caller is to do next.
#[derive(Debug)]
pub enum Action {
    /// Inspect one container; answer with `Inspected`.
    InspectContainer { name: String },
    /// List all containers, stopped ones included; answer with `Listed`.
    ListContainers,
    /// Inspect each container in turn; answer with `InspectedEach`.
    InspectEach { names: Vec<String> },
    /// Restart each container in turn, pausing two seconds after each;
    /// answer with `RestartedEach`.
    RestartEach { names: Vec<String> },
    /// Ask the control server for the public IP; answer with `PublicIp`.
    FetchPublicIp { url: String },
    /// Read the sites file; answer with `SitesText` (empty text where it
    /// cannot be read).
    ReadSites { path: String },
    /// Probe every site from inside the container, all at once; answer with
    /// `Probed`, the outcomes in the order of the sites.
    ProbeSites { container_id: String, sites: Vec<String>, timeout_secs: u64 },
    /// Restart Gluetun; answer with `Restarted`.
    RestartContainer { name: String },
    /// Start waiting for the container to come up, for at most
    /// `timeout_secs`, with a first inspection; answer with `Inspected`, or
    /// `TimedOut` once the wait is over.
    StartHealthWait { name: String, timeout_secs: u64 },
    /// Inspect the container again within the same wait.
    InspectAgain { name: String },
    /// Pause five seconds within the wait; answer with `Slept` or `TimedOut`.
    PauseHealthWait,
    /// Pause; answer with `Slept`.
    Sleep { secs: u64 },
    /// The cycle is over.
    Finish { outcome: CycleOutcome },
}

pub enum ActionView {
    InspectContainer(Seq<char>),
    ListContainers,
    InspectEach(Seq<Seq<char>>),
    RestartEach(Seq<Seq<char>>),
    FetchPublicIp(Seq<char>),
    ReadSites(Seq<char>),
    ProbeSites { container_id: Seq<char>, sites: Seq<Seq<char>>, timeout_secs: u64 },
    RestartContainer(Seq<char>),
    StartHealthWait { name: Seq<char>, timeout_secs: u64 },
    InspectAgain(Seq<char>),
    PauseHealthWait,
    Sleep(u64),
    Finish(CycleOutcome),
}

impl View for Action {
    type V = ActionView;

    open spec fn view(&self) -> ActionView {
        match self {
            Action::InspectContainer { name } => ActionView::InspectContainer(name@),
            Action::ListContainers => ActionView::ListContainers,
            Action::InspectEach { names } => ActionView::InspectEach(names.deep_view()),
            Action::RestartEach { names } => ActionView::RestartEach(names.deep_view()),
            Action::FetchPublicIp { url } => ActionView::FetchPublicIp(url@),
            Action::ReadSites { path } => ActionView::ReadSites(path@),
            Action::ProbeSites { container_id, sites, timeout_secs } => ActionView::ProbeSites {
                container_id: container_id@,
                sites: sites.deep_view(),
                timeout_secs: *timeout_secs,
            },
            Action::RestartContainer { name } => ActionView::RestartContainer(name@),
            Action::StartHealthWait { name, timeout_secs } => ActionView::StartHealthWait {
                name: name@,
                timeout_secs: *timeout_secs,
            },
            Action::InspectAgain { name } => ActionView::InspectAgain(name@),
            Action::PauseHealthWait => ActionView::PauseHealthWait,
            Action::Sleep { secs } => ActionView::Sleep(*secs),
            Action::Finish { outcome } => ActionView::Finish(*outcome),
        }
    }
}

/// What came of the last action.
#[derive(Debug)]
pub enum Event {
    /// A new cycle begins.
    Start,
    /// The container's state, or `None` where the inspection failed or gave
    /// no state.
    Inspected(Option<ContainerState>),
    /// Docker's container list, or `None` where listing failed.
    Listed(Option<Vec<ContainerSummary>>),
    /// The state of each inspected container, in order.
    InspectedEach(Vec<Option<ContainerState>>),
    /// The containers were restarted.
    RestartedEach,
    /// The control server's public-IP answer, or `None` where the request
    /// failed or was not a success.
    PublicIp(Option<JsonBody>),
    /// The text of the sites file.
    SitesText(String),
    /// How each probe ended, in the order of the sites.
    Probed(Vec<ExecOutcome>),
    /// Whether the restart succeeded.
    Restarted(bool),
    /// The wait for Gluetun is over.
    TimedOut,
    /// The pause is over.
    Slept,
}

/// The containers of a listing, none where listing failed.
pub open spec fn listing(l: Option<Vec<ContainerSummary>>) -> Seq<ContainerSummary> {
    match l {
        Some(v) => v@,
        None => Seq::empty(),
    }
}

/// The dependents found in a listing.
pub open spec fn discovered(c: &Config, l: Option<Vec<ContainerSummary>>) -> Seq<Seq<char>> {
    let cs = listing(l);
    dependents_in(cs, c.gluetun_container@, container_id(cs, c.gluetun_container@))
}

/// Gluetun's short id in the listing can be taken as text, as
/// `discover_dependents` needs.
pub open spec fn listing_ok(c: &Config, l: Option<Vec<ContainerSummary>>) -> bool {
    container_id(listing(l), c.gluetun_container@) matches Some(id) ==> short_id_is_text(id)
}

/// (site, status) of each probe.
pub open spec fn probe_outcomes(sites: Seq<Seq<char>>, outs: Seq<ExecOutcome>) -> Seq<(Seq<char>, SiteStatus)> {
    Seq::new(sites.len(), |i: int| (sites[i], verdict(&outs[i]).0))
}

/// Going on to the tunnel check: ask for the public IP, or end where no URL
/// can be formed.
pub open spec fn tunnel_step(c: &Config) -> (PhaseView, ActionView) {
    match url_join(c.gluetun_url@, "/v1/publicip/ip"@) {
        Some(u) => (PhaseView::TunnelCheck, ActionView::FetchPublicIp(u)),
        None => (PhaseView::Done, ActionView::Finish(CycleOutcome::TunnelDown)),
    }
}

/// After restarting Gluetun: restart the dependents, listing the containers
/// first where they are found automatically.
pub open spec fn recovery_step(c: &Config, healthy: bool) -> (PhaseView, ActionView) {
    match c.dependent_containers@ {
        DependentsView::Explicit(names) => (PhaseView::RecoveryRestarts { healthy }, ActionView::RestartEach(names)),
        DependentsView::Auto => (PhaseView::RecoveryList { healthy }, ActionView::ListContainers),
    }
}

/// With the dependents known, inspect them, or go on where there are none.
pub open spec fn heal_step(c: &Config, reference: (i64, u32), deps: Seq<Seq<char>>) -> (PhaseView, ActionView) {
    if deps.len() == 0 {
        tunnel_step(c)
    } else {
        (PhaseView::HealInspectEach { reference, names: deps }, ActionView::InspectEach(deps))
    }
}

/// The event is an answer to the phase's action, and what it holds meets
/// the needs of the decision.
pub open spec fn accepts(c: &Config, p: PhaseView, m: Map<Seq<char>, u32>, e: Event) -> bool {
    match (p, e) {
        (PhaseView::Idle, Event::Start) => true,
        (PhaseView::HealGluetunInspect, Event::Inspected(_)) => true,
        (PhaseView::HealList { .. }, Event::Listed(l)) => listing_ok(c, l),
        (PhaseView::HealInspectEach { names, .. }, Event::InspectedEach(states)) => states@.len() == names.len(),
        (PhaseView::HealRestarts, Event::RestartedEach) => true,
        (PhaseView::TunnelCheck, Event::PublicIp(_)) => true,
        (PhaseView::FindGluetun, Event::Listed(_)) => true,
        (PhaseView::ReadingSites { .. }, Event::SitesText(_)) => true,
        (PhaseView::Probing { sites }, Event::Probed(outs)) => outs@.len() == sites.len() && results_fit(
            m,
            probe_outcomes(sites, outs@),
        ),
        (PhaseView::RestartingGluetun, Event::Restarted(_)) => true,
        (PhaseView::HealthWait, Event::Inspected(_)) => true,
        (PhaseView::HealthWait, Event::TimedOut) => true,
        (PhaseView::HealthPause, Event::Slept) => true,
        (PhaseView::HealthPause, Event::TimedOut) => true,
        (PhaseView::DnsSettle, Event::Slept) => true,
        (PhaseView::RecoveryList { .. }, Event::Listed(l)) => listing_ok(c, l),
        (PhaseView::RecoveryRestarts { .. }, Event::RestartedEach) => true,
        _ => false,
    }
}

/// One decision of the check cycle: from the phase, the failure counts and
/// the event, the next phase, counts and action.
pub open spec fn transition(
    c: &Config,
    p: PhaseView,
    m: Map<Seq<char>, u32>,
    e: Event,
) -> (PhaseView, Map<Seq<char>, u32>, ActionView) {
    let name = c.gluetun_container@;
    match (p, e) {
        (PhaseView::Idle, Event::Start) => (
            PhaseView::HealGluetunInspect,
            m,
            ActionView::InspectContainer(name),
        ),
        (PhaseView::HealGluetunInspect, Event::Inspected(s)) => match running_since_spec(s) {
            None => (tunnel_step(c).0, m, tunnel_step(c).1),
            Some(r) => match c.dependent_containers@ {
                DependentsView::Explicit(names) => (heal_step(c, r, names).0, m, heal_step(c, r, names).1),
                DependentsView::Auto => (PhaseView::HealList { reference: r }, m, ActionView::ListContainers),
            },
        },
        (PhaseView::HealList { reference }, Event::Listed(l)) => (
            heal_step(c, reference, discovered(c, l)).0,
            m,
            heal_step(c, reference, discovered(c, l)).1,
        ),
        (PhaseView::HealInspectEach { reference, names }, Event::InspectedEach(states)) => {
            let stale = stale_dependents(reference, names, states@);
            if stale.len() == 0 {
                (tunnel_step(c).0, m, tunnel_step(c).1)
            } else {
                (PhaseView::HealRestarts, m, ActionView::RestartEach(stale))
            }
        },
        (PhaseView::HealRestarts, Event::RestartedEach) => (tunnel_step(c).0, m, tunnel_step(c).1),
        (PhaseView::TunnelCheck, Event::PublicIp(body)) => if tunnel_up(body) {
            (PhaseView::FindGluetun, m, ActionView::ListContainers)
        } else {
            (PhaseView::Done, m, ActionView::Finish(CycleOutcome::TunnelDown))
        },
        (PhaseView::FindGluetun, Event::Listed(l)) => match l {
            Some(cs) => match container_id(cs@, name) {
                Some(id) => (
                    PhaseView::ReadingSites { container_id: id },
                    m,
                    ActionView::ReadSites(c.config_file@),
                ),
                None => (PhaseView::Done, m, ActionView::Finish(CycleOutcome::GluetunNotFound)),
            },
            None => (PhaseView::Done, m, ActionView::Finish(CycleOutcome::GluetunNotFound)),
        },
        (PhaseView::ReadingSites { container_id }, Event::SitesText(text)) => {
            let sites = sites_in(text@);
            if sites.len() == 0 {
                (PhaseView::Done, m, ActionView::Finish(CycleOutcome::NoSites))
            } else {
                (
                    PhaseView::Probing { sites },
                    m,
                    ActionView::ProbeSites { container_id, sites, timeout_secs: c.request_timeout },
                )
            }
        },
        (PhaseView::Probing { sites }, Event::Probed(outs)) => {
            let rs = probe_outcomes(sites, outs@);
            let m2 = after_results(m, rs);
            if reaches_threshold(m, rs, c.fail_threshold) {
                (PhaseView::RestartingGluetun, m2, ActionView::RestartContainer(name))
            } else {
                (PhaseView::Done, m2, ActionView::Finish(CycleOutcome::Checked))
            }
        },
        (PhaseView::RestartingGluetun, Event::Restarted(ok)) => if ok {
            (
                PhaseView::HealthWait,
                m,
                ActionView::StartHealthWait { name, timeout_secs: c.healthy_wait_timeout },
            )
        } else {
            (recovery_step(c, false).0, Map::empty(), recovery_step(c, false).1)
        },
        (PhaseView::HealthWait, Event::Inspected(s)) => if is_up(s) {
            (PhaseView::DnsSettle, m, ActionView::Sleep(10))
        } else {
            (PhaseView::HealthPause, m, ActionView::PauseHealthWait)
        },
        (PhaseView::HealthWait, Event::TimedOut) => (recovery_step(c, false).0, Map::empty(), recovery_step(c, false).1),
        (PhaseView::HealthPause, Event::Slept) => (PhaseView::HealthWait, m, ActionView::InspectAgain(name)),
        (PhaseView::HealthPause, Event::TimedOut) => (recovery_step(c, false).0, Map::empty(), recovery_step(c, false).1),
        (PhaseView::DnsSettle, Event::Slept) => (recovery_step(c, true).0, Map::empty(), recovery_step(c, true).1),
        (PhaseView::RecoveryList { healthy }, Event::Listed(l)) => (
            PhaseView::RecoveryRestarts { healthy },
            m,
            ActionView::RestartEach(discovered(c, l)),
        ),
        (PhaseView::RecoveryRestarts { healthy }, Event::RestartedEach) => (
            PhaseView::Done,
            m,
            ActionView::Finish(CycleOutcome::Recovered { healthy }),
        ),
        _ => (p, m, ActionView::Finish(CycleOutcome::Checked)),
    }
}


/// What holds of the failure counts at each phase of a cycle: none rests at
/// or above the threshold, except while Gluetun is being restarted; once the
/// dependents are being restarted there are none.
pub open spec fn cycle_invariant(c: &Config, p: PhaseView, m: Map<Seq<char>, u32>) -> bool {
    match p {
        PhaseView::RestartingGluetun => true,
        PhaseView::HealthWait => true,
        PhaseView::HealthPause => true,
        PhaseView::DnsSettle => true,
        PhaseView::RecoveryList { .. } => m == Map::<Seq<char>, u32>::empty(),
        PhaseView::RecoveryRestarts { .. } => m == Map::<Seq<char>, u32>::empty(),
        _ => below_threshold(m, c.fail_threshold),
    }
}

/// The phases from Gluetun's restart to the end of the recovery.
pub open spec fn in_recovery(p: PhaseView) -> bool {
    ||| p is RestartingGluetun
    ||| p is HealthWait
    ||| p is HealthPause
    ||| p is DnsSettle
    ||| p is RecoveryList
    ||| p is RecoveryRestarts
}

/// Every decision keeps the cycle invariant: between cycles (and before
/// the first, where there are no counts) no failure count rests at or above
/// the threshold.
pub proof fn law_cycle_invariant_kept(c: &Config, p: PhaseView, m: Map<Seq<char>, u32>, e: Event)
    requires
        accepts(c, p, m, e),
        cycle_invariant(c, p, m),
    ensures
        cycle_invariant(c, transition(c, p, m, e).0, transition(c, p, m, e).1),
{
    if let (PhaseView::Probing { sites }, Event::Probed(outs)) = (p, e) {
        let rs = probe_outcomes(sites, outs@);
        if !reaches_threshold(m, rs, c.fail_threshold) {
            law_below_threshold_kept(m, rs, c.fail_threshold);
        }
    }
}

/// A fresh monitor state meets the invariant at the start of a cycle.
pub proof fn law_fresh_counts_meet_invariant(c: &Config)
    ensures
        cycle_invariant(c, PhaseView::Idle, Map::<Seq<char>, u32>::empty()),
{
}


/// A round of probes over a sites list in which no site appears twice (after
/// trimming), from counts that rest below the threshold, is always taken: no
/// count overflows. It
/// then either restarts Gluetun (which clears the counts) or ends with every
/// count still below the threshold.
pub proof fn law_probe_round_fits(c: &Config, sites: Seq<Seq<char>>, m: Map<Seq<char>, u32>, outs: Vec<ExecOutcome>)
    requires
        below_threshold(m, c.fail_threshold),
        sites.no_duplicates(),
        outs@.len() == sites.len(),
    ensures
        accepts(c, PhaseView::Probing { sites }, m, Event::Probed(outs)),
        transition(c, PhaseView::Probing { sites }, m, Event::Probed(outs)).2 is RestartContainer
            || (transition(c, PhaseView::Probing { sites }, m, Event::Probed(outs)).2 == ActionView::Finish(
            CycleOutcome::Checked,
        ) && below_threshold(
            transition(c, PhaseView::Probing { sites }, m, Event::Probed(outs)).1,
            c.fail_threshold,
        )),
{
    let rs = probe_outcomes(sites, outs@);
    assert(sites_distinct(rs)) by {
        assert forall|i: int, j: int| 0 <= i < j < rs.len() implies #[trigger] rs[i].0 != #[trigger] rs[j].0 by {
            assert(rs[i].0 == sites[i] && rs[j].0 == sites[j]);
        }
    }
    law_round_with_distinct_sites(m, rs, c.fail_threshold);
}


/// A round of probes in which each site's count plus its failures fits in a
/// `u32` (sites may repeat), from counts that rest below the threshold, is
/// always taken. It then either restarts Gluetun (which clears the counts)
/// or ends with every count still below the threshold.
pub proof fn law_probe_round_with_repeats(c: &Config, sites: Seq<Seq<char>>, m: Map<Seq<char>, u32>, outs: Vec<ExecOutcome>)
    requires
        below_threshold(m, c.fail_threshold),
        outs@.len() == sites.len(),
        round_fits(m, probe_outcomes(sites, outs@)),
    ensures
        accepts(c, PhaseView::Probing { sites }, m, Event::Probed(outs)),
        transition(c, PhaseView::Probing { sites }, m, Event::Probed(outs)).2 is RestartContainer
            || (transition(c, PhaseView::Probing { sites }, m, Event::Probed(outs)).2 == ActionView::Finish(
            CycleOutcome::Checked,
        ) && below_threshold(
            transition(c, PhaseView::Probing { sites }, m, Event::Probed(outs)).1,
            c.fail_threshold,
        )),
{
    law_round_keeps_below_threshold(m, probe_outcomes(sites, outs@), c.fail_threshold);
}

/// States whose running start times denote the same instants are the same
/// to the namespace healing.
pub open spec fn same_instants(a: Seq<Option<ContainerState>>, b: Seq<Option<ContainerState>>) -> bool {
    a.len() == b.len() && forall|i: int| 0 <= i < a.len() ==> #[trigger] running_since_spec(a[i])
        == running_since_spec(b[i])
}

proof fn lemma_stale_by_instants(
    reference: (i64, u32),
    names: Seq<Seq<char>>,
    a: Seq<Option<ContainerState>>,
    b: Seq<Option<ContainerState>>,
)
    requires
        names.len() == a.len(),
        same_instants(a, b),
    ensures
        stale_dependents(reference, names, a) == stale_dependents(reference, names, b),
    decreases names.len(),
{
    if names.len() > 0 {
        assert(same_instants(a.drop_last(), b.drop_last())) by {
            assert forall|i: int| 0 <= i < a.drop_last().len() implies #[trigger] running_since_spec(
                a.drop_last()[i],
            ) == running_since_spec(b.drop_last()[i]) by {
                assert(a.drop_last()[i] == a[i] && b.drop_last()[i] == b[i]);
            }
        }
        lemma_stale_by_instants(reference, names.drop_last(), a.drop_last(), b.drop_last());
        assert(running_since_spec(a[names.len() - 1]) == running_since_spec(b[names.len() - 1]));
    }
}

/// Namespace healing decides by the instants that start times denote, not by
/// their text: inspections whose start times denote the same instants (say
/// the same time written with another UTC offset, or with other fractional
/// digits) lead to the same decision, and so to the same containers restarted
/// in the same order.
pub proof fn law_heal_decides_by_instants(
    c: &Config,
    m: Map<Seq<char>, u32>,
    reference: (i64, u32),
    names: Seq<Seq<char>>,
    gluetun_a: Option<ContainerState>,
    gluetun_b: Option<ContainerState>,
    states_a: Vec<Option<ContainerState>>,
    states_b: Vec<Option<ContainerState>>,
)
    requires
        running_since_spec(gluetun_a) == running_since_spec(gluetun_b),
        names.len() == states_a@.len(),
        same_instants(states_a@, states_b@),
    ensures
        transition(c, PhaseView::HealGluetunInspect, m, Event::Inspected(gluetun_a)) == transition(
            c,
            PhaseView::HealGluetunInspect,
            m,
            Event::Inspected(gluetun_b),
        ),
        transition(c, PhaseView::HealInspectEach { reference, names }, m, Event::InspectedEach(states_a))
            == transition(c, PhaseView::HealInspectEach { reference, names }, m, Event::InspectedEach(states_b)),
{
    lemma_stale_by_instants(reference, names, states_a@, states_b@);
}


/// The phases of namespace healing.
pub open spec fn in_healing(p: PhaseView) -> bool {
    ||| p is HealGluetunInspect
    ||| p is HealList
    ||| p is HealInspectEach
    ||| p is HealRestarts
}

/// Namespace healing never ends a cycle: from a healing phase the cycle
/// either heals further, or goes on to the tunnel check, asking the control
/// server for the public IP at `/v1/publicip/ip`. Only where no URL can be
/// formed for that endpoint does the cycle end there, as `TunnelDown`.
pub proof fn law_healing_goes_on_to_tunnel_check(c: &Config, p: PhaseView, m: Map<Seq<char>, u32>, e: Event)
    requires
        accepts(c, p, m, e),
        in_healing(p),
    ensures
        transition(c, p, m, e).1 == m,
        in_healing(transition(c, p, m, e).0) || match url_join(c.gluetun_url@, "/v1/publicip/ip"@) {
            Some(u) => transition(c, p, m, e).0 == PhaseView::TunnelCheck && transition(c, p, m, e).2
                == ActionView::FetchPublicIp(u),
            None => transition(c, p, m, e).0 == PhaseView::Done && transition(c, p, m, e).2
                == ActionView::Finish(CycleOutcome::TunnelDown),
        },
        transition(c, p, m, e).2 is RestartEach ==> transition(c, p, m, e).0 is HealRestarts,
{
}

/// Gluetun is restarted only when, in this cycle's probes, some site's
/// failure count reached the threshold.
pub proof fn law_restart_only_at_threshold(c: &Config, p: PhaseView, m: Map<Seq<char>, u32>, e: Event)
    requires
        accepts(c, p, m, e),
    ensures
        transition(c, p, m, e).2 is RestartContainer ==> (p matches PhaseView::Probing { sites } && e matches Event::Probed(outs)
            && reaches_threshold(m, probe_outcomes(sites, outs@), c.fail_threshold)),
{
}

/// While the tunnel is not up, nothing is probed and no count changes.
pub proof fn law_tunnel_down_probes_nothing(c: &Config, m: Map<Seq<char>, u32>, body: Option<JsonBody>)
    requires
        !tunnel_up(body),
    ensures
        transition(c, PhaseView::TunnelCheck, m, Event::PublicIp(body)).1 == m,
        transition(c, PhaseView::TunnelCheck, m, Event::PublicIp(body)).2 == ActionView::Finish(
            CycleOutcome::TunnelDown,
        ),
{
}


/// Sites are probed only once the tunnel was seen up in the same cycle: the
/// probes follow the sites file, which follows the search for Gluetun, which
/// follows a public-IP answer that shows the tunnel up.
pub proof fn law_probes_follow_tunnel_up(c: &Config, p: PhaseView, m: Map<Seq<char>, u32>, e: Event)
    requires
        accepts(c, p, m, e),
    ensures
        transition(c, p, m, e).2 is ProbeSites ==> p is ReadingSites,
        transition(c, p, m, e).0 is ReadingSites ==> p is FindGluetun,
        transition(c, p, m, e).0 is FindGluetun ==> (p is TunnelCheck && (e matches Event::PublicIp(b) && tunnel_up(b))),
{
}

/// Failure counts change only when probe results are recorded, or when a
/// recovery clears them all.
pub proof fn law_counts_change_only_by_probes_or_recovery(
    c: &Config,
    p: PhaseView,
    m: Map<Seq<char>, u32>,
    e: Event,
)
    requires
        accepts(c, p, m, e),
    ensures
        transition(c, p, m, e).1 != m ==> (p is Probing || (transition(c, p, m, e).1 == Map::<
            Seq<char>,
            u32,
        >::empty() && in_recovery(transition(c, p, m, e).0))),
{
}

/// Once Gluetun is being restarted, the cycle stays in the recovery until it
/// ends as recovered, and it ends so only after the dependents were
/// restarted: whether or not Gluetun came back healthy, the dependents
/// follow it into its new network namespace.
pub proof fn law_recovery_restarts_dependents(c: &Config, p: PhaseView, m: Map<Seq<char>, u32>, e: Event)
    requires
        accepts(c, p, m, e),
    ensures
        in_recovery(p) ==> (in_recovery(transition(c, p, m, e).0) || transition(c, p, m, e).2 is Finish),
        transition(c, p, m, e).2 matches ActionView::Finish(CycleOutcome::Recovered { .. }) ==> p is RecoveryRestarts,
        transition(c, p, m, e).0 is RecoveryRestarts ==> (p is RecoveryRestarts || transition(c, p, m, e).2 is RestartEach),
        in_recovery(p) && transition(c, p, m, e).2 is Finish ==> transition(c, p, m, e).2 matches ActionView::Finish(
            CycleOutcome::Recovered { .. },
        ),
{
}

/// A cycle that ends with a recovery leaves no failure counts.
pub proof fn law_recovery_clears_counts(c: &Config, p: PhaseView, m: Map<Seq<char>, u32>, e: Event)
    requires
        accepts(c, p, m, e),
        cycle_invariant(c, p, m),
    ensures
        transition(c, p, m, e).2 matches ActionView::Finish(CycleOutcome::Recovered { .. }) ==> transition(
            c,
            p,
            m,
            e,
        ).1 == Map::<Seq<char>, u32>::empty(),
{
}

/// One check cycle.
#[derive(Debug)]
pub struct CheckCycle {
    pub phase: Phase,
}

fn tunnel_action(c: &Config) -> (r: (Phase, Action))
    ensures
        (r.0@, r.1@) == tunnel_step(c),
{
    match endpoint_url(c.gluetun_url.as_str(), GluetunEndpoint::PublicIp) {
        Some(url) => (Phase::TunnelCheck, Action::FetchPublicIp { url }),
        None => (Phase::Done, Action::Finish { outcome: CycleOutcome::TunnelDown }),
    }
}

fn recovery_action(c: &Config, healthy: bool) -> (r: (Phase, Action))
    ensures
        (r.0@, r.1@) == recovery_step(c, healthy),
{
    match &c.dependent_containers {
        DependentContainers::Explicit(names) => (
            Phase::RecoveryRestarts { healthy },
            Action::RestartEach { names: copy_strings(names) },
        ),
        DependentContainers::Auto => (Phase::RecoveryList { healthy }, Action::ListContainers),
    }
}

fn heal_action(c: &Config, reference: (i64, u32), deps: Vec<String>) -> (r: (Phase, Action))
    ensures
        (r.0@, r.1@) == heal_step(c, reference, deps.deep_view()),
{
    if deps.len() == 0 {
        tunnel_action(c)
    } else {
        let names = copy_strings(&deps);
        (Phase::HealInspectEach { reference, names }, Action::InspectEach { names: deps })
    }
}

fn listing_of(l: Option<Vec<ContainerSummary>>) -> (v: Vec<ContainerSummary>)
    ensures
        v@ == listing(l),
{
    match l {
        Some(v) => v,
        None => Vec::new(),
    }
}

fn listing_usable(c: &Config, l: &Option<Vec<ContainerSummary>>) -> (ok: bool)
    ensures
        ok == listing_ok(c, *l),
{
    match l {
        Some(cs) => short_id_usable(cs, c.gluetun_container.as_str()),
        None => true,
    }
}

fn probe_results(sites: &Vec<String>, outs: &Vec<ExecOutcome>) -> (rs: Vec<SiteResult>)
    requires
        sites@.len() == outs@.len(),
    ensures
        outcomes(rs@) == probe_outcomes(sites.deep_view(), outs@),
{
    let mut rs: Vec<SiteResult> = Vec::new();
    let mut i: usize = 0;
    while i < sites.len()
        invariant
            sites@.len() == outs@.len(),
            i <= sites@.len(),
            rs@.len() == i,
            forall|k: int| 0 <= k < i ==> (#[trigger] rs@[k]).site@ == sites.deep_view()[k] && rs@[k].status == verdict(&outs@[k]).0,
        decreases sites.len() - i,
    {
        let r = test_site(sites[i].as_str(), &outs[i]);
        rs.push(r);
        i = i + 1;
    }
    assert(outcomes(rs@) == probe_outcomes(sites.deep_view(), outs@));
    rs
}

impl CheckCycle {
    /// A cycle that has not begun.
    pub fn new() -> (c: Self)
        ensures
            c.phase@ == PhaseView::Idle,
    {
        CheckCycle { phase: Phase::Idle }
    }

    /// Whether `event` answers the current action and holds what the
    /// decision needs.
    pub fn accepts(&self, config: &Config, failures: &FailureCounts, event: &Event) -> (ok: bool)
        ensures
            ok == accepts(config, self.phase@, failures@, *event),
    {
        match (&self.phase, event) {
            (Phase::Idle, Event::Start) => true,
            (Phase::HealGluetunInspect, Event::Inspected(_)) => true,
            (Phase::HealList { .. }, Event::Listed(l)) => listing_usable(config, l),
            (Phase::HealInspectEach { names, .. }, Event::InspectedEach(states)) => states.len() == names.len(),
            (Phase::HealRestarts, Event::RestartedEach) => true,
            (Phase::TunnelCheck, Event::PublicIp(_)) => true,
            (Phase::FindGluetun, Event::Listed(_)) => true,
            (Phase::ReadingSites { .. }, Event::SitesText(_)) => true,
            (Phase::Probing { sites }, Event::Probed(outs)) => {
                if outs.len() != sites.len() {
                    false
                } else {
                    let rs = probe_results(sites, outs);
                    failures.can_record(&rs)
                }
            },
            (Phase::RestartingGluetun, Event::Restarted(_)) => true,
            (Phase::HealthWait, Event::Inspected(_)) => true,
            (Phase::HealthWait, Event::TimedOut) => true,
            (Phase::HealthPause, Event::Slept) => true,
            (Phase::HealthPause, Event::TimedOut) => true,
            (Phase::DnsSettle, Event::Slept) => true,
            (Phase::RecoveryList { .. }, Event::Listed(l)) => listing_usable(config, l),
            (Phase::RecoveryRestarts { .. }, Event::RestartedEach) => true,
            _ => false,
        }
    }

    /// Takes the decision that follows `event`, updates the failure counts
    /// where the decision touches them, and says what to do next.
    pub fn step(&mut self, config: &Config, failures: &mut FailureCounts, event: Event) -> (action: Action)
        requires
            accepts(config, old(self).phase@, old(failures)@, event),
        ensures
            (final(self).phase@, final(failures)@, action@) == transition(
                config,
                old(self).phase@,
                old(failures)@,
                event,
            ),
    {
        let mut phase = Phase::Done;
        std::mem::swap(&mut phase, &mut self.phase);
        let name = config.gluetun_container.as_str();
        let (next, action): (Phase, Action) = match (phase, event) {
            (Phase::Idle, Event::Start) => (Phase::HealGluetunInspect, Action::InspectContainer { name: owned(name) }),
            (Phase::HealGluetunInspect, Event::Inspected(s)) => match running_since(&s) {
                None => tunnel_action(config),
                Some(r) => match &config.dependent_containers {
                    DependentContainers::Explicit(names) => heal_action(config, r, copy_strings(names)),
                    DependentContainers::Auto => (Phase::HealList { reference: r }, Action::ListContainers),
                },
            },
            (Phase::HealList { reference }, Event::Listed(l)) => {
                let cs = listing_of(l);
                let deps = discover_dependents(&cs, name);
                heal_action(config, reference, deps)
            },
            (Phase::HealInspectEach { reference, names }, Event::InspectedEach(states)) => {
                let stale = out_of_sync_dependents(reference, &names, &states);
                if stale.len() == 0 {
                    tunnel_action(config)
                } else {
                    (Phase::HealRestarts, Action::RestartEach { names: stale })
                }
            },
            (Phase::HealRestarts, Event::RestartedEach) => tunnel_action(config),
            (Phase::TunnelCheck, Event::PublicIp(body)) => if is_tunnel_up(&body) {
                (Phase::FindGluetun, Action::ListContainers)
            } else {
                (Phase::Done, Action::Finish { outcome: CycleOutcome::TunnelDown })
            },
            (Phase::FindGluetun, Event::Listed(l)) => {
                let found = match &l {
                    Some(cs) => find_container(cs, name),
                    None => None,
                };
                match found {
                    Some(id) => (
                        Phase::ReadingSites { container_id: id },
                        Action::ReadSites { path: config.config_file.clone() },
                    ),
                    None => (Phase::Done, Action::Finish { outcome: CycleOutcome::GluetunNotFound }),
                }
            },
            (Phase::ReadingSites { container_id }, Event::SitesText(text)) => {
                let sites = load_sites(text.as_str());
                if sites.len() == 0 {
                    (Phase::Done, Action::Finish { outcome: CycleOutcome::NoSites })
                } else {
                    let listed = copy_strings(&sites);
                    (
                        Phase::Probing { sites },
                        Action::ProbeSites { container_id, sites: listed, timeout_secs: config.request_timeout },
                    )
                }
            },
            (Phase::Probing { sites }, Event::Probed(outs)) => {
                let rs = probe_results(&sites, &outs);
                let reached = failures.record_results(&rs, config.fail_threshold);
                if reached {
                    (Phase::RestartingGluetun, Action::RestartContainer { name: owned(name) })
                } else {
                    (Phase::Done, Action::Finish { outcome: CycleOutcome::Checked })
                }
            },
            (Phase::RestartingGluetun, Event::Restarted(ok)) => if ok {
                (
                    Phase::HealthWait,
                    Action::StartHealthWait { name: owned(name), timeout_secs: config.healthy_wait_timeout },
                )
            } else {
                failures.clear();
                recovery_action(config, false)
            },
            (Phase::HealthWait, Event::Inspected(s)) => if container_is_up(&s) {
                (Phase::DnsSettle, Action::Sleep { secs: 10 })
            } else {
                (Phase::HealthPause, Action::PauseHealthWait)
            },
            (Phase::HealthWait, Event::TimedOut) => {
                failures.clear();
                recovery_action(config, false)
            },
            (Phase::HealthPause, Event::Slept) => (Phase::HealthWait, Action::InspectAgain { name: owned(name) }),
            (Phase::HealthPause, Event::TimedOut) => {
                failures.clear();
                recovery_action(config, false)
            },
            (Phase::DnsSettle, Event::Slept) => {
                failures.clear();
                recovery_action(config, true)
            },
            (Phase::RecoveryList { healthy }, Event::Listed(l)) => {
                let cs = listing_of(l);
                let deps = discover_dependents(&cs, name);
                (Phase::RecoveryRestarts { healthy }, Action::RestartEach { names: deps })
            },
            (Phase::RecoveryRestarts { healthy }, Event::RestartedEach) => (
                Phase::Done,
                Action::Finish { outcome: CycleOutcome::Recovered { healthy } },
            ),
            (p, _) => (p, Action::Finish { outcome: CycleOutcome::Checked }),
        };
        self.phase = next;
        action
    }
}

} // verus!
