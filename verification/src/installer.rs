//! The idempotent installer. Out of the desired bundles and the identifiers
//! the runtime already reports installed, `reconcile_plan` decides — bundle
//! by bundle, in the order given — what to install, what is already present,
//! and what must be rejected (an unreadable bundle, a malformed manifest),
//! never letting one bad bundle block the others. The `Reconcile` machine
//! then tracks the execution of that plan against the runtime's control
//! channel: install submissions, and the one-time initialization call for
//! every provisioned cell that exposes an entry point for it. Failures are
//! recorded, named, and stepped past; an initialization failure leaves the
//! application installed.

use crate::bundle::Bundle;
use crate::ident::identifier_of;
use vstd::prelude::*;

verus! {

/// The address of a provisioned execution cell: its unit-definition hash and
/// the agent it runs under.
pub struct CellAddress {
    pub dna_hash: Vec<u8>,
    pub agent_key: Vec<u8>,
}

impl View for CellAddress {
    type V = (Seq<u8>, Seq<u8>);

    open spec fn view(&self) -> (Seq<u8>, Seq<u8>) {
        (self.dna_hash@, self.agent_key@)
    }
}

impl CellAddress {
    /// Copy the address.
    pub fn duplicate(&self) -> (copy: CellAddress)
        ensures
            copy@ == self@,
    {
        CellAddress { dna_hash: clone_bytes(&self.dna_hash), agent_key: clone_bytes(&self.agent_key) }
    }
}

/// One cell record as the runtime reports it under an installed application.
pub enum CellRecord {
    /// A provisioned, runnable cell.
    Provisioned { cell: CellAddress },
    /// A cloned, runnable cell.
    Cloned { cell: CellAddress },
    /// A stem cell: not yet provisioned, not addressable.
    Stem,
}

/// The address a record designates: stem cells have none.
pub open spec fn spec_cell_id(record: CellRecord) -> Option<(Seq<u8>, Seq<u8>)> {
    match record {
        CellRecord::Provisioned { cell } => Some(cell@),
        CellRecord::Cloned { cell } => Some(cell@),
        CellRecord::Stem => None,
    }
}

/// The address of the cell a record designates, if it designates one:
/// provisioned and cloned cells are addressable, stem cells are not.
pub fn cell_id(record: &CellRecord) -> (address: Option<CellAddress>)
    ensures
        address is Some <==> spec_cell_id(*record) is Some,
        address is Some ==> address->0@ == spec_cell_id(*record)->0,
{
    match record {
        CellRecord::Provisioned { cell } => Some(cell.duplicate()),
        CellRecord::Cloned { cell } => Some(cell.duplicate()),
        CellRecord::Stem => None,
    }
}

/// The addresses of the addressable cells among `records`, in order.
pub open spec fn spec_init_targets(records: Seq<CellRecord>) -> Seq<(Seq<u8>, Seq<u8>)>
    decreases records.len(),
{
    if records.len() == 0 {
        Seq::empty()
    } else {
        spec_init_targets(records.drop_last()) + match spec_cell_id(records.last()) {
            Some(address) => seq![address],
            None => Seq::empty(),
        }
    }
}

/// The views of a list of cell addresses.
pub open spec fn address_views(addresses: Seq<CellAddress>) -> Seq<(Seq<u8>, Seq<u8>)> {
    addresses.map_values(|a: CellAddress| a@)
}

/// The cells to initialize among the reported records: every addressable
/// one, in the order reported. Stem cells are skipped, not an error.
pub fn init_targets(records: &Vec<CellRecord>) -> (targets: Vec<CellAddress>)
    ensures
        address_views(targets@) == spec_init_targets(records@),
{
    let mut targets: Vec<CellAddress> = Vec::new();
    let mut i: usize = 0;
    while i < records.len()
        invariant
            i <= records.len(),
            address_views(targets@) =~= spec_init_targets(records@.take(i as int)),
        decreases records.len() - i,
    {
        if let Some(address) = cell_id(&records[i]) {
            targets.push(address);
        }
        proof {
            assert(records@.take(i + 1).drop_last() =~= records@.take(i as int));
            assert(records@.take(i + 1).last() == records@[i as int]);
            assert(address_views(targets@) =~= spec_init_targets(records@.take(i + 1)));
        }
        i = i + 1;
    }
    proof {
        assert(records@.take(records@.len() as int) =~= records@);
    }
    targets
}

/// The structural definition of a cell, as fetched from the runtime's
/// control channel: the names of its externally callable coordinator zomes.
pub struct CellDefinition {
    pub coordinator_zomes: Vec<String>,
}

/// The one-time initialization call a cell definition asks for.
pub struct InitCall {
    /// The zome the entry point lives in: the first coordinator zome.
    pub zome: String,
    /// The name of the entry point, invoked with an empty payload.
    pub function: String,
}

/// The initialization entry point a cell exposes, if any: the `init`
/// function of its first coordinator zome. A cell with no coordinator zome
/// has nothing to initialize and is skipped, not an error.
pub fn init_entry_point(definition: &CellDefinition) -> (call: Option<InitCall>)
    ensures
        call is Some <==> definition.coordinator_zomes@.len() > 0,
        call is Some ==> call->0.zome@ == definition.coordinator_zomes@[0]@ && call->0.function@
            == "init"@,
{
    if definition.coordinator_zomes.len() == 0 {
        return None;
    }
    Some(
        InitCall {
            zome: definition.coordinator_zomes[0].clone(),
            function: String::from_str("init"),
        },
    )
}

/// The outcome of reading one desired bundle source, as the surrounding
/// loop hands it in: the parsed bundle, or the reason it could not be read.
pub enum BundleOutcome {
    /// The bundle at `source` parsed.
    Parsed { source: String, bundle: Bundle },
    /// The bundle at `source` could not be read or parsed.
    Unreadable { source: String, detail: String },
}

/// Why a desired bundle was rejected.
pub enum RejectReason {
    /// The bundle could not be read or parsed.
    BundleRead { detail: String },
    /// The bundle's manifest is malformed: it has no canonical encoding.
    Encoding,
}

/// One entry of a reconciliation plan, one per desired bundle, in order.
pub enum PlanStep {
    /// The application is missing: submit an install under `id`.
    Install { id: String },
    /// The application is already installed as `id`: nothing to do.
    AlreadyPresent { id: String },
    /// The bundle is rejected; the source names the offender.
    Rejected { source: String, reason: RejectReason },
}

/// The mathematical form of a bundle outcome.
pub enum OutcomeView {
    Parsed { source: Seq<char>, app_name: Seq<u8>, resources: Seq<(Seq<u8>, Seq<u8>)> },
    Unreadable { source: Seq<char>, detail: Seq<char> },
}

/// The mathematical form of a rejection reason.
pub enum ReasonView {
    BundleRead { detail: Seq<char> },
    Encoding,
}

/// The mathematical form of a plan entry.
pub enum StepView {
    Install { id: Seq<char> },
    AlreadyPresent { id: Seq<char> },
    Rejected { source: Seq<char>, reason: ReasonView },
}

impl View for BundleOutcome {
    type V = OutcomeView;

    open spec fn view(&self) -> OutcomeView {
        match self {
            BundleOutcome::Parsed { source, bundle } => OutcomeView::Parsed {
                source: source@,
                app_name: bundle.app_name@,
                resources: bundle.spec_resources(),
            },
            BundleOutcome::Unreadable { source, detail } => OutcomeView::Unreadable {
                source: source@,
                detail: detail@,
            },
        }
    }
}

impl View for RejectReason {
    type V = ReasonView;

    open spec fn view(&self) -> ReasonView {
        match self {
            RejectReason::BundleRead { detail } => ReasonView::BundleRead { detail: detail@ },
            RejectReason::Encoding => ReasonView::Encoding,
        }
    }
}

impl View for PlanStep {
    type V = StepView;

    open spec fn view(&self) -> StepView {
        match self {
            PlanStep::Install { id } => StepView::Install { id: id@ },
            PlanStep::AlreadyPresent { id } => StepView::AlreadyPresent { id: id@ },
            PlanStep::Rejected { source, reason } => StepView::Rejected {
                source: source@,
                reason: reason@,
            },
        }
    }
}

/// The views of a list of bundle outcomes.
pub open spec fn outcome_views(outcomes: Seq<BundleOutcome>) -> Seq<OutcomeView> {
    outcomes.map_values(|o: BundleOutcome| o@)
}

/// The views of a plan.
pub open spec fn step_views(plan: Seq<PlanStep>) -> Seq<StepView> {
    plan.map_values(|s: PlanStep| s@)
}

/// The views of a list of identifiers.
pub open spec fn id_views(ids: Seq<String>) -> Seq<Seq<char>> {
    ids.map_values(|s: String| s@)
}

/// What one bundle outcome becomes, against a set of identifiers already
/// installed: an unreadable bundle is rejected with its reading error, a
/// malformed one with an encoding error; otherwise its content-derived
/// identifier decides between an install and a skip.
pub open spec fn decide_spec(outcome: OutcomeView, installed: Seq<Seq<char>>) -> StepView {
    match outcome {
        OutcomeView::Unreadable { source, detail } => StepView::Rejected {
            source,
            reason: ReasonView::BundleRead { detail },
        },
        OutcomeView::Parsed { source, app_name, resources } => {
            if app_name.len() == 0 {
                StepView::Rejected { source, reason: ReasonView::Encoding }
            } else {
                let id = identifier_of(app_name, resources);
                if installed.contains(id) {
                    StepView::AlreadyPresent { id }
                } else {
                    StepView::Install { id }
                }
            }
        },
    }
}

/// The identifiers a plan installs, in order.
pub open spec fn installs_of(plan: Seq<StepView>) -> Seq<Seq<char>>
    decreases plan.len(),
{
    if plan.len() == 0 {
        Seq::empty()
    } else {
        installs_of(plan.drop_last()) + match plan.last() {
            StepView::Install { id } => seq![id],
            _ => Seq::empty(),
        }
    }
}

/// The plan for a list of desired bundle outcomes against a set of installed
/// identifiers: one step per outcome, in order, each decided against the
/// installed identifiers plus whatever the plan installs before it — so a
/// bundle repeated within one run is installed once.
pub open spec fn plan_spec(outcomes: Seq<OutcomeView>, installed: Seq<Seq<char>>) -> Seq<StepView>
    decreases outcomes.len(),
{
    if outcomes.len() == 0 {
        Seq::empty()
    } else {
        let rest = plan_spec(outcomes.drop_last(), installed);
        rest + seq![decide_spec(outcomes.last(), installed + installs_of(rest))]
    }
}

/// Appending a step appends its install, if it is one.
proof fn lemma_installs_of_snoc(plan: Seq<StepView>, step: StepView)
    ensures
        installs_of(plan.push(step)) == installs_of(plan) + (match step {
            StepView::Install { id } => seq![id],
            _ => Seq::empty(),
        }),
{
    assert(plan.push(step).drop_last() =~= plan);
    assert(plan.push(step).last() == step);
}

/// Whether `id` is among `ids`.
fn contains_id(ids: &Vec<String>, id: &String) -> (found: bool)
    ensures
        found == id_views(ids@).contains(id@),
{
    let mut i: usize = 0;
    while i < ids.len()
        invariant
            i <= ids.len(),
            forall|j: int| 0 <= j < i ==> id_views(ids@)[j] != id@,
        decreases ids.len() - i,
    {
        if ids[i] == *id {
            proof {
                assert(id_views(ids@)[i as int] == id@);
            }
            return true;
        }
        i = i + 1;
    }
    proof {
        assert(forall|j: int| 0 <= j < ids@.len() ==> id_views(ids@)[j] != id@);
    }
    false
}

/// Plan one reconciliation: one step per desired bundle outcome, in the
/// order given. A bundle that could not be read, or whose manifest has no
/// canonical encoding, is rejected by name and the run continues; a bundle
/// whose identifier the runtime already reports — or that an earlier step of
/// the same plan installs — is skipped; the rest are installs.
pub fn reconcile_plan(outcomes: Vec<BundleOutcome>, installed: &Vec<String>) -> (plan: Vec<
    PlanStep,
>)
    ensures
        step_views(plan@) == plan_spec(outcome_views(outcomes@), id_views(installed@)),
{
    let ghost all = outcomes@;
    let total: usize = outcomes.len();
    proof {
        assert(all.len() == total);
    }
    let mut outcomes = outcomes;
    let mut plan: Vec<PlanStep> = Vec::new();
    let mut known: Vec<String> = clone_ids(installed);
    let mut i: usize = 0;
    proof {
        assert(all.take(0) =~= Seq::<BundleOutcome>::empty());
        assert(id_views(known@) =~~= id_views(installed@) + installs_of(step_views(plan@)));
    }
    while outcomes.len() > 0
        invariant
            i + outcomes.len() == all.len(),
            all.len() <= usize::MAX,
            outcomes@ =~= all.skip(i as int),
            step_views(plan@) =~= plan_spec(outcome_views(all.take(i as int)), id_views(installed@)),
            id_views(known@) =~~= id_views(installed@) + installs_of(step_views(plan@)),
        decreases outcomes.len(),
    {
        let outcome = outcomes.remove(0);
        proof {
            assert(outcome == all[i as int]);
        }
        let ghost known_prior = known@;
        let ghost prior = step_views(plan@);
        let step: PlanStep = match outcome {
            BundleOutcome::Unreadable { source, detail } => PlanStep::Rejected {
                source,
                reason: RejectReason::BundleRead { detail },
            },
            BundleOutcome::Parsed { source, bundle } => match crate::ident::derive(&bundle) {
                Err(_) => PlanStep::Rejected { source, reason: RejectReason::Encoding },
                Ok(id) => {
                    if contains_id(&known, &id) {
                        PlanStep::AlreadyPresent { id }
                    } else {
                        known.push(id.clone());
                        proof {
                            assert(id_views(known@) =~~= id_views(known_prior).push(id@));
                        }
                        PlanStep::Install { id }
                    }
                },
            },
        };
        proof {
            assert(step@ == decide_spec(all[i as int]@, id_views(installed@) + installs_of(prior)));
            assert(id_views(known@) =~~= id_views(installed@) + installs_of(prior) + (match step@ {
                StepView::Install { id } => seq![id],
                _ => Seq::<Seq<char>>::empty(),
            }));
        }
        plan.push(step);
        proof {
            assert(step_views(plan@) =~= prior.push(step@));
            lemma_installs_of_snoc(prior, step@);
            assert(installs_of(step_views(plan@)) == installs_of(prior) + (match step@ {
                StepView::Install { id } => seq![id],
                _ => Seq::<Seq<char>>::empty(),
            }));
            assert(outcome_views(all.take(i + 1)).drop_last() =~= outcome_views(
                all.take(i as int),
            ));
            assert(outcome_views(all.take(i + 1)).last() == all[i as int]@);
            assert(step_views(plan@) =~= plan_spec(
                outcome_views(all.take(i + 1)),
                id_views(installed@),
            ));
            assert(id_views(known@) =~~= id_views(installed@) + installs_of(step_views(plan@)));
        }
        i = i + 1;
    }
    proof {
        assert(all.take(all.len() as int) =~= all);
    }
    plan
}

/// Copy a list of identifiers.
fn clone_ids(ids: &Vec<String>) -> (copy: Vec<String>)
    ensures
        id_views(copy@) == id_views(ids@),
{
    let mut copy: Vec<String> = Vec::new();
    let mut i: usize = 0;
    while i < ids.len()
        invariant
            i <= ids.len(),
            copy@.len() == i,
            forall|j: int| 0 <= j < i ==> copy@[j]@ == ids@[j]@,
        decreases ids.len() - i,
    {
        copy.push(ids[i].clone());
        i = i + 1;
    }
    proof {
        assert(id_views(copy@) =~~= id_views(ids@));
    }
    copy
}

/// Copy a byte field.
fn clone_bytes(bytes: &Vec<u8>) -> (copy: Vec<u8>)
    ensures
        copy@ == bytes@,
{
    let mut copy: Vec<u8> = Vec::new();
    let mut i: usize = 0;
    while i < bytes.len()
        invariant
            i <= bytes.len(),
            copy@ =~= bytes@.subrange(0, i as int),
        decreases bytes.len() - i,
    {
        copy.push(bytes[i]);
        i = i + 1;
    }
    proof {
        assert(copy@ =~= bytes@);
    }
    copy
}

/// A failure recorded while a plan ran, naming its offender.
pub enum Failure {
    /// A desired bundle was rejected before anything was submitted.
    Rejected { source: String, reason: RejectReason },
    /// The runtime refused the install of `id`.
    InstallFailed { id: String, detail: String },
    /// One cell's initialization under `id` failed; the application stays
    /// installed, the operator must intervene.
    CellInitFailed { id: String, cell: CellAddress, detail: String },
}

/// Where the machine stands inside the current plan entry.
pub enum RunPhase {
    /// Ready to submit the next planned install, if any remain.
    Installing,
    /// An install went through; the addressable cells it provisioned are
    /// being initialized one at a time.
    Initializing { targets: Vec<CellAddress>, next: usize },
}

/// What the surrounding loop must do next for the installer.
pub enum InstallRequest {
    /// Submit an install of the bundle whose identifier is `id`.
    Install { id: String },
    /// Fetch `cell`'s definition and, if it exposes an initialization entry
    /// point, invoke it once with an empty payload.
    Initialize { id: String, cell: CellAddress },
    /// The plan is done.
    Finished,
}

/// The machine that tracks one reconciliation run: the planned installs, in
/// order, the per-cell initialization of each installed application, and
/// every failure met on the way. A failure is recorded and stepped past —
/// the run always continues with the next cell or the next bundle.
pub struct Reconcile {
    /// The identifiers the plan installs, in order.
    pub queue: Vec<String>,
    /// How many entries of `queue` are fully dealt with.
    pub pos: usize,
    /// Where the machine stands inside the current entry.
    pub phase: RunPhase,
    /// The identifiers newly installed by this run, in order.
    pub newly: Vec<String>,
    /// Every failure met, in order, naming its offender.
    pub failures: Vec<Failure>,
}

impl Reconcile {
    /// The machine's structural invariant: the position is inside the
    /// queue, and cells are only ever initialized for a current install.
    pub open spec fn wf(&self) -> bool {
        &&& self.pos <= self.queue@.len()
        &&& match self.phase {
            RunPhase::Installing => true,
            RunPhase::Initializing { targets, next } => self.pos < self.queue@.len() && next
                < targets@.len(),
        }
    }

    /// Start a run from a plan: the rejected entries are recorded as
    /// failures at once, in order; the install entries form the queue.
    pub fn new(plan: Vec<PlanStep>) -> (machine: Reconcile)
        ensures
            machine.wf(),
            id_views(machine.queue@) == installs_of(step_views(plan@)),
            machine.pos == 0,
            machine.phase is Installing,
            machine.newly@.len() == 0,
            failure_views(machine.failures@) == rejects_of(step_views(plan@)),
    {
        let ghost all = plan@;
        let total: usize = plan.len();
        proof {
            assert(all.len() == total);
        }
        let mut plan = plan;
        let mut queue: Vec<String> = Vec::new();
        let mut failures: Vec<Failure> = Vec::new();
        let mut i: usize = 0;
        while plan.len() > 0
            invariant
                i + plan.len() == all.len(),
                all.len() <= usize::MAX,
                plan@ =~= all.skip(i as int),
                id_views(queue@) =~~= installs_of(step_views(all.take(i as int))),
                failure_views(failures@) =~~= rejects_of(step_views(all.take(i as int))),
            decreases plan.len(),
        {
            let step = plan.remove(0);
            proof {
                assert(step == all[i as int]);
            }
            match step {
                PlanStep::Install { id } => {
                    queue.push(id);
                },
                PlanStep::AlreadyPresent { id: _ } => {},
                PlanStep::Rejected { source, reason } => {
                    failures.push(Failure::Rejected { source, reason });
                },
            }
            proof {
                assert(step_views(all.take(i + 1)).drop_last() =~= step_views(all.take(i as int)));
                assert(step_views(all.take(i + 1)).last() == all[i as int]@);
                assert(id_views(queue@) =~~= installs_of(step_views(all.take(i + 1))));
                assert(failure_views(failures@) =~~= rejects_of(step_views(all.take(i + 1))));
            }
            i = i + 1;
        }
        proof {
            assert(all.take(all.len() as int) =~= all);
        }
        Reconcile { queue, pos: 0, phase: RunPhase::Installing, newly: Vec::new(), failures }
    }

    /// What the loop must do next: submit the next planned install,
    /// initialize the next cell of the current one, or stop.
    pub fn next_request(&self) -> (request: InstallRequest)
        requires
            self.wf(),
        ensures
            match self.phase {
                RunPhase::Installing => {
                    if self.pos < self.queue@.len() {
                        request matches InstallRequest::Install { id } && id@
                            == self.queue@[self.pos as int]@
                    } else {
                        request is Finished
                    }
                },
                RunPhase::Initializing { targets, next } => request matches InstallRequest::Initialize { id, cell }
                    && id@ == self.queue@[self.pos as int]@ && cell@ == targets@[next as int]@,
            },
    {
        match &self.phase {
            RunPhase::Installing => {
                if self.pos < self.queue.len() {
                    InstallRequest::Install { id: self.queue[self.pos].clone() }
                } else {
                    InstallRequest::Finished
                }
            },
            RunPhase::Initializing { targets, next } => InstallRequest::Initialize {
                id: self.queue[self.pos].clone(),
                cell: targets[*next].duplicate(),
            },
        }
    }

    /// The runtime accepted the current install and reported the cells it
    /// provisioned: the identifier is recorded as newly installed, and the
    /// addressable cells queue up for their one-time initialization.
    pub fn on_install_ok(&mut self, cells: Vec<CellRecord>)
        requires
            old(self).wf(),
            old(self).phase is Installing,
            old(self).pos < old(self).queue@.len(),
        ensures
            final(self).wf(),
            final(self).queue == old(self).queue,
            final(self).failures == old(self).failures,
            final(self).newly@ == old(self).newly@.push(old(self).queue@[old(self).pos as int]),
            spec_init_targets(cells@).len() == 0 ==> final(self).pos == old(self).pos + 1
                && final(self).phase is Installing,
            spec_init_targets(cells@).len() > 0 ==> final(self).pos == old(self).pos && (final(
                self).phase matches RunPhase::Initializing { targets, next } && address_views(
                targets@,
            ) == spec_init_targets(cells@) && next == 0),
    {
        let limit: usize = self.queue.len();
        proof {
            assert(self.pos < limit);
        }
        let id = self.queue[self.pos].clone();
        self.newly.push(id);
        let targets = init_targets(&cells);
        if targets.len() == 0 {
            self.pos = self.pos + 1;
            self.phase = RunPhase::Installing;
        } else {
            self.phase = RunPhase::Initializing { targets, next: 0 };
        }
    }

    /// The runtime refused the current install: the failure is recorded by
    /// identifier and the run continues with the next planned install.
    pub fn on_install_failed(&mut self, detail: String)
        requires
            old(self).wf(),
            old(self).phase is Installing,
            old(self).pos < old(self).queue@.len(),
        ensures
            final(self).wf(),
            final(self).queue == old(self).queue,
            final(self).newly == old(self).newly,
            final(self).pos == old(self).pos + 1,
            final(self).phase is Installing,
            final(self).failures@ == old(self).failures@.push(
                Failure::InstallFailed { id: old(self).queue@[old(self).pos as int], detail },
            ),
    {
        let limit: usize = self.queue.len();
        proof {
            assert(self.pos < limit);
        }
        let id = self.queue[self.pos].clone();
        proof {
            assert(id == self.queue@[self.pos as int]);
        }
        self.failures.push(Failure::InstallFailed { id, detail });
        self.pos = self.pos + 1;
        self.phase = RunPhase::Installing;
    }

    /// The current cell is dealt with — initialized, or found to expose no
    /// initialization entry point: move to the next cell, or to the next
    /// planned install once all cells of this application are done.
    pub fn on_cell_done(&mut self)
        requires
            old(self).wf(),
            old(self).phase is Initializing,
        ensures
            final(self).wf(),
            final(self).queue == old(self).queue,
            final(self).newly == old(self).newly,
            final(self).failures == old(self).failures,
            advances(*old(self), *final(self)),
    {
        self.advance_cell();
    }

    /// The current cell's initialization failed: the failure is recorded,
    /// naming the application and the cell; the application stays installed,
    /// and the run continues exactly as after a success.
    pub fn on_cell_failed(&mut self, detail: String)
        requires
            old(self).wf(),
            old(self).phase is Initializing,
        ensures
            final(self).wf(),
            final(self).queue == old(self).queue,
            final(self).newly == old(self).newly,
            advances(*old(self), *final(self)),
            ({
                let targets = old(self).phase->Initializing_targets;
                let next = old(self).phase->Initializing_next;
                failure_views(final(self).failures@) == failure_views(old(self).failures@).push(
                    FailureView::CellInitFailed {
                        id: old(self).queue@[old(self).pos as int]@,
                        cell: targets@[next as int]@,
                        detail: detail@,
                    },
                )
            }),
    {
        let (id, cell): (String, CellAddress) = match &self.phase {
            RunPhase::Initializing { targets, next } => (
                self.queue[self.pos].clone(),
                targets[*next].duplicate(),
            ),
            RunPhase::Installing => {
                proof {
                    assert(false);
                }
                (String::new(), CellAddress { dna_hash: Vec::new(), agent_key: Vec::new() })
            },
        };
        self.failures.push(Failure::CellInitFailed { id, cell, detail });
        proof {
            assert(failure_views(self.failures@) =~~= failure_views(old(self).failures@).push(
                FailureView::CellInitFailed {
                    id: old(self).queue@[old(self).pos as int]@,
                    cell: old(self).phase->Initializing_targets@[old(
                        self,
                    ).phase->Initializing_next as int]@,
                    detail: detail@,
                },
            ));
        }
        self.advance_cell();
    }

    /// Step past the current cell.
    fn advance_cell(&mut self)
        requires
            old(self).wf(),
            old(self).phase is Initializing,
        ensures
            final(self).wf(),
            final(self).queue == old(self).queue,
            final(self).newly == old(self).newly,
            final(self).failures == old(self).failures,
            advances(*old(self), *final(self)),
    {
        let limit: usize = self.queue.len();
        proof {
            assert(self.pos < limit);
        }
        let mut last_cell_done: bool = false;
        match &mut self.phase {
            RunPhase::Initializing { targets, next } => {
                let cell_count: usize = targets.len();
                if *next + 1 < cell_count {
                    *next = *next + 1;
                } else {
                    last_cell_done = true;
                }
            },
            RunPhase::Installing => {
                proof {
                    assert(false);
                }
            },
        }
        if last_cell_done {
            self.pos = self.pos + 1;
            self.phase = RunPhase::Installing;
        }
    }
}

/// How stepping past a cell moves the machine: to the next cell of the
/// current application while one remains, else to the next planned install.
pub open spec fn advances(before: Reconcile, after: Reconcile) -> bool {
    match before.phase {
        RunPhase::Initializing { targets, next } => {
            if next + 1 < targets@.len() {
                after.pos == before.pos && (after.phase matches RunPhase::Initializing {
                    targets: t2,
                    next: n2,
                } && t2@ == targets@ && n2 == next + 1)
            } else {
                after.pos == before.pos + 1 && after.phase is Installing
            }
        },
        RunPhase::Installing => false,
    }
}

/// The mathematical form of a recorded failure.
pub enum FailureView {
    Rejected { source: Seq<char>, reason: ReasonView },
    InstallFailed { id: Seq<char>, detail: Seq<char> },
    CellInitFailed { id: Seq<char>, cell: (Seq<u8>, Seq<u8>), detail: Seq<char> },
}

impl View for Failure {
    type V = FailureView;

    open spec fn view(&self) -> FailureView {
        match self {
            Failure::Rejected { source, reason } => FailureView::Rejected {
                source: source@,
                reason: reason@,
            },
            Failure::InstallFailed { id, detail } => FailureView::InstallFailed {
                id: id@,
                detail: detail@,
            },
            Failure::CellInitFailed { id, cell, detail } => FailureView::CellInitFailed {
                id: id@,
                cell: cell@,
                detail: detail@,
            },
        }
    }
}

/// The views of a list of failures.
pub open spec fn failure_views(failures: Seq<Failure>) -> Seq<FailureView> {
    failures.map_values(|f: Failure| f@)
}

/// The failures a plan's rejected entries give, in order.
pub open spec fn rejects_of(plan: Seq<StepView>) -> Seq<FailureView>
    decreases plan.len(),
{
    if plan.len() == 0 {
        Seq::empty()
    } else {
        rejects_of(plan.drop_last()) + match plan.last() {
            StepView::Rejected { source, reason } => seq![
                FailureView::Rejected { source, reason },
            ],
            _ => Seq::empty(),
        }
    }
}

/// An element of the left part is an element of the concatenation.
proof fn lemma_contains_left<T>(left: Seq<T>, right: Seq<T>, x: T)
    requires
        left.contains(x),
    ensures
        (left + right).contains(x),
{
    let i = choose|i: int| 0 <= i < left.len() && left[i] == x;
    assert((left + right)[i] == x);
}

/// An element of the right part is an element of the concatenation.
proof fn lemma_contains_right<T>(left: Seq<T>, right: Seq<T>, x: T)
    requires
        right.contains(x),
    ensures
        (left + right).contains(x),
{
    let i = choose|i: int| 0 <= i < right.len() && right[i] == x;
    assert((left + right)[i + left.len()] == x);
}

/// An element of a concatenation is an element of one of its parts.
proof fn lemma_contains_split<T>(left: Seq<T>, right: Seq<T>, x: T)
    requires
        (left + right).contains(x),
    ensures
        left.contains(x) || right.contains(x),
{
    let i = choose|i: int| 0 <= i < (left + right).len() && (left + right)[i] == x;
    if i < left.len() {
        assert(left[i] == x);
    } else {
        assert(right[i - left.len()] == x);
    }
}

/// Against a set that already holds everything an earlier plan would
/// install — and everything it held then — the same desired list plans no
/// install at all.
proof fn lemma_no_new_installs(
    outcomes: Seq<OutcomeView>,
    installed1: Seq<Seq<char>>,
    installed2: Seq<Seq<char>>,
)
    requires
        forall|id: Seq<char>| installed1.contains(id) ==> installed2.contains(id),
        forall|id: Seq<char>|
            installs_of(plan_spec(outcomes, installed1)).contains(id) ==> installed2.contains(id),
    ensures
        installs_of(plan_spec(outcomes, installed2)).len() == 0,
    decreases outcomes.len(),
{
    if outcomes.len() == 0 {
    } else {
        let rest = outcomes.drop_last();
        let last = outcomes.last();
        let p1_rest = plan_spec(rest, installed1);
        let grown1 = installed1 + installs_of(p1_rest);
        let step1 = decide_spec(last, grown1);
        assert(plan_spec(outcomes, installed1) == p1_rest + seq![step1]);
        assert(p1_rest + seq![step1] =~= p1_rest.push(step1));
        lemma_installs_of_snoc(p1_rest, step1);
        // every identifier the shorter plan installs, the longer plan installs too
        assert forall|id: Seq<char>| installs_of(p1_rest).contains(id) implies installed2.contains(
            id,
        ) by {
            lemma_contains_left(
                installs_of(p1_rest),
                match step1 {
                    StepView::Install { id: last_id } => seq![last_id],
                    _ => Seq::<Seq<char>>::empty(),
                },
                id,
            );
        }
        lemma_no_new_installs(rest, installed1, installed2);
        let p2_rest = plan_spec(rest, installed2);
        assert(installs_of(p2_rest) =~= Seq::<Seq<char>>::empty());
        assert(installed2 + installs_of(p2_rest) =~= installed2);
        let step2 = decide_spec(last, installed2 + installs_of(p2_rest));
        assert(plan_spec(outcomes, installed2) == p2_rest + seq![step2]);
        assert(p2_rest + seq![step2] =~= p2_rest.push(step2));
        lemma_installs_of_snoc(p2_rest, step2);
        match last {
            OutcomeView::Unreadable { .. } => {},
            OutcomeView::Parsed { source, app_name, resources } => {
                if app_name.len() > 0 {
                    let id = identifier_of(app_name, resources);
                    if grown1.contains(id) {
                        lemma_contains_split(installed1, installs_of(p1_rest), id);
                    } else {
                        assert(step1 == (StepView::Install { id }));
                        assert(seq![id][0] == id);
                        assert(seq![id].contains(id));
                        lemma_contains_right(installs_of(p1_rest), seq![id], id);
                        assert(installs_of(plan_spec(outcomes, installed1)).contains(id));
                    }
                    assert(installed2.contains(id));
                    assert(step2 == (StepView::AlreadyPresent { id }));
                }
            },
        }
        assert(installs_of(plan_spec(outcomes, installed2)).len() == 0);
    }
}

/// Law (no bundle blocks another): a plan has exactly one step for every
/// desired bundle outcome, in order — each decided against the installed
/// identifiers plus the plan's own earlier installs — so a rejected or
/// unreadable bundle is recorded and every bundle after it is still decided.
pub proof fn lemma_plan_covers_every_outcome(
    outcomes: Seq<OutcomeView>,
    installed: Seq<Seq<char>>,
)
    ensures
        plan_spec(outcomes, installed).len() == outcomes.len(),
        forall|i: int|
            0 <= i < outcomes.len() ==> #[trigger] plan_spec(outcomes, installed)[i]
                == decide_spec(
                outcomes[i],
                installed + installs_of(plan_spec(outcomes.take(i), installed)),
            ),
    decreases outcomes.len(),
{
    if outcomes.len() > 0 {
        let rest = outcomes.drop_last();
        lemma_plan_covers_every_outcome(rest, installed);
        let p_rest = plan_spec(rest, installed);
        let plan = plan_spec(outcomes, installed);
        let step = decide_spec(outcomes.last(), installed + installs_of(p_rest));
        assert(plan == p_rest + seq![step]);
        assert forall|i: int| 0 <= i < outcomes.len() implies #[trigger] plan[i] == decide_spec(
            outcomes[i],
            installed + installs_of(plan_spec(outcomes.take(i), installed)),
        ) by {
            if i < rest.len() {
                assert(plan[i] == p_rest[i]);
                assert(rest[i] == outcomes[i]);
                assert(outcomes.take(i) =~= rest.take(i));
            } else {
                assert(i == rest.len());
                assert(plan[i] == step);
                assert(outcomes.take(i) =~= rest);
            }
        }
    }
}

/// Law (idempotent reconciliation): plan a desired list and install what the
/// plan says; a second run of the same list — against the installed set as
/// it now stands — plans not a single install. Every bundle is by then
/// already present, or rejected exactly as before.
pub proof fn lemma_reconcile_idempotent(outcomes: Seq<OutcomeView>, installed: Seq<Seq<char>>)
    ensures
        installs_of(
            plan_spec(outcomes, installed + installs_of(plan_spec(outcomes, installed))),
        ).len() == 0,
{
    let first = installs_of(plan_spec(outcomes, installed));
    let grown = installed + first;
    assert forall|id: Seq<char>| installed.contains(id) implies grown.contains(id) by {
        lemma_contains_left(installed, first, id);
    }
    assert forall|id: Seq<char>| first.contains(id) implies grown.contains(id) by {
        lemma_contains_right(installed, first, id);
    }
    lemma_no_new_installs(outcomes, installed, grown);
}

} // verus!
