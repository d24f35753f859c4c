//! Network state guard: provisioning of the virtual interface and the
//! restoration of the host's network configuration.
//!
//! Provisioning is a sequence of commands, each chosen from what the one
//! before it returned; the library holds the state and names the next
//! command, the caller runs it and hands back its outcome. Restoration is a
//! fixed plan that is handed out at most once, whoever asks and however often.

use vstd::prelude::*;
use crate::command::{
    add_route_spec, assign_address_spec, commands_view, delete_default_routes_spec,
    delete_route_spec, dhcp_address_spec, dhcp_dns_spec, list_interfaces_spec, query_index_spec,
    renew_leases_spec, Command, CommandOutcome, CommandView,
};
use crate::text::{
    chars_of, contains, contains_within, first_word, first_word_within, line_ranges, lines,
    lines_of, parse_u32, parse_u32_spec, ranges_view, ranges_within, trim, trim_within,
};

verus! {

/// The index that one line of an interface listing gives for the interface
/// called `name`: the number that the line starts with, where the line
/// mentions the name.
pub open spec fn line_index(line: Seq<char>, name: Seq<char>) -> Option<u32> {
    if contains(line, name) {
        match first_word(line) {
            Some(word) => parse_u32_spec(word),
            None => None,
        }
    } else {
        None
    }
}

/// The index that the first of the given lines gives which gives one.
pub open spec fn first_line_index(lines: Seq<Seq<char>>, name: Seq<char>) -> Option<u32>
    decreases lines.len(),
{
    if lines.len() == 0 {
        None
    } else {
        match line_index(lines[0], name) {
            Some(index) => Some(index),
            None => first_line_index(lines.drop_first(), name),
        }
    }
}

/// The index of the interface called `name` according to a listing of the
/// interfaces.
pub open spec fn listing_index(listing: Seq<char>, name: Seq<char>) -> Option<u32> {
    first_line_index(lines_of(trim(listing)), name)
}

/// The index that the network-configuration service replied with.
pub open spec fn reply_index(reply: Seq<char>) -> Option<u32> {
    parse_u32_spec(trim(reply))
}

/// Reads the reply of the network-configuration service: a number between
/// whitespace.
pub fn index_from_reply(reply: &str) -> (index: Option<u32>)
    ensures
        index == reply_index(reply@),
{
    let chars = chars_of(reply);
    assert(chars@.subrange(0, chars@.len() as int) =~= chars@);
    let (start, end) = trim_within(chars.as_slice(), 0, chars.len());
    let trimmed = vstd::slice::slice_subrange(chars.as_slice(), start, end);
    parse_u32(trimmed)
}

/// Looks the interface called `name` up in a listing of the interfaces: the
/// first line that mentions the name and starts with a number gives the index.
pub fn index_from_listing(listing: &str, name: &str) -> (index: Option<u32>)
    ensures
        index == listing_index(listing@, name@),
{
    let all = chars_of(listing);
    let needle = chars_of(name);
    assert(all@.subrange(0, all@.len() as int) =~= all@);
    let (start, end) = trim_within(all.as_slice(), 0, all.len());
    let chars = vstd::slice::slice_subrange(all.as_slice(), start, end);
    assert(chars@ == trim(listing@));
    let ranges = lines(chars);
    let ghost every = lines_of(chars@);
    let mut k: usize = 0;
    assert(every.skip(0) =~= every);
    while k < ranges.len()
        invariant
            k <= ranges.len(),
            chars@ == trim(listing@),
            every == lines_of(chars@),
            ranges_view(ranges@) == line_ranges(chars@),
            ranges_within(ranges@, chars@.len()),
            first_line_index(every, name@) == first_line_index(every.skip(k as int), name@),
            needle@ == name@,
        decreases ranges.len() - k,
    {
        let (from, to) = ranges[k];
        assert(ranges_view(ranges@)[k as int] == (from as int, to as int));
        let ghost line = chars@.subrange(from as int, to as int);
        assert(every[k as int] == line);
        assert(every.skip(k as int)[0] == line);
        assert(every.skip(k as int).drop_first() =~= every.skip(k + 1));
        if contains_within(chars, from, to, needle.as_slice()) {
            match first_word_within(chars, from, to) {
                Some((a, b)) => {
                    let word = vstd::slice::slice_subrange(chars, a, b);
                    match parse_u32(word) {
                        Some(index) => {
                            return Some(index);
                        },
                        None => {},
                    }
                },
                None => {},
            }
        }
        k += 1;
    }
    None
}

/// The identifier of the provisioned virtual interface. There is one only
/// once provisioning has succeeded.
#[derive(Clone, Copy, Debug, PartialEq, Eq)]
pub struct InterfaceHandle {
    index: u32,
}

impl InterfaceHandle {
    /// The interface's index.
    pub closed spec fn spec_index(&self) -> u32 {
        self.index
    }

    /// The interface's index.
    #[verifier::when_used_as_spec(spec_index)]
    pub fn index(&self) -> (index: u32)
        ensures
            index == self.spec_index(),
    {
        self.index
    }
}

/// Why the index of the interface could not be told.
#[derive(Clone, Copy, Debug, PartialEq, Eq)]
pub enum ResolveError {
    /// The network-configuration service replied with something that is no number.
    UnreadableReply,
    /// The service gave no index and the interfaces could not be listed.
    ListingUnavailable,
    /// The service gave no index and no line of the listing gives one.
    NotListed,
}

/// Why provisioning failed.
#[derive(Clone, Copy, Debug, PartialEq, Eq)]
pub enum ProvisionError {
    AddressAssignment,
    IndexResolution(ResolveError),
    RouteInstallation,
    /// The host was restored meanwhile: nothing is changed on it any more.
    HostRestored,
}

/// How far provisioning has come.
#[derive(Clone, Copy, Debug, PartialEq, Eq)]
pub enum ProvisionState {
    /// The command that assigns the address is running.
    AssigningAddress,
    /// The network-configuration service is being asked for the index.
    QueryingIndex,
    /// The listing of the interfaces is being read for the index.
    ReadingListing,
    /// The command that installs the default route is running.
    InstallingRoute { index: u32 },
    Ready { index: u32 },
    Failed(ProvisionError),
}

/// The state that follows `state` when the command that was running in it
/// ends with `outcome`. The index is asked of the network-configuration
/// service first; where that command fails or replies with nothing, the
/// listing of the interfaces is read.
pub open spec fn next_state(
    name: Seq<char>,
    state: ProvisionState,
    outcome: CommandOutcome,
) -> ProvisionState {
    match state {
        ProvisionState::AssigningAddress => if outcome.success {
            ProvisionState::QueryingIndex
        } else {
            ProvisionState::Failed(ProvisionError::AddressAssignment)
        },
        ProvisionState::QueryingIndex => if !outcome.success || trim(outcome.stdout@).len() == 0 {
            ProvisionState::ReadingListing
        } else {
            match reply_index(outcome.stdout@) {
                Some(index) => ProvisionState::InstallingRoute { index },
                None => ProvisionState::Failed(
                    ProvisionError::IndexResolution(ResolveError::UnreadableReply),
                ),
            }
        },
        ProvisionState::ReadingListing => if !outcome.success {
            ProvisionState::Failed(
                ProvisionError::IndexResolution(ResolveError::ListingUnavailable),
            )
        } else {
            match listing_index(outcome.stdout@, name) {
                Some(index) => ProvisionState::InstallingRoute { index },
                None => ProvisionState::Failed(
                    ProvisionError::IndexResolution(ResolveError::NotListed),
                ),
            }
        },
        ProvisionState::InstallingRoute { index } => if outcome.success {
            ProvisionState::Ready { index }
        } else {
            ProvisionState::Failed(ProvisionError::RouteInstallation)
        },
        ProvisionState::Ready { index } => state,
        ProvisionState::Failed(error) => state,
    }
}

/// What the caller is to do next.
#[derive(Clone, Debug, PartialEq, Eq)]
pub enum ProvisionStep {
    /// Run this command and hand its outcome back.
    Run(Command),
    /// Provisioning is done.
    Ready(InterfaceHandle),
    /// Provisioning has failed. The caller may go on without a route.
    Failed(ProvisionError),
}

/// The mathematical content of a [`ProvisionStep`].
pub enum ProvisionStepView {
    Run(CommandView),
    Ready(u32),
    Failed(ProvisionError),
}

impl View for ProvisionStep {
    type V = ProvisionStepView;

    open spec fn view(&self) -> ProvisionStepView {
        match *self {
            ProvisionStep::Run(command) => ProvisionStepView::Run(command@),
            ProvisionStep::Ready(handle) => ProvisionStepView::Ready(handle.spec_index()),
            ProvisionStep::Failed(error) => ProvisionStepView::Failed(error),
        }
    }
}

/// What is to be done in a state.
pub open spec fn step_of(
    name: Seq<char>,
    address: Seq<char>,
    mask: Seq<char>,
    state: ProvisionState,
) -> ProvisionStepView {
    match state {
        ProvisionState::AssigningAddress => ProvisionStepView::Run(
            assign_address_spec(name, address, mask),
        ),
        ProvisionState::QueryingIndex => ProvisionStepView::Run(query_index_spec(name)),
        ProvisionState::ReadingListing => ProvisionStepView::Run(list_interfaces_spec()),
        ProvisionState::InstallingRoute { index } => ProvisionStepView::Run(add_route_spec(index)),
        ProvisionState::Ready { index } => ProvisionStepView::Ready(index),
        ProvisionState::Failed(error) => ProvisionStepView::Failed(error),
    }
}

/// Provisions the virtual interface: assigns it a static address, finds its
/// index and installs a default route through it.
pub struct Provisioner {
    name: String,
    address: String,
    mask: String,
    state: ProvisionState,
}

impl Provisioner {
    pub closed spec fn name(&self) -> Seq<char> {
        self.name@
    }

    pub closed spec fn address(&self) -> Seq<char> {
        self.address@
    }

    pub closed spec fn mask(&self) -> Seq<char> {
        self.mask@
    }

    pub closed spec fn spec_state(&self) -> ProvisionState {
        self.state
    }

    /// What is to be done now.
    pub open spec fn pending(&self) -> ProvisionStepView {
        step_of(self.name(), self.address(), self.mask(), self.spec_state())
    }

    /// Starts provisioning of the interface called `name`.
    pub fn new(name: &str, address: &str, mask: &str) -> (provisioner: Provisioner)
        ensures
            provisioner.name() == name@,
            provisioner.address() == address@,
            provisioner.mask() == mask@,
            provisioner.spec_state() == ProvisionState::AssigningAddress,
    {
        Provisioner {
            name: name.to_owned(),
            address: address.to_owned(),
            mask: mask.to_owned(),
            state: ProvisionState::AssigningAddress,
        }
    }

    /// How far provisioning has come.
    #[verifier::when_used_as_spec(spec_state)]
    pub fn state(&self) -> (state: ProvisionState)
        ensures
            state == self.spec_state(),
    {
        self.state
    }

    /// What the caller is to do now.
    pub fn step(&self) -> (step: ProvisionStep)
        ensures
            step@ == self.pending(),
    {
        match self.state {
            ProvisionState::AssigningAddress => ProvisionStep::Run(
                Command::assign_address(
                    self.name.as_str(),
                    self.address.as_str(),
                    self.mask.as_str(),
                ),
            ),
            ProvisionState::QueryingIndex => ProvisionStep::Run(
                Command::query_index(self.name.as_str()),
            ),
            ProvisionState::ReadingListing => ProvisionStep::Run(Command::list_interfaces()),
            ProvisionState::InstallingRoute { index } => ProvisionStep::Run(
                Command::add_route(index),
            ),
            ProvisionState::Ready { index } => ProvisionStep::Ready(InterfaceHandle { index }),
            ProvisionState::Failed(error) => ProvisionStep::Failed(error),
        }
    }

    /// Takes the outcome of the command that was running and says what the
    /// caller is to do next.
    pub fn advance(&mut self, outcome: &CommandOutcome) -> (step: ProvisionStep)
        ensures
            final(self).name() == old(self).name(),
            final(self).address() == old(self).address(),
            final(self).mask() == old(self).mask(),
            final(self).spec_state() == next_state(
                old(self).name(),
                old(self).spec_state(),
                *outcome,
            ),
            step@ == final(self).pending(),
    {
        let next = match self.state {
            ProvisionState::AssigningAddress => if outcome.success {
                ProvisionState::QueryingIndex
            } else {
                ProvisionState::Failed(ProvisionError::AddressAssignment)
            },
            ProvisionState::QueryingIndex => if !outcome.success || reply_is_blank(
                outcome.stdout.as_str(),
            ) {
                ProvisionState::ReadingListing
            } else {
                match index_from_reply(outcome.stdout.as_str()) {
                    Some(index) => ProvisionState::InstallingRoute { index },
                    None => ProvisionState::Failed(
                        ProvisionError::IndexResolution(ResolveError::UnreadableReply),
                    ),
                }
            },
            ProvisionState::ReadingListing => if !outcome.success {
                ProvisionState::Failed(
                    ProvisionError::IndexResolution(ResolveError::ListingUnavailable),
                )
            } else {
                match index_from_listing(outcome.stdout.as_str(), self.name.as_str()) {
                    Some(index) => ProvisionState::InstallingRoute { index },
                    None => ProvisionState::Failed(
                        ProvisionError::IndexResolution(ResolveError::NotListed),
                    ),
                }
            },
            ProvisionState::InstallingRoute { index } => if outcome.success {
                ProvisionState::Ready { index }
            } else {
                ProvisionState::Failed(ProvisionError::RouteInstallation)
            },
            ProvisionState::Ready { index } => ProvisionState::Ready { index },
            ProvisionState::Failed(error) => ProvisionState::Failed(error),
        };
        self.state = next;
        self.step()
    }
}

/// Whether a reply holds nothing but whitespace.
pub fn reply_is_blank(reply: &str) -> (blank: bool)
    ensures
        blank == (trim(reply@).len() == 0),
{
    let chars = chars_of(reply);
    assert(chars@.subrange(0, chars@.len() as int) =~= chars@);
    let (start, end) = trim_within(chars.as_slice(), 0, chars.len());
    start == end
}

/// How far a state is from the start of provisioning.
pub open spec fn progress(state: ProvisionState) -> nat {
    match state {
        ProvisionState::AssigningAddress => 0,
        ProvisionState::QueryingIndex => 1,
        ProvisionState::ReadingListing => 2,
        ProvisionState::InstallingRoute { index } => 3,
        ProvisionState::Ready { index } => 4,
        ProvisionState::Failed(error) => 4,
    }
}

/// Every outcome brings provisioning forward: no command is run twice, and
/// after four commands at most provisioning is ready or has failed.
pub proof fn lemma_provisioning_ends(name: Seq<char>, state: ProvisionState, outcome: CommandOutcome)
    requires
        !(state is Ready),
        !(state is Failed),
    ensures
        progress(next_state(name, state, outcome)) > progress(state),
        progress(next_state(name, state, outcome)) <= 4,
{
}

/// Provisioning is ready only after the route has been installed.
pub proof fn lemma_ready_needs_route(name: Seq<char>, state: ProvisionState, outcome: CommandOutcome)
    requires
        next_state(name, state, outcome) is Ready,
    ensures
        state is Ready || (state is InstallingRoute && outcome.success),
{
}

/// A command that fails never brings provisioning forward, except that a
/// failing query for the index leads to the listing.
pub proof fn lemma_failure_is_reported(name: Seq<char>, state: ProvisionState, outcome: CommandOutcome)
    requires
        !outcome.success,
    ensures
        state is AssigningAddress ==> next_state(name, state, outcome) == ProvisionState::Failed(
            ProvisionError::AddressAssignment,
        ),
        state is QueryingIndex ==> next_state(name, state, outcome) is ReadingListing,
        state is ReadingListing ==> next_state(name, state, outcome) == ProvisionState::Failed(
            ProvisionError::IndexResolution(ResolveError::ListingUnavailable),
        ),
        state is InstallingRoute ==> next_state(name, state, outcome) == ProvisionState::Failed(
            ProvisionError::RouteInstallation,
        ),
{
}

/// Once provisioning is ready or has failed, no outcome changes that.
pub proof fn lemma_end_states_stay(name: Seq<char>, state: ProvisionState, outcome: CommandOutcome)
    requires
        state is Ready || state is Failed,
    ensures
        next_state(name, state, outcome) == state,
{
}

/// What the guard knows of the changes that were made to the host.
pub struct NetworkSnapshot {
    /// The physical interface whose configuration is to be handed back.
    pub physical: Seq<char>,
    /// The index of the virtual interface, once it is known.
    pub index: Option<u32>,
}

/// The mathematical content of a [`NetworkGuard`].
pub struct GuardView {
    /// The restoration flag: set by the first restoration, never cleared.
    pub restored: bool,
    /// The record of what was changed; `None` while nothing was.
    pub snapshot: Option<NetworkSnapshot>,
}

/// The commands that restore the host: the default route through the virtual
/// interface is deleted, or every default route where the index is not
/// known; then address and name servers of the physical interface go back to
/// DHCP and the leases are renewed.
///
/// Without the index the deletion is broader than it should be: it may take
/// away default routes that were there before.
pub open spec fn restore_commands(snapshot: NetworkSnapshot) -> Seq<CommandView> {
    seq![
        match snapshot.index {
            Some(index) => delete_route_spec(index),
            None => delete_default_routes_spec(),
        },
        dhcp_address_spec(snapshot.physical),
        dhcp_dns_spec(snapshot.physical),
        renew_leases_spec(),
    ]
}

/// The commands that a restoration hands out: none if the host was restored
/// before or was never changed.
pub open spec fn restore_plan(guard: GuardView) -> Seq<CommandView> {
    if guard.restored {
        Seq::empty()
    } else {
        match guard.snapshot {
            Some(snapshot) => restore_commands(snapshot),
            None => Seq::empty(),
        }
    }
}

/// The guard after a restoration: the flag is set and the interface handle
/// is gone.
pub open spec fn after_restore(guard: GuardView) -> GuardView {
    GuardView {
        restored: true,
        snapshot: match guard.snapshot {
            Some(snapshot) => Some(NetworkSnapshot { physical: snapshot.physical, index: None }),
            None => None,
        },
    }
}

/// What the guard lets pass of a step of provisioning: everything while the
/// host is not restored, and no command once it is.
pub open spec fn permitted(guard: GuardView, step: ProvisionStepView) -> ProvisionStepView {
    if guard.restored && step is Run {
        ProvisionStepView::Failed(ProvisionError::HostRestored)
    } else {
        step
    }
}

/// All commands that `count` restorations in a row hand out.
pub open spec fn restore_repeatedly(guard: GuardView, count: nat) -> Seq<CommandView>
    decreases count,
{
    if count == 0 {
        Seq::empty()
    } else {
        restore_plan(guard) + restore_repeatedly(after_restore(guard), (count - 1) as nat)
    }
}

/// The restoration flag: one boolean that is tested and set in one step.
/// Nothing clears it, so only one test ever finds it unset.
pub struct RestorationFlag {
    set: bool,
}

impl RestorationFlag {
    /// Whether the flag is set.
    pub closed spec fn is_set(&self) -> bool {
        self.set
    }

    /// A flag that is not set.
    pub fn new() -> (flag: RestorationFlag)
        ensures
            !flag.is_set(),
    {
        RestorationFlag { set: false }
    }

    /// Whether the flag is set.
    pub fn get(&self) -> (set: bool)
        ensures
            set == self.is_set(),
    {
        self.set
    }

    /// Sets the flag and says whether it was set before.
    pub fn test_and_set(&mut self) -> (was_set: bool)
        ensures
            was_set == old(self).is_set(),
            final(self).is_set(),
    {
        let was_set = self.set;
        self.set = true;
        was_set
    }
}

/// Owns the record of what was changed on the host and hands out the
/// commands that undo it, once.
pub struct NetworkGuard {
    flag: RestorationFlag,
    physical: Option<String>,
    interface: Option<InterfaceHandle>,
}

impl View for NetworkGuard {
    type V = GuardView;

    closed spec fn view(&self) -> GuardView {
        GuardView {
            restored: self.flag.is_set(),
            snapshot: match self.physical {
                Some(physical) => Some(
                    NetworkSnapshot {
                        physical: physical@,
                        index: match self.interface {
                            Some(handle) => Some(handle.spec_index()),
                            None => None,
                        },
                    },
                ),
                None => None,
            },
        }
    }
}

impl NetworkGuard {
    /// A guard of a host that nothing was changed on.
    pub fn new() -> (guard: NetworkGuard)
        ensures
            guard@ == (GuardView { restored: false, snapshot: None }),
    {
        NetworkGuard { flag: RestorationFlag::new(), physical: None, interface: None }
    }

    /// Whether the host was restored.
    pub fn is_restored(&self) -> (restored: bool)
        ensures
            restored == self@.restored,
    {
        self.flag.get()
    }

    /// The index of the virtual interface, where it is known.
    pub fn interface_index(&self) -> (index: Option<u32>)
        ensures
            index == (match self@.snapshot {
                Some(snapshot) => snapshot.index,
                None => None,
            }),
    {
        match (&self.physical, self.interface) {
            (Some(_), Some(handle)) => Some(handle.index()),
            _ => None,
        }
    }

    /// Records that the host is about to be changed, and which physical
    /// interface is to be handed back later. The record is written once:
    /// a second call, or one after the restoration, changes nothing.
    pub fn begin(&mut self, physical: &str)
        ensures
            final(self)@ == (if old(self)@.restored || old(self)@.snapshot is Some {
                old(self)@
            } else {
                GuardView {
                    restored: false,
                    snapshot: Some(NetworkSnapshot { physical: physical@, index: None }),
                }
            }),
    {
        if !self.flag.get() && self.physical.is_none() {
            self.physical = Some(physical.to_owned());
            self.interface = None;
        }
    }

    /// Records the handle of the provisioned interface. Changes nothing
    /// unless a record was begun, holds no handle yet and the host was not
    /// restored.
    pub fn provisioned(&mut self, handle: InterfaceHandle)
        ensures
            final(self)@ == (match old(self)@.snapshot {
                Some(snapshot) if !old(self)@.restored && snapshot.index is None => GuardView {
                    restored: false,
                    snapshot: Some(
                        NetworkSnapshot {
                            physical: snapshot.physical,
                            index: Some(handle.spec_index()),
                        },
                    ),
                },
                _ => old(self)@,
            }),
    {
        if !self.flag.get() && self.physical.is_some() && self.interface.is_none() {
            self.interface = Some(handle);
        }
    }

    /// Lets a step of provisioning pass unless the host was restored: from
    /// then on no command is handed out that could change the host again.
    pub fn permit(&self, step: ProvisionStep) -> (allowed: ProvisionStep)
        ensures
            allowed@ == permitted(self@, step@),
    {
        match step {
            ProvisionStep::Run(command) => if self.flag.get() {
                ProvisionStep::Failed(ProvisionError::HostRestored)
            } else {
                ProvisionStep::Run(command)
            },
            other => other,
        }
    }

    /// Tests and sets the restoration flag and hands out the commands that
    /// restore the host. Only the first call hands out any. The caller runs
    /// them in order and goes on when one fails.
    pub fn restore(&mut self) -> (plan: Vec<Command>)
        ensures
            commands_view(plan@) == restore_plan(old(self)@),
            final(self)@ == after_restore(old(self)@),
    {
        let mut plan: Vec<Command> = Vec::new();
        let first = !self.flag.test_and_set();
        let interface = self.interface;
        self.interface = None;
        if first {
            match &self.physical {
                Some(physical) => {
                    match interface {
                        Some(handle) => {
                            plan.push(Command::delete_route(handle.index()));
                        },
                        None => {
                            plan.push(Command::delete_default_routes());
                        },
                    }
                    plan.push(Command::dhcp_address(physical.as_str()));
                    plan.push(Command::dhcp_dns(physical.as_str()));
                    plan.push(Command::renew_leases());
                },
                None => {},
            }
        }
        assert(commands_view(plan@) =~= restore_plan(old(self)@));
        plan
    }
}

/// After a restoration no further one hands out a command.
pub proof fn lemma_restore_is_idempotent(guard: GuardView)
    ensures
        restore_plan(after_restore(guard)).len() == 0,
        after_restore(after_restore(guard)) == after_restore(guard),
{
}

/// However many restorations are asked for, one or more, the commands that
/// restore the host are handed out exactly once: all of them to the first
/// caller.
pub proof fn lemma_restore_runs_once(guard: GuardView, count: nat)
    requires
        count >= 1,
    ensures
        restore_repeatedly(guard, count) == restore_plan(guard),
    decreases count,
{
    lemma_restore_is_idempotent(guard);
    if count == 1 {
        assert(restore_repeatedly(after_restore(guard), 0) =~= Seq::empty());
        assert(restore_plan(guard) + Seq::<CommandView>::empty() =~= restore_plan(guard));
    } else {
        lemma_restore_runs_once(after_restore(guard), (count - 1) as nat);
        assert(restore_plan(guard) + Seq::<CommandView>::empty() =~= restore_plan(guard));
    }
}

/// Once the host is restored the guard lets no command of provisioning pass,
/// and its record changes no more.
pub proof fn lemma_restored_host_is_left_alone(guard: GuardView, step: ProvisionStepView)
    ensures
        !(permitted(after_restore(guard), step) is Run),
        !guard.restored ==> permitted(guard, step) == step,
{
}

/// Where the index of the virtual interface is not known, restoration
/// deletes every default route and still hands the physical interface back.
pub proof fn lemma_restore_without_index(physical: Seq<char>)
    ensures
        restore_commands(NetworkSnapshot { physical, index: None }) == seq![
            delete_default_routes_spec(),
            dhcp_address_spec(physical),
            dhcp_dns_spec(physical),
            renew_leases_spec(),
        ],
{
}

} // verus!
