//! Shutdown coordinator: the two triggers that end the process, an interrupt
//! and a fatal fault, and what each of them sets off.
//!
//! Installing a handler with the operating system is the caller's part. The
//! coordinator says whether a handler is still to be installed, so that each
//! is installed once, and what a handler does when it fires: it takes the
//! restoration plan from the guard, which hands it out to one trigger only.

use vstd::prelude::*;
use crate::command::{commands_view, Command, CommandView};
use crate::guard::{after_restore, restore_plan, GuardView, NetworkGuard};

verus! {

/// What can end the process.
#[derive(Clone, Copy, Debug, PartialEq, Eq)]
pub enum Trigger {
    /// The interrupt signal.
    Interrupt,
    /// An unrecoverable fault.
    Fault,
}

/// How the process ends.
#[derive(Clone, Copy, Debug, PartialEq, Eq)]
pub enum Exit {
    /// A graceful shutdown: exit code 0.
    Graceful,
    /// The fault takes its course: the exit code is not 0.
    Faulted,
}

/// The exit code of a graceful shutdown.
pub const EXIT_GRACEFUL: i32 = 0;

/// What a handler does when its trigger fires.
#[derive(Clone, Debug, PartialEq, Eq)]
pub struct Shutdown {
    /// The commands that restore the host, to be run in order, each whether
    /// or not the one before it succeeded.
    pub commands: Vec<Command>,
    /// How the process ends once the commands have run.
    pub exit: Exit,
}

/// How the process ends after a trigger.
pub open spec fn exit_of(trigger: Trigger) -> Exit {
    match trigger {
        Trigger::Interrupt => Exit::Graceful,
        Trigger::Fault => Exit::Faulted,
    }
}

/// Which handlers are installed.
#[derive(Clone, Copy, Debug, PartialEq, Eq)]
pub struct ShutdownCoordinator {
    interrupt_installed: bool,
    fault_installed: bool,
}

impl ShutdownCoordinator {
    /// Whether the handler of a trigger is installed.
    pub closed spec fn installed(&self, trigger: Trigger) -> bool {
        match trigger {
            Trigger::Interrupt => self.interrupt_installed,
            Trigger::Fault => self.fault_installed,
        }
    }

    /// A coordinator with no handler installed.
    pub fn new() -> (coordinator: ShutdownCoordinator)
        ensures
            forall|trigger: Trigger| !coordinator.installed(trigger),
    {
        ShutdownCoordinator { interrupt_installed: false, fault_installed: false }
    }

    /// Whether the handler of a trigger is installed.
    pub fn is_installed(&self, trigger: Trigger) -> (installed: bool)
        ensures
            installed == self.installed(trigger),
    {
        match trigger {
            Trigger::Interrupt => self.interrupt_installed,
            Trigger::Fault => self.fault_installed,
        }
    }

    /// Registers the handler of a trigger. Answers whether the caller is to
    /// install it now: only the first registration of a trigger says so.
    pub fn register(&mut self, trigger: Trigger) -> (install: bool)
        ensures
            install == !old(self).installed(trigger),
            final(self).installed(trigger),
            forall|other: Trigger| other != trigger ==> final(self).installed(other) == old(
                self,
            ).installed(other),
    {
        match trigger {
            Trigger::Interrupt => {
                let install = !self.interrupt_installed;
                self.interrupt_installed = true;
                install
            },
            Trigger::Fault => {
                let install = !self.fault_installed;
                self.fault_installed = true;
                install
            },
        }
    }
}

/// What the handler of `trigger` does when it fires: it restores the host
/// through the guard and then lets the process end. Touches nothing but the
/// guard, so that either trigger may fire at any time and after the other.
pub fn fire(trigger: Trigger, guard: &mut NetworkGuard) -> (shutdown: Shutdown)
    ensures
        commands_view(shutdown.commands@) == restore_plan(old(guard)@),
        shutdown.exit == exit_of(trigger),
        final(guard)@ == after_restore(old(guard)@),
{
    let commands = guard.restore();
    let exit = match trigger {
        Trigger::Interrupt => Exit::Graceful,
        Trigger::Fault => Exit::Faulted,
    };
    Shutdown { commands, exit }
}

/// The exit code of a shutdown, where the library decides it: 0 after a
/// graceful one, none after a fault, which ends the process in its own way.
pub fn exit_code(exit: Exit) -> (code: Option<i32>)
    ensures
        code == (match exit {
            Exit::Graceful => Some(EXIT_GRACEFUL),
            Exit::Faulted => None,
        }),
{
    match exit {
        Exit::Graceful => Some(EXIT_GRACEFUL),
        Exit::Faulted => None,
    }
}

/// The commands that two triggers hand out when one fires after the other.
pub open spec fn fire_both(guard: GuardView) -> Seq<CommandView> {
    restore_plan(guard) + restore_plan(after_restore(guard))
}

/// When both triggers fire, in either order, the host is restored once: the
/// second handler gets no command.
pub proof fn lemma_second_trigger_restores_nothing(guard: GuardView)
    ensures
        restore_plan(after_restore(guard)).len() == 0,
        fire_both(guard) == restore_plan(guard),
{
    assert(restore_plan(guard) + Seq::<CommandView>::empty() =~= restore_plan(guard));
}

} // verus!
