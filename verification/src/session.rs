//! The launcher's running session: what the tray menu asks for, the
//! "uninstall on every exit" setting, and what restarting, quitting and a
//! safe exit do.

use vstd::prelude::*;
use crate::text::str_equals;

verus! {

/// A piece of work in the session's restart and exit sequences.
pub enum SessionStep {
    /// Stop the stick's distribution.
    Terminate,
    /// Remove the distribution's registration from this machine.
    Unregister,
    /// Flush and eject the stick.
    Eject,
    /// Start the agent again (the window runs the boot sequence anew).
    Reboot,
    /// End the launcher.
    Exit,
}

/// An exit sequence: stop the distribution, unregister it when asked, eject
/// the stick when asked, and end the launcher. A step that fails does not
/// stop the ones after it.
pub open spec fn exit_plan(unregister: bool, eject: bool) -> Seq<SessionStep> {
    seq![SessionStep::Terminate] + (if unregister {
        seq![SessionStep::Unregister]
    } else {
        Seq::empty()
    }) + (if eject {
        seq![SessionStep::Eject]
    } else {
        Seq::empty()
    }) + seq![SessionStep::Exit]
}

fn exit_steps(unregister: bool, eject: bool) -> (r: Vec<SessionStep>)
    ensures
        r@ == exit_plan(unregister, eject),
{
    let mut r: Vec<SessionStep> = Vec::new();
    r.push(SessionStep::Terminate);
    if unregister {
        r.push(SessionStep::Unregister);
    }
    if eject {
        r.push(SessionStep::Eject);
    }
    r.push(SessionStep::Exit);
    assert(r@ =~= exit_plan(unregister, eject));
    r
}

/// The safe exit: stop the distribution, unregister it when asked, eject the
/// stick, then end the launcher.
pub fn safe_exit_steps(unregister: bool) -> (r: Vec<SessionStep>)
    ensures
        r@ == exit_plan(unregister, true),
{
    exit_steps(unregister, true)
}

/// Restarting the agent: stop the distribution, then boot it again.
pub fn restart_steps() -> (r: Vec<SessionStep>)
    ensures
        r@ == seq![SessionStep::Terminate, SessionStep::Reboot],
{
    let mut r: Vec<SessionStep> = Vec::new();
    r.push(SessionStep::Terminate);
    r.push(SessionStep::Reboot);
    r
}

/// The settings of a running launcher that the tray changes.
pub struct Session {
    /// Whether every exit also unregisters the distribution from this
    /// machine, so that nothing stays behind on it.
    pub unregister_on_exit: bool,
}

impl Session {
    /// A fresh session: exits keep the distribution registered.
    pub fn new() -> (s: Session)
        ensures
            !s.unregister_on_exit,
    {
        Session { unregister_on_exit: false }
    }

    /// Flips the "uninstall on every exit" setting; returns the new value.
    pub fn toggle_unregister_on_exit(&mut self) -> (on: bool)
        ensures
            final(self).unregister_on_exit == !old(self).unregister_on_exit,
            on == final(self).unregister_on_exit,
    {
        self.unregister_on_exit = !self.unregister_on_exit;
        self.unregister_on_exit
    }

    /// The safe exit in this session: unregisters when the caller asks for
    /// it or the setting is on.
    pub fn safe_exit_steps(&self, unregister: bool) -> (r: Vec<SessionStep>)
        ensures
            r@ == exit_plan(unregister || self.unregister_on_exit, true),
    {
        exit_steps(unregister || self.unregister_on_exit, true)
    }

    /// Quitting from the tray: stop the distribution, unregister it when the
    /// setting is on, and end the launcher, leaving the stick mounted.
    pub fn quit_steps(&self) -> (r: Vec<SessionStep>)
        ensures
            r@ == exit_plan(self.unregister_on_exit, false),
    {
        exit_steps(self.unregister_on_exit, false)
    }
}

/// Every exit sequence ends the launcher, and ending it is its last step;
/// the distribution is stopped first.
pub proof fn lemma_exit_plan_ends(unregister: bool, eject: bool)
    ensures
        exit_plan(unregister, eject).len() >= 2,
        exit_plan(unregister, eject)[0] == SessionStep::Terminate,
        exit_plan(unregister, eject).last() == SessionStep::Exit,
        forall|i: int|
            0 <= i < exit_plan(unregister, eject).len() - 1 ==> #[trigger] exit_plan(
                unregister,
                eject,
            )[i] != SessionStep::Exit,
{
}

/// What a tray menu entry asks for.
pub enum TrayCommand {
    /// Tell the window to open the chat.
    OpenChat,
    /// Show the window and bring it to the front.
    ShowStatus,
    /// Tell the window to open the settings, and show it.
    Settings,
    /// Open the stick's log folder.
    OpenLogs,
    /// Restart the agent.
    Restart,
    /// Flip the "uninstall on every exit" setting.
    ToggleUnregisterOnExit,
    /// Tell the window to run the safe exit.
    SafeExit,
    /// Quit the launcher.
    Quit,
    /// An entry the launcher does not know.
    Ignore,
}

/// The command of the tray entry with identifier `id`.
pub fn tray_command(id: &str) -> (c: TrayCommand)
    ensures
        c == if id@ == "open_chat"@ {
            TrayCommand::OpenChat
        } else if id@ == "status"@ {
            TrayCommand::ShowStatus
        } else if id@ == "settings"@ {
            TrayCommand::Settings
        } else if id@ == "logs"@ {
            TrayCommand::OpenLogs
        } else if id@ == "restart"@ {
            TrayCommand::Restart
        } else if id@ == "unregister_on_exit"@ {
            TrayCommand::ToggleUnregisterOnExit
        } else if id@ == "safe_exit"@ {
            TrayCommand::SafeExit
        } else if id@ == "quit"@ {
            TrayCommand::Quit
        } else {
            TrayCommand::Ignore
        },
{
    if str_equals(id, "open_chat") {
        TrayCommand::OpenChat
    } else if str_equals(id, "status") {
        TrayCommand::ShowStatus
    } else if str_equals(id, "settings") {
        TrayCommand::Settings
    } else if str_equals(id, "logs") {
        TrayCommand::OpenLogs
    } else if str_equals(id, "restart") {
        TrayCommand::Restart
    } else if str_equals(id, "unregister_on_exit") {
        TrayCommand::ToggleUnregisterOnExit
    } else if str_equals(id, "safe_exit") {
        TrayCommand::SafeExit
    } else if str_equals(id, "quit") {
        TrayCommand::Quit
    } else {
        TrayCommand::Ignore
    }
}

} // verus!
