//! The crossterm-backed terminal control, for attaches of a manager's panes.

use vstd::prelude::*;

use crate::attach::TerminalRestoreToken;
use crate::crossterm_host::{CrosstermTerminalControl, HostFault, RawModeOps, TerminalSink};
use crate::event::AttachScreenPolicy;
use crate::manager::attach::PaneAttachTerminalControl;

verus! {

impl<W: TerminalSink, M: RawModeOps> PaneAttachTerminalControl for CrosstermTerminalControl<
    W,
    M,
> {
    type Error = HostFault;

    type RestoreToken = TerminalRestoreToken;

    fn suspend_for_attach(&mut self, policy: AttachScreenPolicy) -> (r: core::result::Result<
        TerminalRestoreToken,
        HostFault,
    >)
        ensures
            exists|control: &mut CrosstermTerminalControl<W, M>|
                #![trigger call_ensures(CrosstermTerminalControl::<W, M>::suspend, (control, policy), r)]
                {
                    &&& call_ensures(
                        CrosstermTerminalControl::<W, M>::suspend,
                        (control, policy),
                        r,
                    )
                    &&& *control == *old(self)
                    &&& *final(control) == *final(self)
                },
    {
        self.suspend(policy)
    }

    fn restore_after_attach(&mut self, token: &mut TerminalRestoreToken) -> (r:
        core::result::Result<(), HostFault>)
        ensures
            exists|
                control: &mut CrosstermTerminalControl<W, M>,
                given: &mut TerminalRestoreToken,
            |
                #![trigger call_ensures(CrosstermTerminalControl::<W, M>::restore, (control, given), r)]
                {
                    &&& call_ensures(
                        CrosstermTerminalControl::<W, M>::restore,
                        (control, given),
                        r,
                    )
                    &&& *control == *old(self)
                    &&& *final(control) == *final(self)
                    &&& *given == *old(token)
                    &&& *final(given) == *final(token)
                },
    {
        self.restore(token)
    }
}

} // verus!
