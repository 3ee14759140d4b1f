//! Installation state of the bridge that forwards records of the `log`
//! facade into the pipeline.
//!
//! The bridge is process-wide: at most one installation is live at a time.
//! The slot records whether one is; the caller keeps the slot wherever its
//! process-wide state lives and hands it in.

use vstd::prelude::*;

verus! {

/// Whether a slot in the given state accepts an installation.
pub open spec fn accepts_install(installed: bool) -> bool {
    !installed
}

/// The state of a slot after an installation was accepted.
pub open spec fn after_install(installed: bool) -> bool {
    true
}

/// The state of a slot after the live installation was released.
pub open spec fn after_release(installed: bool) -> bool {
    false
}

/// A second installation while one is live.
#[derive(Clone, Copy, Debug, PartialEq, Eq, Structural)]
pub struct AlreadyInstalled;

/// Stands for one live installation. It is handed out by
/// [`BridgeSlot::install`] and given back to [`BridgeSlot::release`].
#[derive(Debug)]
pub struct BridgeHandle {
    slot: (),
}

/// The slot that a bridge installation occupies.
#[derive(Debug)]
pub struct BridgeSlot {
    installed: bool,
}

impl View for BridgeSlot {
    type V = bool;

    closed spec fn view(&self) -> bool {
        self.installed
    }
}

impl BridgeSlot {
    /// An empty slot.
    pub fn new() -> (r: Self)
        ensures
            !r@,
    {
        BridgeSlot { installed: false }
    }

    /// Whether an installation is live.
    pub fn is_installed(&self) -> (r: bool)
        ensures
            r == self@,
    {
        self.installed
    }

    /// Occupies the slot. Fails, and changes nothing, while an installation
    /// is live.
    pub fn install(&mut self) -> (r: Result<BridgeHandle, AlreadyInstalled>)
        ensures
            r is Ok <==> accepts_install(old(self)@),
            r is Ok ==> final(self)@ == after_install(old(self)@),
            r is Err ==> final(self)@ == old(self)@,
    {
        if self.installed {
            Err(AlreadyInstalled)
        } else {
            self.installed = true;
            Ok(BridgeHandle { slot: () })
        }
    }

    /// Ends the installation that `handle` stands for and frees the slot.
    pub fn release(&mut self, handle: BridgeHandle)
        ensures
            final(self)@ == after_release(old(self)@),
    {
        let BridgeHandle { slot: _ } = handle;
        self.installed = false;
    }
}

/// While an installation is live a second one is refused, whatever the slot
/// held before; once the live one is released a fresh one is accepted.
pub proof fn lemma_install_once(installed: bool)
    ensures
        !accepts_install(after_install(installed)),
        accepts_install(after_release(after_install(installed))),
{
}

} // verus!
