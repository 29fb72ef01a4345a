use vstd::prelude::*;
use vstd::pervasive::VecAdditionalExecFns;

use crate::daemon::AppProc;

verus! {

/// Number of native window slots.
pub const WINDOW_SLOT_COUNT: usize = 64;

/// Why a window operation was refused.
#[derive(Debug, Clone, Copy, PartialEq, Eq, Structural)]
pub enum WryStateRegistryError {
    /// Every window slot is taken.
    RegistryFull,
    /// The identifier lies outside the slot range; it is carried along.
    InvalidId(u8),
    /// No window lives in the named slot; the identifier is carried along.
    WindowNotFound(u8),
}

/// One live native window, as the control plane sees it: its slot, and the
/// application instance it belongs to, if any.  The window and webview
/// themselves live with the windowing subsystem.
#[derive(Debug, Clone, Copy, PartialEq, Eq, Structural)]
pub struct WryState {
    pub id: u8,
    pub app: Option<AppProc>,
}

/// What a window is opened with.
#[derive(Debug, Clone)]
pub struct WryCreateOptions {
    pub title: String,
    pub url: String,
}

/// What a webview is opened with.
#[derive(Debug, Clone)]
pub struct WebViewCreateOptions {
    pub title: String,
    pub url: String,
}

/// The windowing side's event loop is gone and can take no more work.
#[derive(Debug, Clone, Copy, PartialEq, Eq, Structural)]
pub struct EventLoopClosed;

/// The window slot table: a parallel of the process registry, sized for
/// native window lifecycles.
pub struct WryStateRegistry {
    reg: Vec<Option<WryState>>,
}

impl WryStateRegistry {
    /// The slot table, one optional window per slot.
    pub closed spec fn slots(&self) -> Seq<Option<WryState>> {
        self.reg@
    }

    /// Full sized, and every live window records its own slot.
    pub open spec fn wf(&self) -> bool {
        &&& self.slots().len() == WINDOW_SLOT_COUNT
        &&& (forall|i: int|
            0 <= i < WINDOW_SLOT_COUNT && self.slots()[i] is Some ==> (#[trigger] self.slots()[
                i
            ]).unwrap().id == i)
    }

    /// A fresh registry: every slot empty.
    pub fn new() -> (r: WryStateRegistry)
        ensures
            r.wf(),
            forall|i: int| 0 <= i < WINDOW_SLOT_COUNT ==> r.slots()[i] is None,
    {
        let mut reg: Vec<Option<WryState>> = Vec::new();
        let mut i: usize = 0;
        while i < WINDOW_SLOT_COUNT
            invariant
                i == reg@.len(),
                i <= WINDOW_SLOT_COUNT,
                forall|j: int| 0 <= j < i ==> reg@[j] is None,
            decreases WINDOW_SLOT_COUNT - i,
        {
            reg.push(None);
            i = i + 1;
        }
        WryStateRegistry { reg }
    }

    /// Open a window: take the lowest free slot, or refuse when none is
    /// left.  Building the native window happens with the windowing
    /// subsystem; this registers its slot.
    pub fn create(&mut self, app: Option<AppProc>) -> (r: Result<u8, WryStateRegistryError>)
        requires
            old(self).wf(),
        ensures
            final(self).wf(),
            match r {
                Ok(i) => {
                    &&& (i as int) < WINDOW_SLOT_COUNT
                    &&& old(self).slots()[i as int] is None
                    &&& (forall|j: int| 0 <= j < i ==> old(self).slots()[j] is Some)
                    &&& final(self).slots() == old(self).slots().update(
                        i as int,
                        Some(WryState { id: i, app }),
                    )
                },
                Err(e) => {
                    &&& e == WryStateRegistryError::RegistryFull
                    &&& *final(self) == *old(self)
                    &&& (forall|j: int| 0 <= j < WINDOW_SLOT_COUNT ==> old(self).slots()[j] is Some)
                },
            },
    {
        let mut i: usize = 0;
        while i < WINDOW_SLOT_COUNT
            invariant
                *self == *old(self),
                old(self).wf(),
                0 <= i <= WINDOW_SLOT_COUNT,
                forall|j: int| 0 <= j < i ==> self.slots()[j] is Some,
            decreases WINDOW_SLOT_COUNT - i,
        {
            if self.reg[i].is_none() {
                let id = i as u8;
                self.reg.set(i, Some(WryState { id, app }));
                return Ok(id);
            }
            i = i + 1;
        }
        Err(WryStateRegistryError::RegistryFull)
    }

    /// Resolve a window identifier to the window living in that slot.
    pub fn get(&self, id: u8) -> (r: Result<WryState, WryStateRegistryError>)
        requires
            self.wf(),
        ensures
            match r {
                Ok(state) => (id as int) < WINDOW_SLOT_COUNT && self.slots()[id as int] == Some(
                    state,
                ),
                Err(WryStateRegistryError::InvalidId(e)) => e == id && (id as int)
                    >= WINDOW_SLOT_COUNT,
                Err(WryStateRegistryError::WindowNotFound(e)) => {
                    &&& e == id
                    &&& (id as int) < WINDOW_SLOT_COUNT
                    &&& self.slots()[id as int] is None
                },
                Err(WryStateRegistryError::RegistryFull) => false,
            },
    {
        if id as usize >= WINDOW_SLOT_COUNT {
            return Err(WryStateRegistryError::InvalidId(id));
        }
        match self.reg[id as usize] {
            Some(state) => Ok(state),
            None => Err(WryStateRegistryError::WindowNotFound(id)),
        }
    }

    /// Close a window: clear its slot, or report that nothing lives there.
    pub fn destroy(&mut self, id: u8) -> (r: Result<(), WryStateRegistryError>)
        requires
            old(self).wf(),
        ensures
            final(self).wf(),
            match r {
                Ok(()) => {
                    &&& (id as int) < WINDOW_SLOT_COUNT
                    &&& old(self).slots()[id as int] is Some
                    &&& final(self).slots() == old(self).slots().update(
                        id as int,
                        None::<WryState>,
                    )
                },
                Err(WryStateRegistryError::InvalidId(e)) => e == id && (id as int)
                    >= WINDOW_SLOT_COUNT && *final(self) == *old(self),
                Err(WryStateRegistryError::WindowNotFound(e)) => {
                    &&& e == id
                    &&& (id as int) < WINDOW_SLOT_COUNT
                    &&& old(self).slots()[id as int] is None
                    &&& *final(self) == *old(self)
                },
                Err(WryStateRegistryError::RegistryFull) => false,
            },
    {
        if id as usize >= WINDOW_SLOT_COUNT {
            return Err(WryStateRegistryError::InvalidId(id));
        }
        if self.reg[id as usize].is_none() {
            return Err(WryStateRegistryError::WindowNotFound(id));
        }
        self.reg.set(id as usize, None);
        Ok(())
    }
}

} // verus!
