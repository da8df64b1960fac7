//! At-most-once deferred initialization.
//!
//! [`Lazy`] holds a value that is produced by a factory the first time it is
//! demanded and never again.  The cell moves through four states:
//! uninitialized, initializing (a factory has been started but has not yet
//! stored a value), ready, and poisoned (a started factory failed before
//! storing a value).  A ghost counter records how many times a factory has
//! been started; well-formedness pins it to at most one, which is the
//! at-most-once guarantee.
//!
//! A concurrent wrapper maps onto this interface directly: the caller whose
//! [`Lazy::try_begin_init`] returns `true` is the one caller that must run
//! the factory and then either [`Lazy::complete_init`] or [`Lazy::poison`];
//! every other caller waits and then reads the one stored value.
//! [`Lazy::get_or_init`] performs the whole sequence in one call.
//!
//! On teardown the stored value is dropped exactly once, and only if one
//! was stored: the cell owns the value directly, so the ordinary drop of
//! the `Ready` variant is all there is.

use vstd::prelude::*;

verus! {

/// Why a demand on the cell could not be served.
#[derive(Clone, Copy, PartialEq, Eq, Structural, Debug)]
pub enum LazyError {
    /// A factory was started for this cell and failed before storing a
    /// value; the cell will never hold one.
    InitializationPoisoned,
}

enum LazyState<T> {
    /// No factory has been started.
    Uninitialized,
    /// A factory has been started and has not yet stored a value.
    Initializing,
    /// The one factory run stored this value.
    Ready(T),
    /// The one factory run failed before storing a value.
    Poisoned,
}

/// The externally visible phase of a [`Lazy`] cell; a cell is in exactly
/// one phase at a time.
#[derive(Clone, Copy, PartialEq, Eq, Structural, Debug)]
pub enum LazyPhase {
    /// No factory has been started.
    Uninitialized,
    /// A factory has been started and has not yet finished.
    Initializing,
    /// The one factory run stored a value.
    Ready,
    /// The one factory run failed before storing a value.
    Poisoned,
}

/// A cell initialized at most once by a caller-supplied factory.
pub struct Lazy<T> {
    state: LazyState<T>,
    /// How many times a factory has been started for this cell.
    runs: Ghost<nat>,
}

impl<T> Lazy<T> {
    /// Which phase the cell is in.
    pub closed spec fn phase(self) -> LazyPhase {
        match self.state {
            LazyState::Uninitialized => LazyPhase::Uninitialized,
            LazyState::Initializing => LazyPhase::Initializing,
            LazyState::Ready(_) => LazyPhase::Ready,
            LazyState::Poisoned => LazyPhase::Poisoned,
        }
    }

    /// No factory has been started yet.
    pub open spec fn is_uninitialized(self) -> bool {
        self.phase() == LazyPhase::Uninitialized
    }

    /// A factory has been started and has not yet finished.
    pub open spec fn is_initializing(self) -> bool {
        self.phase() == LazyPhase::Initializing
    }

    /// The cell holds its value.
    pub open spec fn is_ready(self) -> bool {
        self.phase() == LazyPhase::Ready
    }

    /// The one factory run failed; the cell will never hold a value.
    pub open spec fn is_poisoned(self) -> bool {
        self.phase() == LazyPhase::Poisoned
    }

    /// The stored value; meaningful only when the cell is ready.
    pub closed spec fn value(self) -> T
        recommends
            self.is_ready(),
    {
        self.state->Ready_0
    }

    /// How many times a factory has been started for this cell.
    pub closed spec fn factory_runs(self) -> nat {
        self.runs@
    }

    /// The factory-run count is zero exactly while the cell is
    /// uninitialized, and one in every other state.
    pub open spec fn wf(self) -> bool {
        self.factory_runs() == if self.is_uninitialized() {
            0nat
        } else {
            1nat
        }
    }

    /// A fresh, uninitialized cell.
    pub fn new() -> (l: Lazy<T>)
        ensures
            l.wf(),
            l.is_uninitialized(),
            l.factory_runs() == 0,
    {
        Lazy { state: LazyState::Uninitialized, runs: Ghost(0nat) }
    }

    /// Whether the cell already holds its value.
    pub fn is_initialized(&self) -> (r: bool)
        ensures
            r <==> self.is_ready(),
    {
        match &self.state {
            LazyState::Ready(_) => true,
            _ => false,
        }
    }

    /// Claims the right to run the factory.  The claim succeeds exactly
    /// when no factory has been started yet; the winning caller must later
    /// call [`Self::complete_init`] or [`Self::poison`].
    pub fn try_begin_init(&mut self) -> (won: bool)
        requires
            old(self).wf(),
        ensures
            final(self).wf(),
            won <==> old(self).is_uninitialized(),
            won ==> final(self).is_initializing() && final(self).factory_runs() == 1,
            !won ==> *final(self) == *old(self),
    {
        match &self.state {
            LazyState::Uninitialized => {
                self.state = LazyState::Initializing;
                self.runs = Ghost(self.runs@ + 1);
                true
            },
            _ => false,
        }
    }

    /// Stores the value produced by the one running factory.
    pub fn complete_init(&mut self, value: T)
        requires
            old(self).wf(),
            old(self).is_initializing(),
        ensures
            final(self).wf(),
            final(self).is_ready(),
            final(self).value() == value,
            final(self).factory_runs() == old(self).factory_runs(),
    {
        self.state = LazyState::Ready(value);
    }

    /// Records that the one running factory failed before storing a value;
    /// every current and future demand on the cell now fails.
    pub fn poison(&mut self)
        requires
            old(self).wf(),
            old(self).is_initializing(),
        ensures
            final(self).wf(),
            final(self).is_poisoned(),
            final(self).factory_runs() == old(self).factory_runs(),
    {
        self.state = LazyState::Poisoned;
    }

    /// The stored value, if the cell is ready.
    pub fn get(&self) -> (r: Option<&T>)
        ensures
            r is Some <==> self.is_ready(),
            r matches Some(v) ==> *v == self.value(),
    {
        match &self.state {
            LazyState::Ready(v) => Some(v),
            _ => None,
        }
    }

    /// Hands back the stored value, running `factory` first if and only if
    /// no factory has ever been started for this cell.  Fails exactly when
    /// the cell is poisoned.
    pub fn get_or_init<F: Fn() -> T>(&mut self, factory: F) -> (r: Result<&T, LazyError>)
        requires
            old(self).wf(),
            !old(self).is_initializing(),
            call_requires(factory, ()),
        ensures
            final(self).wf(),
            r is Err <==> old(self).is_poisoned(),
            r matches Err(e) ==> e == LazyError::InitializationPoisoned && *final(self) == *old(
                self,
            ),
            r is Ok ==> final(self).is_ready(),
            r matches Ok(v) ==> *v == final(self).value(),
            old(self).is_ready() ==> *final(self) == *old(self),
            old(self).is_uninitialized() ==> call_ensures(factory, (), final(self).value())
                && final(self).factory_runs() == 1,
    {
        match &self.state {
            LazyState::Poisoned => Err(LazyError::InitializationPoisoned),
            LazyState::Ready(_) => {
                match &self.state {
                    LazyState::Ready(v) => Ok(v),
                    _ => vstd::pervasive::unreached(),
                }
            },
            _ => {
                let value = factory();
                self.state = LazyState::Ready(value);
                self.runs = Ghost(self.runs@ + 1);
                match &self.state {
                    LazyState::Ready(v) => Ok(v),
                    _ => vstd::pervasive::unreached(),
                }
            },
        }
    }
}

/// At most one factory run: however a well-formed cell was reached, no
/// more than one factory has ever been started for it, so concurrent
/// callers racing through `get_or_init` share a single factory invocation
/// and the single value it stored.
pub proof fn lemma_factory_runs_at_most_once<T>(l: Lazy<T>)
    requires
        l.wf(),
    ensures
        l.factory_runs() <= 1,
{
}

} // verus!
