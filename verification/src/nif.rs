//! Descriptors of native functions.

use vstd::prelude::*;
use vstd::string::*;

verus! {

/// How the engine may bind and run a native function.
#[derive(Clone, Copy, Debug, PartialEq, Eq, Structural)]
pub enum Determinism {
    /// Deterministic helper: may be called inline and again during replay.
    Pure,
    /// Native activity: only ever invoked through the activity contract.
    SideEffectful,
}

/// Descriptor of a native function. `N` is the type of the function itself.
#[derive(Clone, Debug)]
pub struct Nif<N> {
    module: String,
    function: String,
    arity: u8,
    native: N,
    dirty: bool,
    determinism: Determinism,
}

/// Mathematical value of a [`Nif`].
pub struct NifView<N> {
    /// Module name.
    pub module: Seq<char>,
    /// Function name.
    pub function: Seq<char>,
    /// Number of arguments.
    pub arity: u8,
    /// The function itself.
    pub native: N,
    /// Runs on a dirty scheduler.
    pub dirty: bool,
    /// How the function may be bound.
    pub determinism: Determinism,
}

impl<N> View for Nif<N> {
    type V = NifView<N>;

    closed spec fn view(&self) -> NifView<N> {
        NifView {
            module: self.module@,
            function: self.function@,
            arity: self.arity,
            native: self.native,
            dirty: self.dirty,
            determinism: self.determinism,
        }
    }
}

/// A function runs on a dirty scheduler exactly when it has side effects.
pub open spec fn runs_dirty(determinism: Determinism) -> bool {
    determinism == Determinism::SideEffectful
}

impl<N: Copy> Nif<N> {
    fn new(
        module: &str,
        function: &str,
        arity: u8,
        native: N,
        dirty: bool,
        determinism: Determinism,
    ) -> (nif: Self)
        ensures
            nif@ == (NifView {
                module: module@,
                function: function@,
                arity,
                native,
                dirty,
                determinism,
            }),
    {
        Nif {
            module: module.to_owned(),
            function: function.to_owned(),
            arity,
            native,
            dirty,
            determinism,
        }
    }

    /// A deterministic helper.
    pub fn pure(module: &str, function: &str, arity: u8, native: N) -> (nif: Self)
        ensures
            nif@ == (NifView {
                module: module@,
                function: function@,
                arity,
                native,
                dirty: false,
                determinism: Determinism::Pure,
            }),
            nif@.dirty == runs_dirty(nif@.determinism),
    {
        Nif::new(module, function, arity, native, false, Determinism::Pure)
    }

    /// A native activity, which runs on a dirty scheduler.
    pub fn side_effectful(module: &str, function: &str, arity: u8, native: N) -> (nif: Self)
        ensures
            nif@ == (NifView {
                module: module@,
                function: function@,
                arity,
                native,
                dirty: true,
                determinism: Determinism::SideEffectful,
            }),
            nif@.dirty == runs_dirty(nif@.determinism),
    {
        Nif::new(module, function, arity, native, true, Determinism::SideEffectful)
    }

    /// Module name.
    pub fn module(&self) -> (module: &str)
        ensures
            module@ == self@.module,
    {
        self.module.as_str()
    }

    /// Function name.
    pub fn function(&self) -> (function: &str)
        ensures
            function@ == self@.function,
    {
        self.function.as_str()
    }

    /// Number of arguments.
    pub fn arity(&self) -> (arity: u8)
        ensures
            arity == self@.arity,
    {
        self.arity
    }

    /// The function itself.
    pub fn native(&self) -> (native: N)
        ensures
            native == self@.native,
    {
        self.native
    }

    /// Whether the function runs on a dirty scheduler.
    pub fn is_dirty(&self) -> (dirty: bool)
        ensures
            dirty == self@.dirty,
    {
        self.dirty
    }

    /// How the function may be bound.
    pub fn determinism(&self) -> (determinism: Determinism)
        ensures
            determinism == self@.determinism,
    {
        self.determinism
    }
}

/// Native activities run on a dirty scheduler, and deterministic helpers do not.
pub proof fn only_native_activities_run_dirty()
    ensures
        runs_dirty(Determinism::SideEffectful),
        !runs_dirty(Determinism::Pure),
{
}

} // verus!
