//! A wrapper that disables its widget while a condition on the data holds.

use vstd::prelude::*;

verus! {

/// A widget wrapper which disables the inner widget while the provided closure returns `true`
/// for the data and environment.
pub struct DisabledIf<W, F> {
    inner: W,
    disabled_if: F,
}

impl<W, F> DisabledIf<W, F> {
    /// The wrapped widget.
    pub closed spec fn inner(&self) -> W {
        self.inner
    }

    /// The closure that decides whether the widget is disabled.
    pub closed spec fn condition(&self) -> F {
        self.disabled_if
    }

    /// Creates a `DisabledIf` around `widget`, disabled while `disabled_if` returns `true`.
    pub fn new(widget: W, disabled_if: F) -> (wrapper: Self)
        ensures
            wrapper.inner() == widget,
            wrapper.condition() == disabled_if,
    {
        DisabledIf { inner: widget, disabled_if }
    }

    /// Whether the inner widget is disabled for `data` in `env`: what the wrapper sets whenever
    /// the data is updated.
    pub fn disabled_for<T, E>(&self, data: &T, env: &E) -> (disabled: bool)
        where
            F: Fn(&T, &E) -> bool,
        requires
            call_requires(self.condition(), (data, env)),
        ensures
            call_ensures(self.condition(), (data, env), disabled),
    {
        (self.disabled_if)(data, env)
    }

    /// What the wrapper sets on a lifecycle event: whether the inner widget is disabled for
    /// `data` in `env` when the wrapper has just been added to the widget tree, and nothing on
    /// any other lifecycle event.
    pub fn lifecycle_disabled<T, E>(&self, widget_added: bool, data: &T, env: &E) -> (disabled: Option<bool>)
        where
            F: Fn(&T, &E) -> bool,
        requires
            widget_added ==> call_requires(self.condition(), (data, env)),
        ensures
            widget_added ==> (disabled matches Some(d) && call_ensures(self.condition(), (data, env), d)),
            !widget_added ==> disabled is None,
    {
        if widget_added {
            Some((self.disabled_if)(data, env))
        } else {
            None
        }
    }
}

} // verus!
