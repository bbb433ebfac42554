//! A transaction environment wrapper that carries, beside the Tempo
//! environment, the RLP-encoded transaction bytes used for OP-stack L1 fee
//! calculation.

use vstd::prelude::*;

verus! {

/// A Tempo transaction environment together with its enveloped bytes, which
/// are set only when running in Optimism mode.
#[derive(Clone, Debug, Default)]
pub struct FoundryTempoTxEnv<E> {
    /// The inner Tempo transaction environment.
    pub inner: E,
    /// The RLP-encoded transaction bytes for OP-stack L1 fee calculation.
    pub enveloped_tx: Option<Vec<u8>>,
}

impl<E> FoundryTempoTxEnv<E> {
    /// Wraps `tx` with no enveloped bytes.
    pub fn new(tx: E) -> (r: Self)
        ensures
            r.inner == tx,
            r.enveloped_tx is None,
    {
        FoundryTempoTxEnv { inner: tx, enveloped_tx: None }
    }

    /// Wraps `tx` with the given enveloped bytes.
    pub fn with_enveloped_tx(tx: E, enveloped_tx: Option<Vec<u8>>) -> (r: Self)
        ensures
            r.inner == tx,
            r.enveloped_tx == enveloped_tx,
    {
        FoundryTempoTxEnv { inner: tx, enveloped_tx }
    }

    /// Consumes the wrapper and returns the inner environment.
    pub fn into_inner(self) -> (tx: E)
        ensures
            tx == self.inner,
    {
        self.inner
    }
}

impl<E> core::ops::Deref for FoundryTempoTxEnv<E> {
    type Target = E;

    /// The inner Tempo transaction environment.
    fn deref(&self) -> (r: &E)
        ensures
            *r == self.inner,
    {
        &self.inner
    }
}

impl<E> From<E> for FoundryTempoTxEnv<E> {
    /// Wraps `tx` with no enveloped bytes.
    fn from(tx: E) -> (r: Self) {
        FoundryTempoTxEnv { inner: tx, enveloped_tx: None }
    }
}

impl<E> vstd::std_specs::convert::FromSpecImpl<E> for FoundryTempoTxEnv<E> {
    open spec fn obeys_from_spec() -> bool {
        true
    }

    open spec fn from_spec(tx: E) -> Self {
        FoundryTempoTxEnv { inner: tx, enveloped_tx: None }
    }
}

/// Wrapping an environment with `from` and unwrapping it with `into_inner`
/// (which returns `inner`) gives the same environment back; wrapping sets no
/// enveloped bytes.
pub proof fn law_unwrap_after_wrap<E>(tx: E)
    ensures
        <FoundryTempoTxEnv<E> as vstd::std_specs::convert::FromSpec<E>>::obeys_from_spec(),
        <FoundryTempoTxEnv<E> as vstd::std_specs::convert::FromSpec<E>>::from_spec(tx).inner == tx,
        <FoundryTempoTxEnv<E> as vstd::std_specs::convert::FromSpec<E>>::from_spec(
            tx,
        ).enveloped_tx is None,
{
}

} // verus!
