//! The handles that a connection's engine works with.

use crate::relay::listen::{Listen, ListenView};
use crate::relay::serve::{initial, Serve};
use vstd::prelude::*;

verus! {

/// The relay's side of one connection: the remote session that announces
/// and is subscribed to, the local registry, the origin directory if one is
/// configured, and the sessions that every announce is forwarded to.
#[derive(Clone)]
pub struct Consumer<S, L, A, P> {
    pub remote: S,
    pub locals: L,
    pub api: Option<A>,
    pub forwards: Vec<P>,
}

impl<S, L, A, P> Consumer<S, L, A, P> {
    pub fn new(remote: S, locals: L, api: Option<A>, forwards: Vec<P>) -> (c: Self)
        ensures
            c.remote == remote,
            c.locals == locals,
            c.api == api,
            c.forwards == forwards,
    {
        Consumer { remote, locals, api, forwards }
    }

    /// The outer loop for this connection, before any announce.
    pub fn run(&self) -> (l: Listen)
        ensures
            l@ == (ListenView { source_open: true, serving: Seq::empty() }),
    {
        Listen::new()
    }

    /// The engine that serves one announce on this connection: with the
    /// origin step if a directory is configured, and one forward per target.
    pub fn serve(&self) -> (s: Serve)
        ensures
            s@ == initial(self.api is Some, self.forwards.len()),
    {
        Serve::new(self.api.is_some(), self.forwards.len())
    }
}

} // verus!
