//! The outside types that the fetch bookkeeping carries, and the calls made on them.
use vstd::prelude::*;

verus! {

/// `anyhow::Error`: an error whose message and cause chain this library only carries along.
#[verifier::external_type_specification]
#[verifier::external_body]
pub struct ExAnyhowError(anyhow::Error);

/// `crossbeam::channel::Sender`: the sending half of the channel on which
/// fetch results are reported.
#[verifier::external_type_specification]
#[verifier::external_body]
#[verifier::reject_recursive_types(T)]
pub struct ExSender<T>(crossbeam::channel::Sender<T>);

/// The sending half of the channel on which fetch results are reported,
/// together with the record of every message handed to it through this handle.
#[verifier::reject_recursive_types(M)]
pub struct ReportChannel<M> {
    tx: crossbeam::channel::Sender<M>,
    sent: Ghost<Seq<M>>,
}

impl<M> ReportChannel<M> {
    /// The messages handed to the channel through this handle, oldest first.
    pub closed spec fn sent(&self) -> Seq<M> {
        self.sent@
    }

    /// The sending half that the messages go to.
    pub closed spec fn sender(&self) -> crossbeam::channel::Sender<M> {
        self.tx
    }

    /// A handle on `tx` through which nothing has been sent yet.
    pub fn new(tx: crossbeam::channel::Sender<M>) -> (r: Self)
        ensures
            r.sent() == Seq::<M>::empty(),
            r.sender() == tx,
    {
        ReportChannel { tx, sent: Ghost(Seq::empty()) }
    }

    /// Sends `msg` with `crossbeam::channel::Sender::send`, discarding the
    /// outcome, and records it as sent. The record lists what was handed to
    /// `send`; whether a message reaches a receiver depends on whether the
    /// receiving half is still connected, which is not stated.
    #[verifier::external_body]
    pub(crate) fn send(&mut self, msg: M)
        ensures
            final(self).sent() == old(self).sent().push(msg),
            final(self).sender() == old(self).sender(),
    {
        let _ = self.tx.send(msg);
    }
}

/// Builds an error whose message is `msg`, with `anyhow::Error::msg`.
/// Nothing is stated of the result: an `anyhow::Error` is opaque here, and
/// its message can only be read back through its `Display` impl.
#[verifier::external_body]
pub(crate) fn error_from_message(msg: &'static str) -> anyhow::Error {
    anyhow::Error::msg(msg)
}

} // verus!
