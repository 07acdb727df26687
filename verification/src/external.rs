//! Outside types that the library carries through its logic, and the outside
//! functions it calls on them. Each contract here is believed, not proved.

use std::path::PathBuf;
use vstd::prelude::*;

verus! {

/// `std::path::PathBuf`, carried as an opaque value.
#[verifier::external_type_specification]
#[verifier::external_body]
pub struct ExPathBuf(PathBuf);

/// `PathBuf::clone` (std): the clone holds the same path as the original.
pub assume_specification[ <PathBuf as Clone>::clone ](p: &PathBuf) -> (r: PathBuf)
    ensures
        r == *p,
;

/// `std::io::Error`, carried as an opaque value.
#[verifier::external_type_specification]
#[verifier::external_body]
pub struct ExIoError(std::io::Error);

/// Whether the kind of an I/O error is `ErrorKind::PermissionDenied`. The kind is
/// a property of the error value alone.
pub uninterp spec fn io_error_kind_is_permission_denied(e: std::io::Error) -> bool;

/// Calls `std::io::Error::kind` and tells whether the kind is
/// `ErrorKind::PermissionDenied`; the answer is the named property of the error.
#[verifier::external_body]
pub(crate) fn io_error_is_permission_denied(e: &std::io::Error) -> (r: bool)
    ensures
        r == io_error_kind_is_permission_denied(*e),
{
    e.kind() == std::io::ErrorKind::PermissionDenied
}

/// Formats a `std::io::Error` with its alternate `Display` form (`{:#}`). The text
/// of an operating-system error comes from the machine, so nothing is claimed of it.
#[verifier::external_body]
pub(crate) fn io_error_text(e: &std::io::Error) -> String {
    format!("{e:#}")
}


/// `tokio::sync::oneshot::Sender`: the sending half of a one-value channel.
#[verifier::external_type_specification]
#[verifier::external_body]
#[verifier::reject_recursive_types(T)]
pub struct ExOneshotSender<T>(tokio::sync::oneshot::Sender<T>);

/// `tokio::sync::oneshot::Receiver`: the receiving half of a one-value channel.
#[verifier::external_type_specification]
#[verifier::external_body]
#[verifier::reject_recursive_types(T)]
pub struct ExOneshotReceiver<T>(tokio::sync::oneshot::Receiver<T>);

/// `tokio::sync::oneshot::error::RecvError`: what awaiting a receiver gives when
/// its sender went away. No function here uses it, but the verifier reads the
/// receiver's `Future` implementation, whose output names it, and refuses the
/// receiver type unless this type is declared too.
#[verifier::external_type_specification]
#[verifier::external_body]
pub struct ExOneshotRecvError(tokio::sync::oneshot::error::RecvError);

/// The record of the one-value channels opened so far: each entry holds the
/// sending and the receiving half of one channel. It has no run-time content; only
/// [`oneshot_channel`] adds to it.
#[verifier::reject_recursive_types(T)]
pub struct ChannelLog<T> {
    entries: Ghost<Seq<(tokio::sync::oneshot::Sender<T>, tokio::sync::oneshot::Receiver<T>)>>,
}

impl<T> ChannelLog<T> {
    /// The channels opened so far, in the order they were opened: the two halves of
    /// each.
    pub closed spec fn entries(self) -> Seq<
        (tokio::sync::oneshot::Sender<T>, tokio::sync::oneshot::Receiver<T>),
    > {
        self.entries@
    }

    /// A record of no channels.
    pub fn new() -> (log: ChannelLog<T>)
        ensures
            log.entries() == Seq::<
                (tokio::sync::oneshot::Sender<T>, tokio::sync::oneshot::Receiver<T>),
            >::empty(),
    {
        ChannelLog { entries: Ghost(Seq::empty()) }
    }
}

/// Calls `tokio::sync::oneshot::channel`, which creates one channel and returns its
/// sending and its receiving half; `log` records the two as one channel. Nothing
/// else is claimed of the halves.
#[verifier::external_body]
pub(crate) fn oneshot_channel<T>(log: &mut ChannelLog<T>) -> (halves: (
    tokio::sync::oneshot::Sender<T>,
    tokio::sync::oneshot::Receiver<T>,
))
    ensures
        final(log).entries() == old(log).entries().push(halves),
{
    tokio::sync::oneshot::channel()
}

/// The record of the values sent on one-value channels: each entry is the sender a
/// value was sent on, and the value. It has no run-time content; only
/// [`oneshot_send`] adds to it.
#[verifier::reject_recursive_types(T)]
pub struct SendLog<T> {
    entries: Ghost<Seq<(tokio::sync::oneshot::Sender<T>, T)>>,
}

impl<T> SendLog<T> {
    /// The sends so far, in the order they were made: the sender used, and the
    /// value sent.
    pub closed spec fn entries(self) -> Seq<(tokio::sync::oneshot::Sender<T>, T)> {
        self.entries@
    }

    /// A record of no sends.
    pub fn new() -> (log: SendLog<T>)
        ensures
            log.entries() == Seq::<(tokio::sync::oneshot::Sender<T>, T)>::empty(),
    {
        SendLog { entries: Ghost(Seq::empty()) }
    }
}

/// Calls `tokio::sync::oneshot::Sender::send`, which sends `value` on `tx`; `log`
/// records that `value` was sent on `tx`. Whether the value arrives depends on
/// whether the receiver of `tx` is still alive; when it is not, the value comes
/// back unchanged.
#[verifier::external_body]
pub(crate) fn oneshot_send<T>(
    tx: tokio::sync::oneshot::Sender<T>,
    value: T,
    log: &mut SendLog<T>,
) -> (r: Result<(), T>)
    ensures
        final(log).entries() == old(log).entries().push((tx, value)),
        r matches Err(back) ==> back == value,
{
    tx.send(value)
}

} // verus!
