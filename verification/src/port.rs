//! Outgoing channels: what the library has handed to a receiver that has not
//! taken it yet.
//!
//! A [`Port`] accepts messages until it is full or its receiver is gone. The
//! owner of the receiver takes the accepted messages with [`Port::drain`] and
//! thereby makes room again.

use vstd::prelude::*;

verus! {

/// The sending end of one channel.
#[derive(Debug)]
pub struct Port<T> {
    /// Accepted messages that the receiver has not taken, oldest first.
    pub sent: Vec<T>,
    /// How many messages may wait, or `None` when there is no limit.
    pub limit: Option<usize>,
    /// Whether the receiver is gone.
    pub closed: bool,
}

/// Why a message was not accepted. The message comes back.
#[derive(Debug)]
pub enum TrySendError<T> {
    Full(T),
    Closed(T),
}

/// The mathematical model of a [`Port`].
#[verifier::ext_equal]
pub struct PortModel<M> {
    pub sent: Seq<M>,
    pub limit: Option<usize>,
    pub closed: bool,
}

impl<M> PortModel<M> {
    pub open spec fn full(self) -> bool {
        match self.limit {
            Some(n) => self.sent.len() >= n,
            None => false,
        }
    }

    pub open spec fn accepts(self) -> bool {
        !self.closed && !self.full()
    }

    /// How many of `n` further messages are accepted.
    pub open spec fn room(self, n: nat) -> nat {
        if self.closed {
            0
        } else {
            match self.limit {
                Some(limit) => if self.sent.len() >= limit {
                    0
                } else if limit - self.sent.len() < n {
                    (limit - self.sent.len()) as nat
                } else {
                    n
                },
                None => n,
            }
        }
    }

    /// The port after one message was offered.
    pub open spec fn offer(self, m: M) -> Self {
        if self.accepts() {
            PortModel { sent: self.sent.push(m), ..self }
        } else {
            self
        }
    }

    /// The port after `ms`, all of which fit, were accepted in order.
    pub open spec fn extend(self, ms: Seq<M>) -> Self {
        PortModel { sent: self.sent + ms, ..self }
    }
}

/// The model of an optional port.
pub open spec fn port_model<T: View>(p: Option<Port<T>>) -> Option<PortModel<T::V>> {
    match p {
        Some(port) => Some(port@),
        None => None,
    }
}

/// An optional port after one message was offered to it.
pub open spec fn offered<M>(p: Option<PortModel<M>>, m: M) -> Option<PortModel<M>> {
    match p {
        Some(port) => Some(port.offer(m)),
        None => None,
    }
}

impl<T: View> View for Port<T> {
    type V = PortModel<T::V>;

    open spec fn view(&self) -> PortModel<T::V> {
        PortModel {
            sent: self.sent@.map_values(|t: T| t@),
            limit: self.limit,
            closed: self.closed,
        }
    }
}

impl<T: View> Port<T> {
    /// An open port on which at most `limit` messages may wait.
    pub fn bounded(limit: usize) -> (r: Self)
        ensures
            r@ == (PortModel { sent: Seq::<T::V>::empty(), limit: Some(limit), closed: false }),
    {
        Port { sent: Vec::new(), limit: Some(limit), closed: false }
    }

    /// An open port without a limit.
    pub fn unbounded() -> (r: Self)
        ensures
            r@ == (PortModel { sent: Seq::<T::V>::empty(), limit: None, closed: false }),
    {
        Port { sent: Vec::new(), limit: None, closed: false }
    }

    pub fn is_full(&self) -> (r: bool)
        ensures
            r == self@.full(),
    {
        match self.limit {
            Some(n) => self.sent.len() >= n,
            None => false,
        }
    }

    /// Hands `message` to the receiver, if it is there and there is room.
    pub fn try_send(&mut self, message: T) -> (r: Result<(), TrySendError<T>>)
        ensures
            final(self)@ == old(self)@.offer(message@),
            match r {
                Ok(_) => old(self)@.accepts(),
                Err(TrySendError::Full(m)) => m == message && !old(self)@.closed
                    && old(self)@.full(),
                Err(TrySendError::Closed(m)) => m == message && old(self)@.closed,
            },
    {
        if self.closed {
            return Err(TrySendError::Closed(message));
        }
        if self.is_full() {
            return Err(TrySendError::Full(message));
        }
        let ghost f = |t: T| t@;
        self.sent.push(message);
        assert(self.sent@.map_values(f) =~= old(self).sent@.map_values(f).push(message@));
        Ok(())
    }

    /// Takes every accepted message, oldest first.
    pub fn drain(&mut self) -> (r: Vec<T>)
        ensures
            r@ == old(self).sent@,
            final(self)@ == (PortModel { sent: Seq::<T::V>::empty(), ..old(self)@ }),
    {
        let mut out: Vec<T> = Vec::new();
        out.append(&mut self.sent);
        assert(out@ =~= old(self).sent@);
        out
    }
}

/// Offers `message` to `port`, if there is one. A message that is not accepted is dropped.
pub fn notify<T: View>(port: &mut Option<Port<T>>, message: T)
    ensures
        port_model(*final(port)) == offered(port_model(*old(port)), message@),
{
    if let Some(p) = port {
        let _ = p.try_send(message);
    }
}

} // verus!
