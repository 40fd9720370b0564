//! The single consumer that drains the shared queue into one output.
use vstd::prelude::*;
use crate::filter::{line_of, Message};

verus! {

/// What the aggregator has done so far: the lines it emitted, in order, and
/// whether the queue has closed.
pub struct AggregatorView {
    pub emitted: Seq<Seq<char>>,
    pub finished: bool,
}

/// Turns what the shared queue hands out into output lines, in the order
/// received, until the queue reports that every producer is gone.
pub struct Aggregator {
    emitted: Ghost<Seq<Seq<char>>>,
    finished: bool,
}

impl View for Aggregator {
    type V = AggregatorView;

    closed spec fn view(&self) -> AggregatorView {
        AggregatorView { emitted: self.emitted@, finished: self.finished }
    }
}

/// The output line of a message.
pub open spec fn message_line(m: Message) -> Seq<char> {
    line_of(m.channel@, m.nickname@, m.msg@)
}

impl Aggregator {
    /// An aggregator that has emitted nothing.
    pub fn new() -> (r: Aggregator)
        ensures
            r@.emitted == Seq::<Seq<char>>::empty(),
            !r@.finished,
    {
        Aggregator { emitted: Ghost(Seq::empty()), finished: false }
    }

    /// Takes what one receive on the queue gave: a message becomes the next
    /// output line; `None`, which the queue gives once it is empty and every
    /// producer is gone, ends the run.
    pub fn on_receive(&mut self, received: Option<Message>) -> (r: Option<String>)
        requires
            !old(self)@.finished,
        ensures
            received.is_none() ==> r.is_none() && final(self)@.finished && final(self)@.emitted
                == old(self)@.emitted,
            received matches Some(m) ==> r matches Some(line) && line@ == message_line(m)
                && !final(self)@.finished && final(self)@.emitted == old(self)@.emitted.push(
                line@,
            ),
    {
        match received {
            Some(m) => {
                let line = m.to_string();
                self.emitted = Ghost(self.emitted@.push(line@));
                Some(line)
            },
            None => {
                self.finished = true;
                None
            },
        }
    }

    /// Whether the queue has closed.
    pub fn is_finished(&self) -> (r: bool)
        ensures
            r == self@.finished,
    {
        self.finished
    }
}

} // verus!
