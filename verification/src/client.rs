//! The dispatch loop: batches of events are played against the session
//! state, in arrival order, until the session stops running.

use vstd::prelude::*;
use crate::protocol::{Event, Request, SessionError};
use crate::session::State;

verus! {

/// What has come of playing events against a session: the state reached,
/// the requests sent on the way, and the refusal that ended the play, if
/// one did.
pub struct Trace {
    /// The state after the last event that was accepted.
    pub state: State,
    /// The requests sent, in order.
    pub requests: Seq<Request>,
    /// Why the play ended early, if it did.
    pub error: Option<SessionError>,
}

/// Plays the events of one batch in arrival order. The running flag is not
/// looked at: a batch is played to its end. A refused event ends the play
/// with the state and the requests as they were before it.
pub open spec fn play(state: State, width: u32, height: u32, events: Seq<Event>) -> Trace
    decreases events.len(),
{
    if events.len() == 0 {
        Trace { state, requests: Seq::empty(), error: None }
    } else {
        let before = play(state, width, height, events.drop_last());
        if before.error.is_some() {
            before
        } else {
            Trace {
                state: before.state.next(width, height, events.last()),
                requests: before.requests + before.state.requests(width, height, events.last()),
                error: before.state.refusal(width, height, events.last()),
            }
        }
    }
}

/// Plays batches in order. Before each batch the running flag is looked
/// at: once it is cleared, or an event has been refused, no further batch
/// is played.
pub open spec fn play_all(state: State, width: u32, height: u32, batches: Seq<Seq<Event>>) -> Trace
    decreases batches.len(),
{
    if batches.len() == 0 {
        Trace { state, requests: Seq::empty(), error: None }
    } else {
        let before = play_all(state, width, height, batches.drop_last());
        if before.error.is_some() || !before.state.running {
            before
        } else {
            let batch = play(before.state, width, height, batches.last());
            Trace {
                state: batch.state,
                requests: before.requests + batch.requests,
                error: batch.error,
            }
        }
    }
}

/// The events of each batch.
pub open spec fn events_of(batches: Seq<Vec<Event>>) -> Seq<Seq<Event>> {
    batches.map_values(|batch: Vec<Event>| batch@)
}

/// A play that has been ended by a refusal is not continued by later
/// events.
pub proof fn lemma_play_ends_at_refusal(
    state: State,
    width: u32,
    height: u32,
    events: Seq<Event>,
    played: int,
)
    requires
        0 <= played <= events.len(),
        play(state, width, height, events.take(played)).error.is_some(),
    ensures
        play(state, width, height, events) == play(state, width, height, events.take(played)),
    decreases events.len() - played,
{
    if played == events.len() {
        assert(events.take(played) =~= events);
    } else {
        assert(events.take(played + 1).drop_last() =~= events.take(played));
        lemma_play_ends_at_refusal(state, width, height, events, played + 1);
    }
}

/// Once the running flag is cleared or an event has been refused, later
/// batches are not played.
pub proof fn lemma_play_all_ends(
    state: State,
    width: u32,
    height: u32,
    batches: Seq<Seq<Event>>,
    played: int,
)
    requires
        0 <= played <= batches.len(),
        ({
            let before = play_all(state, width, height, batches.take(played));
            before.error.is_some() || !before.state.running
        }),
    ensures
        play_all(state, width, height, batches) == play_all(
            state,
            width,
            height,
            batches.take(played),
        ),
    decreases batches.len() - played,
{
    if played == batches.len() {
        assert(batches.take(played) =~= batches);
    } else {
        assert(batches.take(played + 1).drop_last() =~= batches.take(played));
        lemma_play_all_ends(state, width, height, batches, played + 1);
    }
}

/// A session with the compositor: the state of the negotiation and the
/// size of the picture that the window shows.
pub struct WaylandClient {
    state: State,
    width: u32,
    height: u32,
}

impl WaylandClient {
    #[verifier::type_invariant]
    spec fn reachable(self) -> bool {
        self.state.wf()
    }

    /// The state of the negotiation.
    pub closed spec fn spec_state(&self) -> State {
        self.state
    }

    /// The width of the picture in pixels.
    pub closed spec fn spec_width(&self) -> u32 {
        self.width
    }

    /// The height of the picture in pixels.
    pub closed spec fn spec_height(&self) -> u32 {
        self.height
    }

    /// What playing one batch against this session comes to.
    pub open spec fn played(&self, events: Seq<Event>) -> Trace {
        play(self.state(), self.width(), self.height(), events)
    }

    /// What playing batches against this session comes to.
    pub open spec fn played_all(&self, batches: Seq<Seq<Event>>) -> Trace {
        play_all(self.state(), self.width(), self.height(), batches)
    }

    /// A session that has heard nothing yet, for a picture of the given
    /// size.
    pub fn new(width: u32, height: u32) -> (client: WaylandClient)
        ensures
            client.state() == State::initial(),
            client.width() == width,
            client.height() == height,
    {
        WaylandClient { state: State::new(), width, height }
    }

    /// The state of the negotiation.
    #[verifier::when_used_as_spec(spec_state)]
    pub fn state(&self) -> (state: State)
        ensures
            state == self.state(),
            state.wf(),
    {
        proof {
            use_type_invariant(self);
        }
        self.state
    }

    /// The width of the picture in pixels.
    #[verifier::when_used_as_spec(spec_width)]
    pub fn width(&self) -> (width: u32)
        ensures
            width == self.width(),
    {
        self.width
    }

    /// The height of the picture in pixels.
    #[verifier::when_used_as_spec(spec_height)]
    pub fn height(&self) -> (height: u32)
        ensures
            height == self.height(),
    {
        self.height
    }

    /// Whether the session goes on. The dispatch loop looks at this between
    /// batches.
    pub fn is_running(&self) -> (running: bool)
        ensures
            running == self.state().running,
    {
        self.state.running
    }

    /// Plays one batch of events in arrival order and appends the requests
    /// that they call for to `out`. The whole batch is played, whatever
    /// becomes of the running flag on the way. An event that is refused ends
    /// the play: the error is returned, and the state and `out` stay as they
    /// were before that event.
    pub fn dispatch(&mut self, batch: &Vec<Event>, out: &mut Vec<Request>) -> (result: Result<
        (),
        SessionError,
    >)
        ensures
            final(self).state() == old(self).played(batch@).state,
            final(out)@ == old(out)@ + old(self).played(batch@).requests,
            result == match old(self).played(batch@).error {
                Some(error) => Err::<(), SessionError>(error),
                None => Ok(()),
            },
            final(self).width() == old(self).width(),
            final(self).height() == old(self).height(),
    {
        let mut handled: usize = 0;
        proof {
            use_type_invariant(&*self);
            assert(out@ =~= old(out)@ + Seq::<Request>::empty());
        }
        while handled < batch.len()
            invariant
                handled <= batch.len(),
                self.width == old(self).width,
                self.height == old(self).height,
                self.state.wf(),
                ({
                    let so_far = old(self).played(batch@.take(handled as int));
                    &&& so_far.error.is_none()
                    &&& self.state == so_far.state
                    &&& out@ == old(out)@ + so_far.requests
                }),
            decreases batch.len() - handled,
        {
            let ghost before = old(self).played(batch@.take(handled as int));
            let ghost sent = out@;
            let event = batch[handled];
            proof {
                assert(batch@.take(handled + 1).drop_last() =~= batch@.take(handled as int));
                assert(batch@.take(handled + 1).last() == event);
            }
            let mut state = self.state;
            let answer = state.event(self.width, self.height, event, out);
            self.state = state;
            proof {
                let after = old(self).played(batch@.take(handled + 1));
                assert(out@ =~= old(out)@ + after.requests) by {
                    assert(out@ == sent + before.state.requests(self.width, self.height, event));
                    assert(after.requests == before.requests + before.state.requests(
                        self.width,
                        self.height,
                        event,
                    ));
                }
            }
            if let Err(error) = answer {
                proof {
                    lemma_play_ends_at_refusal(
                        old(self).state(),
                        old(self).width(),
                        old(self).height(),
                        batch@,
                        handled + 1,
                    );
                }
                return Err(error);
            }
            handled += 1;
        }
        proof {
            assert(batch@.take(handled as int) =~= batch@);
        }
        Ok(())
    }

    /// The dispatch loop over a record of batches: as long as the session is
    /// running, the next batch is played. The running flag is looked at
    /// between batches only, so the batch in which it is cleared is still
    /// played to its end, and no batch after it is played at all. A refused
    /// event ends the loop with its error.
    pub fn run(&mut self, batches: &Vec<Vec<Event>>, out: &mut Vec<Request>) -> (result: Result<
        (),
        SessionError,
    >)
        ensures
            final(self).state() == old(self).played_all(events_of(batches@)).state,
            final(out)@ == old(out)@ + old(self).played_all(events_of(batches@)).requests,
            result == match old(self).played_all(events_of(batches@)).error {
                Some(error) => Err::<(), SessionError>(error),
                None => Ok(()),
            },
            final(self).width() == old(self).width(),
            final(self).height() == old(self).height(),
    {
        let ghost record = events_of(batches@);
        let mut played: usize = 0;
        proof {
            assert(out@ =~= old(out)@ + Seq::<Request>::empty());
        }
        while played < batches.len()
            invariant
                played <= batches.len(),
                record == events_of(batches@),
                self.width == old(self).width,
                self.height == old(self).height,
                ({
                    let so_far = old(self).played_all(record.take(played as int));
                    &&& so_far.error.is_none()
                    &&& self.state == so_far.state
                    &&& out@ == old(out)@ + so_far.requests
                }),
            decreases batches.len() - played,
        {
            let ghost before = old(self).played_all(record.take(played as int));
            let ghost sent = out@;
            if !self.state.running {
                proof {
                    lemma_play_all_ends(
                        old(self).state(),
                        old(self).width(),
                        old(self).height(),
                        record,
                        played as int,
                    );
                }
                return Ok(());
            }
            proof {
                assert(record.take(played + 1).drop_last() =~= record.take(played as int));
                assert(record.take(played + 1).last() == batches@[played as int]@);
            }
            let answer = self.dispatch(&batches[played], out);
            proof {
                let batch = play(before.state, self.width, self.height, batches@[played as int]@).requests;
                assert(out@ =~= old(out)@ + (before.requests + batch));
            }
            if let Err(error) = answer {
                proof {
                    lemma_play_all_ends(
                        old(self).state(),
                        old(self).width(),
                        old(self).height(),
                        record,
                        played + 1,
                    );
                }
                return Err(error);
            }
            played += 1;
        }
        proof {
            assert(record.take(played as int) =~= record);
        }
        Ok(())
    }
}

} // verus!
