//! The way of messages from the reliable command channel to the robot: each is handed on in
//! order, until one could not be carried out.
use crate::negotiation::Flow;
use vstd::prelude::*;

verus! {

/// Whether messages of a reliable channel are still handed on.
#[derive(Debug)]
pub struct ReliableRun {
    failed: bool,
}

/// Whether to go on, by whether the commands of a message were carried out.
pub open spec fn flow_after(carried_out: bool) -> Flow {
    if carried_out {
        Flow::Continue
    } else {
        Flow::Quit
    }
}

/// The message that is handed on when one arrives.
pub open spec fn taken<T>(failed: bool, message: T) -> Option<T> {
    if failed {
        None
    } else {
        Some(message)
    }
}

/// The messages that are handed on of those that arrive, when each of them is carried out, or
/// not, as `outcomes` says.
pub open spec fn handed_on<T>(failed: bool, messages: Seq<T>, outcomes: Seq<bool>) -> Seq<T>
    decreases messages.len(),
{
    if messages.len() == 0 {
        Seq::empty()
    } else {
        match taken(failed, messages[0]) {
            Some(message) => seq![message] + handed_on(
                flow_after(outcomes[0]) == Flow::Quit,
                messages.drop_first(),
                outcomes.drop_first(),
            ),
            None => handed_on(failed, messages.drop_first(), outcomes.drop_first()),
        }
    }
}

/// Whether a session runs after the messages that arrive were handed on: each that is handed
/// on and not carried out ends it.
pub open spec fn runs_after<T>(
    running: bool,
    failed: bool,
    messages: Seq<T>,
    outcomes: Seq<bool>,
) -> bool
    decreases messages.len(),
{
    if messages.len() == 0 {
        running
    } else {
        match taken(failed, messages[0]) {
            Some(_) => runs_after(
                running && outcomes[0],
                flow_after(outcomes[0]) == Flow::Quit,
                messages.drop_first(),
                outcomes.drop_first(),
            ),
            None => runs_after(running, failed, messages.drop_first(), outcomes.drop_first()),
        }
    }
}

impl ReliableRun {
    /// Whether a message could not be carried out.
    pub closed spec fn failed(self) -> bool {
        self.failed
    }

    /// A channel on which nothing has failed.
    pub fn new() -> (r: ReliableRun)
        ensures
            !r.failed(),
    {
        ReliableRun { failed: false }
    }

    /// The message to hand on, when one arrives.
    pub fn take<T>(&self, message: T) -> (r: Option<T>)
        ensures
            r == taken(self.failed(), message),
    {
        if self.failed {
            None
        } else {
            Some(message)
        }
    }

    /// The message that was handed on was carried out, or not.
    pub fn handled(&mut self, carried_out: bool)
        ensures
            final(self).failed() == (old(self).failed() || flow_after(carried_out) == Flow::Quit),
    {
        if !carried_out {
            self.failed = true;
        }
    }
}

proof fn lemma_none_after_failure<T>(running: bool, messages: Seq<T>, outcomes: Seq<bool>)
    ensures
        handed_on(true, messages, outcomes) == Seq::<T>::empty(),
        runs_after(running, true, messages, outcomes) == running,
    decreases messages.len(),
{
    if messages.len() > 0 {
        lemma_none_after_failure(running, messages.drop_first(), outcomes.drop_first());
    }
}

/// Messages are handed on in order, none left out and none twice, up to and with the first that
/// is not carried out, and none after it. Where all are carried out, all are handed on, and the
/// session runs as before; otherwise it has ended.
pub proof fn lemma_until_first_failure<T>(running: bool, messages: Seq<T>, outcomes: Seq<bool>)
    requires
        messages.len() <= outcomes.len(),
    ensures
        ({
            let passed = handed_on(false, messages, outcomes);
            &&& passed.len() <= messages.len()
            &&& passed == messages.take(passed.len() as int)
            &&& forall|i: int| 0 <= i < passed.len() - 1 ==> #[trigger] outcomes[i]
            &&& passed.len() < messages.len() ==> passed.len() > 0 && !outcomes[passed.len() - 1]
            &&& runs_after(running, false, messages, outcomes) == (running && (passed.len() == 0
                || outcomes[passed.len() - 1]))
        }),
    decreases messages.len(),
{
    let passed = handed_on(false, messages, outcomes);
    if messages.len() > 0 {
        let rest = messages.drop_first();
        let later = outcomes.drop_first();
        if outcomes[0] {
            lemma_until_first_failure(running, rest, later);
            let after = handed_on(false, rest, later);
            assert(passed =~= seq![messages[0]] + after);
            assert forall|i: int| 0 <= i < passed.len() - 1 implies #[trigger] outcomes[i] by {
                if i > 0 {
                    assert(later[i - 1] == outcomes[i]);
                }
            }
            assert(passed =~= messages.take(passed.len() as int)) by {
                assert forall|i: int| 0 <= i < passed.len() implies passed[i] == messages[i] by {
                    if i > 0 {
                        assert(after[i - 1] == rest.take(after.len() as int)[i - 1]);
                    }
                }
            }
        } else {
            lemma_none_after_failure(running && outcomes[0], rest, later);
            assert(passed =~= messages.take(1));
        }
    } else {
        assert(passed =~= messages.take(0));
    }
}

/// A channel goes on after a message that was carried out, and only then; it hands messages on as
/// long as none has failed.
pub proof fn lemma_when_a_channel_goes_on<T>(carried_out: bool, failed: bool, message: T)
    ensures
        flow_after(carried_out) == Flow::Continue <==> carried_out,
        flow_after(carried_out) == Flow::Quit <==> !carried_out,
        taken(failed, message) == Some(message) <==> !failed,
        taken(failed, message) is None <==> failed,
{
}

} // verus!
