//! The course of a run.
//!
//! What is done next follows from what came of the last thing done.

use vstd::prelude::*;

use crate::clang::DIAGNOSTIC_ERROR;

verus! {

/// What came of the last thing done.
#[derive(Debug)]
pub enum Event {
    /// The command line is in error.
    LineRefused(String),
    /// The command line is a call for help.
    HelpAsked,
    /// The command line asks for a run.
    LineRead,
    /// An index was created, or not.
    IndexCreated(bool),
    /// The translation unit was parsed, or not.
    UnitParsed(bool),
    /// The diagnostics of the translation unit were shown; they are of these
    /// severities.
    Diagnosed(Vec<i32>),
    /// The translation unit was visited.
    Visited,
    /// The bindings were written.
    Written,
}

/// What is done next.
#[derive(Debug, PartialEq, Eq)]
pub enum Action {
    /// To tell how the program is used, and to end.
    PrintUsage,
    /// To fail with a message.
    Fail(String),
    CreateIndex,
    ParseUnit,
    ShowDiagnostics,
    VisitUnit,
    WriteBindings,
    /// To give the translation unit and the index back, and to end.
    Dispose,
    /// To end.
    End,
}

/// What an [`Action`] stands for.
pub enum ActionView {
    PrintUsage,
    Fail(Seq<char>),
    CreateIndex,
    ParseUnit,
    ShowDiagnostics,
    VisitUnit,
    WriteBindings,
    Dispose,
    End,
}

impl View for Action {
    type V = ActionView;

    open spec fn view(&self) -> ActionView {
        match *self {
            Action::PrintUsage => ActionView::PrintUsage,
            Action::Fail(e) => ActionView::Fail(e@),
            Action::CreateIndex => ActionView::CreateIndex,
            Action::ParseUnit => ActionView::ParseUnit,
            Action::ShowDiagnostics => ActionView::ShowDiagnostics,
            Action::VisitUnit => ActionView::VisitUnit,
            Action::WriteBindings => ActionView::WriteBindings,
            Action::Dispose => ActionView::Dispose,
            Action::End => ActionView::End,
        }
    }
}

/// Whether one of the diagnostics is an error.
pub open spec fn any_error(severities: Seq<i32>) -> bool {
    exists|i: int| 0 <= i < severities.len() && (#[trigger] severities[i]) >= DIAGNOSTIC_ERROR
}

/// Whether one of the diagnostics is an error, so that there is nothing to
/// write.
pub fn has_errors(severities: &Vec<i32>) -> (r: bool)
    ensures
        r == any_error(severities@),
{
    let mut c_err = false;
    let mut i: usize = 0;
    while i < severities.len()
        invariant
            i <= severities@.len(),
            c_err == any_error(severities@.take(i as int)),
        decreases severities@.len() - i,
    {
        let ghost done = severities@.take(i as int);
        let ghost next = severities@.take(i + 1);
        assert(next =~= done.push(severities@[i as int]));
        proof {
            if any_error(done) {
                let j = choose|j: int|
                    0 <= j < done.len() && (#[trigger] done[j]) >= DIAGNOSTIC_ERROR;
                assert(next[j] >= DIAGNOSTIC_ERROR);
            }
        }
        if severities[i] >= DIAGNOSTIC_ERROR {
            assert(next[i as int] >= DIAGNOSTIC_ERROR);
            c_err = true;
        }
        i = i + 1;
    }
    assert(severities@.take(i as int) =~= severities@);
    c_err
}

/// What is done next after an event.
pub open spec fn reaction(event: Event) -> ActionView {
    match event {
        Event::LineRefused(e) => ActionView::Fail(e@),
        Event::HelpAsked => ActionView::PrintUsage,
        Event::LineRead => ActionView::CreateIndex,
        Event::IndexCreated(true) => ActionView::ParseUnit,
        Event::IndexCreated(false) => ActionView::Fail("clang failed to create index"@),
        Event::UnitParsed(true) => ActionView::ShowDiagnostics,
        Event::UnitParsed(false) => ActionView::Fail("No input files given"@),
        Event::Diagnosed(severities) => if any_error(severities@) {
            ActionView::End
        } else {
            ActionView::VisitUnit
        },
        Event::Visited => ActionView::WriteBindings,
        Event::Written => ActionView::Dispose,
    }
}

/// Decides what is done next after an event.
pub fn react(event: Event) -> (r: Action)
    ensures
        r@ == reaction(event),
{
    match event {
        Event::LineRefused(e) => Action::Fail(e),
        Event::HelpAsked => Action::PrintUsage,
        Event::LineRead => Action::CreateIndex,
        Event::IndexCreated(created) => if created {
            Action::ParseUnit
        } else {
            Action::Fail("clang failed to create index".to_owned())
        },
        Event::UnitParsed(parsed) => if parsed {
            Action::ShowDiagnostics
        } else {
            Action::Fail("No input files given".to_owned())
        },
        Event::Diagnosed(severities) => if has_errors(&severities) {
            Action::End
        } else {
            Action::VisitUnit
        },
        Event::Visited => Action::WriteBindings,
        Event::Written => Action::Dispose,
    }
}

/// Whether the event can come of the action: what is tried succeeds or fails,
/// and what ends the run is followed by nothing.
pub open spec fn answers(event: Event, action: ActionView) -> bool {
    match action {
        ActionView::CreateIndex => event is IndexCreated,
        ActionView::ParseUnit => event is UnitParsed,
        ActionView::ShowDiagnostics => event is Diagnosed,
        ActionView::VisitUnit => event is Visited,
        ActionView::WriteBindings => event is Written,
        ActionView::PrintUsage | ActionView::Fail(_) | ActionView::Dispose | ActionView::End => {
            false
        },
    }
}

/// Whether the events are those of a run: the first comes of the command line,
/// each other one of what was done after the one before.
pub open spec fn is_run(events: Seq<Event>) -> bool {
    &&& events.len() > 0
    &&& events[0] is LineRefused || events[0] is HelpAsked || events[0] is LineRead
    &&& forall|i: int|
        0 < i < events.len() ==> answers(#[trigger] events[i], reaction(events[i - 1]))
}

/// Bindings are written only where the command line asked for a run, libclang
/// gave an index and a translation unit, and none of the diagnostics was an
/// error; and where a run comes to giving the two back, they have been written.
pub proof fn law_written_without_errors(events: Seq<Event>)
    requires
        is_run(events),
    ensures
        reaction(events.last()) is WriteBindings ==> {
            &&& events.len() == 5
            &&& events[0] is LineRead
            &&& events[1] == Event::IndexCreated(true)
            &&& events[2] == Event::UnitParsed(true)
            &&& events[3] is Diagnosed
            &&& !any_error(events[3]->Diagnosed_0@)
        },
        reaction(events.last()) is Dispose ==> events.len() == 6 && reaction(events[4])
            is WriteBindings,
{
    let n = events.len() as int;
    if n > 1 {
        assert(answers(events[1], reaction(events[0])));
    }
    if n > 2 {
        assert(answers(events[2], reaction(events[1])));
    }
    if n > 3 {
        assert(answers(events[3], reaction(events[2])));
    }
    if n > 4 {
        assert(answers(events[4], reaction(events[3])));
    }
    if n > 5 {
        assert(answers(events[5], reaction(events[4])));
    }
    if n > 6 {
        assert(answers(events[6], reaction(events[5])));
    }
}

/// No diagnostics hold no error, and one more adds an error exactly if its own
/// severity is that of an error or graver.
pub proof fn law_errors_add_up(severities: Seq<i32>, s: i32)
    ensures
        !any_error(Seq::empty()),
        any_error(severities.push(s)) <==> any_error(severities) || s >= 3,
{
    let more = severities.push(s);
    if any_error(severities) {
        let i = choose|i: int|
            0 <= i < severities.len() && (#[trigger] severities[i]) >= DIAGNOSTIC_ERROR;
        assert(more[i] >= DIAGNOSTIC_ERROR);
    }
    if s >= 3 {
        assert(more[severities.len() as int] >= DIAGNOSTIC_ERROR);
    }
    if any_error(more) {
        let i = choose|i: int| 0 <= i < more.len() && (#[trigger] more[i]) >= DIAGNOSTIC_ERROR;
        if i < severities.len() {
            assert(severities[i] >= DIAGNOSTIC_ERROR);
        }
    }
}

/// A run that fails does so with the message of the command line, or for want of
/// an index or of a translation unit.
pub proof fn law_failures(event: Event, e: Seq<char>)
    ensures
        reaction(event) == ActionView::Fail(e) <==> {
            ||| event is LineRefused && event->LineRefused_0@ == e
            ||| event == Event::IndexCreated(false) && e == "clang failed to create index"@
            ||| event == Event::UnitParsed(false) && e == "No input files given"@
        },
        reaction(event) is Fail <==> event is LineRefused || event == Event::IndexCreated(false)
            || event == Event::UnitParsed(false),
{
}

/// Each thing is done after one event and no other.
pub proof fn law_each_in_its_turn(event: Event)
    ensures
        reaction(event) is PrintUsage <==> event is HelpAsked,
        reaction(event) is CreateIndex <==> event is LineRead,
        reaction(event) is ParseUnit <==> event == Event::IndexCreated(true),
        reaction(event) is ShowDiagnostics <==> event == Event::UnitParsed(true),
        reaction(event) is VisitUnit <==> event is Diagnosed && !any_error(
            event->Diagnosed_0@,
        ),
        reaction(event) is End <==> event is Diagnosed && any_error(event->Diagnosed_0@),
        reaction(event) is WriteBindings <==> event is Visited,
        reaction(event) is Dispose <==> event is Written,
{
}

/// What an action stands for is the action.
pub proof fn law_action_is_its_view(a: Action)
    ensures
        a@ is PrintUsage <==> a is PrintUsage,
        a@ is Fail <==> a is Fail,
        a is Fail ==> a@->Fail_0 == a->Fail_0@,
        a@ is CreateIndex <==> a is CreateIndex,
        a@ is ParseUnit <==> a is ParseUnit,
        a@ is ShowDiagnostics <==> a is ShowDiagnostics,
        a@ is VisitUnit <==> a is VisitUnit,
        a@ is WriteBindings <==> a is WriteBindings,
        a@ is Dispose <==> a is Dispose,
        a@ is End <==> a is End,
{
}

} // verus!
