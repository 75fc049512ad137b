//! The repair of one book: check the archive against its package, check the
//! table of contents, and regenerate the table once when either check asks
//! for it. The checks and the regeneration touch the file system, so the
//! caller performs each [`EpubAction`] and reports back with an
//! [`EpubEvent`].

use vstd::prelude::*;

verus! {

/// Where the repair of a book stands.
pub enum EpubProcess {
    /// The archive check was asked for.
    CheckingZip,
    /// The archive passed; the table-of-contents check was asked for.
    CheckingToc,
    /// A regeneration of the table was asked for.
    Regenerating,
    /// After the regeneration, the archive check was asked for again.
    RecheckingZip,
    /// After the regeneration, the table-of-contents check was asked for again.
    RecheckingToc,
    /// The repair is over.
    Finished,
}

/// What the caller is asked to do next.
pub enum EpubAction {
    /// Check the archive against its package (`verify_zip_integrity`).
    CheckZip,
    /// Check the table of contents (`verify_toc_integrity`).
    CheckToc,
    /// Regenerate the table of contents.
    GenerateToc,
    /// The repair is over, with this outcome.
    Done(Result<(), String>),
}

/// How the last action ended.
pub enum EpubEvent {
    /// The archive check's result: `false` when the table must be regenerated.
    ZipChecked(Result<bool, String>),
    /// The table-of-contents check's result.
    TocChecked(Result<(), String>),
    /// The regeneration's result.
    TocGenerated(Result<(), String>),
}

/// How far a repair is from its end: every step takes it closer.
pub open spec fn steps_left(s: EpubProcess) -> nat {
    match s {
        EpubProcess::CheckingZip => 5,
        EpubProcess::CheckingToc => 4,
        EpubProcess::Regenerating => 3,
        EpubProcess::RecheckingZip => 2,
        EpubProcess::RecheckingToc => 1,
        EpubProcess::Finished => 0,
    }
}

/// `event` answers the action that a repair in `state` asked for.
pub open spec fn answers(state: EpubProcess, event: EpubEvent) -> bool {
    match state {
        EpubProcess::CheckingZip | EpubProcess::RecheckingZip => event is ZipChecked,
        EpubProcess::CheckingToc | EpubProcess::RecheckingToc => event is TocChecked,
        EpubProcess::Regenerating => event is TocGenerated,
        EpubProcess::Finished => false,
    }
}

/// The repair ends with the error `m`.
pub open spec fn fails_with(next: (EpubProcess, EpubAction), m: Seq<char>) -> bool {
    &&& next.0 is Finished
    &&& next.1 matches EpubAction::Done(Err(e)) && e@ == m
}

/// The repair ends successfully.
pub open spec fn succeeds(next: (EpubProcess, EpubAction)) -> bool {
    &&& next.0 is Finished
    &&& next.1 matches EpubAction::Done(Ok(()))
}

/// The repair asks for a regeneration.
pub open spec fn regenerates(next: (EpubProcess, EpubAction)) -> bool {
    next.0 is Regenerating && next.1 is GenerateToc
}

/// One step of a book's repair: from `state`, after `event`, the repair
/// moves to `next`. An archive check that fails ends the repair with its
/// error; one that asks for regeneration regenerates; one that passes leads to
/// the table check, whose failure regenerates. After a regeneration (whose
/// failure ends the repair with its error) both checks are run again, and a
/// failure of either ends the repair with an error that says which.
pub open spec fn repair_step(state: EpubProcess, event: EpubEvent, next: (EpubProcess, EpubAction)) -> bool {
    &&& steps_left(next.0) < steps_left(state)
    &&& (next.0 is Finished <==> next.1 is Done)
    &&& state is CheckingZip ==> (match event {
        EpubEvent::ZipChecked(Err(e)) => fails_with(next, e@),
        EpubEvent::ZipChecked(Ok(false)) => regenerates(next),
        EpubEvent::ZipChecked(Ok(true)) => next.0 is CheckingToc && next.1 is CheckToc,
        _ => false,
    })
    &&& state is CheckingToc ==> (match event {
        EpubEvent::TocChecked(Ok(())) => succeeds(next),
        EpubEvent::TocChecked(Err(_)) => regenerates(next),
        _ => false,
    })
    &&& state is Regenerating ==> (match event {
        EpubEvent::TocGenerated(Ok(())) => next.0 is RecheckingZip && next.1 is CheckZip,
        EpubEvent::TocGenerated(Err(e)) => fails_with(next, e@),
        _ => false,
    })
    &&& state is RecheckingZip ==> (match event {
        EpubEvent::ZipChecked(Ok(_)) => next.0 is RecheckingToc && next.1 is CheckToc,
        EpubEvent::ZipChecked(Err(_)) => fails_with(next, "ZIP integrity failed after regeneration"@),
        _ => false,
    })
    &&& state is RecheckingToc ==> (match event {
        EpubEvent::TocChecked(Ok(())) => succeeds(next),
        EpubEvent::TocChecked(Err(_)) => fails_with(next, "TOC still invalid after regeneration"@),
        _ => false,
    })
    &&& state is Finished ==> false
}

/// A repair that ends successfully ends with an archive check that passed,
/// followed at once by a table-of-contents check that passed: no
/// regeneration comes after the checks that the success rests on. `states`
/// are the repair's states from its start, `events` what each action gave,
/// and `last` the final action.
pub proof fn law_success_follows_passing_checks(states: Seq<EpubProcess>, events: Seq<EpubEvent>, last: EpubAction)
    requires
        states.len() == events.len() + 1,
        states[0] is CheckingZip,
        forall|i: int| #![trigger events[i]] 0 <= i < events.len() - 1 ==> exists|a: EpubAction|
            #[trigger] repair_step(states[i], events[i], (states[i + 1], a)),
        events.len() > 0,
        repair_step(states[events.len() - 1], events[events.len() - 1], (states[events.len() as int], last)),
        succeeds((states[events.len() as int], last)),
    ensures
        events.len() >= 2,
        events[events.len() - 1] matches EpubEvent::TocChecked(Ok(_)),
        events[events.len() - 2] matches EpubEvent::ZipChecked(Ok(_)),
{
    let n = events.len() - 1;
    let s = states[n];
    assert(s is CheckingToc || s is RecheckingToc);
    assert(n >= 1);
    assert(exists|a: EpubAction| #[trigger] repair_step(states[n - 1], events[n - 1], (states[n], a))) by {
        assert(0 <= n - 1 < events.len() - 1);
        let e = events[n - 1];
    }
    let a = choose|a: EpubAction| #[trigger] repair_step(states[n - 1], events[n - 1], (states[n], a));
    assert(repair_step(states[n - 1], events[n - 1], (states[n], a)));
}

/// Starts the repair of a book: its archive is checked first.
pub fn begin_process_epub() -> (next: (EpubProcess, EpubAction))
    ensures
        next.0 is CheckingZip,
        next.1 is CheckZip,
{
    (EpubProcess::CheckingZip, EpubAction::CheckZip)
}

/// Takes one step of a book's repair. An archive check that fails ends the
/// repair with its error; one that asks for regeneration regenerates; one
/// that passes leads to the table check, whose failure regenerates. After a
/// regeneration (whose failure ends the repair with its error) both checks
/// are run again, and a failure of either ends the repair with an error that
/// says which.
pub fn process_epub(state: EpubProcess, event: EpubEvent) -> (next: (EpubProcess, EpubAction))
    requires
        answers(state, event),
    ensures
        steps_left(next.0) < steps_left(state),
        next.0 is Finished <==> next.1 is Done,
        state is CheckingZip ==> match event {
            EpubEvent::ZipChecked(Err(e)) => fails_with(next, e@),
            EpubEvent::ZipChecked(Ok(false)) => regenerates(next),
            EpubEvent::ZipChecked(Ok(true)) => next.0 is CheckingToc && next.1 is CheckToc,
            _ => false,
        },
        state is CheckingToc ==> match event {
            EpubEvent::TocChecked(Ok(())) => succeeds(next),
            EpubEvent::TocChecked(Err(_)) => regenerates(next),
            _ => false,
        },
        state is Regenerating ==> match event {
            EpubEvent::TocGenerated(Ok(())) => next.0 is RecheckingZip && next.1 is CheckZip,
            EpubEvent::TocGenerated(Err(e)) => fails_with(next, e@),
            _ => false,
        },
        state is RecheckingZip ==> match event {
            EpubEvent::ZipChecked(Ok(_)) => next.0 is RecheckingToc && next.1 is CheckToc,
            EpubEvent::ZipChecked(Err(_)) => fails_with(next, "ZIP integrity failed after regeneration"@),
            _ => false,
        },
        state is RecheckingToc ==> match event {
            EpubEvent::TocChecked(Ok(())) => succeeds(next),
            EpubEvent::TocChecked(Err(_)) => fails_with(next, "TOC still invalid after regeneration"@),
            _ => false,
        },
{
    match (state, event) {
        (EpubProcess::CheckingZip, EpubEvent::ZipChecked(Err(e))) => (EpubProcess::Finished, EpubAction::Done(Err(e))),
        (EpubProcess::CheckingZip, EpubEvent::ZipChecked(Ok(ok))) => {
            if ok {
                (EpubProcess::CheckingToc, EpubAction::CheckToc)
            } else {
                (EpubProcess::Regenerating, EpubAction::GenerateToc)
            }
        },
        (EpubProcess::CheckingToc, EpubEvent::TocChecked(Ok(()))) => (EpubProcess::Finished, EpubAction::Done(Ok(()))),
        (EpubProcess::CheckingToc, EpubEvent::TocChecked(Err(_))) => (EpubProcess::Regenerating, EpubAction::GenerateToc),
        (EpubProcess::Regenerating, EpubEvent::TocGenerated(Ok(()))) => (EpubProcess::RecheckingZip, EpubAction::CheckZip),
        (EpubProcess::Regenerating, EpubEvent::TocGenerated(Err(e))) => (EpubProcess::Finished, EpubAction::Done(Err(e))),
        (EpubProcess::RecheckingZip, EpubEvent::ZipChecked(Ok(_))) => (EpubProcess::RecheckingToc, EpubAction::CheckToc),
        (EpubProcess::RecheckingZip, EpubEvent::ZipChecked(Err(_))) => (
            EpubProcess::Finished,
            EpubAction::Done(Err(String::from_str("ZIP integrity failed after regeneration"))),
        ),
        (EpubProcess::RecheckingToc, EpubEvent::TocChecked(Ok(()))) => (EpubProcess::Finished, EpubAction::Done(Ok(()))),
        (EpubProcess::RecheckingToc, EpubEvent::TocChecked(Err(_))) => (
            EpubProcess::Finished,
            EpubAction::Done(Err(String::from_str("TOC still invalid after regeneration"))),
        ),
        _ => (EpubProcess::Finished, EpubAction::Done(Ok(()))),
    }
}

} // verus!
