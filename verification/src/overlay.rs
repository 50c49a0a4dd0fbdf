//! The overlay controller, and what a hotkey makes it do.

use crate::config::{ConfigManager, ConfigView, DisplayProperties, DisplayPropertiesView};
use crate::error::{ErrorView, NotecognitoError};
use crate::notecard::NotecardId;
use crate::platform::PlatformInterface;
use std::collections::HashMap;
use vstd::prelude::*;
use vstd::string::StringExecFns;

verus! {

broadcast use vstd::std_specs::hash::group_hash_axioms;

/// How many hotkey events may wait between the key hook and the task that
/// shows the overlays. An event that finds the queue full is dropped.
pub const HOTKEY_QUEUE_CAPACITY: usize = 32;

/// What an overlay shows: which notecard, its content, and how it is drawn.
#[derive(Debug, PartialEq, Eq)]
pub struct NotecardWindowInfo {
    pub notecard_id: NotecardId,
    pub content: String,
    pub properties: DisplayProperties,
}

/// The mathematical value of a [`NotecardWindowInfo`].
pub struct NotecardWindowInfoView {
    pub notecard_id: u8,
    pub content: Seq<char>,
    pub properties: DisplayPropertiesView,
}

impl View for NotecardWindowInfo {
    type V = NotecardWindowInfoView;

    open spec fn view(&self) -> NotecardWindowInfoView {
        NotecardWindowInfoView {
            notecard_id: self.notecard_id@,
            content: self.content@,
            properties: self.properties@,
        }
    }
}

impl Clone for NotecardWindowInfo {
    fn clone(&self) -> (r: Self)
        ensures
            r == *self,
    {
        NotecardWindowInfo {
            notecard_id: self.notecard_id,
            content: self.content.clone(),
            properties: self.properties.clone(),
        }
    }
}

/// One request to the overlay sink.
#[derive(Debug, PartialEq, Eq)]
pub enum OverlayCall {
    /// Dismiss the overlay of a notecard if there is one.
    Hide(NotecardId),
    /// Show an overlay.
    Show(NotecardWindowInfo),
}

/// The mathematical value of an [`OverlayCall`].
pub enum OverlayCallView {
    Hide(u8),
    Show(NotecardWindowInfoView),
}

impl View for OverlayCall {
    type V = OverlayCallView;

    open spec fn view(&self) -> OverlayCallView {
        match *self {
            OverlayCall::Hide(id) => OverlayCallView::Hide(id@),
            OverlayCall::Show(info) => OverlayCallView::Show(info@),
        }
    }
}

/// The calls of a list, each by its mathematical value.
pub open spec fn calls_view(calls: Seq<OverlayCall>) -> Seq<OverlayCallView> {
    Seq::new(calls.len(), |i: int| calls[i]@)
}

/// The calls that show a notecard: the overlay is always dismissed first, so
/// that a second request replaces the overlay and does not stack another;
/// empty content is not shown, which leaves the dismissal alone.
pub open spec fn show_calls(
    id: u8,
    content: Seq<char>,
    properties: DisplayPropertiesView,
) -> Seq<OverlayCallView> {
    if content.len() == 0 {
        seq![OverlayCallView::Hide(id)]
    } else {
        seq![
            OverlayCallView::Hide(id),
            OverlayCallView::Show(NotecardWindowInfoView { notecard_id: id, content, properties }),
        ]
    }
}

/// The calls that a hotkey for the notecard `id` leads to: none if the
/// notecard is empty, else those that show it with the default properties of
/// the configuration.
pub open spec fn hotkey_calls(config: ConfigView, id: u8) -> Seq<OverlayCallView> {
    if config.notecards[id].is_empty() {
        Seq::empty()
    } else {
        show_calls(id, config.notecards[id].content, config.default_display_properties)
    }
}

/// The overlays on screen after a call that the sink has carried out.
pub open spec fn after_call(
    windows: Map<u8, NotecardWindowInfoView>,
    call: OverlayCallView,
) -> Map<u8, NotecardWindowInfoView> {
    match call {
        OverlayCallView::Hide(id) => windows.remove(id),
        OverlayCallView::Show(info) => windows.insert(info.notecard_id, info),
    }
}

/// The overlays on screen after calls that the sink has carried out in order.
pub open spec fn after_calls(
    windows: Map<u8, NotecardWindowInfoView>,
    calls: Seq<OverlayCallView>,
) -> Map<u8, NotecardWindowInfoView>
    decreases calls.len(),
{
    if calls.len() == 0 {
        windows
    } else {
        after_call(after_calls(windows, calls.drop_last()), calls.last())
    }
}

/// The error of a collaborator as a platform error: one that is a platform
/// error already stays as it is, any other is carried as its text.
pub open spec fn as_platform_error(error: ErrorView) -> ErrorView {
    match error {
        ErrorView::Platform(m) => ErrorView::Platform(m),
        other => ErrorView::Platform(other.message()),
    }
}

/// Turns the error of a collaborator into a platform error.
pub fn platform_error(error: NotecognitoError) -> (r: NotecognitoError)
    ensures
        r@ == as_platform_error(error@),
{
    match error {
        NotecognitoError::Platform(m) => NotecognitoError::Platform(m),
        other => NotecognitoError::Platform(other.to_string()),
    }
}

/// The calls to the sink that show a notecard.
pub fn show_plan(id: NotecardId, content: &str, properties: &DisplayProperties) -> (r: Vec<
    OverlayCall,
>)
    ensures
        calls_view(r@) == show_calls(id@, content@, properties@),
{
    let mut calls: Vec<OverlayCall> = Vec::new();
    calls.push(OverlayCall::Hide(id));
    if !content.is_empty() {
        calls.push(
            OverlayCall::Show(
                NotecardWindowInfo {
                    notecard_id: id,
                    content: String::from_str(content),
                    properties: properties.clone(),
                },
            ),
        );
    }
    calls
}

/// The calls to the sink that a hotkey for the notecard `id` leads to.
pub fn hotkey_plan(manager: &ConfigManager, id: NotecardId) -> (r: Vec<OverlayCall>)
    ensures
        calls_view(r@) == hotkey_calls(manager@, id@),
{
    match manager.get_notecard(id) {
        Some(card) => {
            if card.is_empty() {
                let calls: Vec<OverlayCall> = Vec::new();
                calls
            } else {
                show_plan(id, card.content.as_str(), &manager.config().default_display_properties)
            }
        },
        None => Vec::new(),
    }
}

/// What the controller makes of the answer of the sink to one call: success
/// stays success, a failure becomes a platform error.
pub fn sink_outcome(answer: Result<(), NotecognitoError>) -> (r: Result<(), NotecognitoError>)
    ensures
        match r {
            Ok(()) => answer is Ok,
            Err(e) => answer matches Err(cause) && e@ == as_platform_error(cause@),
        },
{
    match answer {
        Ok(()) => Ok(()),
        Err(e) => Err(platform_error(e)),
    }
}

/// What a map of overlays holds, each overlay by its mathematical value.
pub open spec fn windows_view(windows: Map<u8, NotecardWindowInfo>) -> Map<
    u8,
    NotecardWindowInfoView,
> {
    Map::new(|k: u8| windows.contains_key(k), |k: u8| windows[k]@)
}

/// The controller: it owns the overlay sink of the platform, sees to it that
/// the sink gets a clean sequence of calls, and keeps track of the overlays
/// that the sink has shown and not dismissed. Its value is the map from the
/// number of a notecard to what its overlay shows.
///
/// Which calls the sink is asked is fixed by [`show_plan`] and
/// [`hotkey_plan`]; what the controller makes of each answer is fixed by
/// [`sink_outcome`]. What the sink answers is its own affair.
pub struct OverlayController<P: PlatformInterface> {
    sink: P,
    windows: HashMap<u8, NotecardWindowInfo>,
}

impl<P: PlatformInterface> View for OverlayController<P> {
    type V = Map<u8, NotecardWindowInfoView>;

    closed spec fn view(&self) -> Map<u8, NotecardWindowInfoView> {
        windows_view(self.windows@)
    }
}

impl<P: PlatformInterface> OverlayController<P> {
    /// The sink of the controller.
    pub closed spec fn sink_of(&self) -> P {
        self.sink
    }

    /// A controller over the given sink, with no overlay on screen.
    pub fn new(sink: P) -> (r: Self)
        ensures
            r.sink_of() == sink,
            r@ == Map::<u8, NotecardWindowInfoView>::empty(),
    {
        let r = OverlayController { sink, windows: HashMap::new() };
        r
    }

    /// The sink.
    pub fn sink(&self) -> (r: &P)
        ensures
            *r == self.sink_of(),
    {
        &self.sink
    }

    /// The sink, to be used directly. What the controller knows of the
    /// overlays stays as it is.
    pub fn sink_mut(&mut self) -> (r: &mut P)
        ensures
            *r == old(self).sink_of(),
            final(self).sink_of() == *final(r),
            final(self)@ == old(self)@,
    {
        &mut self.sink
    }

    /// Gives the sink back.
    pub fn into_sink(self) -> (r: P)
        ensures
            r == self.sink_of(),
    {
        self.sink
    }

    /// What the overlay of the notecard `id` shows, if the sink has shown one
    /// and not dismissed it.
    pub fn window(&self, id: NotecardId) -> (r: Option<&NotecardWindowInfo>)
        ensures
            match r {
                Some(info) => self@.contains_key(id@) && info@ == self@[id@],
                None => !self@.contains_key(id@),
            },
    {
        let key = id.value();
        self.windows.get(&key)
    }

    /// Makes one call to the sink: the sink is handed the call, and what it
    /// answers comes back as [`sink_outcome`] gives it. Where the sink
    /// carries the call out, the controller takes note; a failure comes back
    /// as a platform error and changes nothing in what the controller knows.
    pub fn perform(&mut self, call: &OverlayCall) -> (r: Result<(), NotecognitoError>)
        ensures
            match r {
                Ok(()) => final(self)@ == after_call(old(self)@, call@),
                Err(e) => e@ is Platform && final(self)@ == old(self)@,
            },
            exists|sink: &mut P, answer: Result<(), NotecognitoError>|
                {
                    &&& mut_ref_current(sink) == old(self).sink_of()
                    &&& mut_ref_future(sink) == final(self).sink_of()
                    &&& #[trigger] sink_asked(sink, call@, answer)
                    &&& is_sink_outcome(answer, r)
                },
    {
        match call {
            OverlayCall::Hide(id) => {
                let answer = self.sink.hide_notecard(*id);
                proof {
                    let asked = choose|sink: &mut P|
                        mut_ref_current(sink) == old(self).sink && mut_ref_future(sink)
                            == self.sink && #[trigger] call_ensures(
                            P::hide_notecard,
                            (sink, *id),
                            answer,
                        );
                    assert(sink_asked(asked, call@, answer));
                }
                match sink_outcome(answer) {
                    Ok(()) => {
                        let key = id.value();
                        self.windows.remove(&key);
                        Ok(())
                    },
                    Err(e) => Err(e),
                }
            },
            OverlayCall::Show(info) => {
                let content = info.content.as_str();
                let answer = self.sink.show_notecard(info.notecard_id, content, &info.properties);
                proof {
                    let asked = choose|sink: &mut P|
                        mut_ref_current(sink) == old(self).sink && mut_ref_future(sink)
                            == self.sink && #[trigger] call_ensures(
                            P::show_notecard,
                            (sink, info.notecard_id, content, &info.properties),
                            answer,
                        );
                    assert(sink_asked(asked, call@, answer));
                }
                match sink_outcome(answer) {
                    Ok(()) => {
                        self.windows.insert(info.notecard_id.value(), info.clone());
                        Ok(())
                    },
                    Err(e) => Err(e),
                }
            },
        }
    }

    /// Makes the given calls in order and stops at the first that fails; no
    /// call is tried again. The sink is handed one call after the other, each
    /// in the state in which the call before has left it. What the controller
    /// knows afterwards is what the calls before the failure made of it.
    pub fn perform_all(&mut self, calls: &Vec<OverlayCall>) -> (r: Result<(), NotecognitoError>)
        ensures
            match r {
                Ok(()) => final(self)@ == after_calls(old(self)@, calls_view(calls@)),
                Err(e) => e@ is Platform && exists|n: int|
                    0 <= n < calls@.len() && final(self)@ == after_calls(
                        old(self)@,
                        #[trigger] calls_view(calls@).subrange(0, n),
                    ),
            },
            exists|sinks: Seq<&mut P>, answers: Seq<Result<(), NotecognitoError>>|
                {
                    &&& #[trigger] asked_in_turn(sinks, answers, calls_view(calls@), r)
                    &&& forall|i: int|
                        0 <= i < sinks.len() ==> mut_ref_current(#[trigger] sinks[i]) == (if i
                            == 0 {
                            old(self).sink_of()
                        } else {
                            mut_ref_future(sinks[i - 1])
                        })
                    &&& final(self).sink_of() == (if sinks.len() == 0 {
                        old(self).sink_of()
                    } else {
                        mut_ref_future(sinks[sinks.len() - 1])
                    })
                },
    {
        let ghost all = calls_view(calls@);
        let mut i: usize = 0;
        proof {
            let none = Seq::<&mut P>::empty();
            assert(all_succeeded(none, Seq::<Result<(), NotecognitoError>>::empty(), all, 0));
        }
        while i < calls.len()
            invariant
                i <= calls.len(),
                all == calls_view(calls@),
                self@ == after_calls(old(self)@, all.subrange(0, i as int)),
                exists|sinks: Seq<&mut P>, answers: Seq<Result<(), NotecognitoError>>|
                    {
                        &&& #[trigger] all_succeeded(sinks, answers, all, i as int)
                        &&& forall|j: int|
                            0 <= j < sinks.len() ==> mut_ref_current(#[trigger] sinks[j]) == (if j
                                == 0 {
                                old(self).sink
                            } else {
                                mut_ref_future(sinks[j - 1])
                            })
                        &&& self.sink == (if sinks.len() == 0 {
                            old(self).sink
                        } else {
                            mut_ref_future(sinks[sinks.len() - 1])
                        })
                    },
            decreases calls.len() - i,
        {
            let ghost before = self.sink;
            let outcome = self.perform(&calls[i]);
            proof {
                let (sinks, answers) = choose|
                    sinks: Seq<&mut P>,
                    answers: Seq<Result<(), NotecognitoError>>,
                |
                    {
                        &&& #[trigger] all_succeeded(sinks, answers, all, i as int)
                        &&& forall|j: int|
                            0 <= j < sinks.len() ==> mut_ref_current(#[trigger] sinks[j]) == (if j
                                == 0 {
                                old(self).sink
                            } else {
                                mut_ref_future(sinks[j - 1])
                            })
                        &&& before == (if sinks.len() == 0 {
                            old(self).sink
                        } else {
                            mut_ref_future(sinks[sinks.len() - 1])
                        })
                    };
                let (sink, answer) = choose|sink: &mut P, answer: Result<(), NotecognitoError>|
                    {
                        &&& mut_ref_current(sink) == before
                        &&& mut_ref_future(sink) == self.sink
                        &&& #[trigger] sink_asked(sink, calls@[i as int]@, answer)
                        &&& is_sink_outcome(answer, outcome)
                    };
                let more_sinks = sinks.push(sink);
                let more_answers = answers.push(answer);
                assert forall|j: int| 0 <= j < more_sinks.len() implies #[trigger] sink_asked(
                    more_sinks[j],
                    all[j],
                    more_answers[j],
                ) by {
                    if j < sinks.len() {
                        assert(sink_asked(sinks[j], all[j], answers[j]));
                    }
                }
                assert forall|j: int| 0 <= j < more_sinks.len() implies mut_ref_current(
                    #[trigger] more_sinks[j],
                ) == (if j == 0 {
                    old(self).sink
                } else {
                    mut_ref_future(more_sinks[j - 1])
                }) by {
                    if j < sinks.len() {
                        assert(more_sinks[j] == sinks[j]);
                    }
                }
                if outcome is Ok {
                    assert(all_succeeded(more_sinks, more_answers, all, i + 1));
                } else {
                    assert(asked_in_turn(more_sinks, more_answers, all, outcome));
                }
            }
            match outcome {
                Ok(()) => {
                    proof {
                        let next = all.subrange(0, i + 1);
                        assert(next.drop_last() =~= all.subrange(0, i as int));
                    }
                },
                Err(e) => {
                    return Err(e);
                },
            }
            i = i + 1;
        }
        assert(all.subrange(0, i as int) =~= all);
        proof {
            let (sinks, answers) = choose|
                sinks: Seq<&mut P>,
                answers: Seq<Result<(), NotecognitoError>>,
            |
                {
                    &&& #[trigger] all_succeeded(sinks, answers, all, i as int)
                    &&& forall|j: int|
                        0 <= j < sinks.len() ==> mut_ref_current(#[trigger] sinks[j]) == (if j
                            == 0 {
                            old(self).sink
                        } else {
                            mut_ref_future(sinks[j - 1])
                        })
                    &&& self.sink == (if sinks.len() == 0 {
                        old(self).sink
                    } else {
                        mut_ref_future(sinks[sinks.len() - 1])
                    })
                };
            assert(asked_in_turn(sinks, answers, all, Ok(())));
        }
        Ok(())
    }

    /// Shows a notecard: the sink is asked the calls of [`show_plan`], in
    /// order. Where the dismissal fails nothing is shown; where the show fails
    /// the notecard has no overlay.
    pub fn show(&mut self, id: NotecardId, content: &str, properties: &DisplayProperties) -> (r:
        Result<(), NotecognitoError>)
        ensures
            match r {
                Ok(()) => final(self)@ == after_calls(
                    old(self)@,
                    show_calls(id@, content@, properties@),
                ),
                Err(e) => e@ is Platform && (final(self)@ == old(self)@ || final(self)@ == old(
                    self,
                )@.remove(id@)),
            },
            exists|sinks: Seq<&mut P>, answers: Seq<Result<(), NotecognitoError>>|
                {
                    &&& #[trigger] asked_in_turn(
                        sinks,
                        answers,
                        show_calls(id@, content@, properties@),
                        r,
                    )
                    &&& forall|i: int|
                        0 <= i < sinks.len() ==> mut_ref_current(#[trigger] sinks[i]) == (if i
                            == 0 {
                            old(self).sink_of()
                        } else {
                            mut_ref_future(sinks[i - 1])
                        })
                    &&& final(self).sink_of() == (if sinks.len() == 0 {
                        old(self).sink_of()
                    } else {
                        mut_ref_future(sinks[sinks.len() - 1])
                    })
                },
    {
        let calls = show_plan(id, content, properties);
        let r = self.perform_all(&calls);
        proof {
            let all = calls_view(calls@);
            if r is Err {
                let n = choose|n: int|
                    0 <= n < calls@.len() && self@ == after_calls(
                        old(self)@,
                        #[trigger] all.subrange(0, n),
                    );
                let done = all.subrange(0, n);
                if n == 0 {
                    assert(done.len() == 0);
                } else {
                    assert(all.len() == calls@.len());
                    assert(all.len() <= 2);
                    assert(done.drop_last().len() == 0);
                    assert(done.last() == OverlayCallView::Hide(id@));
                    reveal_with_fuel(after_calls, 2);
                }
            }
        }
        r
    }

    /// Dismisses the overlay of a notecard: the sink is asked to, and what
    /// it answers comes back as [`sink_outcome`] gives it.
    pub fn dismiss(&mut self, id: NotecardId) -> (r: Result<(), NotecognitoError>)
        ensures
            match r {
                Ok(()) => final(self)@ == old(self)@.remove(id@),
                Err(e) => e@ is Platform && final(self)@ == old(self)@,
            },
            exists|sink: &mut P, answer: Result<(), NotecognitoError>|
                {
                    &&& mut_ref_current(sink) == old(self).sink_of()
                    &&& mut_ref_future(sink) == final(self).sink_of()
                    &&& #[trigger] sink_asked(sink, OverlayCallView::Hide(id@), answer)
                    &&& is_sink_outcome(answer, r)
                },
    {
        self.perform(&OverlayCall::Hide(id))
    }

    /// Hands the launch flag to the sink and returns what [`sink_outcome`] makes of the answer.
    pub fn set_launch_on_startup(&mut self, enabled: bool) -> (r: Result<(), NotecognitoError>)
        ensures
            final(self)@ == old(self)@,
            exists|sink: &mut P, answer: Result<(), NotecognitoError>|
                {
                    &&& mut_ref_current(sink) == old(self).sink_of()
                    &&& mut_ref_future(sink) == final(self).sink_of()
                    &&& #[trigger] call_ensures(P::set_launch_on_startup, (sink, enabled), answer)
                    &&& is_sink_outcome(answer, r)
                },
    {
        let answer = self.sink.set_launch_on_startup(enabled);
        sink_outcome(answer)
    }
}

/// What a hotkey for a notecard does: the sink is asked the calls of
/// [`hotkey_plan`], in order, until one fails. For a notecard without content
/// the sink is asked nothing, nothing changes, and the outcome is success.
/// The store is only read.
pub fn show_notecard<P: PlatformInterface>(
    notecard_id: NotecardId,
    manager: &ConfigManager,
    controller: &mut OverlayController<P>,
) -> (r: Result<(), NotecognitoError>)
    ensures
        match r {
            Ok(()) => final(controller)@ == after_calls(
                old(controller)@,
                hotkey_calls(manager@, notecard_id@),
            ),
            Err(e) => e@ is Platform && exists|n: int|
                0 <= n < hotkey_calls(manager@, notecard_id@).len() && final(controller)@
                    == after_calls(
                    old(controller)@,
                    #[trigger] hotkey_calls(manager@, notecard_id@).subrange(0, n),
                ),
        },
        exists|sinks: Seq<&mut P>, answers: Seq<Result<(), NotecognitoError>>|
            {
                &&& #[trigger] asked_in_turn(
                    sinks,
                    answers,
                    hotkey_calls(manager@, notecard_id@),
                    r,
                )
                &&& forall|i: int|
                    0 <= i < sinks.len() ==> mut_ref_current(#[trigger] sinks[i]) == (if i == 0 {
                        old(controller).sink_of()
                    } else {
                        mut_ref_future(sinks[i - 1])
                    })
                &&& final(controller).sink_of() == (if sinks.len() == 0 {
                    old(controller).sink_of()
                } else {
                    mut_ref_future(sinks[sinks.len() - 1])
                })
            },
        manager@.notecards[notecard_id@].is_empty() ==> {
            &&& r is Ok
            &&& final(controller).sink_of() == old(controller).sink_of()
            &&& final(controller)@ == old(controller)@
        },
{
    let calls = hotkey_plan(manager, notecard_id);
    controller.perform_all(&calls)
}

/// Whether `answer` is what the sink has answered to `call`: to a request to
/// dismiss the overlay of the notecard, or to a request to show the notecard
/// with the content and the properties of the call. What a sink may answer
/// is the affair of its implementation.
pub open spec fn sink_asked<P: PlatformInterface>(
    sink: &mut P,
    call: OverlayCallView,
    answer: Result<(), NotecognitoError>,
) -> bool {
    match call {
        OverlayCallView::Hide(id) => exists|notecard: NotecardId|
            notecard@ == id && #[trigger] call_ensures(P::hide_notecard, (sink, notecard), answer),
        OverlayCallView::Show(info) => exists|
            notecard: NotecardId,
            content: &str,
            properties: &DisplayProperties,
        |
            {
                &&& notecard@ == info.notecard_id
                &&& content@ == info.content
                &&& properties@ == info.properties
                &&& #[trigger] call_ensures(
                    P::show_notecard,
                    (sink, notecard, content, properties),
                    answer,
                )
            },
    }
}

/// Whether the sink was asked the first `n` of the calls in turn and has
/// carried each of them out.
pub open spec fn all_succeeded<P: PlatformInterface>(
    sinks: Seq<&mut P>,
    answers: Seq<Result<(), NotecognitoError>>,
    calls: Seq<OverlayCallView>,
    n: int,
) -> bool {
    &&& sinks.len() == n
    &&& answers.len() == n
    &&& n <= calls.len()
    &&& forall|i: int| 0 <= i < n ==> #[trigger] sink_asked(sinks[i], calls[i], answers[i])
    &&& forall|i: int| 0 <= i < n ==> (#[trigger] answers[i]) is Ok
}

/// Whether the sink was asked the calls in turn until one failed, and
/// `outcome` is what the controller makes of it. `sinks[i]` is the sink as it
/// was handed the call `i`, `answers[i]` what it answered. Every call but
/// the last that was asked has succeeded. Where the outcome is success, every
/// call was asked and has succeeded; where it is a failure, it is the
/// platform error of what the sink answered to the last call that was asked.
pub open spec fn asked_in_turn<P: PlatformInterface>(
    sinks: Seq<&mut P>,
    answers: Seq<Result<(), NotecognitoError>>,
    calls: Seq<OverlayCallView>,
    outcome: Result<(), NotecognitoError>,
) -> bool {
    &&& sinks.len() == answers.len()
    &&& sinks.len() <= calls.len()
    &&& forall|i: int|
        0 <= i < sinks.len() ==> #[trigger] sink_asked(sinks[i], calls[i], answers[i])
    &&& forall|i: int| 0 <= i < sinks.len() - 1 ==> (#[trigger] answers[i]) is Ok
    &&& match outcome {
        Ok(()) => sinks.len() == calls.len() && forall|i: int|
            0 <= i < sinks.len() ==> (#[trigger] answers[i]) is Ok,
        Err(e) => sinks.len() >= 1 && is_sink_outcome(answers[sinks.len() - 1], outcome),
    }
}

/// Whether `outcome` is what the controller makes of the answer of the sink
/// to one call: success stays success, a failure becomes a platform error.
pub open spec fn is_sink_outcome(
    answer: Result<(), NotecognitoError>,
    outcome: Result<(), NotecognitoError>,
) -> bool {
    match outcome {
        Ok(()) => answer is Ok,
        Err(e) => answer matches Err(cause) && e@ == as_platform_error(cause@),
    }
}

} // verus!
