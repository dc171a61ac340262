//! The single consumer of the event channel. It alone changes the backend
//! set and the published annotations, one event after the other. The watch
//! changes only what it last saw, so nothing it takes in undoes a publish.

use crate::keys::{hw_info_key, hw_info_key_text};
use crate::message::{Message, MessageView};
use crate::server::{replaced, ProxyServer};
use crate::string_map::{lemma_merge_keeps, merge_pairs, texts, StringMap};
use crate::watcher::{observed_after, AnnotationsWatcher};
use vstd::prelude::*;

verus! {

/// What is left to do, outside the state, after an event was taken in.
#[derive(Debug)]
pub enum DispatchAction {
    /// The backend set was replaced; nothing is left to do.
    EndpointsReplaced,
    /// Send the given annotations as a patch of the coordination object.
    Patch(StringMap<String>),
    /// The channel is closed: stop, the process cannot go on.
    Stop,
}

/// The state that the dispatcher and the watch work on: the backend set,
/// the annotations that this instance has published, and the annotations
/// that the watch last showed.
pub struct DispatchState {
    pub backends: Seq<Seq<char>>,
    pub annotations: Map<Seq<char>, Seq<char>>,
    pub observed: Map<Seq<char>, Seq<char>>,
}

/// One thing that happens to the state: an event taken in by the
/// dispatcher, or a notification taken in by the watch.
pub enum Occurrence {
    Event(MessageView),
    Notification(Option<Map<Seq<char>, Seq<char>>>),
}

/// The state held in a routing state and a watcher.
pub open spec fn state_of(proxy: ProxyServer, watcher: AnnotationsWatcher) -> DispatchState {
    DispatchState {
        backends: proxy@,
        annotations: watcher.published(),
        observed: watcher.cached(),
    }
}

/// The state after one event: a change of endpoints replaces the backend
/// set, an annotation update is merged into the published annotations.
/// What the watch showed is not touched.
pub open spec fn after_event(state: DispatchState, event: MessageView) -> DispatchState {
    match event {
        MessageView::EndpointsChanged(addresses) => DispatchState {
            backends: replaced(state.backends, addresses),
            annotations: state.annotations,
            observed: state.observed,
        },
        MessageView::AnnotationUpdate(pairs) => DispatchState {
            backends: state.backends,
            annotations: merge_pairs(state.annotations, pairs),
            observed: state.observed,
        },
    }
}

/// The state after one notification: the snapshot replaces what the watch
/// showed before. Backend set and published annotations are not touched.
pub open spec fn after_notification(
    state: DispatchState,
    snapshot: Option<Map<Seq<char>, Seq<char>>>,
) -> DispatchState {
    DispatchState {
        backends: state.backends,
        annotations: state.annotations,
        observed: observed_after(state.observed, snapshot),
    }
}

/// The state after one occurrence.
pub open spec fn after_occurrence(state: DispatchState, occurrence: Occurrence) -> DispatchState {
    match occurrence {
        Occurrence::Event(event) => after_event(state, event),
        Occurrence::Notification(snapshot) => after_notification(state, snapshot),
    }
}

/// The state after a series of events, taken in one after the other.
pub open spec fn after_events(state: DispatchState, events: Seq<MessageView>) -> DispatchState
    decreases events.len(),
{
    if events.len() == 0 {
        state
    } else {
        after_event(after_events(state, events.drop_last()), events.last())
    }
}

/// The state after a series of occurrences, events and notifications in
/// any order, taken in one after the other.
pub open spec fn after_occurrences(state: DispatchState, occurrences: Seq<Occurrence>) -> DispatchState
    decreases occurrences.len(),
{
    if occurrences.len() == 0 {
        state
    } else {
        after_occurrence(after_occurrences(state, occurrences.drop_last()), occurrences.last())
    }
}

/// Whether an occurrence publishes a value for `key`.
pub open spec fn publishes(occurrence: Occurrence, key: Seq<char>) -> bool {
    occurrence matches Occurrence::Event(MessageView::AnnotationUpdate(pairs)) && exists|i: int|
        0 <= i < pairs.len() && (#[trigger] pairs[i]).0 == key
}

/// Whatever happens, events and notifications in any order, a key that
/// was published stays published; and it keeps its value for as long as no
/// update names it. No notification takes anything from what was published.
pub proof fn lemma_published_stays(
    state: DispatchState,
    occurrences: Seq<Occurrence>,
    key: Seq<char>,
)
    requires
        state.annotations.contains_key(key),
    ensures
        after_occurrences(state, occurrences).annotations.contains_key(key),
        (forall|i: int| 0 <= i < occurrences.len() ==> !publishes(#[trigger] occurrences[i], key))
            ==> after_occurrences(state, occurrences).annotations[key] == state.annotations[key],
    decreases occurrences.len(),
{
    if occurrences.len() > 0 {
        let front = occurrences.drop_last();
        lemma_published_stays(state, front, key);
        let before = after_occurrences(state, front);
        if forall|i: int| 0 <= i < occurrences.len() ==> !publishes(#[trigger] occurrences[i], key) {
            assert forall|i: int| 0 <= i < front.len() implies !publishes(
                #[trigger] front[i],
                key,
            ) by {
                assert(front[i] == occurrences[i]);
            }
            assert(!publishes(occurrences[occurrences.len() - 1], key));
        }
        match occurrences.last() {
            Occurrence::Event(MessageView::AnnotationUpdate(pairs)) => {
                lemma_merge_keeps(before.annotations, pairs, key);
            },
            _ => {},
        }
    }
}

/// Notifications alone change neither the backend set nor what was
/// published.
pub proof fn lemma_notifications_leave_published(
    state: DispatchState,
    occurrences: Seq<Occurrence>,
)
    requires
        forall|i: int| 0 <= i < occurrences.len() ==> #[trigger] occurrences[i] is Notification,
    ensures
        after_occurrences(state, occurrences).annotations == state.annotations,
        after_occurrences(state, occurrences).backends == state.backends,
    decreases occurrences.len(),
{
    if occurrences.len() > 0 {
        let front = occurrences.drop_last();
        assert forall|i: int| 0 <= i < front.len() implies #[trigger] front[i] is Notification by {
            assert(front[i] == occurrences[i]);
        }
        lemma_notifications_leave_published(state, front);
        assert(occurrences[occurrences.len() - 1] is Notification);
    }
}

/// No series of dispatcher events drops a key from the published
/// annotations.
pub proof fn lemma_events_keep_keys(state: DispatchState, events: Seq<MessageView>, key: Seq<char>)
    requires
        state.annotations.contains_key(key),
    ensures
        after_events(state, events).annotations.contains_key(key),
    decreases events.len(),
{
    if events.len() > 0 {
        lemma_events_keep_keys(state, events.drop_last(), key);
        let before = after_events(state, events.drop_last());
        match events.last() {
            MessageView::EndpointsChanged(_) => {},
            MessageView::AnnotationUpdate(pairs) => {
                lemma_merge_keeps(before.annotations, pairs, key);
            },
        }
    }
}

/// After a series of events the backend set is the one that the last
/// change of endpoints brought, whole, whatever came before it.
pub proof fn lemma_last_change_rules(state: DispatchState, events: Seq<MessageView>, at: int)
    requires
        0 <= at < events.len(),
        events[at] is EndpointsChanged,
        forall|i: int| at < i < events.len() ==> !(#[trigger] events[i] is EndpointsChanged),
    ensures
        after_events(state, events).backends == events[at]->EndpointsChanged_0,
    decreases events.len(),
{
    if at < events.len() - 1 {
        let front = events.drop_last();
        assert forall|i: int| at < i < front.len() implies !(#[trigger] front[i]
            is EndpointsChanged) by {
            assert(front[i] == events[i]);
        }
        lemma_last_change_rules(state, front, at);
        assert(!(events[events.len() - 1] is EndpointsChanged));
    }
}

/// A series of events without a change of endpoints leaves the backend set
/// as it was.
pub proof fn lemma_updates_leave_backends(state: DispatchState, events: Seq<MessageView>)
    requires
        forall|i: int| 0 <= i < events.len() ==> !(#[trigger] events[i] is EndpointsChanged),
    ensures
        after_events(state, events).backends == state.backends,
    decreases events.len(),
{
    if events.len() > 0 {
        let front = events.drop_last();
        assert forall|i: int| 0 <= i < front.len() implies !(#[trigger] front[i]
            is EndpointsChanged) by {
            assert(front[i] == events[i]);
        }
        lemma_updates_leave_backends(state, front);
        assert(!(events[events.len() - 1] is EndpointsChanged));
    }
}

/// Publishes the hardware report under `<prefix>/hw_info`: merges it into
/// the published annotations and hands back the patch to send.
pub fn publish_hardware(watcher: &mut AnnotationsWatcher, annot_prefix: &str, hw_info: String) -> (patch:
    StringMap<String>)
    ensures
        final(watcher).pod_name_text() == old(watcher).pod_name_text(),
        final(watcher).tracked_key() == old(watcher).tracked_key(),
        final(watcher).cached() == old(watcher).cached(),
        final(watcher).published() == old(watcher).published().insert(
            hw_info_key_text(annot_prefix@),
            hw_info@,
        ),
        texts(patch@) == final(watcher).published(),
{
    let mut annots: Vec<(String, String)> = Vec::new();
    annots.push((hw_info_key(annot_prefix), hw_info));
    proof {
        let pairs = annots.deep_view();
        assert(merge_pairs(old(watcher).published(), pairs.drop_last()) == old(
            watcher,
        ).published());
    }
    watcher.add_annot(annots)
}

/// Takes in what the channel handed over. A change of endpoints replaces
/// the backend set; an annotation update is merged into the published
/// annotations, which come back as the patch to send; a closed channel
/// (`None`) stops the dispatcher and changes nothing. What the watch last
/// showed is never touched.
pub fn dispatch(
    proxy: &mut ProxyServer,
    watcher: &mut AnnotationsWatcher,
    received: Option<Message>,
) -> (action: DispatchAction)
    ensures
        final(proxy).listen_text() == old(proxy).listen_text(),
        final(watcher).pod_name_text() == old(watcher).pod_name_text(),
        final(watcher).tracked_key() == old(watcher).tracked_key(),
        final(watcher).cached() == old(watcher).cached(),
        received matches Some(message) ==> state_of(*final(proxy), *final(watcher)) == after_event(
            state_of(*old(proxy), *old(watcher)),
            message@,
        ),
        match received {
            None => {
                &&& action is Stop
                &&& final(proxy)@ == old(proxy)@
                &&& final(watcher).published() == old(watcher).published()
            },
            Some(Message::EndpointsChanged(endpoints)) => {
                &&& action is EndpointsReplaced
                &&& final(proxy)@ == replaced(old(proxy)@, endpoints.deep_view())
                &&& final(watcher).published() == old(watcher).published()
            },
            Some(Message::AnnotationUpdate(annots)) => {
                &&& action matches DispatchAction::Patch(patch)
                &&& texts(patch@) == final(watcher).published()
                &&& final(watcher).published() == merge_pairs(
                    old(watcher).published(),
                    annots.deep_view(),
                )
                &&& final(proxy)@ == old(proxy)@
            },
        },
{
    match received {
        None => DispatchAction::Stop,
        Some(Message::EndpointsChanged(endpoints)) => {
            proxy.update_endpoints(endpoints);
            DispatchAction::EndpointsReplaced
        },
        Some(Message::AnnotationUpdate(annots)) => {
            let patch: StringMap<String> = watcher.add_annot(annots);
            DispatchAction::Patch(patch)
        },
    }
}

} // verus!
