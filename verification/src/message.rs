//! The events that producers hand to the dispatcher.

use vstd::prelude::*;

verus! {

/// A coordination event.
#[derive(Debug, Clone)]
pub enum Message {
    /// The backend set changed: the new addresses, in order.
    EndpointsChanged(Vec<String>),
    /// Key/value pairs to merge into the published annotations.
    AnnotationUpdate(Vec<(String, String)>),
}

/// The mathematical content of a [`Message`].
pub enum MessageView {
    EndpointsChanged(Seq<Seq<char>>),
    AnnotationUpdate(Seq<(Seq<char>, Seq<char>)>),
}

impl View for Message {
    type V = MessageView;

    open spec fn view(&self) -> MessageView {
        match self {
            Message::EndpointsChanged(addresses) => MessageView::EndpointsChanged(
                addresses.deep_view(),
            ),
            Message::AnnotationUpdate(pairs) => MessageView::AnnotationUpdate(pairs.deep_view()),
        }
    }
}

/// The content of an event that may or may not have been emitted.
pub open spec fn event_view(event: Option<Message>) -> Option<MessageView> {
    match event {
        Some(message) => Some(message@),
        None => None,
    }
}

} // verus!
