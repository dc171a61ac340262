//! The annotations of the coordination object, kept in two maps that never
//! mix: the snapshot that the watch last showed, on which changes of the
//! tracked key are detected, and the shadow of what this instance has
//! published, into which publishing merges.

use crate::endpoints::{endpoints_of, parse_endpoints};
use crate::keys::{endpoints_key, endpoints_key_text};
use crate::message::{event_view, Message, MessageView};
use crate::string_map::{merge_pairs, pairs_view, texts, StringMap};
use vstd::prelude::*;

verus! {

/// The identity under which annotation patches are applied.
pub const FIELD_MANAGER: &'static str = "tservice-controller";

/// The event that a snapshot of the annotations gives rise to: the new
/// backend set when the snapshot carries the tracked key with a value other
/// than the cached one (or none is cached), and nothing otherwise.
pub open spec fn endpoints_event(
    cached: Map<Seq<char>, Seq<char>>,
    observed: Map<Seq<char>, Seq<char>>,
    key: Seq<char>,
) -> Option<MessageView> {
    if observed.contains_key(key) && !(cached.contains_key(key) && cached[key] == observed[key]) {
        Some(MessageView::EndpointsChanged(endpoints_of(observed[key])))
    } else {
        None
    }
}

/// The cache after a notification: the snapshot that it showed, or the
/// cache as it was if it showed none.
pub open spec fn observed_after(
    cached: Map<Seq<char>, Seq<char>>,
    snapshot: Option<Map<Seq<char>, Seq<char>>>,
) -> Map<Seq<char>, Seq<char>> {
    match snapshot {
        Some(observed) => observed,
        None => cached,
    }
}

/// The annotations that a notification showed, as texts.
pub open spec fn snapshot_view(annotations: Option<StringMap<String>>) -> Option<
    Map<Seq<char>, Seq<char>>,
> {
    match annotations {
        Some(observed) => Some(texts(observed@)),
        None => None,
    }
}

/// A snapshot that carries the tracked key gives rise to an event if and
/// only if its value differs from the cached one, or none is cached; the
/// event then holds the addresses that the new value lists.
pub proof fn lemma_event_iff_changed(
    cached: Map<Seq<char>, Seq<char>>,
    observed: Map<Seq<char>, Seq<char>>,
    key: Seq<char>,
)
    requires
        observed.contains_key(key),
    ensures
        endpoints_event(cached, observed, key) is Some <==> !(cached.contains_key(key)
            && cached[key] == observed[key]),
        endpoints_event(cached, observed, key) matches Some(event) ==> event
            == MessageView::EndpointsChanged(endpoints_of(observed[key])),
{
}

/// A snapshot without the tracked key gives rise to no event.
pub proof fn lemma_no_key_no_event(
    cached: Map<Seq<char>, Seq<char>>,
    observed: Map<Seq<char>, Seq<char>>,
    key: Seq<char>,
)
    requires
        !observed.contains_key(key),
    ensures
        endpoints_event(cached, observed, key) is None,
{
}

/// Once a snapshot is cached, a snapshot with the same value under the
/// tracked key gives rise to no event, whatever else it holds: repeated
/// notifications of an unchanged value are silent.
pub proof fn lemma_repeat_is_silent(
    cached: Map<Seq<char>, Seq<char>>,
    observed: Map<Seq<char>, Seq<char>>,
    key: Seq<char>,
)
    requires
        cached.contains_key(key),
        observed.contains_key(key),
        observed[key] == cached[key],
    ensures
        endpoints_event(cached, observed, key) is None,
        endpoints_event(observed, observed, key) is None,
{
}

/// Merging pairs of strings is merging their texts.
pub proof fn lemma_texts_merge(base: Map<Seq<char>, String>, pairs: Seq<(String, String)>)
    ensures
        texts(merge_pairs(base, pairs_view(pairs))) == merge_pairs(
            texts(base),
            pairs.map_values(|pair: (String, String)| (pair.0@, pair.1@)),
        ),
    decreases pairs.len(),
{
    if pairs.len() > 0 {
        let plain = pairs.map_values(|pair: (String, String)| (pair.0@, pair.1@));
        let front = pairs.drop_last();
        lemma_texts_merge(base, front);
        assert(pairs_view(pairs).drop_last() =~= pairs_view(front));
        assert(plain.drop_last() =~= front.map_values(
            |pair: (String, String)| (pair.0@, pair.1@),
        ));
        let merged = merge_pairs(base, pairs_view(front));
        let last = pairs.last();
        assert(texts(merged.insert(last.0@, last.1)) =~= texts(merged).insert(last.0@, last.1@));
    }
}

/// The annotations of one object, as this instance last saw them and as it
/// has published them.
pub struct AnnotationsWatcher {
    pod_name: String,
    annot_name: String,
    last_annotations: StringMap<String>,
    published: StringMap<String>,
}

impl AnnotationsWatcher {
    /// The name of the watched object.
    pub closed spec fn pod_name_text(self) -> Seq<char> {
        self.pod_name@
    }

    /// The key whose value holds the backend addresses.
    pub closed spec fn tracked_key(self) -> Seq<char> {
        self.annot_name@
    }

    /// The annotations that the watch last showed.
    pub closed spec fn cached(self) -> Map<Seq<char>, Seq<char>> {
        texts(self.last_annotations@)
    }

    /// The annotations that this instance has published.
    pub closed spec fn published(self) -> Map<Seq<char>, Seq<char>> {
        texts(self.published@)
    }

    /// A watcher of the object `pod_name` that tracks `<prefix>/endpoints`,
    /// has seen nothing and has published nothing yet.
    pub fn new(pod_name: String, annot_prefix: String) -> (watcher: Self)
        ensures
            watcher.pod_name_text() == pod_name@,
            watcher.tracked_key() == endpoints_key_text(annot_prefix@),
            watcher.cached() == Map::<Seq<char>, Seq<char>>::empty(),
            watcher.published() == Map::<Seq<char>, Seq<char>>::empty(),
    {
        AnnotationsWatcher {
            pod_name,
            annot_name: endpoints_key(annot_prefix.as_str()),
            last_annotations: StringMap::new(),
            published: StringMap::new(),
        }
    }

    /// The name of the watched object.
    pub fn pod_name(&self) -> (name: &String)
        ensures
            name@ == self.pod_name_text(),
    {
        &self.pod_name
    }

    /// The key whose value holds the backend addresses.
    pub fn annot_name(&self) -> (key: &String)
        ensures
            key@ == self.tracked_key(),
    {
        &self.annot_name
    }

    /// A copy of the annotations that the watch last showed.
    pub fn annotations(&self) -> (copy: StringMap<String>)
        ensures
            texts(copy@) == self.cached(),
    {
        self.last_annotations.snapshot()
    }

    /// A copy of the annotations that this instance has published.
    pub fn published_annotations(&self) -> (copy: StringMap<String>)
        ensures
            texts(copy@) == self.published(),
    {
        self.published.snapshot()
    }

    /// Takes in one notification. `None` is a notification without
    /// annotations: it changes nothing. Otherwise the snapshot is compared
    /// with the cache on the tracked key, the event that follows from the
    /// comparison is handed back, and the snapshot replaces the cache
    /// whether or not an event follows. What was published is not touched.
    pub fn observe(&mut self, annotations: Option<StringMap<String>>) -> (event: Option<Message>)
        ensures
            final(self).pod_name_text() == old(self).pod_name_text(),
            final(self).tracked_key() == old(self).tracked_key(),
            final(self).published() == old(self).published(),
            final(self).cached() == observed_after(old(self).cached(), snapshot_view(annotations)),
            match annotations {
                None => final(self).cached() == old(self).cached() && event is None,
                Some(observed) => {
                    &&& final(self).cached() == texts(observed@)
                    &&& event_view(event) == endpoints_event(
                        old(self).cached(),
                        texts(observed@),
                        old(self).tracked_key(),
                    )
                },
            },
    {
        match annotations {
            None => None,
            Some(observed) => {
                let event: Option<Message> = match observed.get(self.annot_name.as_str()) {
                    Some(endpoints) => {
                        let unchanged: bool = match self.last_annotations.get(
                            self.annot_name.as_str(),
                        ) {
                            Some(previous) => *previous == *endpoints,
                            None => false,
                        };
                        if unchanged {
                            None
                        } else {
                            Some(Message::EndpointsChanged(parse_endpoints(endpoints.as_str())))
                        }
                    },
                    None => None,
                };
                self.last_annotations = observed;
                event
            },
        }
    }

    /// Merges the pairs into the published annotations, from the first to
    /// the last, and hands back a copy of all of them: the body of the patch
    /// that publishes them. What the watch last showed is not touched.
    pub fn add_annot(&mut self, annots: Vec<(String, String)>) -> (patch: StringMap<String>)
        ensures
            final(self).pod_name_text() == old(self).pod_name_text(),
            final(self).tracked_key() == old(self).tracked_key(),
            final(self).cached() == old(self).cached(),
            final(self).published() == merge_pairs(old(self).published(), annots.deep_view()),
            texts(patch@) == final(self).published(),
    {
        proof {
            lemma_texts_merge(self.published@, annots@);
            assert(annots.deep_view() =~= annots@.map_values(
                |pair: (String, String)| (pair.0@, pair.1@),
            ));
        }
        self.published.extend(annots);
        self.published.snapshot()
    }
}

} // verus!
