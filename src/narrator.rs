use vstd::prelude::*;

use crate::event::{same_key, Event, EventKind};
use crate::metadata::{purged, served, Cache, ProfileMetadata};
use crate::transformer::{reaction_text, resolved_name_of, Transformer};

verus! {

/// Whether an event created at `created_at` is too old to be spoken at `now`.
pub open spec fn is_stale(created_at: int, now: int, threshold: int) -> bool {
    now - created_at > threshold
}

pub open spec fn is_spoken_kind(k: EventKind) -> bool {
    k == EventKind::TextNote || k == EventKind::Reaction
}

/// The narration of a note or a reaction.
pub open spec fn event_text(t: Transformer, e: Event, md: Option<ProfileMetadata>) -> Seq<char> {
    if e.kind == EventKind::Reaction {
        reaction_text(resolved_name_of(md))
    } else {
        t.note_text(e.content@, md)
    }
}

/// Whether `e` is a metadata event written by `author`.
pub open spec fn is_metadata_of(e: Event, author: Seq<u8>) -> bool {
    e.kind == EventKind::Metadata && e.author@ == author
}

/// What the event loop does next with an event.
pub enum Step {
    /// Not an event to act on.
    Ignore,
    /// Too old to be spoken; dropped.
    SkipOld,
    /// The own contact list changed: subscribe again.
    Resubscribe,
    /// The author's metadata is not cached: fetch it, then call `narrate`.
    FetchMetadata,
    /// Speak this text.
    Speak(String),
}

/// The view of an optional string.
pub open spec fn opt_view(o: Option<String>) -> Option<Seq<char>> {
    match o {
        Some(s) => Some(s@),
        None => None,
    }
}

/// The display name and name that a profile's JSON text holds, when it parses.
pub uninterp spec fn parsed_profile(json: Seq<char>) -> Option<(Option<Seq<char>>, Option<Seq<char>>)>;

/// Relies on nostr's `Metadata::from_json`: parses a profile's JSON text; of the
/// result the display name and the name are kept.
#[verifier::external_body]
fn parse_profile(json: &str) -> (r: Option<ProfileMetadata>)
    ensures
        r.is_some() == parsed_profile(json@).is_some(),
        r matches Some(m) ==> parsed_profile(json@) == Some((opt_view(m.display_name), opt_view(m.name))),
{
    match nostr_sdk::Metadata::from_json(json) {
        Ok(md) => Some(ProfileMetadata { display_name: md.display_name, name: md.name }),
        Err(_) => None,
    }
}

/// Whether `i` is the newest metadata event by `author` in `events`: no other
/// is newer, and every earlier one is strictly older.
pub open spec fn is_newest_metadata(events: Seq<Event>, author: Seq<u8>, i: int) -> bool {
    &&& 0 <= i < events.len()
    &&& is_metadata_of(events[i], author)
    &&& forall|j: int| 0 <= j < events.len() && is_metadata_of(#[trigger] events[j], author)
        ==> events[j].created_at <= events[i].created_at
    &&& forall|j: int| 0 <= j < i && is_metadata_of(#[trigger] events[j], author)
        ==> events[j].created_at < events[i].created_at
}

/// The metadata of `author` out of the answer to a metadata query: the newest
/// metadata event by that author is parsed; nothing when there is none or it
/// does not parse.
pub fn metadata_from_events(events: &Vec<Event>, author: &Vec<u8>) -> (r: Option<ProfileMetadata>)
    ensures
        (forall|j: int| 0 <= j < events@.len() ==> !is_metadata_of(#[trigger] events@[j], author@)) ==> r is None,
        forall|i: int| #[trigger] is_newest_metadata(events@, author@, i) ==> {
            &&& r.is_some() == parsed_profile(events@[i].content@).is_some()
            &&& r matches Some(m) ==> parsed_profile(events@[i].content@) == Some(
                (opt_view(m.display_name), opt_view(m.name)),
            )
        },
{
    match select_metadata(events, author) {
        Some(i) => {
            let r = parse_profile(events[i].content.as_str());
            proof {
                assert forall|k: int| #[trigger] is_newest_metadata(events@, author@, k) implies k == i by {
                    if k < i {
                        assert(events@[k].created_at < events@[i as int].created_at);
                        assert(events@[i as int].created_at <= events@[k].created_at);
                    } else if k > i {
                        assert(events@[i as int].created_at < events@[k].created_at);
                        assert(events@[k].created_at <= events@[i as int].created_at);
                    }
                }
            }
            r
        },
        None => None,
    }
}

/// The message spoken once the subscription is in place.
pub fn connect_message(following_mode: bool) -> (r: String)
    ensures
        r@ == (if following_mode { "接続しました。フォロイングモードです。"@ } else { "接続しました。ユニバースモードです。"@ }),
{
    if following_mode {
        "接続しました。フォロイングモードです。".to_string()
    } else {
        "接続しました。ユニバースモードです。".to_string()
    }
}

/// The position of the newest metadata event by `author` (the first of equally
/// new ones), which is the one whose content is parsed.
pub fn select_metadata(events: &Vec<Event>, author: &Vec<u8>) -> (r: Option<usize>)
    ensures
        r matches Some(i) ==> is_newest_metadata(events@, author@, i as int),
        r is None ==> forall|j: int| 0 <= j < events@.len() ==> !is_metadata_of(#[trigger] events@[j], author@),
{
    let mut best: Option<usize> = None;
    let mut i: usize = 0;
    while i < events.len()
        invariant
            i <= events@.len(),
            best is None ==> forall|j: int| 0 <= j < i ==> !is_metadata_of(#[trigger] events@[j], author@),
            best matches Some(b) ==> {
                &&& b < i
                &&& is_metadata_of(events@[b as int], author@)
                &&& forall|j: int| 0 <= j < i && is_metadata_of(#[trigger] events@[j], author@)
                    ==> events@[j].created_at <= events@[b as int].created_at
                &&& forall|j: int| 0 <= j < b && is_metadata_of(#[trigger] events@[j], author@)
                    ==> events@[j].created_at < events@[b as int].created_at
            },
        decreases events@.len() - i,
    {
        if events[i].kind == EventKind::Metadata && same_key(&events[i].author, author) {
            let newer = match best {
                Some(b) => events[i].created_at > events[b].created_at,
                None => true,
            };
            if newer {
                best = Some(i);
            }
        }
        i = i + 1;
    }
    best
}

/// The decisions of the event loop: which events are spoken, and with which author name.
pub struct Narrator {
    pub cache: Cache,
    pub transformer: Transformer,
    pub old_threshold_seconds: u64,
    pub following_mode: bool,
    pub own_key: Vec<u8>,
}

impl Narrator {
    pub open spec fn well_formed(&self) -> bool {
        self.cache.well_formed()
    }

    pub fn new(transformer: Transformer, ttl: u64, old_threshold_seconds: u64, following_mode: bool, own_key: Vec<u8>) -> (r: Self)
        ensures
            r.well_formed(),
            r.cache@ == Map::<Seq<u8>, (ProfileMetadata, u64)>::empty(),
            r.cache.ttl_spec() == ttl,
            r.transformer == transformer,
            r.old_threshold_seconds == old_threshold_seconds,
            r.following_mode == following_mode,
            r.own_key == own_key,
    {
        Narrator { cache: Cache::new(ttl), transformer, old_threshold_seconds, following_mode, own_key }
    }

    pub fn is_old(&self, created_at: u64, now: u64) -> (r: bool)
        ensures
            r == is_stale(created_at as int, now as int, self.old_threshold_seconds as int),
    {
        now >= created_at && now - created_at > self.old_threshold_seconds
    }

    /// Decides what to do with an inbound event at time `now`.
    pub fn handle_event(&mut self, event: &Event, now: u64) -> (r: Step)
        requires
            old(self).well_formed(),
        ensures
            final(self).well_formed(),
            final(self).transformer == old(self).transformer,
            final(self).old_threshold_seconds == old(self).old_threshold_seconds,
            final(self).following_mode == old(self).following_mode,
            final(self).own_key == old(self).own_key,
            final(self).cache.ttl_spec() == old(self).cache.ttl_spec(),
            !is_spoken_kind(event.kind) ==> final(self).cache == old(self).cache,
            event.kind == EventKind::ContactList ==> (r is Resubscribe <==> (event.author@ == old(self).own_key@
                && old(self).following_mode)),
            event.kind == EventKind::ContactList ==> (r is Resubscribe || r is Ignore),
            event.kind != EventKind::ContactList && !is_spoken_kind(event.kind) ==> r is Ignore,
            is_spoken_kind(event.kind) && is_stale(event.created_at as int, now as int, old(self).old_threshold_seconds as int)
                ==> r is SkipOld && final(self).cache == old(self).cache,
            is_spoken_kind(event.kind) && !is_stale(event.created_at as int, now as int, old(self).old_threshold_seconds as int)
                ==> {
                let ttl = old(self).cache.ttl_spec() as int;
                let md = served(old(self).cache@, event.author@, now as int, ttl);
                &&& final(self).cache@ == purged(old(self).cache@, now as int, ttl)
                &&& md is None ==> r is FetchMetadata
                &&& md is Some ==> (r matches Step::Speak(s) && s@ == event_text(old(self).transformer, *event, md))
            },
    {
        match event.kind {
            EventKind::TextNote | EventKind::Reaction => {
                if self.is_old(event.created_at, now) {
                    return Step::SkipOld;
                }
                match self.cache.get(&event.author, now) {
                    Some(md) => Step::Speak(self.text_for(event, &Some(md))),
                    None => Step::FetchMetadata,
                }
            },
            EventKind::ContactList => {
                if same_key(&event.author, &self.own_key) && self.following_mode {
                    Step::Resubscribe
                } else {
                    Step::Ignore
                }
            },
            _ => Step::Ignore,
        }
    }

    fn text_for(&self, event: &Event, md: &Option<ProfileMetadata>) -> (r: String)
        ensures
            r@ == event_text(self.transformer, *event, *md),
    {
        if event.kind == EventKind::Reaction {
            self.transformer.transform_reaction(event, md)
        } else {
            self.transformer.transform_note(event, md)
        }
    }

    /// Completes an event after a metadata fetch: a fetched value is cached at `now`,
    /// and the narration is built with it, or without a name when the fetch failed.
    pub fn narrate(&mut self, event: &Event, fetched: Option<ProfileMetadata>, now: u64) -> (r: String)
        requires
            old(self).well_formed(),
        ensures
            final(self).well_formed(),
            final(self).transformer == old(self).transformer,
            final(self).old_threshold_seconds == old(self).old_threshold_seconds,
            final(self).following_mode == old(self).following_mode,
            final(self).own_key == old(self).own_key,
            final(self).cache.ttl_spec() == old(self).cache.ttl_spec(),
            r@ == event_text(old(self).transformer, *event, fetched),
            fetched is None ==> final(self).cache == old(self).cache,
            fetched matches Some(md) ==> final(self).cache@ == purged(
                old(self).cache@,
                now as int,
                old(self).cache.ttl_spec() as int,
            ).insert(event.author@, (md, now)),
    {
        let text = self.text_for(event, &fetched);
        if let Some(md) = fetched {
            self.cache.insert(event.author.clone(), md, now);
        }
        text
    }
}

/// Two spoken events by an author that is not cached, the second arriving
/// within the lifetime of the metadata fetched for the first, cost one fetch:
/// the first lookup misses and the second is served from the cache.
pub proof fn lemma_one_fetch_per_author(
    m: Map<Seq<u8>, (ProfileMetadata, u64)>,
    ttl: u64,
    a: Seq<u8>,
    md: ProfileMetadata,
    t1: u64,
    tf: u64,
    t2: u64,
)
    requires
        !m.contains_key(a),
        t1 <= tf <= t2,
        t2 < tf + ttl,
    ensures
        served(m, a, t1 as int, ttl as int) is None,
        served(
            purged(purged(m, t1 as int, ttl as int), tf as int, ttl as int).insert(a, (md, tf)),
            a,
            t2 as int,
            ttl as int,
        ) == Some(md),
{
}

/// A reaction is narrated by the same sentence whatever its content says.
pub proof fn lemma_reaction_ignores_content(t: Transformer, e1: Event, e2: Event, md: Option<ProfileMetadata>)
    requires
        e1.kind == EventKind::Reaction,
        e2.kind == EventKind::Reaction,
    ensures
        event_text(t, e1, md) == event_text(t, e2, md),
        event_text(t, e1, md) == reaction_text(resolved_name_of(md)),
{
}

} // verus!
