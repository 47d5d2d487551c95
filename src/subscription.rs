use vstd::prelude::*;

use crate::event::{same_key, EventKind};

verus! {

/// One subscription filter: new events (no backlog) of the given kinds,
/// optionally only by some authors, optionally only those mentioning a key.
pub struct FilterPlan {
    pub kinds: Vec<EventKind>,
    pub authors: Option<Vec<Vec<u8>>>,
    pub mentions: Option<Vec<u8>>,
}

pub open spec fn keys_of(v: Seq<Vec<u8>>) -> Seq<Seq<u8>> {
    v.map_values(|k: Vec<u8>| k@)
}

/// Each contact once, in the order of first appearance.
pub fn dedup_contacts(contacts: &Vec<Vec<u8>>) -> (r: Vec<Vec<u8>>)
    ensures
        keys_of(r@).to_set() == keys_of(contacts@).to_set(),
        keys_of(r@).no_duplicates(),
{
    let mut out: Vec<Vec<u8>> = Vec::new();
    let mut i: usize = 0;
    while i < contacts.len()
        invariant
            i <= contacts@.len(),
            keys_of(out@).to_set() == keys_of(contacts@.take(i as int)).to_set(),
            keys_of(out@).no_duplicates(),
        decreases contacts@.len() - i,
    {
        let ghost before = keys_of(out@);
        let c = &contacts[i];
        let mut seen = false;
        let mut j: usize = 0;
        while j < out.len()
            invariant
                j <= out@.len(),
                seen == exists|x: int| 0 <= x < j && keys_of(out@)[x] == c@,
                keys_of(out@).len() == out@.len(),
            decreases out@.len() - j,
        {
            assert(keys_of(out@)[j as int] == out@[j as int]@);
            if same_key(&out[j], c) {
                seen = true;
            }
            j = j + 1;
        }
        assert(keys_of(contacts@.take(i + 1)) == keys_of(contacts@.take(i as int)).push(c@));
        if !seen {
            out.push(c.clone());
            assert(keys_of(out@) == before.push(c@));
        } else {
            proof {
                let x = choose|x: int| 0 <= x < out@.len() && keys_of(out@)[x] == c@;
                assert(keys_of(out@).to_set().contains(keys_of(out@)[x]));
            }
        }
        proof {
            let prev = keys_of(contacts@.take(i as int));
            assert(prev.push(c@).to_set() =~= prev.to_set().insert(c@)) by {
                prev.lemma_push_to_set_commute(c@);
            }
            if !seen {
                before.lemma_push_to_set_commute(c@);
            }
        }
        i = i + 1;
    }
    assert(contacts@.take(contacts@.len() as int) == contacts@);
    out
}

/// The filters to subscribe with. With an own key: the notes (and, in following
/// mode, contact lists) of the contacts, plus what mentions the own key; without
/// one: all notes.
pub fn subscription_plan(own_key: &Option<Vec<u8>>, following_mode: bool, contacts: &Vec<Vec<u8>>) -> (r: Vec<FilterPlan>)
    ensures
        own_key is None ==> r@.len() == 1 && r@[0].kinds@ == seq![EventKind::TextNote]
            && r@[0].authors is None && r@[0].mentions is None,
        own_key matches Some(k) ==> {
            &&& r@.len() == 2
            &&& following_mode ==> (r@[0].kinds@ == seq![EventKind::TextNote, EventKind::ContactList]
                && (r@[0].authors matches Some(a) && keys_of(a@).to_set() == keys_of(contacts@).to_set()
                && keys_of(a@).no_duplicates()))
            &&& !following_mode ==> r@[0].kinds@ == seq![EventKind::TextNote] && r@[0].authors is None
            &&& r@[0].mentions is None
            &&& r@[1].kinds@ == seq![EventKind::TextNote, EventKind::Reaction, EventKind::ContactList]
            &&& r@[1].authors is None
            &&& (r@[1].mentions matches Some(m) && m@ == k@)
        },
{
    let mut filters: Vec<FilterPlan> = Vec::new();
    match own_key {
        Some(k) => {
            let notes = if following_mode {
                FilterPlan {
                    kinds: vec![EventKind::TextNote, EventKind::ContactList],
                    authors: Some(dedup_contacts(contacts)),
                    mentions: None,
                }
            } else {
                FilterPlan { kinds: vec![EventKind::TextNote], authors: None, mentions: None }
            };
            filters.push(notes);
            let mention = FilterPlan {
                kinds: vec![EventKind::TextNote, EventKind::Reaction, EventKind::ContactList],
                authors: None,
                mentions: Some(k.clone()),
            };
            filters.push(mention);
        },
        None => {
            filters.push(FilterPlan { kinds: vec![EventKind::TextNote], authors: None, mentions: None });
        },
    }
    filters
}

} // verus!
