use vstd::prelude::*;

verus! {

/// The kinds of event that the pipeline tells apart.
#[derive(PartialEq, Eq, Structural, Clone, Copy, Debug)]
pub enum EventKind {
    TextNote,
    Reaction,
    ContactList,
    Metadata,
    Other,
}

/// An inbound event: who wrote it, what kind it is, when, and its raw content.
pub struct Event {
    pub author: Vec<u8>,
    pub kind: EventKind,
    pub created_at: u64,
    pub content: String,
}

/// Whether two author keys are the same bytes.
pub fn same_key(a: &Vec<u8>, b: &Vec<u8>) -> (r: bool)
    ensures
        r == (a@ == b@),
{
    let r = *a == *b;
    proof {
        if r {
            assert(a@ =~= b@);
        }
    }
    r
}

} // verus!
