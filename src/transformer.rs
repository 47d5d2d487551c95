use vstd::prelude::*;

use crate::config::TransformConfig;
use crate::event::Event;
use crate::metadata::ProfileMetadata;

verus! {

/// The identifier pattern whose payload is dropped from narration.
pub const NIP19_PATTERN: &'static str = "(nsec|npub|note|nprofile|nevent|nrelay|naddr)1[0-9ac-hj-np-z]+";

/// The replacement that keeps only the identifier's tag.
pub const NIP19_REPLACEMENT: &'static str = "$1";

/// The links that the link detector reports in a text, in the order it reports them.
pub uninterp spec fn links_in(text: Seq<char>) -> Seq<Seq<char>>;

/// The text with every occurrence of `from` replaced by `to`: matches are taken
/// leftmost first and do not overlap; an empty `from` matches before every
/// character and at the end.
pub open spec fn replaced(text: Seq<char>, from: Seq<char>, to: Seq<char>) -> Seq<char>
    decreases text.len(),
{
    if from.len() == 0 {
        if text.len() == 0 {
            to
        } else {
            to + seq![text[0]] + replaced(text.subrange(1, text.len() as int), from, to)
        }
    } else if text.len() < from.len() {
        text
    } else if text.subrange(0, from.len() as int) == from {
        to + replaced(text.subrange(from.len() as int, text.len() as int), from, to)
    } else {
        seq![text[0]] + replaced(text.subrange(1, text.len() as int), from, to)
    }
}

/// Whether the regular-expression engine accepts a pattern.
pub uninterp spec fn regex_accepts(pattern: Seq<char>) -> bool;

/// The text with every match of `pattern` replaced by the expansion of `rep`.
pub uninterp spec fn regex_replaced(pattern: Seq<char>, text: Seq<char>, rep: Seq<char>) -> Seq<char>;

/// Relies on linkify's `LinkFinder::new().links(..)`: the substrings that it reports as links.
#[verifier::external_body]
fn detect_links(text: &str) -> (r: Vec<String>)
    ensures
        r@.map_values(|s: String| s@) == links_in(text@),
{
    linkify::LinkFinder::new().links(text).map(|l| l.as_str().to_string()).collect()
}

fn chars_of(s: &str) -> (r: Vec<char>)
    ensures
        r@ == s@,
{
    let n = s.unicode_len();
    let mut r: Vec<char> = Vec::new();
    let mut i: usize = 0;
    while i < n
        invariant
            n == s@.len(),
            i <= n,
            r@ == s@.subrange(0, i as int),
        decreases n - i,
    {
        r.push(s.get_char(i));
        i = i + 1;
    }
    r
}

/// Whether `pat` occurs in `t` at position `p`.
fn occurs_at(t: &Vec<char>, pat: &Vec<char>, p: usize) -> (r: bool)
    requires
        p + pat@.len() <= t@.len(),
    ensures
        r == (t@.subrange(p as int, p + pat@.len()) == pat@),
{
    let tl = t.len();
    let mut k: usize = 0;
    while k < pat.len()
        invariant
            tl == t@.len(),
            p + pat@.len() <= t@.len(),
            k <= pat@.len(),
            forall|j: int| 0 <= j < k ==> t@[p + j] == pat@[j],
        decreases pat@.len() - k,
    {
        if t[p + k] != pat[k] {
            assert(t@.subrange(p as int, p + pat@.len())[k as int] != pat@[k as int]);
            return false;
        }
        k = k + 1;
    }
    assert(t@.subrange(p as int, p + pat@.len()) =~= pat@);
    true
}

/// Replaces every occurrence of `from` in `text` by `to`, as `str::replace` does.
pub fn replace_str(text: &str, from: &str, to: &str) -> (r: String)
    ensures
        r@ == replaced(text@, from@, to@),
{
    let t = chars_of(text);
    let f = chars_of(from);
    let n = t.len();
    let m = f.len();
    let mut out = String::new();
    assert(text@.subrange(0, n as int) =~= text@);
    assert(out@ + text@.subrange(0, 0) + replaced(text@, from@, to@) =~= replaced(text@, from@, to@));
    assert(out@ + replaced(text@, from@, to@) =~= replaced(text@, from@, to@));
    if m == 0 {
        let mut p: usize = 0;
        while p < n
            invariant
                t@ == text@,
                f@ == from@,
                m == 0,
                m == f@.len(),
                n == t@.len(),
                p <= n,
                out@ + replaced(text@.subrange(p as int, n as int), from@, to@) == replaced(text@, from@, to@),
            decreases n - p,
        {
            let ghost rest = text@.subrange(p as int, n as int);
            assert(rest.subrange(1, rest.len() as int) == text@.subrange(p + 1, n as int));
            assert(seq![rest[0]] == text@.subrange(p as int, p + 1));
            assert(from@.len() == 0);
            assert(rest.len() > 0);
            assert(replaced(rest, from@, to@) == to@ + seq![rest[0]] + replaced(rest.subrange(1, rest.len() as int), from@, to@));
            let ghost o = out@;
            out.append(to);
            out.append(text.substring_char(p, p + 1));
            p = p + 1;
            assert(o + (to@ + seq![rest[0]] + replaced(rest.subrange(1, rest.len() as int), from@, to@))
                =~= out@ + replaced(text@.subrange(p as int, n as int), from@, to@));
        }
        assert(text@.subrange(n as int, n as int) =~= Seq::<char>::empty());
        out.append(to);
        return out;
    }
    let mut last: usize = 0;
    let mut p: usize = 0;
    while m <= n - p
        invariant
            t@ == text@,
            f@ == from@,
            m == f@.len(),
            m > 0,
            n == t@.len(),
            last <= p <= n,
            out@ + text@.subrange(last as int, p as int) + replaced(text@.subrange(p as int, n as int), from@, to@)
                == replaced(text@, from@, to@),
        decreases n - p,
    {
        let ghost rest = text@.subrange(p as int, n as int);
        assert(rest.subrange(0, m as int) == text@.subrange(p as int, p + m));
        let ghost o = out@;
        let ghost pre = text@.subrange(last as int, p as int);
        if occurs_at(&t, &f, p) {
            assert(rest.subrange(m as int, rest.len() as int) == text@.subrange(p + m, n as int));
            assert(replaced(rest, from@, to@) == to@ + replaced(rest.subrange(m as int, rest.len() as int), from@, to@));
            out.append(text.substring_char(last, p));
            out.append(to);
            p = p + m;
            last = p;
            assert(text@.subrange(last as int, p as int) =~= Seq::<char>::empty());
            assert(o + pre + (to@ + replaced(text@.subrange(p as int, n as int), from@, to@))
                =~= out@ + text@.subrange(last as int, p as int) + replaced(text@.subrange(p as int, n as int), from@, to@));
        } else {
            assert(rest.subrange(1, rest.len() as int) == text@.subrange(p + 1, n as int));
            assert(replaced(rest, from@, to@) == seq![rest[0]] + replaced(rest.subrange(1, rest.len() as int), from@, to@));
            assert(pre + seq![rest[0]] =~= text@.subrange(last as int, p + 1));
            p = p + 1;
            assert(o + pre + (seq![rest[0]] + replaced(text@.subrange(p as int, n as int), from@, to@))
                =~= out@ + text@.subrange(last as int, p as int) + replaced(text@.subrange(p as int, n as int), from@, to@));
        }
    }
    assert(replaced(text@.subrange(p as int, n as int), from@, to@) == text@.subrange(p as int, n as int));
    assert(text@.subrange(last as int, p as int) + text@.subrange(p as int, n as int) =~= text@.subrange(last as int, n as int));
    let ghost o = out@;
    out.append(text.substring_char(last, n));
    assert(o + text@.subrange(last as int, p as int) + text@.subrange(p as int, n as int) =~= out@);
    out
}

/// Relies on regex's `Regex::new`, which refuses an invalid pattern, and
/// `Regex::replace_all`, which expands `$1` to the first group of each match.
#[verifier::external_body]
fn regex_replace_all(pattern: &str, text: &str, rep: &str) -> (r: Option<String>)
    ensures
        r.is_some() == regex_accepts(pattern@),
        r matches Some(s) ==> s@ == regex_replaced(pattern@, text@, rep@),
{
    match regex::Regex::new(pattern) {
        Ok(re) => Some(re.replace_all(text, rep).to_string()),
        Err(_) => None,
    }
}

/// The name under which an author is read: a non-empty display name, else a
/// non-empty name, else none.
pub open spec fn resolved_name(md: ProfileMetadata) -> Option<Seq<char>> {
    if md.display_name matches Some(d) && d@.len() > 0 {
        Some(md.display_name->0@)
    } else if md.name matches Some(n) && n@.len() > 0 {
        Some(md.name->0@)
    } else {
        None
    }
}

pub open spec fn resolved_name_of(md: Option<ProfileMetadata>) -> Option<Seq<char>> {
    match md {
        Some(m) => resolved_name(m),
        None => None,
    }
}

/// Replaces each reported link in turn, first link first.
pub open spec fn replace_each(text: Seq<char>, links: Seq<Seq<char>>, placeholder: Seq<char>) -> Seq<char>
    decreases links.len(),
{
    if links.len() == 0 {
        text
    } else {
        replaced(replace_each(text, links.drop_last(), placeholder), links.last(), placeholder)
    }
}

/// The first `max_length` characters followed by the ellipsis, when the text is longer.
pub open spec fn truncated(text: Seq<char>, max_length: nat, ellipsis: Seq<char>) -> Seq<char> {
    if text.len() > max_length {
        text.subrange(0, max_length as int) + ellipsis
    } else {
        text
    }
}

/// Identifier compaction as the configured pattern states it.
pub open spec fn compacted(text: Seq<char>) -> Seq<char> {
    if regex_accepts(NIP19_PATTERN@) {
        regex_replaced(NIP19_PATTERN@, text, NIP19_REPLACEMENT@)
    } else {
        text
    }
}

pub open spec fn note_prefix(name: Option<Seq<char>>) -> Seq<char> {
    match name {
        Some(n) => n + "さん、"@,
        None => Seq::empty(),
    }
}

pub open spec fn reaction_text(name: Option<Seq<char>>) -> Seq<char> {
    match name {
        Some(n) => n + "さんから"@ + "リアクション受信。"@,
        None => "リアクション受信。"@,
    }
}

/// Turns events and author metadata into narration text.
pub struct Transformer {
    pub config: TransformConfig,
}

impl Transformer {
    pub open spec fn body_text(&self, content: Seq<char>) -> Seq<char> {
        truncated(
            compacted(replace_each(content, links_in(content), self.config.url_alternative_text@)),
            self.config.max_length as nat,
            self.config.ellipsis_text@,
        )
    }

    pub open spec fn note_text(&self, content: Seq<char>, md: Option<ProfileMetadata>) -> Seq<char> {
        note_prefix(resolved_name_of(md)) + self.body_text(content)
    }

    pub fn new(config: &TransformConfig) -> (r: Self)
        ensures
            r.config.url_alternative_text@ == config.url_alternative_text@,
            r.config.max_length == config.max_length,
            r.config.ellipsis_text@ == config.ellipsis_text@,
            r.config.read_name == config.read_name,
    {
        Transformer {
            config: TransformConfig {
                url_alternative_text: config.url_alternative_text.clone(),
                max_length: config.max_length,
                ellipsis_text: config.ellipsis_text.clone(),
                read_name: config.read_name,
            },
        }
    }

    pub fn metadata_to_name(metadata: &ProfileMetadata) -> (r: Option<String>)
        ensures
            r.is_some() == resolved_name(*metadata).is_some(),
            r matches Some(s) ==> Some(s@) == resolved_name(*metadata),
    {
        if let Some(display_name) = &metadata.display_name {
            if !display_name.as_str().is_empty() {
                return Some(display_name.clone());
            }
        }
        if let Some(name) = &metadata.name {
            if !name.as_str().is_empty() {
                return Some(name.clone());
            }
        }
        None
    }

    fn name_of(metadata: &Option<ProfileMetadata>) -> (r: Option<String>)
        ensures
            r.is_some() == resolved_name_of(*metadata).is_some(),
            r matches Some(s) ==> Some(s@) == resolved_name_of(*metadata),
    {
        match metadata {
            Some(md) => Transformer::metadata_to_name(md),
            None => None,
        }
    }

    /// The fixed reaction sentence; the reaction's own content is never read.
    pub fn transform_reaction(&self, event: &Event, metadata: &Option<ProfileMetadata>) -> (r: String)
        ensures
            r@ == reaction_text(resolved_name_of(*metadata)),
    {
        match Transformer::name_of(metadata) {
            Some(name) => name.concat("さんから").concat("リアクション受信。"),
            None => "リアクション受信。".to_string(),
        }
    }

    pub fn transform_note(&self, event: &Event, metadata: &Option<ProfileMetadata>) -> (r: String)
        ensures
            r@ == self.note_text(event.content@, *metadata),
    {
        let links = detect_links(event.content.as_str());
        let text = self.replace_urls(&event.content, &links);
        let text = Transformer::truncate_nip19(text);
        self.finish_note(metadata, text)
    }

    /// Truncates an already substituted body and puts the author prefix before it.
    pub fn finish_note(&self, metadata: &Option<ProfileMetadata>, body: String) -> (r: String)
        ensures
            r@ == note_prefix(resolved_name_of(*metadata)) + truncated(
                body@,
                self.config.max_length as nat,
                self.config.ellipsis_text@,
            ),
    {
        let text = self.truncate_long(body);
        match Transformer::name_of(metadata) {
            Some(name) => name.concat("さん、").concat(text.as_str()),
            None => text,
        }
    }

    /// Replaces each of the reported links with the placeholder, in the order given.
    pub fn replace_urls(&self, text: &String, links: &Vec<String>) -> (r: String)
        ensures
            r@ == replace_each(text@, links@.map_values(|s: String| s@), self.config.url_alternative_text@),
    {
        let ghost ls = links@.map_values(|s: String| s@);
        let mut out = text.clone();
        let mut i: usize = 0;
        while i < links.len()
            invariant
                i <= links.len(),
                ls == links@.map_values(|s: String| s@),
                out@ == replace_each(text@, ls.take(i as int), self.config.url_alternative_text@),
            decreases links.len() - i,
        {
            assert(ls.take(i + 1).drop_last() == ls.take(i as int));
            out = replace_str(out.as_str(), links[i].as_str(), self.config.url_alternative_text.as_str());
            i = i + 1;
        }
        assert(ls.take(links.len() as int) == ls);
        out
    }

    pub fn truncate_long(&self, text: String) -> (r: String)
        ensures
            r@ == truncated(text@, self.config.max_length as nat, self.config.ellipsis_text@),
    {
        if text.as_str().unicode_len() > self.config.max_length {
            let kept = text.as_str().substring_char(0, self.config.max_length).to_string();
            kept.concat(self.config.ellipsis_text.as_str())
        } else {
            text
        }
    }

    pub fn truncate_nip19(text: String) -> (r: String)
        ensures
            r@ == compacted(text@),
    {
        match regex_replace_all(NIP19_PATTERN, text.as_str(), NIP19_REPLACEMENT) {
            Some(s) => s,
            None => text,
        }
    }
}

/// Link substitution leaves alone a text in which the detector reports no
/// link, such as one made only of the placeholder.
pub proof fn lemma_no_links_unchanged(text: Seq<char>, placeholder: Seq<char>)
    requires
        links_in(text).len() == 0,
    ensures
        replace_each(text, links_in(text), placeholder) == text,
{
}

} // verus!
