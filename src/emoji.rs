use vstd::prelude::*;

use crate::text::{chars_of, decimal, decimal_chars, push_all, string_of};
use crate::types::message::{Emotion, MessageProperties};

verus! {

/// What `str::to_lowercase` makes of a text.
pub uninterp spec fn lower_of(s: Seq<char>) -> Seq<char>;

/// Relies on `str::to_lowercase` to fold reaction names: the result depends on the
/// characters alone.
#[verifier::external_body]
fn lowercase(s: &str) -> (r: String)
    ensures
        r@ == lower_of(s@),
{
    s.to_lowercase()
}

/// The reaction names of the chat service and the emoji they stand for.
pub struct EmojiMap {
    pairs: Vec<(String, String)>,
}

/// The emoji of the first pair named `key`.
pub open spec fn emoji_for(pairs: Seq<(Seq<char>, Seq<char>)>, key: Seq<char>) -> Option<Seq<char>>
    decreases pairs.len(),
{
    if pairs.len() == 0 {
        None
    } else if pairs[0].0 == key {
        Some(pairs[0].1)
    } else {
        emoji_for(pairs.skip(1), key)
    }
}

/// The name of the first pair whose emoji is `emoji`.
pub open spec fn key_for(pairs: Seq<(Seq<char>, Seq<char>)>, emoji: Seq<char>) -> Option<Seq<char>>
    decreases pairs.len(),
{
    if pairs.len() == 0 {
        None
    } else if pairs[0].1 == emoji {
        Some(pairs[0].0)
    } else {
        key_for(pairs.skip(1), emoji)
    }
}

/// No two pairs share a name.
pub open spec fn names_unique(pairs: Seq<(Seq<char>, Seq<char>)>) -> bool {
    forall|i: int, j: int| 0 <= i < j < pairs.len() ==> pairs[i].0 != pairs[j].0
}

/// The pairs whose name has not come before, in order.
pub open spec fn first_named(pairs: Seq<(Seq<char>, Seq<char>)>) -> Seq<(Seq<char>, Seq<char>)>
    decreases pairs.len(),
{
    if pairs.len() == 0 {
        pairs
    } else {
        let kept = first_named(pairs.drop_last());
        if emoji_for(kept, pairs.last().0) is Some {
            kept
        } else {
            kept.push(pairs.last())
        }
    }
}

proof fn lemma_emoji_for_facts(m: Seq<(Seq<char>, Seq<char>)>, k: Seq<char>)
    ensures
        (emoji_for(m, k) is None) <==> (forall|i: int| 0 <= i < m.len() ==> m[i].0 != k),
        emoji_for(m, k) matches Some(e) ==> exists|i: int| 0 <= i < m.len() && m[i].0 == k && m[i].1 == e,
    decreases m.len(),
{
    if m.len() > 0 {
        lemma_emoji_for_facts(m.skip(1), k);
        if m[0].0 != k {
            assert forall|i: int| 0 <= i < m.len() - 1 implies m.skip(1)[i] == m[i + 1] by {}
            if let Some(e) = emoji_for(m, k) {
                let i = choose|i: int| 0 <= i < m.len() - 1 && m.skip(1)[i].0 == k && m.skip(1)[i].1 == e;
                assert(m[i + 1].0 == k && m[i + 1].1 == e);
            }
            if !(emoji_for(m, k) is None) {
            } else {
                assert forall|i: int| 0 <= i < m.len() implies m[i].0 != k by {
                    if i > 0 {
                        assert(m.skip(1)[i - 1] == m[i]);
                    }
                }
            }
        }
    }
}

proof fn lemma_key_for_facts(m: Seq<(Seq<char>, Seq<char>)>, e: Seq<char>)
    ensures
        (key_for(m, e) is None) <==> (forall|i: int| 0 <= i < m.len() ==> m[i].1 != e),
        key_for(m, e) matches Some(k) ==> exists|i: int| 0 <= i < m.len() && m[i].0 == k && m[i].1 == e,
    decreases m.len(),
{
    if m.len() > 0 {
        lemma_key_for_facts(m.skip(1), e);
        if m[0].1 != e {
            assert forall|i: int| 0 <= i < m.len() - 1 implies m.skip(1)[i] == m[i + 1] by {}
            if let Some(k) = key_for(m, e) {
                let i = choose|i: int| 0 <= i < m.len() - 1 && m.skip(1)[i].0 == k && m.skip(1)[i].1 == e;
                assert(m[i + 1].0 == k && m[i + 1].1 == e);
            }
            if !(key_for(m, e) is None) {
            } else {
                assert forall|i: int| 0 <= i < m.len() implies m[i].1 != e by {
                    if i > 0 {
                        assert(m.skip(1)[i - 1] == m[i]);
                    }
                }
            }
        }
    }
}

proof fn lemma_unique_lookup(m: Seq<(Seq<char>, Seq<char>)>, i: int)
    requires
        names_unique(m),
        0 <= i < m.len(),
    ensures
        emoji_for(m, m[i].0) == Some(m[i].1),
    decreases m.len(),
{
    if i > 0 {
        assert(m[0].0 != m[i].0);
        assert(m.skip(1)[i - 1] == m[i]);
        assert(names_unique(m.skip(1))) by {
            assert forall|a: int, b: int| 0 <= a < b < m.skip(1).len() implies m.skip(1)[a].0
                != m.skip(1)[b].0 by {
                assert(m.skip(1)[a] == m[a + 1] && m.skip(1)[b] == m[b + 1]);
            }
        }
        lemma_unique_lookup(m.skip(1), i - 1);
    }
}

/// In a map whose names are unique, the two lookups agree: the name found for an emoji maps
/// to that emoji, and an emoji that some name maps to has a name.
pub proof fn lemma_lookups_agree(m: Seq<(Seq<char>, Seq<char>)>, k: Seq<char>, e: Seq<char>)
    requires
        names_unique(m),
    ensures
        key_for(m, e) == Some(k) ==> emoji_for(m, k) == Some(e),
        emoji_for(m, k) == Some(e) ==> key_for(m, e) is Some,
{
    lemma_key_for_facts(m, e);
    lemma_emoji_for_facts(m, k);
    if key_for(m, e) == Some(k) {
        let i = choose|i: int| 0 <= i < m.len() && m[i].0 == k && m[i].1 == e;
        lemma_unique_lookup(m, i);
    }
    if emoji_for(m, k) == Some(e) {
        let i = choose|i: int| 0 <= i < m.len() && m[i].0 == k && m[i].1 == e;
        assert(m[i].1 == e);
    }
}

proof fn lemma_emoji_for_push(d: Seq<(Seq<char>, Seq<char>)>, p: (Seq<char>, Seq<char>), k: Seq<char>)
    ensures
        emoji_for(d.push(p), k) == if emoji_for(d, k) is Some {
            emoji_for(d, k)
        } else if p.0 == k {
            Some(p.1)
        } else {
            None
        },
    decreases d.len(),
{
    if d.len() == 0 {
        assert(d.push(p).skip(1) =~= d);
    } else {
        assert(d.push(p).skip(1) =~= d.skip(1).push(p));
        assert(d.push(p)[0] == d[0]);
        lemma_emoji_for_push(d.skip(1), p, k);
    }
}

/// Keeping only the first pair of each name changes no lookup by name, and leaves the names unique.
proof fn lemma_first_named(pairs: Seq<(Seq<char>, Seq<char>)>)
    ensures
        names_unique(first_named(pairs)),
        forall|k: Seq<char>| #[trigger] emoji_for(first_named(pairs), k) == emoji_for(pairs, k),
    decreases pairs.len(),
{
    if pairs.len() > 0 {
        let init = pairs.drop_last();
        let last = pairs.last();
        let kept = first_named(init);
        lemma_first_named(init);
        assert(init.push(last) =~= pairs);
        assert forall|k: Seq<char>| #[trigger] emoji_for(first_named(pairs), k) == emoji_for(pairs, k) by {
            lemma_emoji_for_push(init, last, k);
            if !(emoji_for(kept, last.0) is Some) {
                lemma_emoji_for_push(kept, last, k);
            } else if k == last.0 {
            }
        }
        if !(emoji_for(kept, last.0) is Some) {
            lemma_emoji_for_facts(kept, last.0);
            let f = kept.push(last);
            assert forall|i: int, j: int| 0 <= i < j < f.len() implies f[i].0 != f[j].0 by {
                if j == f.len() - 1 {
                    assert(kept[i].0 != last.0);
                } else {
                    assert(kept[i].0 != kept[j].0);
                }
            }
        }
    }
}

impl View for EmojiMap {
    type V = Seq<(Seq<char>, Seq<char>)>;

    closed spec fn view(&self) -> Seq<(Seq<char>, Seq<char>)> {
        self.pairs@.map_values(|p: (String, String)| (p.0@, p.1@))
    }
}

impl EmojiMap {
    /// A map that knows no reaction.
    pub fn new() -> (r: Self)
        ensures
            r@.len() == 0,
            names_unique(r@),
    {
        let r = EmojiMap { pairs: Vec::new() };
        assert(r@.len() == 0);
        r
    }

    /// A map over (name, emoji) pairs; when a name comes twice its first emoji counts and
    /// the later pair is dropped.
    pub fn from_pairs(pairs: Vec<(String, String)>) -> (r: Self)
        ensures
            r@ == first_named(pairs@.map_values(|p: (String, String)| (p.0@, p.1@))),
            names_unique(r@),
            forall|k: Seq<char>| #[trigger] emoji_for(r@, k) == emoji_for(
                pairs@.map_values(|p: (String, String)| (p.0@, p.1@)),
                k,
            ),
    {
        let ghost all = pairs@.map_values(|p: (String, String)| (p.0@, p.1@));
        let mut out = EmojiMap { pairs: Vec::new() };
        let mut i: usize = 0;
        assert(all.take(0) =~= Seq::<(Seq<char>, Seq<char>)>::empty());
        assert(out@ =~= first_named(all.take(0)));
        while i < pairs.len()
            invariant
                i <= pairs@.len(),
                all == pairs@.map_values(|p: (String, String)| (p.0@, p.1@)),
                out@ == first_named(all.take(i as int)),
            decreases pairs@.len() - i,
        {
            let ghost before = out@;
            assert(all.take(i + 1).drop_last() =~= all.take(i as int));
            assert(all.take(i + 1).last() == all[i as int]);
            if out.find(pairs[i].0.as_str(), true).is_none() {
                let name = pairs[i].0.clone();
                let emoji = pairs[i].1.clone();
                out.pairs.push((name, emoji));
                assert(out@ =~= before.push(all[i as int]));
            }
            i = i + 1;
        }
        assert(all.take(i as int) =~= all);
        proof {
            lemma_first_named(all);
        }
        out
    }

    /// Index of the first pair whose name (`by_name`) or emoji matches `text`.
    fn find(&self, text: &str, by_name: bool) -> (r: Option<usize>)
        ensures
            by_name ==> match r {
                Some(i) => i < self@.len() && emoji_for(self@, text@) == Some(self@[i as int].1),
                None => emoji_for(self@, text@) is None,
            },
            !by_name ==> match r {
                Some(i) => i < self@.len() && key_for(self@, text@) == Some(self@[i as int].0),
                None => key_for(self@, text@) is None,
            },
    {
        let mut i: usize = 0;
        assert(self@.skip(0) =~= self@);
        while i < self.pairs.len()
            invariant
                i <= self@.len(),
                self@.len() == self.pairs@.len(),
                by_name ==> emoji_for(self@.skip(i as int), text@) == emoji_for(self@, text@),
                !by_name ==> key_for(self@.skip(i as int), text@) == key_for(self@, text@),
            decreases self.pairs@.len() - i,
        {
            let hit = if by_name {
                crate::text::same_text(self.pairs[i].0.as_str(), text)
            } else {
                crate::text::same_text(self.pairs[i].1.as_str(), text)
            };
            assert(self@.skip(i as int)[0] == self@[i as int]);
            if hit {
                return Some(i);
            }
            assert(self@.skip(i as int).skip(1) =~= self@.skip(i + 1));
            i = i + 1;
        }
        None
    }
}

/// The emoji for a reaction name.
pub fn get_emoji_by_key<'a>(map: &'a EmojiMap, key: &str) -> (r: Option<&'a str>)
    ensures
        match r {
            Some(e) => emoji_for(map@, key@) == Some(e@),
            None => emoji_for(map@, key@) is None,
        },
{
    match map.find(key, true) {
        Some(i) => Some(map.pairs[i].1.as_str()),
        None => None,
    }
}

/// The reaction name for an emoji.
pub fn get_key_by_emoji<'a>(map: &'a EmojiMap, emoji: &str) -> (r: Option<&'a str>)
    ensures
        match r {
            Some(k) => key_for(map@, emoji@) == Some(k@),
            None => key_for(map@, emoji@) is None,
        },
{
    match map.find(emoji, false) {
        Some(i) => Some(map.pairs[i].0.as_str()),
        None => None,
    }
}

/// The emoji a reaction (a name in any case, or an emoji) stands for: the emoji of its
/// lower-cased name when known, else the reaction as given.
pub open spec fn unicode_of(map: Seq<(Seq<char>, Seq<char>)>, lowered: Seq<char>, reaction: Seq<char>) -> Seq<char> {
    match emoji_for(map, lowered) {
        Some(e) => e,
        None => reaction,
    }
}

/// The reaction name for a reaction given as a name in any case or as an emoji: the
/// lower-cased text when it is a known name, else the name of the emoji, else the
/// lower-cased text.
pub open spec fn key_of(map: Seq<(Seq<char>, Seq<char>)>, lowered: Seq<char>, reaction: Seq<char>) -> Seq<char> {
    if emoji_for(map, lowered) is Some {
        lowered
    } else {
        match key_for(map, reaction) {
            Some(k) => k,
            None => lowered,
        }
    }
}

/// Maps a reaction (a name or an emoji) to an emoji.
pub fn map_to_unicode(map: &EmojiMap, reaction: &str) -> (r: String)
    ensures
        r@ == unicode_of(map@, lower_of(reaction@), reaction@),
{
    let lowered = lowercase(reaction);
    unicode_from_lowered(map, lowered.as_str(), reaction)
}

/// [`map_to_unicode`] given the lower-cased reaction.
pub fn unicode_from_lowered(map: &EmojiMap, lowered: &str, reaction: &str) -> (r: String)
    ensures
        r@ == unicode_of(map@, lowered@, reaction@),
{
    match get_emoji_by_key(map, lowered) {
        Some(e) => e.to_string(),
        None => reaction.to_string(),
    }
}

/// Maps a reaction (a name or an emoji) to a reaction name.
pub fn map_to_key(map: &EmojiMap, reaction: &str) -> (r: String)
    ensures
        r@ == key_of(map@, lower_of(reaction@), reaction@),
{
    let lowered = lowercase(reaction);
    key_from_lowered(map, lowered, reaction)
}

/// [`map_to_key`] given the lower-cased reaction.
pub fn key_from_lowered(map: &EmojiMap, lowered: String, reaction: &str) -> (r: String)
    ensures
        r@ == key_of(map@, lowered@, reaction@),
{
    if get_emoji_by_key(map, lowered.as_str()).is_some() {
        return lowered;
    }
    match get_key_by_emoji(map, reaction) {
        Some(k) => k.to_string(),
        None => lowered,
    }
}

/// One reaction in a summary: its emoji (its name when unknown), followed by the number of
/// people when more than one reacted.
pub open spec fn reaction_part(map: Seq<(Seq<char>, Seq<char>)>, e: Emotion) -> Seq<char> {
    let shown = match emoji_for(map, e.key@) {
        Some(s) => s,
        None => e.key@,
    };
    if e.users@.len() > 1 {
        shown + decimal(e.users@.len())
    } else {
        shown
    }
}

/// The parts of the first `n` reactions, separated by single spaces.
pub open spec fn summary_of(map: Seq<(Seq<char>, Seq<char>)>, emotions: Seq<Emotion>, n: nat) -> Seq<char>
    decreases n,
{
    if n == 0 || n > emotions.len() {
        Seq::empty()
    } else if n == 1 {
        reaction_part(map, emotions[0])
    } else {
        summary_of(map, emotions, (n - 1) as nat) + seq![' '] + reaction_part(map, emotions[n - 1])
    }
}

/// Summary of a message's reactions, e.g. an emoji followed by its count.
pub open spec fn reactions_summary(map: Seq<(Seq<char>, Seq<char>)>, props: Option<MessageProperties>) -> Seq<char> {
    match props {
        Some(p) => match p.emotions {
            Some(es) => summary_of(map, es@, es@.len()),
            None => Seq::empty(),
        },
        None => Seq::empty(),
    }
}

/// Writes the reactions of a message in one line.
pub fn format_reactions_summary(map: &EmojiMap, props: &Option<MessageProperties>) -> (r: String)
    ensures
        r@ == reactions_summary(map@, *props),
{
    let mut out: Vec<char> = Vec::new();
    if let Some(properties) = props {
        if let Some(emotions) = &properties.emotions {
            let mut i: usize = 0;
            while i < emotions.len()
                invariant
                    i <= emotions@.len(),
                    out@ == summary_of(map@, emotions@, i as nat),
                decreases emotions@.len() - i,
            {
                let e: &Emotion = &emotions[i];
                let shown = match get_emoji_by_key(map, e.key.as_str()) {
                    Some(s) => chars_of(s),
                    None => chars_of(e.key.as_str()),
                };
                if i > 0 {
                    out.push(' ');
                }
                push_all(&mut out, &shown);
                let count = e.users.len();
                if count > 1 {
                    let digits = decimal_chars(count as u64);
                    push_all(&mut out, &digits);
                }
                i = i + 1;
                assert(out@ =~= summary_of(map@, emotions@, i as nat));
            }
        }
    }
    string_of(&out)
}

} // verus!
