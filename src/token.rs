use vstd::prelude::*;

verus! {

/// Key under which the long-lived refresh credential is stored.
pub const REFRESH_TOKEN_KEY: &'static str = "refresh_token";

/// Key under which the derived messaging (skype) token is stored.
pub const SKYPE_TOKEN_KEY: &'static str = "skype_token";

/// A bearer credential together with the epoch second at which it stops being usable.
#[derive(Debug)]
pub struct AccessToken {
    pub value: String,
    pub expires: u64,
}

impl Clone for AccessToken {
    fn clone(&self) -> (r: Self)
        ensures
            r == *self,
    {
        AccessToken { value: self.value.clone(), expires: self.expires }
    }
}

impl AccessToken {
    /// A token is usable at `now` while it has not expired yet.
    pub open spec fn usable_at(self, now: u64) -> bool {
        self.expires >= now
    }
}

/// What the provider hands out when a device-code sign-in starts.
#[derive(Debug, Clone)]
pub struct DeviceCodeInfo {
    pub user_code: String,
    pub device_code: String,
    pub verification_url: String,
    pub expires_in: String,
    pub interval: String,
    pub message: String,
}

/// The map built by inserting each pair in turn, later pairs overwriting earlier ones.
pub open spec fn map_of_pairs(pairs: Seq<(String, AccessToken)>) -> Map<Seq<char>, AccessToken>
    decreases pairs.len(),
{
    if pairs.len() == 0 {
        Map::empty()
    } else {
        let last = pairs.last();
        map_of_pairs(pairs.drop_last()).insert(last.0@, last.1)
    }
}

/// Holds every token by name; names are unique.
pub struct TokenStore {
    entries: Vec<(String, AccessToken)>,
    contents: Ghost<Map<Seq<char>, AccessToken>>,
}

impl View for TokenStore {
    type V = Map<Seq<char>, AccessToken>;

    closed spec fn view(&self) -> Map<Seq<char>, AccessToken> {
        self.contents@
    }
}

/// The entries have distinct names and list exactly the contents.
spec fn entries_agree(entries: Seq<(String, AccessToken)>, contents: Map<Seq<char>, AccessToken>) -> bool {
    &&& forall|i: int, j: int|
        0 <= i < j < entries.len() ==> #[trigger] entries[i].0@ != #[trigger] entries[j].0@
    &&& forall|i: int|
        0 <= i < entries.len() ==> {
            &&& contents.contains_key(#[trigger] entries[i].0@)
            &&& contents[entries[i].0@] == entries[i].1
        }
    &&& forall|k: Seq<char>|
        #[trigger] contents.contains_key(k) ==> exists|i: int|
            0 <= i < entries.len() && #[trigger] entries[i].0@ == k
}

impl TokenStore {
    #[verifier::type_invariant]
    spec fn entries_match(self) -> bool {
        entries_agree(self.entries@, self.contents@)
    }

    /// An empty store.
    pub fn new() -> (r: Self)
        ensures
            r@ == Map::<Seq<char>, AccessToken>::empty(),
    {
        TokenStore { entries: Vec::new(), contents: Ghost(Map::empty()) }
    }

    /// Position of the entry called `name`, if there is one.
    fn position(&self, name: &str) -> (r: Option<usize>)
        ensures
            match r {
                Some(i) => i < self.entries@.len() && self.entries@[i as int].0@ == name@,
                None => !self@.contains_key(name@),
            },
    {
        proof {
            use_type_invariant(self);
        }
        let mut i: usize = 0;
        while i < self.entries.len()
            invariant
                i <= self.entries@.len(),
                forall|j: int| 0 <= j < i ==> self.entries@[j].0@ != name@,
            decreases self.entries@.len() - i,
        {
            if crate::text::same_text(self.entries[i].0.as_str(), name) {
                return Some(i);
            }
            i = i + 1;
        }
        None
    }

    /// The token stored under `scope`.
    pub fn get(&self, scope: &str) -> (r: Option<&AccessToken>)
        ensures
            r.is_some() == self@.contains_key(scope@),
            r matches Some(t) ==> *t == self@[scope@],
    {
        proof {
            use_type_invariant(self);
        }
        match self.position(scope) {
            Some(i) => Some(&self.entries[i].1),
            None => None,
        }
    }

    /// Stores `token` under `scope`, replacing what was there.
    pub fn insert(&mut self, scope: String, token: AccessToken)
        ensures
            final(self)@ == old(self)@.insert(scope@, token),
    {
        proof {
            use_type_invariant(&*self);
        }
        let ghost key = scope@;
        let ghost old_contents = self.contents@;
        let found = self.position(scope.as_str());
        let mut current = TokenStore::new();
        core::mem::swap(self, &mut current);
        proof {
            use_type_invariant(&current);
        }
        let TokenStore { mut entries, contents } = current;
        match found {
            Some(i) => {
                entries.set(i, (scope, token));
            },
            None => {
                entries.push((scope, token));
            },
        }
        let ghost new_contents = old_contents.insert(key, token);
        proof {
            let old_entries = old(self).entries@;
            assert forall|a: int, b: int| 0 <= a < b < entries@.len() implies #[trigger] entries@[a].0@
                != #[trigger] entries@[b].0@ by {
                if found is None && b == old_entries.len() {
                    assert(old_contents.contains_key(old_entries[a].0@));
                } else {
                    assert(old_entries[a].0@ != old_entries[b].0@);
                }
            }
            assert forall|a: int| 0 <= a < entries@.len() implies {
                &&& new_contents.contains_key(#[trigger] entries@[a].0@)
                &&& new_contents[entries@[a].0@] == entries@[a].1
            } by {
                if entries@[a].0@ != key {
                    assert(entries@[a] == old_entries[a]);
                } else if found is None {
                    if a < old_entries.len() {
                        assert(old_contents.contains_key(old_entries[a].0@));
                    }
                } else {
                    let i = found->0 as int;
                    if a != i {
                        assert(old_entries[a].0@ != old_entries[i].0@);
                    }
                }
            }
            assert forall|k: Seq<char>| #[trigger] new_contents.contains_key(k) implies exists|
                i: int,
            | 0 <= i < entries@.len() && #[trigger] entries@[i].0@ == k by {
                if k != key {
                    let i = choose|i: int|
                        0 <= i < old(self).entries@.len() && #[trigger] old(
                            self,
                        ).entries@[i].0@ == k;
                    assert(entries@[i].0@ == k);
                } else {
                    let j = match found {
                        Some(i) => i as int,
                        None => old(self).entries@.len() as int,
                    };
                    assert(entries@[j].0@ == k);
                }
            }
        }
        assert(entries_agree(entries@, new_contents));
        *self = TokenStore { entries, contents: Ghost(new_contents) };
    }

    /// Removes every token.
    pub fn clear(&mut self)
        ensures
            final(self)@ == Map::<Seq<char>, AccessToken>::empty(),
    {
        *self = TokenStore::new();
    }

    /// The long-lived refresh credential, if signed in.
    pub fn refresh_token(&self) -> (r: Option<&AccessToken>)
        ensures
            r.is_some() == self@.contains_key(REFRESH_TOKEN_KEY@),
            r matches Some(t) ==> *t == self@[REFRESH_TOKEN_KEY@],
    {
        self.get(REFRESH_TOKEN_KEY)
    }

    /// The derived messaging token, if one was issued.
    pub fn skype_token(&self) -> (r: Option<&AccessToken>)
        ensures
            r.is_some() == self@.contains_key(SKYPE_TOKEN_KEY@),
            r matches Some(t) ==> *t == self@[SKYPE_TOKEN_KEY@],
    {
        self.get(SKYPE_TOKEN_KEY)
    }

    /// Whether the store holds no token at all.
    pub fn is_empty(&self) -> (r: bool)
        ensures
            r == (self@.dom() == Set::<Seq<char>>::empty()),
    {
        proof {
            use_type_invariant(self);
        }
        if self.entries.len() == 0 {
            assert(self@.dom() =~= Set::<Seq<char>>::empty());
            true
        } else {
            assert(self@.dom().contains(self.entries@[0].0@));
            false
        }
    }

    /// Builds a store from (name, token) pairs; a later pair replaces an earlier one of the same name.
    pub fn from_pairs(pairs: Vec<(String, AccessToken)>) -> (r: Self)
        ensures
            r@ == map_of_pairs(pairs@),
    {
        let mut store = TokenStore::new();
        let mut i: usize = 0;
        while i < pairs.len()
            invariant
                i <= pairs@.len(),
                store@ == map_of_pairs(pairs@.subrange(0, i as int)),
            decreases pairs@.len() - i,
        {
            let name = pairs[i].0.clone();
            let token = pairs[i].1.clone();
            proof {
                assert(pairs@.subrange(0, i as int + 1).drop_last() =~= pairs@.subrange(0, i as int));
            }
            store.insert(name, token);
            i = i + 1;
        }
        assert(pairs@.subrange(0, i as int) =~= pairs@);
        store
    }

    /// Every (name, token) pair held, each name once.
    pub fn to_pairs(&self) -> (r: Vec<(String, AccessToken)>)
        ensures
            map_of_pairs(r@) == self@,
            forall|i: int, j: int| 0 <= i < j < r@.len() ==> r@[i].0@ != r@[j].0@,
    {
        proof {
            use_type_invariant(self);
        }
        let mut out: Vec<(String, AccessToken)> = Vec::new();
        let mut i: usize = 0;
        while i < self.entries.len()
            invariant
                i <= self.entries@.len(),
                out@ == self.entries@.subrange(0, i as int),
            decreases self.entries@.len() - i,
        {
            let name = self.entries[i].0.clone();
            let token = self.entries[i].1.clone();
            out.push((name, token));
            i = i + 1;
            assert(out@ =~= self.entries@.subrange(0, i as int));
        }
        assert(out@ =~= self.entries@);
        proof {
            lemma_distinct_pairs_map(self.entries@);
            assert(map_of_pairs(out@) =~= self@);
        }
        out
    }
}

/// Pairs with distinct names fold to the map that sends each name to its own token.
proof fn lemma_distinct_pairs_map(pairs: Seq<(String, AccessToken)>)
    requires
        forall|i: int, j: int| 0 <= i < j < pairs.len() ==> pairs[i].0@ != pairs[j].0@,
    ensures
        forall|i: int|
            0 <= i < pairs.len() ==> #[trigger] map_of_pairs(pairs).contains_key(pairs[i].0@)
                && map_of_pairs(pairs)[pairs[i].0@] == pairs[i].1,
        forall|k: Seq<char>|
            #[trigger] map_of_pairs(pairs).contains_key(k) ==> exists|i: int|
                0 <= i < pairs.len() && pairs[i].0@ == k,
    decreases pairs.len(),
{
    if pairs.len() > 0 {
        let init = pairs.drop_last();
        lemma_distinct_pairs_map(init);
        assert forall|k: Seq<char>| #[trigger] map_of_pairs(pairs).contains_key(k) implies exists|
            i: int,
        | 0 <= i < pairs.len() && pairs[i].0@ == k by {
            assert(map_of_pairs(pairs) == map_of_pairs(init).insert(pairs.last().0@, pairs.last().1));
            if k != pairs.last().0@ {
                assert(map_of_pairs(init).contains_key(k));
                let i = choose|i: int| 0 <= i < init.len() && init[i].0@ == k;
                assert(pairs[i].0@ == k);
            } else {
                assert(pairs[pairs.len() - 1].0@ == k);
            }
        }
        assert(map_of_pairs(pairs) == map_of_pairs(init).insert(pairs.last().0@, pairs.last().1));
        assert forall|i: int| 0 <= i < pairs.len() implies #[trigger] map_of_pairs(
            pairs,
        ).contains_key(pairs[i].0@) && map_of_pairs(pairs)[pairs[i].0@] == pairs[i].1 by {
            if i < pairs.len() - 1 {
                assert(init[i] == pairs[i]);
                assert(pairs[i].0@ != pairs[pairs.len() - 1].0@);
            }
        }
    }
}

} // verus!
