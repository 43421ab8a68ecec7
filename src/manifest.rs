use vstd::prelude::*;

verus! {

#[verifier::external_type_specification]
#[verifier::external_body]
pub struct ExJsonError(serde_json::Error);

/// `s` as a JSON string literal, quotes and escapes included.
pub uninterp spec fn json_string_of(s: Seq<char>) -> Seq<char>;

/// Relies on serde_json's `to_string` on a `str`: the JSON string literal
/// that stands for `s`, which depends on `s` alone. Serialising a `str`
/// into the `Vec` writer that `to_string` uses does not fail.
#[verifier::external_body]
fn json_string(s: &String) -> (r: Result<String, serde_json::Error>)
    ensures
        r is Ok,
        r matches Ok(j) ==> j@ == json_string_of(s@),
{
    serde_json::to_string(s.as_str())
}

/// One member `"path":"hash"` of the JSON object of entries.
pub open spec fn json_member(p: (String, String)) -> Seq<char> {
    json_string_of(p.0@) + seq![':'] + json_string_of(p.1@)
}

/// The members of the pairs, separated by commas.
pub open spec fn json_members(s: Seq<(String, String)>) -> Seq<char>
    decreases s.len(),
{
    if s.len() == 0 {
        Seq::empty()
    } else if s.len() == 1 {
        json_member(s[0])
    } else {
        json_members(s.drop_last()) + seq![','] + json_member(s.last())
    }
}

/// The persisted form of a manifest: `{"entries":{"<path>":"<hash>",...}}`.
pub open spec fn manifest_json(s: Seq<(String, String)>) -> Seq<char> {
    seq!['{', '"', 'e', 'n', 't', 'r', 'i', 'e', 's', '"', ':', '{'] + json_members(s) + seq![
        '}',
        '}',
    ]
}

/// The map that a list of (path, hash) pairs describes: a later pair for a
/// path overrides an earlier one.
pub open spec fn pairs_to_map(s: Seq<(String, String)>) -> Map<Seq<char>, Seq<char>>
    decreases s.len(),
{
    if s.len() == 0 {
        Map::empty()
    } else {
        pairs_to_map(s.drop_last()).insert(s.last().0@, s.last().1@)
    }
}

/// No path occurs twice among the pairs.
pub open spec fn keys_unique(s: Seq<(String, String)>) -> bool {
    forall|i: int, j: int| 0 <= i < j < s.len() ==> s[i].0@ != s[j].0@
}

proof fn lemma_contains_key(s: Seq<(String, String)>, k: Seq<char>)
    ensures
        pairs_to_map(s).contains_key(k) <==> exists|i: int| 0 <= i < s.len() && s[i].0@ == k,
    decreases s.len(),
{
    if s.len() > 0 {
        lemma_contains_key(s.drop_last(), k);
        if pairs_to_map(s).contains_key(k) && s.last().0@ != k {
            let i = choose|i: int| 0 <= i < s.len() - 1 && s.drop_last()[i].0@ == k;
            assert(s[i].0@ == k);
        }
        if exists|i: int| 0 <= i < s.len() && s[i].0@ == k {
            let i = choose|i: int| 0 <= i < s.len() && s[i].0@ == k;
            if i < s.len() - 1 {
                assert(s.drop_last()[i].0@ == k);
            }
        }
    }
}

proof fn lemma_value_at(s: Seq<(String, String)>, i: int)
    requires
        keys_unique(s),
        0 <= i < s.len(),
    ensures
        pairs_to_map(s).contains_key(s[i].0@),
        pairs_to_map(s)[s[i].0@] == s[i].1@,
    decreases s.len(),
{
    if i < s.len() - 1 {
        assert(keys_unique(s.drop_last()));
        assert(s.drop_last()[i] == s[i]);
        lemma_value_at(s.drop_last(), i);
        assert(s.last().0@ != s[i].0@);
    }
}

proof fn lemma_update_value(s: Seq<(String, String)>, i: int, v: String)
    requires
        keys_unique(s),
        0 <= i < s.len(),
    ensures
        pairs_to_map(s.update(i, (s[i].0, v))) == pairs_to_map(s).insert(s[i].0@, v@),
    decreases s.len(),
{
    let t = s.update(i, (s[i].0, v));
    if i == s.len() - 1 {
        assert(t.drop_last() == s.drop_last());
        assert(pairs_to_map(t) =~= pairs_to_map(s).insert(s[i].0@, v@));
    } else {
        assert(keys_unique(s.drop_last()));
        assert(t.drop_last() == s.drop_last().update(i, (s[i].0, v)));
        lemma_update_value(s.drop_last(), i, v);
        assert(pairs_to_map(t) =~= pairs_to_map(s).insert(s[i].0@, v@));
    }
}

/// The persisted record of what the store holds: a map from a relative file
/// path to the hex digest of that file's contents.
pub struct Manifest {
    entries: Vec<(String, String)>,
}

impl View for Manifest {
    type V = Map<Seq<char>, Seq<char>>;

    closed spec fn view(&self) -> Map<Seq<char>, Seq<char>> {
        pairs_to_map(self.entries@)
    }
}

impl Manifest {
    /// Each path is held once.
    pub closed spec fn wf(&self) -> bool {
        keys_unique(self.entries@)
    }

    /// The pairs in the order in which their paths were first inserted.
    pub closed spec fn pairs(&self) -> Seq<(String, String)> {
        self.entries@
    }

    pub proof fn lemma_pairs(&self)
        requires
            self.wf(),
        ensures
            keys_unique(self.pairs()),
            self@ == pairs_to_map(self.pairs()),
            forall|k: Seq<char>|
                self@.contains_key(k) <==> exists|i: int|
                    0 <= i < self.pairs().len() && (#[trigger] self.pairs()[i]).0@ == k,
            forall|i: int|
                0 <= i < self.pairs().len() ==> self@[(#[trigger] self.pairs()[i]).0@]
                    == self.pairs()[i].1@,
    {
        assert forall|k: Seq<char>|
            self@.contains_key(k) <==> exists|i: int|
                0 <= i < self.pairs().len() && (#[trigger] self.pairs()[i]).0@ == k by {
            lemma_contains_key(self.entries@, k);
            if self@.contains_key(k) {
                let i = choose|i: int| 0 <= i < self.entries@.len() && self.entries@[i].0@ == k;
                assert(self.pairs()[i].0@ == k);
            }
        }
        assert forall|i: int| 0 <= i < self.pairs().len() implies self@[(
        #[trigger] self.pairs()[i]).0@] == self.pairs()[i].1@ by {
            lemma_value_at(self.entries@, i);
        }
    }

    /// The empty manifest, which stands for a store with nothing published.
    pub fn new() -> (r: Manifest)
        ensures
            r.wf(),
            r@ == Map::<Seq<char>, Seq<char>>::empty(),
    {
        Manifest { entries: Vec::new() }
    }

    /// The number of paths.
    pub fn len(&self) -> (r: usize)
        requires
            self.wf(),
        ensures
            r == self@.len(),
    {
        proof {
            self.lemma_pairs();
            lemma_len(self.entries@);
        }
        self.entries.len()
    }

    /// Where `path` stands among the pairs, if anywhere.
    fn position(&self, path: &String) -> (r: Option<usize>)
        requires
            self.wf(),
        ensures
            match r {
                Some(i) => i < self.entries@.len() && self.entries@[i as int].0@ == path@,
                None => !self@.contains_key(path@),
            },
    {
        let mut i: usize = 0;
        while i < self.entries.len()
            invariant
                i <= self.entries@.len(),
                forall|j: int| 0 <= j < i ==> self.entries@[j].0@ != path@,
            decreases self.entries@.len() - i,
        {
            if self.entries[i].0 == *path {
                return Some(i);
            }
            i = i + 1;
        }
        proof {
            lemma_contains_key(self.entries@, path@);
        }
        None
    }

    /// The hash recorded for `path`.
    pub fn get(&self, path: &String) -> (r: Option<&String>)
        requires
            self.wf(),
        ensures
            r.is_some() == self@.contains_key(path@),
            r.is_some() ==> r.unwrap()@ == self@[path@],
    {
        match self.position(path) {
            Some(i) => {
                proof {
                    lemma_value_at(self.entries@, i as int);
                }
                Some(&self.entries[i].1)
            },
            None => None,
        }
    }

    /// Whether `path` is recorded.
    pub fn contains(&self, path: &String) -> (r: bool)
        requires
            self.wf(),
        ensures
            r == self@.contains_key(path@),
    {
        self.get(path).is_some()
    }

    /// Records `hash` for `path`, replacing what was recorded for it.
    pub fn insert(&mut self, path: String, hash: String)
        requires
            old(self).wf(),
        ensures
            final(self).wf(),
            final(self)@ == old(self)@.insert(path@, hash@),
    {
        match self.position(&path) {
            Some(i) => {
                proof {
                    lemma_update_value(self.entries@, i as int, hash);
                }
                let p = self.entries[i].0.clone();
                self.entries.set(i, (p, hash));
            },
            None => {
                proof {
                    lemma_contains_key(self.entries@, path@);
                }
                self.entries.push((path, hash));
                proof {
                    assert(self.entries@.drop_last() == old(self).entries@);
                }
            },
        }
    }

    /// The recorded paths, each once.
    pub fn paths(&self) -> (r: Vec<String>)
        requires
            self.wf(),
        ensures
            r@.len() == self@.len(),
            forall|i: int, j: int| 0 <= i < j < r@.len() ==> r@[i]@ != r@[j]@,
            forall|i: int| 0 <= i < r@.len() ==> self@.contains_key(#[trigger] r@[i]@),
            forall|k: Seq<char>|
                self@.contains_key(k) ==> exists|i: int| 0 <= i < r@.len() && r@[i]@ == k,
    {
        proof {
            self.lemma_pairs();
            lemma_len(self.entries@);
        }
        let mut r: Vec<String> = Vec::new();
        let mut i: usize = 0;
        while i < self.entries.len()
            invariant
                i <= self.entries@.len(),
                r@.len() == i,
                forall|j: int| 0 <= j < i ==> r@[j]@ == self.entries@[j].0@,
            decreases self.entries@.len() - i,
        {
            r.push(self.entries[i].0.clone());
            i = i + 1;
        }
        proof {
            assert forall|k: Seq<char>| self@.contains_key(k) implies exists|i: int|
                0 <= i < r@.len() && r@[i]@ == k by {
                let i = choose|i: int|
                    0 <= i < self.pairs().len() && (#[trigger] self.pairs()[i]).0@ == k;
                assert(r@[i]@ == k);
            }
            assert forall|i: int| 0 <= i < r@.len() implies self@.contains_key(
                #[trigger] r@[i]@) by {
                assert(self.pairs()[i].0@ == r@[i]@);
            }
        }
        r
    }
}

impl Manifest {
    /// The JSON text under which the manifest is stored, its pairs in the
    /// order of `pairs`.
    pub fn to_json(&self) -> (r: String)
        ensures
            r@ == manifest_json(self.pairs()),
    {
        let mut r = String::new();
        r.append("{\"entries\":{");
        proof {
            reveal_strlit("{\"entries\":{");
        }
        let mut i: usize = 0;
        while i < self.entries.len()
            invariant
                i <= self.entries@.len(),
                r@ == seq!['{', '"', 'e', 'n', 't', 'r', 'i', 'e', 's', '"', ':', '{']
                    + json_members(self.entries@.take(i as int)),
            decreases self.entries@.len() - i,
        {
            if i > 0 {
                r.append(",");
                proof {
                    reveal_strlit(",");
                }
            }
            let k = json_string(&self.entries[i].0).unwrap();
            let v = json_string(&self.entries[i].1).unwrap();
            r.append(k.as_str());
            r.append(":");
            proof {
                reveal_strlit(":");
            }
            r.append(v.as_str());
            proof {
                let t = self.entries@.take(i + 1);
                assert(t.drop_last() =~= self.entries@.take(i as int));
                if i == 0 {
                    assert(json_members(self.entries@.take(0)) =~= Seq::<char>::empty());
                }
                assert(r@ =~= seq!['{', '"', 'e', 'n', 't', 'r', 'i', 'e', 's', '"', ':', '{']
                    + json_members(t));
            }
            i = i + 1;
        }
        r.append("}}");
        proof {
            reveal_strlit("}}");
            assert(self.entries@.take(self.entries@.len() as int) =~= self.entries@);
            assert(r@ =~= manifest_json(self.pairs()));
        }
        r
    }
}

proof fn lemma_len(s: Seq<(String, String)>)
    requires
        keys_unique(s),
    ensures
        pairs_to_map(s).dom().finite(),
        pairs_to_map(s).len() == s.len(),
    decreases s.len(),
{
    if s.len() > 0 {
        assert(keys_unique(s.drop_last()));
        lemma_len(s.drop_last());
        lemma_contains_key(s.drop_last(), s.last().0@);
        if pairs_to_map(s.drop_last()).contains_key(s.last().0@) {
            let i = choose|i: int| 0 <= i < s.len() - 1 && s.drop_last()[i].0@ == s.last().0@;
            assert(s[i].0@ == s[s.len() - 1].0@);
        }
    }
}

} // verus!
