//! The vocabulary store: named, ordered, non-empty word lists ("levels"),
//! loaded once at startup and read-only afterwards.

use vstd::prelude::*;

verus! {

/// One vocabulary item: the target word to type and its display translations.
pub struct WordEntry {
    pub name: String,
    pub trans: Vec<String>,
}

/// The mathematical model of a `WordEntry`.
#[verifier::ext_equal]
pub struct WordEntryView {
    pub name: Seq<char>,
    pub trans: Seq<Seq<char>>,
}

impl View for WordEntry {
    type V = WordEntryView;

    open spec fn view(&self) -> WordEntryView {
        WordEntryView { name: self.name@, trans: self.trans.deep_view() }
    }
}

impl DeepView for WordEntry {
    type V = WordEntryView;

    open spec fn deep_view(&self) -> WordEntryView {
        self.view()
    }
}

impl WordEntryView {
    /// A usable entry has a non-empty word and at least one translation.
    pub open spec fn wf(self) -> bool {
        &&& self.name.len() > 0
        &&& self.trans.len() > 0
    }
}

impl Clone for WordEntry {
    fn clone(&self) -> (res: Self)
        ensures
            res@ == self@,
    {
        let mut trans: Vec<String> = Vec::new();
        let mut i: usize = 0;
        while i < self.trans.len()
            invariant
                i <= self.trans.len(),
                trans@ =~= self.trans@.take(i as int),
            decreases self.trans.len() - i,
        {
            trans.push(self.trans[i].clone());
            i = i + 1;
        }
        proof {
            assert(trans@ =~= self.trans@);
        }
        let res = WordEntry { name: self.name.clone(), trans };
        proof {
            assert(res@ =~~= self@);
        }
        res
    }
}

/// A named, ordered word list selectable by the user.
pub struct Level {
    pub key: String,
    pub words: Vec<WordEntry>,
}

/// The mathematical model of a `Level`.
#[verifier::ext_equal]
pub struct LevelView {
    pub key: Seq<char>,
    pub words: Seq<WordEntryView>,
}

impl View for Level {
    type V = LevelView;

    open spec fn view(&self) -> LevelView {
        LevelView { key: self.key@, words: self.words.deep_view() }
    }
}

impl DeepView for Level {
    type V = LevelView;

    open spec fn deep_view(&self) -> LevelView {
        self.view()
    }
}

impl LevelView {
    /// A usable level has at least one word, and every entry is usable.
    pub open spec fn wf(self) -> bool {
        &&& self.words.len() > 0
        &&& forall|i: int| 0 <= i < self.words.len() ==> (#[trigger] self.words[i]).wf()
    }
}

/// The set of available levels; fixed after a successful construction.
pub struct VocabStore {
    pub levels: Vec<Level>,
}

impl View for VocabStore {
    type V = Seq<LevelView>;

    open spec fn view(&self) -> Seq<LevelView> {
        self.levels.deep_view()
    }
}

/// The one recoverable error of the store and the session: a level key that
/// names no available level.
#[derive(Clone, Copy, PartialEq, Eq, Structural, Debug)]
pub enum VocabError {
    UnknownLevel,
}

/// What a usable collection of levels looks like: at least one level, every
/// level usable, and level keys pairwise distinct.
pub open spec fn levels_wf(ls: Seq<LevelView>) -> bool {
    &&& ls.len() > 0
    &&& forall|i: int| 0 <= i < ls.len() ==> (#[trigger] ls[i]).wf()
    &&& forall|i: int, j: int|
        0 <= i < ls.len() && 0 <= j < ls.len() && i != j ==> ls[i].key != ls[j].key
}

impl VocabStore {
    /// A usable store holds a usable collection of levels.
    pub open spec fn wf(self) -> bool {
        levels_wf(self@)
    }

    /// Whether some level carries this key.
    pub open spec fn has_level(self, key: Seq<char>) -> bool {
        exists|i: int| 0 <= i < self@.len() && (#[trigger] self@[i]).key == key
    }

    /// Builds a store from the given levels, eagerly validating all of them:
    /// construction succeeds exactly when the levels form a usable collection.
    pub fn new(levels: Vec<Level>) -> (r: Option<VocabStore>)
        ensures
            r is Some <==> levels_wf(levels.deep_view()),
            r matches Some(s) ==> s@ == levels.deep_view() && s.wf(),
    {
        let n = levels.len();
        if n == 0 {
            return None;
        }
        let mut i: usize = 0;
        while i < n
            invariant
                n == levels@.len(),
                i <= n,
                forall|k: int| 0 <= k < i ==> (#[trigger] levels.deep_view()[k]).wf(),
            decreases n - i,
        {
            let words_len = levels[i].words.len();
            if words_len == 0 {
                proof {
                    assert(!levels.deep_view()[i as int].wf());
                }
                return None;
            }
            let mut j: usize = 0;
            while j < words_len
                invariant
                    n == levels@.len(),
                    i < n,
                    words_len == levels@[i as int].words@.len(),
                    j <= words_len,
                    forall|k: int|
                        0 <= k < j ==> (#[trigger] levels.deep_view()[i as int].words[k]).wf(),
                decreases words_len - j,
            {
                if levels[i].words[j].name.as_str().is_empty() || levels[i].words[j].trans.len()
                    == 0 {
                    proof {
                        assert(!levels.deep_view()[i as int].words[j as int].wf());
                        assert(!levels.deep_view()[i as int].wf());
                    }
                    return None;
                }
                j = j + 1;
            }
            proof {
                assert(levels.deep_view()[i as int].wf());
            }
            i = i + 1;
        }
        let mut a: usize = 1;
        while a < n
            invariant
                n == levels@.len(),
                1 <= a <= n,
                forall|x: int, y: int|
                    0 <= y < x < a ==> levels.deep_view()[x].key != levels.deep_view()[y].key,
            decreases n - a,
        {
            let mut b: usize = 0;
            while b < a
                invariant
                    n == levels@.len(),
                    b <= a < n,
                    forall|y: int|
                        0 <= y < b ==> levels.deep_view()[a as int].key != levels.deep_view()[y].key,
                decreases a - b,
            {
                if levels[a].key == levels[b].key {
                    proof {
                        assert(levels.deep_view()[a as int].key == levels.deep_view()[b as int].key);
                    }
                    return None;
                }
                b = b + 1;
            }
            a = a + 1;
        }
        proof {
            assert forall|i0: int, j0: int|
                0 <= i0 < levels.deep_view().len() && 0 <= j0 < levels.deep_view().len() && i0
                    != j0 implies levels.deep_view()[i0].key != levels.deep_view()[j0].key by {
                if i0 < j0 {
                    assert(levels.deep_view()[j0].key != levels.deep_view()[i0].key);
                }
            }
            assert(levels_wf(levels.deep_view()));
        }
        Some(VocabStore { levels })
    }

    /// The level keys, in their fixed presentation order.
    pub fn list_levels(&self) -> (r: Vec<String>)
        ensures
            r@.len() == self@.len(),
            forall|i: int| 0 <= i < r@.len() ==> (#[trigger] r@[i])@ == self@[i].key,
    {
        let mut r: Vec<String> = Vec::new();
        let mut i: usize = 0;
        while i < self.levels.len()
            invariant
                i <= self.levels.len(),
                r@.len() == i,
                forall|k: int| 0 <= k < i ==> (#[trigger] r@[k])@ == self@[k].key,
            decreases self.levels.len() - i,
        {
            r.push(self.levels[i].key.clone());
            i = i + 1;
        }
        r
    }

    /// The position of the level carrying this key, if any.
    pub fn find_level(&self, key: &String) -> (r: Option<usize>)
        ensures
            r matches Some(i) ==> i < self@.len() && self@[i as int].key == key@,
            r is None ==> !self.has_level(key@),
    {
        let mut i: usize = 0;
        while i < self.levels.len()
            invariant
                i <= self.levels.len(),
                forall|k: int| 0 <= k < i ==> (#[trigger] self@[k]).key != key@,
            decreases self.levels.len() - i,
        {
            if self.levels[i].key == *key {
                return Some(i);
            }
            i = i + 1;
        }
        None
    }

    /// The word sequence of the level carrying this key; fails with
    /// `UnknownLevel` exactly when no level carries it.
    pub fn words_for(&self, key: &String) -> (r: Result<Vec<WordEntry>, VocabError>)
        ensures
            r is Ok <==> self.has_level(key@),
            r matches Ok(ws) ==> exists|i: int|
                0 <= i < self@.len() && (#[trigger] self@[i]).key == key@ && ws.deep_view()
                    == self@[i].words,
            r is Err ==> r == Result::<Vec<WordEntry>, VocabError>::Err(VocabError::UnknownLevel),
    {
        match self.find_level(key) {
            None => Err(VocabError::UnknownLevel),
            Some(i) => {
                let words = &self.levels[i].words;
                let mut ws: Vec<WordEntry> = Vec::new();
                let mut j: usize = 0;
                while j < words.len()
                    invariant
                        i < self.levels@.len(),
                        words == &self.levels@[i as int].words,
                        j <= words@.len(),
                        ws@.len() == j,
                        forall|k: int|
                            0 <= k < j ==> (#[trigger] ws@[k]).deep_view() == words.deep_view()[k],
                    decreases words@.len() - j,
                {
                    let w = words[j].clone();
                    proof {
                        assert(w.deep_view() == words.deep_view()[j as int]);
                    }
                    ws.push(w);
                    j = j + 1;
                }
                proof {
                    assert(ws.deep_view() =~= self@[i as int].words);
                }
                Ok(ws)
            },
        }
    }
}

} // verus!
