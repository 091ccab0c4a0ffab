//! The typing-session state machine: owns the vocabulary store, the current
//! level, word index, chapter, input buffer, run status and pronunciation
//! preference; interprets input events and emits audio intents for the host.

use crate::events::Key;
use crate::vocab::{LevelView, VocabError, VocabStore, WordEntry, WordEntryView};
use vstd::prelude::*;

verus! {

/// The fixed number of words in a chapter.
pub const CHAPTER_SIZE: usize = 20;

/// Whether the session interprets character input.
#[derive(Clone, Copy, PartialEq, Eq, Structural, Debug)]
pub enum Status {
    Stopped,
    Running,
}

/// The pronunciation variant used for word playback.
#[derive(Clone, Copy, PartialEq, Eq, Structural, Debug)]
pub enum Pronunc {
    AmE,
    BrE,
}

impl Pronunc {
    /// The two variants, in the order a selector presents them.
    pub fn iterator() -> (r: Vec<Pronunc>)
        ensures
            r@ =~= seq![Pronunc::AmE, Pronunc::BrE],
    {
        let mut v: Vec<Pronunc> = Vec::new();
        v.push(Pronunc::AmE);
        v.push(Pronunc::BrE);
        v
    }

    /// The numeric code of the variant, as selectors transmit it.
    pub fn code(&self) -> (r: u8)
        ensures
            *self is AmE ==> r == 0,
            *self is BrE ==> r == 1,
    {
        match self {
            Pronunc::AmE => 0,
            Pronunc::BrE => 1,
        }
    }

    /// A human-readable label for the variant.
    pub fn label(&self) -> (r: String)
        ensures
            *self is AmE ==> r@ == "American pronunciations"@,
            *self is BrE ==> r@ == "British pronunciations"@,
    {
        match self {
            Pronunc::AmE => String::from_str("American pronunciations"),
            Pronunc::BrE => String::from_str("British pronunciations"),
        }
    }
}

/// What a pronunciation code selects: 0 is American English, everything else
/// British English.
pub open spec fn pronunc_of_code(v: u8) -> Pronunc {
    if v == 0 {
        Pronunc::AmE
    } else {
        Pronunc::BrE
    }
}

impl vstd::std_specs::convert::FromSpecImpl<u8> for Pronunc {
    open spec fn obeys_from_spec() -> bool {
        true
    }

    open spec fn from_spec(v: u8) -> Pronunc {
        pronunc_of_code(v)
    }
}

impl From<u8> for Pronunc {
    fn from(v: u8) -> (r: Pronunc)
        ensures
            r == pronunc_of_code(v),
    {
        if v == 0 {
            Pronunc::AmE
        } else {
            Pronunc::BrE
        }
    }
}

/// A side-effect request for the host's audio subsystem. The session only
/// emits these, in order; it never executes them and never awaits them.
#[derive(PartialEq, Eq, Debug)]
pub enum Intent {
    PlayClick,
    PlayCorrect,
    PlayWrong,
    PlayPronunciation(String, Pronunc),
}

/// The mathematical model of an `Intent`.
#[verifier::ext_equal]
pub enum IntentView {
    PlayClick,
    PlayCorrect,
    PlayWrong,
    PlayPronunciation(Seq<char>, Pronunc),
}

impl View for Intent {
    type V = IntentView;

    open spec fn view(&self) -> IntentView {
        match self {
            Intent::PlayClick => IntentView::PlayClick,
            Intent::PlayCorrect => IntentView::PlayCorrect,
            Intent::PlayWrong => IntentView::PlayWrong,
            Intent::PlayPronunciation(w, p) => IntentView::PlayPronunciation(w@, *p),
        }
    }
}

impl DeepView for Intent {
    type V = IntentView;

    open spec fn deep_view(&self) -> IntentView {
        self.view()
    }
}

/// The typing session. Its fields are only ever changed by `update`, which
/// keeps `wf` true; hosts read them through the getters.
pub struct Session {
    pub store: VocabStore,
    pub level_idx: usize,
    pub word_index: usize,
    pub chapter: usize,
    pub input_buffer: String,
    pub status: Status,
    pub pronunciation: Pronunc,
}

impl Session {
    /// The model of the current level.
    pub open spec fn cur_level(self) -> LevelView {
        self.store@[self.level_idx as int]
    }

    /// The models of the current level's words.
    pub open spec fn cur_words(self) -> Seq<WordEntryView> {
        self.cur_level().words
    }

    /// The characters of the word currently presented.
    pub open spec fn cur_name(self) -> Seq<char> {
        self.cur_words()[self.word_index as int].name
    }

    /// The session invariant: the store is usable, the indices are in range,
    /// the chapter is derived from the word index, and the input buffer is a
    /// proper prefix of the current word's name.
    pub open spec fn wf(self) -> bool {
        &&& self.store.wf()
        &&& (self.level_idx as int) < self.store@.len()
        &&& (self.word_index as int) < self.cur_words().len()
        &&& self.chapter == self.word_index / CHAPTER_SIZE + 1
        &&& self.input_buffer@.len() < self.cur_name().len()
        &&& self.cur_name().take(self.input_buffer@.len() as int) == self.input_buffer@
    }

    /// A fresh session: first level, first word, stopped, American English.
    pub fn new(store: VocabStore) -> (s: Session)
        requires
            store.wf(),
        ensures
            s.wf(),
            s.store == store,
            s.level_idx == 0,
            s.word_index == 0,
            s.chapter == 1,
            s.input_buffer@ == Seq::<char>::empty(),
            s.status is Stopped,
            s.pronunciation is AmE,
    {
        let s = Session {
            store,
            level_idx: 0,
            word_index: 0,
            chapter: 1,
            input_buffer: String::new(),
            status: Status::Stopped,
            pronunciation: Pronunc::AmE,
        };
        proof {
            assert(s.cur_level().wf());
            assert(s.cur_words()[0].wf());
            assert(s.cur_name().take(0) =~= s.input_buffer@);
        }
        s
    }
}

/// What a text token does. Outside the running status, and for any token that
/// is not exactly one character, nothing happens. Otherwise a click is
/// emitted; a character extending the current word grows the buffer, the
/// final character completes the word (clear buffer, advance with wraparound,
/// correct sound, pronounce the new word), a wrong character resets the
/// buffer with the wrong sound.
pub open spec fn set_text_post(
    pre: Session,
    post: Session,
    text: Seq<char>,
    ints: Seq<IntentView>,
) -> bool {
    if !(pre.status is Running) || text.len() != 1 {
        &&& post == pre
        &&& ints =~= Seq::<IntentView>::empty()
    } else {
        let c = text[0];
        let blen = pre.input_buffer@.len() as int;
        &&& post.store == pre.store
        &&& post.level_idx == pre.level_idx
        &&& post.status == pre.status
        &&& post.pronunciation == pre.pronunciation
        &&& if c == pre.cur_name()[blen] {
            if blen + 1 == pre.cur_name().len() {
                let n = pre.cur_words().len() as int;
                let ni = (pre.word_index + 1) % n;
                &&& post.word_index == ni
                &&& post.chapter == ni / (CHAPTER_SIZE as int) + 1
                &&& post.input_buffer@ =~= Seq::<char>::empty()
                &&& ints =~= seq![
                    IntentView::PlayClick,
                    IntentView::PlayCorrect,
                    IntentView::PlayPronunciation(pre.cur_words()[ni].name, pre.pronunciation),
                ]
            } else {
                &&& post.word_index == pre.word_index
                &&& post.chapter == pre.chapter
                &&& post.input_buffer@ =~= pre.input_buffer@.push(c)
                &&& ints =~= seq![IntentView::PlayClick]
            }
        } else {
            &&& post.word_index == pre.word_index
            &&& post.chapter == pre.chapter
            &&& post.input_buffer@ =~= Seq::<char>::empty()
            &&& ints =~= seq![IntentView::PlayClick, IntentView::PlayWrong]
        }
    }
}

/// What toggling does: from stopped the session starts running and the
/// current word is pronounced; from running it stops silently. The input
/// buffer is kept either way.
pub open spec fn submit_post(pre: Session, post: Session, ints: Seq<IntentView>) -> bool {
    &&& post.store == pre.store
    &&& post.level_idx == pre.level_idx
    &&& post.word_index == pre.word_index
    &&& post.chapter == pre.chapter
    &&& post.input_buffer@ == pre.input_buffer@
    &&& post.pronunciation == pre.pronunciation
    &&& match pre.status {
        Status::Stopped => {
            &&& post.status is Running
            &&& ints =~= seq![
                IntentView::PlayPronunciation(pre.cur_name(), pre.pronunciation),
            ]
        },
        Status::Running => {
            &&& post.status is Stopped
            &&& ints =~= Seq::<IntentView>::empty()
        },
    }
}

/// What selecting a pronunciation variant does: only the preference changes,
/// and the current word is pronounced with the new variant.
pub open spec fn select_pronunc_post(
    pre: Session,
    post: Session,
    v: u8,
    ints: Seq<IntentView>,
) -> bool {
    &&& post.store == pre.store
    &&& post.level_idx == pre.level_idx
    &&& post.word_index == pre.word_index
    &&& post.chapter == pre.chapter
    &&& post.input_buffer@ == pre.input_buffer@
    &&& post.status == pre.status
    &&& post.pronunciation == pronunc_of_code(v)
    &&& ints =~= seq![IntentView::PlayPronunciation(pre.cur_name(), pronunc_of_code(v))]
}

/// What a successful level change does: switch to the level carrying the key,
/// restart at the first word of the first chapter with an empty buffer, keep
/// status and pronunciation, and stay silent.
pub open spec fn select_level_ok_post(
    pre: Session,
    post: Session,
    key: Seq<char>,
    ints: Seq<IntentView>,
) -> bool {
    &&& post.store == pre.store
    &&& post.status == pre.status
    &&& post.pronunciation == pre.pronunciation
    &&& (post.level_idx as int) < post.store@.len()
    &&& post.cur_level().key == key
    &&& post.word_index == 0
    &&& post.chapter == 1
    &&& post.input_buffer@ =~= Seq::<char>::empty()
    &&& ints =~= Seq::<IntentView>::empty()
}

/// The chapter a request for chapter `n` lands on: requests are clamped into
/// the valid range `1 ..= last chapter of the current level`.
pub open spec fn clamped_chapter(pre: Session, n: usize) -> int {
    let maxc = (pre.cur_words().len() - 1) / (CHAPTER_SIZE as int) + 1;
    if n < 1 {
        1
    } else if n > maxc {
        maxc
    } else {
        n as int
    }
}

/// What selecting a chapter does: jump to the first word of the (clamped)
/// chapter with an empty buffer; everything else is kept and nothing is
/// emitted.
pub open spec fn select_chapter_post(
    pre: Session,
    post: Session,
    n: usize,
    ints: Seq<IntentView>,
) -> bool {
    let c = clamped_chapter(pre, n);
    &&& post.store == pre.store
    &&& post.level_idx == pre.level_idx
    &&& post.status == pre.status
    &&& post.pronunciation == pre.pronunciation
    &&& post.word_index == (c - 1) * (CHAPTER_SIZE as int)
    &&& post.chapter == c
    &&& post.input_buffer@ =~= Seq::<char>::empty()
    &&& ints =~= Seq::<IntentView>::empty()
}

/// What manual navigation does: nothing while stopped; while running, clear
/// the buffer, step to the neighbouring word (the token "next" advances with
/// wraparound, anything else goes back with wraparound), and pronounce the
/// word stepped to.
pub open spec fn word_nav_post(
    pre: Session,
    post: Session,
    text: Seq<char>,
    ints: Seq<IntentView>,
) -> bool {
    if !(pre.status is Running) {
        &&& post == pre
        &&& ints =~= Seq::<IntentView>::empty()
    } else {
        let n = pre.cur_words().len() as int;
        let ni = if text == "next"@ {
            (pre.word_index + 1) % n
        } else {
            if pre.word_index == 0 {
                n - 1
            } else {
                pre.word_index - 1
            }
        };
        &&& post.store == pre.store
        &&& post.level_idx == pre.level_idx
        &&& post.status == pre.status
        &&& post.pronunciation == pre.pronunciation
        &&& post.word_index == ni
        &&& post.chapter == ni / (CHAPTER_SIZE as int) + 1
        &&& post.input_buffer@ =~= Seq::<char>::empty()
        &&& ints =~= seq![
            IntentView::PlayPronunciation(pre.cur_words()[ni].name, pre.pronunciation),
        ]
    }
}

impl Session {
    /// The current word entry (a copy).
    pub fn current_word(&self) -> (w: WordEntry)
        requires
            self.wf(),
        ensures
            w@ == self.cur_words()[self.word_index as int],
    {
        self.store.levels[self.level_idx].words[self.word_index].clone()
    }

    /// The current word's name (a copy).
    fn cur_word_name(&self) -> (r: String)
        requires
            self.wf(),
        ensures
            r@ == self.cur_name(),
    {
        self.store.levels[self.level_idx].words[self.word_index].name.clone()
    }

    /// Processes one event: mutates the state and returns the ordered list of
    /// audio intents, or rejects an unknown level key leaving the state
    /// untouched. This is the only way a session changes after construction.
    pub fn update(&mut self, key: Key) -> (r: Result<Vec<Intent>, VocabError>)
        requires
            old(self).wf(),
        ensures
            final(self).wf(),
            match key {
                Key::SetText(text) => r matches Ok(ints) && set_text_post(
                    *old(self),
                    *final(self),
                    text@,
                    ints.deep_view(),
                ),
                Key::SelectProunc(v) => r matches Ok(ints) && select_pronunc_post(
                    *old(self),
                    *final(self),
                    v,
                    ints.deep_view(),
                ),
                Key::SelectLevel(k) => if old(self).store.has_level(k@) {
                    r matches Ok(ints) && select_level_ok_post(
                        *old(self),
                        *final(self),
                        k@,
                        ints.deep_view(),
                    )
                } else {
                    &&& r == Result::<Vec<Intent>, VocabError>::Err(VocabError::UnknownLevel)
                    &&& *final(self) == *old(self)
                },
                Key::SelectChapter(n) => r matches Ok(ints) && select_chapter_post(
                    *old(self),
                    *final(self),
                    n,
                    ints.deep_view(),
                ),
                Key::WordNextPre(t) => r matches Ok(ints) && word_nav_post(
                    *old(self),
                    *final(self),
                    t@,
                    ints.deep_view(),
                ),
                Key::Submit => r matches Ok(ints) && submit_post(
                    *old(self),
                    *final(self),
                    ints.deep_view(),
                ),
            },
    {
        match key {
            Key::SetText(text) => Ok(self.on_set_text(text)),
            Key::SelectProunc(v) => Ok(self.on_select_pronunc(v)),
            Key::SelectLevel(k) => self.on_select_level(k),
            Key::SelectChapter(n) => Ok(self.on_select_chapter(n)),
            Key::WordNextPre(t) => Ok(self.on_word_nav(t)),
            Key::Submit => Ok(self.on_submit()),
        }
    }

    fn on_submit(&mut self) -> (ints: Vec<Intent>)
        requires
            old(self).wf(),
        ensures
            final(self).wf(),
            submit_post(*old(self), *final(self), ints.deep_view()),
    {
        match self.status {
            Status::Stopped => {
                self.status = Status::Running;
                let name = self.cur_word_name();
                let mut ints: Vec<Intent> = Vec::new();
                ints.push(Intent::PlayPronunciation(name, self.pronunciation));
                proof {
                    assert(ints.deep_view() =~= seq![
                        IntentView::PlayPronunciation(
                            old(self).cur_name(),
                            old(self).pronunciation,
                        ),
                    ]);
                }
                ints
            },
            Status::Running => {
                self.status = Status::Stopped;
                Vec::new()
            },
        }
    }

    fn on_select_pronunc(&mut self, v: u8) -> (ints: Vec<Intent>)
        requires
            old(self).wf(),
        ensures
            final(self).wf(),
            select_pronunc_post(*old(self), *final(self), v, ints.deep_view()),
    {
        self.pronunciation = Pronunc::from(v);
        let name = self.cur_word_name();
        let mut ints: Vec<Intent> = Vec::new();
        ints.push(Intent::PlayPronunciation(name, self.pronunciation));
        proof {
            assert(ints.deep_view() =~= seq![
                IntentView::PlayPronunciation(old(self).cur_name(), pronunc_of_code(v)),
            ]);
        }
        ints
    }

    fn on_select_level(&mut self, k: String) -> (r: Result<Vec<Intent>, VocabError>)
        requires
            old(self).wf(),
        ensures
            final(self).wf(),
            if old(self).store.has_level(k@) {
                r matches Ok(ints) && select_level_ok_post(*old(self), *final(self), k@, ints.deep_view())
            } else {
                &&& r == Result::<Vec<Intent>, VocabError>::Err(VocabError::UnknownLevel)
                &&& *final(self) == *old(self)
            },
    {
        match self.store.find_level(&k) {
            None => Err(VocabError::UnknownLevel),
            Some(i) => {
                self.level_idx = i;
                self.word_index = 0;
                self.chapter = 1;
                self.input_buffer = String::new();
                proof {
                    assert(old(self).store.has_level(k@));
                    assert(self.cur_level().wf());
                    assert(self.cur_words()[0].wf());
                    assert(self.cur_name().take(0) =~= self.input_buffer@);
                }
                Ok(Vec::new())
            },
        }
    }

    fn on_select_chapter(&mut self, n: usize) -> (ints: Vec<Intent>)
        requires
            old(self).wf(),
        ensures
            final(self).wf(),
            select_chapter_post(*old(self), *final(self), n, ints.deep_view()),
    {
        let len = self.store.levels[self.level_idx].words.len();
        let maxc = (len - 1) / CHAPTER_SIZE + 1;
        let c = if n < 1 {
            1
        } else if n > maxc {
            maxc
        } else {
            n
        };
        proof {
            vstd::arithmetic::div_mod::lemma_fundamental_div_mod(
                (len - 1) as int,
                CHAPTER_SIZE as int,
            );
            vstd::arithmetic::mul::lemma_mul_inequality(
                (c - 1) as int,
                ((len - 1) as int) / (CHAPTER_SIZE as int),
                CHAPTER_SIZE as int,
            );
            assert((c - 1) * CHAPTER_SIZE <= len - 1);
        }
        let idx = (c - 1) * CHAPTER_SIZE;
        self.word_index = idx;
        self.chapter = idx / CHAPTER_SIZE + 1;
        self.input_buffer = String::new();
        proof {
            vstd::arithmetic::div_mod::lemma_div_multiples_vanish(
                (c - 1) as int,
                CHAPTER_SIZE as int,
            );
            assert(self.chapter == c);
            assert(self.cur_level().wf());
            assert(self.cur_words()[idx as int].wf());
            assert(self.cur_name().take(0) =~= self.input_buffer@);
        }
        Vec::new()
    }

    fn on_word_nav(&mut self, t: String) -> (ints: Vec<Intent>)
        requires
            old(self).wf(),
        ensures
            final(self).wf(),
            word_nav_post(*old(self), *final(self), t@, ints.deep_view()),
    {
        match self.status {
            Status::Stopped => {
                return Vec::new();
            },
            Status::Running => {},
        }
        let n = self.store.levels[self.level_idx].words.len();
        let next_tok = String::from_str("next");
        let ni = if t == next_tok {
            if self.word_index + 1 >= n {
                0
            } else {
                self.word_index + 1
            }
        } else {
            if self.word_index == 0 {
                n - 1
            } else {
                self.word_index - 1
            }
        };
        proof {
            if old(self).word_index + 1 < n {
                vstd::arithmetic::div_mod::lemma_small_mod(
                    (old(self).word_index + 1) as nat,
                    n as nat,
                );
            } else {
                vstd::arithmetic::div_mod::lemma_mod_self_0(n as int);
            }
        }
        self.word_index = ni;
        self.chapter = ni / CHAPTER_SIZE + 1;
        self.input_buffer = String::new();
        proof {
            assert(self.cur_level().wf());
            assert(self.cur_words()[ni as int].wf());
            assert(self.cur_name().take(0) =~= self.input_buffer@);
        }
        let name = self.cur_word_name();
        let mut ints: Vec<Intent> = Vec::new();
        ints.push(Intent::PlayPronunciation(name, self.pronunciation));
        proof {
            assert(ints.deep_view() =~= seq![
                IntentView::PlayPronunciation(self.cur_name(), old(self).pronunciation),
            ]);
        }
        ints
    }

    fn on_set_text(&mut self, text: String) -> (ints: Vec<Intent>)
        requires
            old(self).wf(),
        ensures
            final(self).wf(),
            set_text_post(*old(self), *final(self), text@, ints.deep_view()),
    {
        match self.status {
            Status::Stopped => {
                return Vec::new();
            },
            Status::Running => {},
        }
        if text.as_str().unicode_len() != 1 {
            return Vec::new();
        }
        let c = text.as_str().get_char(0);
        let name = self.cur_word_name();
        let blen = self.input_buffer.as_str().unicode_len();
        let nlen = name.as_str().unicode_len();
        let mut ints: Vec<Intent> = Vec::new();
        ints.push(Intent::PlayClick);
        if name.as_str().get_char(blen) == c {
            if blen + 1 == nlen {
                // The word is complete: advance with wraparound.
                self.input_buffer = String::new();
                let n = self.store.levels[self.level_idx].words.len();
                let ni = if self.word_index + 1 >= n {
                    0
                } else {
                    self.word_index + 1
                };
                proof {
                    if old(self).word_index + 1 < n {
                        vstd::arithmetic::div_mod::lemma_small_mod(
                            (old(self).word_index + 1) as nat,
                            n as nat,
                        );
                    } else {
                        vstd::arithmetic::div_mod::lemma_mod_self_0(n as int);
                    }
                }
                self.word_index = ni;
                self.chapter = ni / CHAPTER_SIZE + 1;
                proof {
                    assert(self.cur_level().wf());
                    assert(self.cur_words()[ni as int].wf());
                    assert(self.cur_name().take(0) =~= self.input_buffer@);
                }
                let new_name = self.cur_word_name();
                ints.push(Intent::PlayCorrect);
                ints.push(Intent::PlayPronunciation(new_name, self.pronunciation));
                proof {
                    assert(ints.deep_view() =~= seq![
                        IntentView::PlayClick,
                        IntentView::PlayCorrect,
                        IntentView::PlayPronunciation(self.cur_name(), self.pronunciation),
                    ]);
                }
                ints
            } else {
                // A correct character that does not yet complete the word.
                self.input_buffer.append(text.as_str());
                proof {
                    assert(text@ =~= seq![c]);
                    assert(self.input_buffer@ =~= old(self).input_buffer@.push(c));
                    assert(self.cur_name().take(self.input_buffer@.len() as int)
                        =~= self.input_buffer@);
                    assert(ints.deep_view() =~= seq![IntentView::PlayClick]);
                }
                ints
            }
        } else {
            // Mismatch: the buffer resets, the word stays.
            ints.push(Intent::PlayWrong);
            self.input_buffer = String::new();
            proof {
                assert(self.cur_name().take(0) =~= self.input_buffer@);
                assert(ints.deep_view() =~= seq![IntentView::PlayClick, IntentView::PlayWrong]);
            }
            ints
        }
    }
}

impl Session {
    /// The current level's key (a copy).
    pub fn level_key(&self) -> (r: String)
        requires
            self.wf(),
        ensures
            r@ == self.cur_level().key,
    {
        self.store.levels[self.level_idx].key.clone()
    }

    /// The number of words of the current level.
    pub fn word_count(&self) -> (r: usize)
        requires
            self.wf(),
        ensures
            r == self.cur_words().len(),
    {
        self.store.levels[self.level_idx].words.len()
    }

    /// The greatest chapter number of the current level; a host enumerates
    /// the chapter selector as `1 ..= chapter_count()`.
    pub fn chapter_count(&self) -> (r: usize)
        requires
            self.wf(),
        ensures
            r == (self.cur_words().len() - 1) / (CHAPTER_SIZE as int) + 1,
    {
        (self.store.levels[self.level_idx].words.len() - 1) / CHAPTER_SIZE + 1
    }

    /// The rendering split of the current word: the part already typed
    /// correctly (the input buffer) and the characters still to type.
    pub fn word_split(&self) -> (r: (String, String))
        requires
            self.wf(),
        ensures
            r.0@ == self.input_buffer@,
            r.1@ == self.cur_name().skip(self.input_buffer@.len() as int),
    {
        let name = self.cur_word_name();
        let blen = self.input_buffer.as_str().unicode_len();
        let nlen = name.as_str().unicode_len();
        let rest = name.as_str().substring_char(blen, nlen).to_owned();
        proof {
            assert(rest@ =~= self.cur_name().skip(self.input_buffer@.len() as int));
        }
        (self.input_buffer.clone(), rest)
    }
}

/// For every well-formed session state, the chapter is the one derived from
/// the word index by integer division: `wordIndex / CHAPTER_SIZE + 1`.
pub proof fn lemma_chapter_derived(s: Session)
    requires
        s.wf(),
    ensures
        s.chapter == s.word_index / CHAPTER_SIZE + 1,
{
}

/// For every well-formed session state, the current word's name starts with
/// the input buffer; the buffer is even a proper prefix.
pub proof fn lemma_input_buffer_is_prefix(s: Session)
    requires
        s.wf(),
    ensures
        s.input_buffer@.len() < s.cur_name().len(),
        s.cur_name().take(s.input_buffer@.len() as int) == s.input_buffer@,
{
}

/// Selecting the same pronunciation variant twice is idempotent: the second
/// selection leaves the preference where the first put it, and each
/// selection emits the same single pronunciation intent.
pub proof fn lemma_select_pronunc_idempotent(
    s0: Session,
    s1: Session,
    s2: Session,
    v: u8,
    i1: Seq<IntentView>,
    i2: Seq<IntentView>,
)
    requires
        select_pronunc_post(s0, s1, v, i1),
        select_pronunc_post(s1, s2, v, i2),
    ensures
        s2.pronunciation == s1.pronunciation,
        i1 =~= seq![IntentView::PlayPronunciation(s0.cur_name(), pronunc_of_code(v))],
        i2 =~= i1,
{
    assert(s1.cur_name() == s0.cur_name());
}

/// Selecting the same level key twice resets the word index to 0 and clears
/// the input buffer both times, whatever navigation happened in between; and
/// with an unchanged store both selections land on the same level.
pub proof fn lemma_select_level_round_trip(
    s0: Session,
    s1: Session,
    sm: Session,
    s2: Session,
    key: Seq<char>,
    i1: Seq<IntentView>,
    i2: Seq<IntentView>,
)
    requires
        s0.store.wf(),
        s0.level_idx < s0.store@.len(),
        select_level_ok_post(s0, s1, key, i1),
        sm.store == s0.store,
        select_level_ok_post(sm, s2, key, i2),
    ensures
        s1.word_index == 0 && s1.input_buffer@ =~= Seq::<char>::empty() && s1.chapter == 1,
        s2.word_index == 0 && s2.input_buffer@ =~= Seq::<char>::empty() && s2.chapter == 1,
        s2.level_idx == s1.level_idx,
{
    assert(s1.store@[s1.level_idx as int].key == key);
    assert(s2.store@[s2.level_idx as int].key == key);
    if s1.level_idx != s2.level_idx {
        assert(s0.store@[s1.level_idx as int].key != s0.store@[s2.level_idx as int].key);
    }
}

} // verus!
