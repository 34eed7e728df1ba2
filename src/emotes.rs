use vstd::prelude::*;
use vstd::string::StrSliceExecFns;
use crate::event::SevenTVEmote;

verus! {

/// The words of `s` separated by single spaces, as `str::split(' ')` gives them:
/// consecutive spaces yield empty words, and the empty text yields one empty word.
pub open spec fn split_spaces(s: Seq<char>) -> Seq<Seq<char>>
    decreases s.len(),
{
    if s.len() == 0 {
        seq![Seq::empty()]
    } else {
        let prev = split_spaces(s.drop_last());
        if s.last() == ' ' {
            prev.push(Seq::empty())
        } else {
            prev.update(prev.len() - 1, prev.last().push(s.last()))
        }
    }
}

pub proof fn lemma_split_nonempty(s: Seq<char>)
    ensures
        split_spaces(s).len() >= 1,
    decreases s.len(),
{
    if s.len() > 0 {
        lemma_split_nonempty(s.drop_last());
    }
}

/// Splits `text` at each space.
pub fn split_words(text: &String) -> (r: Vec<Vec<char>>)
    ensures
        r@.map_values(|w: Vec<char>| w@) == split_spaces(text@),
{
    let n = text.as_str().unicode_len();
    let mut words: Vec<Vec<char>> = Vec::new();
    let mut cur: Vec<char> = Vec::new();
    let mut i: usize = 0;
    while i < n
        invariant
            n == text@.len(),
            i <= n,
            words@.map_values(|w: Vec<char>| w@).push(cur@) == split_spaces(text@.take(i as int)),
        decreases n - i,
    {
        let c = text.as_str().get_char(i);
        let ghost prev = split_spaces(text@.take(i as int));
        assert(text@.take(i + 1).drop_last() =~= text@.take(i as int));
        proof {
            lemma_split_nonempty(text@.take(i as int));
        }
        if c == ' ' {
            let ghost old_words = words@;
            words.push(cur);
            cur = Vec::new();
            assert(words@.map_values(|w: Vec<char>| w@) =~= old_words.map_values(|w: Vec<char>| w@).push(prev.last()));
            assert(words@.map_values(|w: Vec<char>| w@).push(cur@) =~= prev.push(Seq::empty()));
        } else {
            cur.push(c);
            assert(words@.map_values(|w: Vec<char>| w@).push(cur@) =~= prev.update(
                prev.len() - 1,
                prev.last().push(c),
            ));
        }
        i += 1;
    }
    assert(text@.take(n as int) =~= text@);
    let ghost old_words = words@;
    words.push(cur);
    assert(words@.map_values(|w: Vec<char>| w@) =~= old_words.map_values(|w: Vec<char>| w@).push(cur@));
    words
}

/// Whether `s` holds exactly the characters of `w`.
pub fn same_chars(s: &String, w: &Vec<char>) -> (r: bool)
    ensures
        r == (s@ == w@),
{
    let n = s.as_str().unicode_len();
    if n != w.len() {
        return false;
    }
    let mut i: usize = 0;
    while i < n
        invariant
            n == s@.len(),
            n == w@.len(),
            i <= n,
            forall|k: int| 0 <= k < i ==> s@[k] == w@[k],
        decreases n - i,
    {
        if s.as_str().get_char(i) != w[i] {
            return false;
        }
        i += 1;
    }
    assert(s@ =~= w@);
    true
}

/// The URL of emote `word` in `emotes`; a later entry of the same name wins.
pub open spec fn emote_url(emotes: Seq<(Seq<char>, Seq<char>)>, word: Seq<char>) -> Option<Seq<char>>
    decreases emotes.len(),
{
    if emotes.len() == 0 {
        None
    } else if emotes.last().0 == word {
        Some(emotes.last().1)
    } else {
        emote_url(emotes.drop_last(), word)
    }
}

/// The emotes named by `words`, in order, as (name, URL) pairs.
pub open spec fn emotes_in_words(emotes: Seq<(Seq<char>, Seq<char>)>, words: Seq<Seq<char>>) -> Seq<
    (Seq<char>, Seq<char>),
>
    decreases words.len(),
{
    if words.len() == 0 {
        Seq::empty()
    } else {
        let prev = emotes_in_words(emotes, words.drop_last());
        match emote_url(emotes, words.last()) {
            Some(u) => prev.push((words.last(), u)),
            None => prev,
        }
    }
}

/// Each emote found among `words` is in the catalog under its name.
pub proof fn lemma_found_in_catalog(emotes: Seq<(Seq<char>, Seq<char>)>, words: Seq<Seq<char>>, m: int)
    requires
        0 <= m < emotes_in_words(emotes, words).len(),
    ensures
        emote_url(emotes, emotes_in_words(emotes, words)[m].0) == Some(
            emotes_in_words(emotes, words)[m].1,
        ),
    decreases words.len(),
{
    let prev = emotes_in_words(emotes, words.drop_last());
    if m < prev.len() {
        lemma_found_in_catalog(emotes, words.drop_last(), m);
    }
}

/// The channel's 7TV emotes, looked up by name.
pub struct EmoteCatalog {
    pub emotes: Vec<SevenTVEmote>,
}

impl EmoteCatalog {
    pub open spec fn view(&self) -> Seq<(Seq<char>, Seq<char>)> {
        self.emotes@.map_values(|e: SevenTVEmote| e@)
    }

    /// The catalog with no emote, used where the emote list cannot be had.
    pub fn new() -> (r: EmoteCatalog)
        ensures
            r@.len() == 0,
    {
        EmoteCatalog { emotes: Vec::new() }
    }

    /// Adds an emote; it replaces any earlier emote of the same name.
    pub fn insert(&mut self, emote: SevenTVEmote)
        ensures
            final(self)@ == old(self)@.push(emote@),
    {
        self.emotes.push(emote);
        assert(self@ =~= old(self)@.push(emote@));
    }

    /// The emote whose name is `word`.
    pub fn lookup(&self, word: &Vec<char>) -> (r: Option<SevenTVEmote>)
        ensures
            match r {
                Some(e) => e.name@ == word@ && emote_url(self@, word@) == Some(e.emote_url@),
                None => emote_url(self@, word@) is None,
            },
    {
        let mut i: usize = self.emotes.len();
        assert(self@.take(i as int) =~= self@);
        while i > 0
            invariant
                i <= self.emotes@.len(),
                emote_url(self@, word@) == emote_url(self@.take(i as int), word@),
            decreases i,
        {
            let e = &self.emotes[i - 1];
            assert(self@.take(i as int).drop_last() =~= self@.take(i - 1));
            if same_chars(&e.name, word) {
                return Some(SevenTVEmote { name: e.name.clone(), emote_url: e.emote_url.clone() });
            }
            i -= 1;
        }
        None
    }

    /// The catalog's emotes among the words of `text`, in order.
    pub fn get_7tv_emotes_in_fragment(&self, text: &String) -> (r: Vec<SevenTVEmote>)
        ensures
            r@.map_values(|e: SevenTVEmote| e@) == emotes_in_words(self@, split_spaces(text@)),
    {
        let words = split_words(text);
        let ghost ws = words@.map_values(|w: Vec<char>| w@);
        let mut result: Vec<SevenTVEmote> = Vec::new();
        let mut i: usize = 0;
        while i < words.len()
            invariant
                i <= words@.len(),
                ws == words@.map_values(|w: Vec<char>| w@),
                result@.map_values(|e: SevenTVEmote| e@) == emotes_in_words(self@, ws.take(i as int)),
            decreases words@.len() - i,
        {
            assert(ws.take(i + 1).drop_last() =~= ws.take(i as int));
            assert(ws.take(i + 1).last() == words@[i as int]@);
            let ghost old_result = result@;
            match self.lookup(&words[i]) {
                Some(e) => {
                    result.push(e);
                    assert(result@.map_values(|e: SevenTVEmote| e@) =~= old_result.map_values(
                        |e: SevenTVEmote| e@,
                    ).push(e@));
                },
                None => {},
            }
            i += 1;
        }
        assert(ws.take(i as int) =~= ws);
        result
    }
}

pub open spec fn webp_suffix() -> Seq<char> {
    seq!['.', 'w', 'e', 'b', 'p']
}

/// Whether `name` ends with ".webp".
pub open spec fn is_webp(name: Seq<char>) -> bool {
    name.len() >= 5 && name.subrange(name.len() - 5, name.len() as int) == webp_suffix()
}

/// Whether a file name ends with ".webp".
pub fn ends_with_webp(name: &String) -> (r: bool)
    ensures
        r == is_webp(name@),
{
    let n = name.as_str().unicode_len();
    if n < 5 {
        return false;
    }
    let suffix: [char; 5] = ['.', 'w', 'e', 'b', 'p'];
    let mut i: usize = 0;
    while i < 5
        invariant
            n == name@.len(),
            n >= 5,
            i <= 5,
            suffix@ == webp_suffix(),
            forall|k: int| 0 <= k < i ==> name@[n - 5 + k] == webp_suffix()[k],
        decreases 5 - i,
    {
        if name.as_str().get_char(n - 5 + i) != suffix[i] {
            assert(name@.subrange(n - 5, n as int)[i as int] != webp_suffix()[i as int]);
            return false;
        }
        i += 1;
    }
    assert(name@.subrange(n - 5, n as int) =~= webp_suffix());
    true
}

/// The image file to show for an emote: of the files (name, width) whose name
/// ends with ".webp", the widest one; the last of equally wide ones.
pub fn largest_webp(files: &Vec<(String, i64)>) -> (r: Option<usize>)
    ensures
        match r {
            Some(i) => i < files@.len() && is_webp(files@[i as int].0@) && (forall|k: int|
                0 <= k < files@.len() && is_webp((#[trigger] files@[k]).0@) ==> files@[k].1
                    <= files@[i as int].1) && (forall|k: int|
                i < k < files@.len() && is_webp((#[trigger] files@[k]).0@) ==> files@[k].1
                    < files@[i as int].1),
            None => forall|k: int| 0 <= k < files@.len() ==> !is_webp((#[trigger] files@[k]).0@),
        },
{
    let mut best: Option<usize> = None;
    let mut k: usize = 0;
    while k < files.len()
        invariant
            k <= files@.len(),
            match best {
                Some(i) => i < k && is_webp(files@[i as int].0@) && (forall|j: int|
                    0 <= j < k && is_webp((#[trigger] files@[j]).0@) ==> files@[j].1
                        <= files@[i as int].1) && (forall|j: int|
                    i < j < k && is_webp((#[trigger] files@[j]).0@) ==> files@[j].1
                        < files@[i as int].1),
                None => forall|j: int| 0 <= j < k ==> !is_webp((#[trigger] files@[j]).0@),
            },
        decreases files@.len() - k,
    {
        if ends_with_webp(&files[k].0) {
            match best {
                None => {
                    best = Some(k);
                },
                Some(i) => {
                    if files[k].1 >= files[i].1 {
                        best = Some(k);
                    }
                },
            }
        }
        k += 1;
    }
    best
}

} // verus!
