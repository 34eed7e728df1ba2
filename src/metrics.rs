use vstd::prelude::*;
use crate::aggregator::{has_entry_named, names_unique, name_index, MetricUpdate};
use crate::emotes::{emotes_in_words, split_spaces, EmoteCatalog};
use crate::event::{ChatMessageFragment, Comment, SevenTVEmote};
use vstd::string::StringExecFns;

verus! {

/// Hundredths of a point that one paid bit is worth.
pub const BITS_WEIGHT: u64 = 10;

/// Hundredths of a point that one emote use in a message is worth to its sender.
pub const EMOTE_WEIGHT: u64 = 2;

/// Hundredths of a point that one use is worth to the emote itself.
pub const EMOTE_USE_POINTS: u64 = 100;

/// `x`, or the largest 64-bit value where `x` is larger.
pub open spec fn sat(x: int) -> nat {
    if x > u64::MAX {
        u64::MAX as nat
    } else if x < 0 {
        0
    } else {
        x as nat
    }
}

/// The paid-bits metric: each message scores its bits for its sender.
pub struct Bits;

impl Bits {
    pub fn new() -> Bits {
        Bits
    }

    /// Its contributions depend on the message alone.
    pub fn can_parallelize(&self) -> (r: bool)
        ensures
            r,
    {
        true
    }

    pub fn get_name(&self) -> (r: String)
        ensures
            r@ == seq!['b', 'i', 't', 's'],
    {
        let r = String::from_str("bits");
        proof {
            reveal_strlit("bits");
        }
        assert(r@ =~= seq!['b', 'i', 't', 's']);
        r
    }

    /// The contribution of `comment`: its bits for its sender.
    pub open spec fn metric_spec(&self, comment: Comment, r: MetricUpdate) -> bool {
        &&& r.metric_name@ == seq!['b', 'i', 't', 's']
        &&& r.updates@.len() == 1
        &&& r.updates@[0].0@ == comment.commenter_id@
        &&& r.updates@[0].1 == comment.bits_spent * BITS_WEIGHT
    }

    /// The sender of `comment` scores ten hundredths per paid bit.
    pub fn get_metric(&self, comment: &Comment, sequence_no: u64) -> (r: MetricUpdate)
        ensures
            self.metric_spec(*comment, r),
    {
        let score = comment.bits_spent as u64 * BITS_WEIGHT;
        let mut updates: Vec<(String, u64)> = Vec::new();
        updates.push((comment.commenter_id.clone(), score));
        MetricUpdate { metric_name: self.get_name(), updates }
    }
}

/// Emote uses that a fragment counts for its sender: its platform emoticon and its 7TV emotes.
pub open spec fn fragment_units(cat: Seq<(Seq<char>, Seq<char>)>, f: ChatMessageFragment) -> nat {
    (if f.emoticon is Some {
        1nat
    } else {
        0nat
    }) + emotes_in_words(cat, split_spaces(f.text@)).len()
}

pub open spec fn comment_units(cat: Seq<(Seq<char>, Seq<char>)>, fs: Seq<ChatMessageFragment>) -> nat
    decreases fs.len(),
{
    if fs.len() == 0 {
        0
    } else {
        comment_units(cat, fs.drop_last()) + fragment_units(cat, fs.last())
    }
}

/// The 7TV emotes of all fragments, in order.
pub open spec fn comment_emotes(cat: Seq<(Seq<char>, Seq<char>)>, fs: Seq<ChatMessageFragment>) -> Seq<
    (Seq<char>, Seq<char>),
>
    decreases fs.len(),
{
    if fs.len() == 0 {
        Seq::empty()
    } else {
        comment_emotes(cat, fs.drop_last()) + emotes_in_words(cat, split_spaces(fs.last().text@))
    }
}

/// How many entries of `s` are named `n`.
pub open spec fn count_named(s: Seq<(Seq<char>, Seq<char>)>, n: Seq<char>) -> nat
    decreases s.len(),
{
    if s.len() == 0 {
        0
    } else {
        count_named(s.drop_last(), n) + (if s.last().0 == n {
            1nat
        } else {
            0nat
        })
    }
}

/// The 7TV emote metric: a message scores its emote uses for its sender,
/// and each emote scores a point per use.
pub struct Emote {
    pub seventv_emotes: EmoteCatalog,
}

pub open spec fn emote_metric_name() -> Seq<char> {
    seq!['e', 'm', 'o', 't', 'e']
}

impl Emote {
    pub fn new(seventv_emotes: EmoteCatalog) -> (r: Emote)
        ensures
            r.seventv_emotes == seventv_emotes,
    {
        Emote { seventv_emotes }
    }

    /// Must see the messages of the log in order.
    pub fn can_parallelize(&self) -> (r: bool)
        ensures
            !r,
    {
        false
    }

    pub fn get_name(&self) -> (r: String)
        ensures
            r@ == emote_metric_name(),
    {
        let r = String::from_str("emote");
        proof {
            reveal_strlit("emote");
        }
        assert(r@ =~= emote_metric_name());
        r
    }

    /// The contributions of `comment`: the sender's emote uses and each emote's use count.
    pub open spec fn metric_spec(&self, comment: Comment, r: MetricUpdate) -> bool {
        &&& r.metric_name@ == emote_metric_name()
        &&& names_unique(r.updates@)
        &&& has_entry_named(r.updates@, comment.commenter_id@)
        &&& forall|k: int|
            0 <= k < r.updates@.len() && (#[trigger] r.updates@[k]).0@ == comment.commenter_id@
                ==> r.updates@[k].1 == sat(
                EMOTE_WEIGHT * comment_units(self.seventv_emotes@, comment.fragments@),
            )
        &&& forall|k: int|
            0 <= k < r.updates@.len() && (#[trigger] r.updates@[k]).0@ != comment.commenter_id@
                ==> count_named(
                comment_emotes(self.seventv_emotes@, comment.fragments@),
                r.updates@[k].0@,
            ) > 0 && r.updates@[k].1 == sat(
                EMOTE_USE_POINTS * count_named(
                    comment_emotes(self.seventv_emotes@, comment.fragments@),
                    r.updates@[k].0@,
                ),
            )
        &&& forall|x: int|
            0 <= x < comment_emotes(self.seventv_emotes@, comment.fragments@).len() ==> has_entry_named(
                r.updates@,
                (#[trigger] comment_emotes(self.seventv_emotes@, comment.fragments@)[x]).0,
            )
    }

    /// The sender of `comment` scores two hundredths per emote use (platform
    /// emoticons and 7TV emotes); each 7TV emote used scores a point per use.
    /// Where the sender's id is also an emote name, the sender's score stands.
    pub fn get_metric(&self, comment: &Comment, sequence_no: u64) -> (r: MetricUpdate)
        ensures
            self.metric_spec(*comment, r),
    {
        let ghost cat = self.seventv_emotes@;
        let ghost fs = comment.fragments@;
        let mut all: Vec<SevenTVEmote> = Vec::new();
        let mut units: u64 = 0;
        let mut i: usize = 0;
        while i < comment.fragments.len()
            invariant
                i <= fs.len(),
                fs == comment.fragments@,
                cat == self.seventv_emotes@,
                all@.map_values(|e: SevenTVEmote| e@) == comment_emotes(cat, fs.take(i as int)),
                units == sat(comment_units(cat, fs.take(i as int)) as int),
            decreases fs.len() - i,
        {
            let f = &comment.fragments[i];
            let mut found = self.seventv_emotes.get_7tv_emotes_in_fragment(&f.text);
            let e: u64 = if f.emoticon.is_some() {
                1
            } else {
                0
            };
            units = units.saturating_add(e).saturating_add(found.len() as u64);
            let ghost a0 = all@;
            let ghost fv = found@;
            all.append(&mut found);
            assert(fs.take(i + 1).drop_last() =~= fs.take(i as int));
            assert(fv.map_values(|e: SevenTVEmote| e@).len() == fv.len());
            assert(all@.map_values(|e: SevenTVEmote| e@) =~= a0.map_values(|e: SevenTVEmote| e@)
                + fv.map_values(|e: SevenTVEmote| e@));
            i += 1;
        }
        assert(fs.take(i as int) =~= fs);
        let mut counts = count_uses(&all);
        let amount: u64 = if units > u64::MAX / EMOTE_WEIGHT {
            u64::MAX
        } else {
            units * EMOTE_WEIGHT
        };
        let ghost c0 = counts@;
        let ghost ce = comment_emotes(cat, fs);
        match name_index(&counts, &comment.commenter_id) {
            Some(j) => {
                counts[j].1 = amount;
                assert forall|k: int| 0 <= k < counts@.len() && k != j implies counts@[k] == c0[k] && c0[k].0@ != comment.commenter_id@ by {
                    assert(c0[k].0@ != c0[j as int].0@);
                }
                assert(has_entry_named(counts@, comment.commenter_id@)) by {
                    assert(counts@[j as int].0@ == comment.commenter_id@);
                }
                assert forall|x: int| 0 <= x < ce.len() implies has_entry_named(counts@, (#[trigger] ce[x]).0) by {
                    assert(ce[x] == all@[x]@);
                    assert(has_entry_named(c0, all@[x].name@));
                    let k = choose|k: int| 0 <= k < c0.len() && (#[trigger] c0[k]).0@ == all@[x].name@;
                    assert(counts@[k].0@ == c0[k].0@);
                }
            },
            None => {
                counts.push((comment.commenter_id.clone(), amount));
                assert(has_entry_named(counts@, comment.commenter_id@)) by {
                    assert(counts@[c0.len() as int].0@ == comment.commenter_id@);
                }
                assert forall|x: int| 0 <= x < ce.len() implies has_entry_named(counts@, (#[trigger] ce[x]).0) by {
                    assert(ce[x] == all@[x]@);
                    assert(has_entry_named(c0, all@[x].name@));
                    let k = choose|k: int| 0 <= k < c0.len() && (#[trigger] c0[k]).0@ == all@[x].name@;
                    assert(counts@[k] == c0[k]);
                }
            },
        }
        MetricUpdate { metric_name: self.get_name(), updates: counts }
    }
}

/// The per-emote use counts of `emotes`, in order of first use.
fn count_uses(emotes: &Vec<SevenTVEmote>) -> (r: Vec<(String, u64)>)
    ensures
        names_unique(r@),
        forall|k: int|
            0 <= k < r@.len() ==> count_named(emotes@.map_values(|e: SevenTVEmote| e@), (#[trigger] r@[k]).0@)
                > 0 && r@[k].1 == sat(EMOTE_USE_POINTS * count_named(
                emotes@.map_values(|e: SevenTVEmote| e@),
                r@[k].0@,
            )),
        forall|x: int| 0 <= x < emotes@.len() ==> has_entry_named(r@, (#[trigger] emotes@[x]).name@),
{
    let ghost ev = emotes@.map_values(|e: SevenTVEmote| e@);
    let mut counts: Vec<(String, u64)> = Vec::new();
    let mut i: usize = 0;
    while i < emotes.len()
        invariant
            i <= emotes@.len(),
            ev == emotes@.map_values(|e: SevenTVEmote| e@),
            names_unique(counts@),
            forall|k: int|
                0 <= k < counts@.len() ==> count_named(ev.take(i as int), (#[trigger] counts@[k]).0@)
                    > 0 && counts@[k].1 == sat(EMOTE_USE_POINTS * count_named(ev.take(i as int), counts@[k].0@)),
            forall|x: int| 0 <= x < i ==> has_entry_named(counts@, (#[trigger] emotes@[x]).name@),
        decreases emotes@.len() - i,
    {
        let name = &emotes[i].name;
        let ghost seen_before = ev.take(i as int);
        let ghost seen_after = ev.take(i + 1);
        assert(seen_after.drop_last() =~= seen_before);
        assert(seen_after.last() == emotes@[i as int]@);
        let ghost c0 = counts@;
        match name_index(&counts, name) {
            Some(j) => {
                let v = counts[j].1.saturating_add(EMOTE_USE_POINTS);
                counts[j].1 = v;
                assert forall|k: int| 0 <= k < counts@.len() implies count_named(seen_after, (#[trigger] counts@[k]).0@)
                    > 0 && counts@[k].1 == sat(EMOTE_USE_POINTS * count_named(seen_after, counts@[k].0@)) by {
                    if k != j {
                        assert(c0[k].0@ != c0[j as int].0@);
                    }
                }
                assert forall|x: int| 0 <= x < i + 1 implies has_entry_named(counts@, (#[trigger] emotes@[x]).name@) by {
                    if x < i {
                        let k = choose|k: int| 0 <= k < c0.len() && (#[trigger] c0[k]).0@ == emotes@[x].name@;
                        assert(counts@[k].0@ == c0[k].0@);
                    } else {
                        assert(counts@[j as int].0@ == emotes@[x].name@);
                    }
                }
            },
            None => {
                counts.push((name.clone(), EMOTE_USE_POINTS));
                assert forall|k: int| 0 <= k < counts@.len() implies count_named(seen_after, (#[trigger] counts@[k]).0@)
                    > 0 && counts@[k].1 == sat(EMOTE_USE_POINTS * count_named(seen_after, counts@[k].0@)) by {
                    if k < c0.len() {
                        assert(counts@[k] == c0[k]);
                    } else {
                        assert(count_named(seen_before, name@) == 0) by {
                            if count_named(seen_before, name@) > 0 {
                                lemma_named_member(seen_before, name@);
                                let y = choose|y: int| 0 <= y < seen_before.len() && seen_before[y].0 == name@;
                                assert(seen_before[y] == emotes@[y]@);
                                let k2 = choose|k2: int| 0 <= k2 < c0.len() && (#[trigger] c0[k2]).0@ == (#[trigger] emotes@[y]).name@;
                            }
                        }
                    }
                }
                assert forall|x: int| 0 <= x < i + 1 implies has_entry_named(counts@, (#[trigger] emotes@[x]).name@) by {
                    if x < i {
                        let k = choose|k: int| 0 <= k < c0.len() && (#[trigger] c0[k]).0@ == emotes@[x].name@;
                        assert(counts@[k] == c0[k]);
                    } else {
                        assert(counts@[c0.len() as int].0@ == emotes@[x].name@);
                    }
                }
            },
        }
        i += 1;
    }
    assert(ev.take(i as int) =~= ev);
    counts
}

pub proof fn lemma_named_member(s: Seq<(Seq<char>, Seq<char>)>, n: Seq<char>)
    requires
        count_named(s, n) > 0,
    ensures
        exists|y: int| 0 <= y < s.len() && s[y].0 == n,
    decreases s.len(),
{
    if s.last().0 != n {
        lemma_named_member(s.drop_last(), n);
        let y = choose|y: int| 0 <= y < s.drop_last().len() && s.drop_last()[y].0 == n;
        assert(s[y] == s.drop_last()[y]);
    }
}

} // verus!
