use vstd::prelude::*;
use vstd::string::StringExecFns;
use crate::aggregator::{basic_info_name, has_entry_named, names_unique, name_index, MetadataUpdate};
use crate::emotes::{emote_url, EmoteCatalog};
use crate::event::{Comment, SevenTVEmote, UserBadge};
use crate::metrics::comment_emotes;
use crate::types::{badges_view, BadgeInformation, MetadataTypes, MetadataView, PerformanceType};

verus! {

/// The channel's badges, looked up by badge set id and version.
pub struct BadgeCatalog {
    /// (set id, version, badge); a later entry for the same set and version wins.
    pub entries: Vec<(String, String, BadgeInformation)>,
}

pub open spec fn badge_info(
    cat: Seq<(Seq<char>, Seq<char>, (Seq<char>, Seq<char>))>,
    set_id: Seq<char>,
    version: Seq<char>,
) -> Option<(Seq<char>, Seq<char>)>
    decreases cat.len(),
{
    if cat.len() == 0 {
        None
    } else if cat.last().0 == set_id && cat.last().1 == version {
        Some(cat.last().2)
    } else {
        badge_info(cat.drop_last(), set_id, version)
    }
}

/// The catalog badges of `badges`, in order; a badge that the catalog lacks is passed over.
pub open spec fn known_badges(
    cat: Seq<(Seq<char>, Seq<char>, (Seq<char>, Seq<char>))>,
    badges: Seq<UserBadge>,
) -> Seq<(Seq<char>, Seq<char>)>
    decreases badges.len(),
{
    if badges.len() == 0 {
        Seq::empty()
    } else {
        let prev = known_badges(cat, badges.drop_last());
        match badge_info(cat, badges.last().id@, badges.last().version@) {
            Some(b) => prev.push(b),
            None => prev,
        }
    }
}

impl BadgeCatalog {
    pub open spec fn view(&self) -> Seq<(Seq<char>, Seq<char>, (Seq<char>, Seq<char>))> {
        self.entries@.map_values(
            |e: (String, String, BadgeInformation)| (e.0@, e.1@, e.2@),
        )
    }

    /// The catalog with no badge, used where the badge list cannot be had.
    pub fn new() -> (r: BadgeCatalog)
        ensures
            r@.len() == 0,
    {
        BadgeCatalog { entries: Vec::new() }
    }

    /// Adds a badge; it replaces any earlier one of the same set and version.
    pub fn insert(&mut self, set_id: String, version: String, badge: BadgeInformation)
        ensures
            final(self)@ == old(self)@.push((set_id@, version@, badge@)),
    {
        self.entries.push((set_id, version, badge));
        assert(self@ =~= old(self)@.push((set_id@, version@, badge@)));
    }

    /// The badge of set `set_id` in version `version`.
    pub fn lookup(&self, set_id: &String, version: &String) -> (r: Option<BadgeInformation>)
        ensures
            match r {
                Some(b) => badge_info(self@, set_id@, version@) == Some(b@),
                None => badge_info(self@, set_id@, version@) is None,
            },
    {
        let mut i: usize = self.entries.len();
        assert(self@.take(i as int) =~= self@);
        while i > 0
            invariant
                i <= self.entries@.len(),
                badge_info(self@, set_id@, version@) == badge_info(
                    self@.take(i as int),
                    set_id@,
                    version@,
                ),
            decreases i,
        {
            let e = &self.entries[i - 1];
            assert(self@.take(i as int).drop_last() =~= self@.take(i - 1));
            if e.0 == *set_id && e.1 == *version {
                return Some(e.2.duplicate());
            }
            i -= 1;
        }
        None
    }
}

pub open spec fn badges_name() -> Seq<char> {
    seq!['b', 'a', 'd', 'g', 'e', 's']
}

/// The badges metadata: the badges that a commenter wore on their last message.
pub struct Badges {
    pub badges: BadgeCatalog,
}

impl Badges {
    pub fn new(badges: BadgeCatalog) -> (r: Badges)
        ensures
            r.badges == badges,
    {
        Badges { badges }
    }

    pub fn get_name(&self) -> (r: String)
        ensures
            r@ == badges_name(),
    {
        let r = String::from_str("badges");
        proof {
            reveal_strlit("badges");
        }
        assert(r@ =~= badges_name());
        r
    }

    /// An empty badge list.
    pub fn get_default_value(&self) -> (r: MetadataTypes)
        ensures
            r@ == MetadataView::BadgeList(Seq::empty()),
    {
        let v: Vec<BadgeInformation> = Vec::new();
        assert(badges_view(v@) =~= Seq::empty());
        MetadataTypes::BadgeList(v)
    }

    /// The update of `comment`: the sender's catalog badges.
    pub open spec fn metadata_spec(&self, comment: Comment, r: MetadataUpdate) -> bool {
        &&& r.metadata_name@ == badges_name()
        &&& r.updates@.len() == 1
        &&& r.updates@[0].0@ == comment.commenter_id@
        &&& r.updates@[0].1@ == MetadataView::BadgeList(
            match comment.user_badges {
                Some(b) => known_badges(self.badges@, b@),
                None => Seq::empty(),
            }
        )
    }

    /// The sender of `comment` gets the catalog badges of the message, in order.
    pub fn get_metadata(&self, comment: &Comment, sequence_no: u64) -> (r: MetadataUpdate)
        ensures
            self.metadata_spec(*comment, r),
    {
        let mut list: Vec<BadgeInformation> = Vec::new();
        match &comment.user_badges {
            None => {
                assert(badges_view(list@) =~= Seq::empty());
            },
            Some(user_badges) => {
                let mut i: usize = 0;
                while i < user_badges.len()
                    invariant
                        i <= user_badges@.len(),
                        badges_view(list@) == known_badges(self.badges@, user_badges@.take(i as int)),
                    decreases user_badges@.len() - i,
                {
                    let b = &user_badges[i];
                    assert(user_badges@.take(i + 1).drop_last() =~= user_badges@.take(i as int));
                    let ghost l0 = list@;
                    match self.badges.lookup(&b.id, &b.version) {
                        Some(info) => {
                            list.push(info);
                            assert(badges_view(list@) =~= badges_view(l0).push(info@));
                        },
                        None => {},
                    }
                    i += 1;
                }
                assert(user_badges@.take(i as int) =~= user_badges@);
            },
        }
        let mut updates: Vec<(String, MetadataTypes)> = Vec::new();
        updates.push((comment.commenter_id.clone(), MetadataTypes::BadgeList(list)));
        MetadataUpdate { metadata_name: self.get_name(), updates }
    }
}

pub open spec fn emote_metadata_name() -> Seq<char> {
    seq!['e', 'm', 'o', 't', 'e']
}

/// Whether one of the first `bound` entries of `s` is named `n`.
pub open spec fn occurs_within(s: Seq<(Seq<char>, Seq<char>)>, n: Seq<char>, bound: int) -> bool {
    exists|x: int| 0 <= x < bound && x < s.len() && s[x].0 == n
}

/// The emote metadata: gives each 7TV emote used in chat its name and image
/// as identity, so that emotes can be ranked like participants.
pub struct Emotes {
    pub seventv_emotes: EmoteCatalog,
}

impl Emotes {
    pub fn new(seventv_emotes: EmoteCatalog) -> (r: Emotes)
        ensures
            r.seventv_emotes == seventv_emotes,
    {
        Emotes { seventv_emotes }
    }

    pub fn get_name(&self) -> (r: String)
        ensures
            r@ == emote_metadata_name(),
    {
        let r = String::from_str("emote");
        proof {
            reveal_strlit("emote");
        }
        assert(r@ =~= emote_metadata_name());
        r
    }

    pub fn get_default_value(&self) -> (r: MetadataTypes)
        ensures
            r@ == MetadataView::Bool(false),
    {
        MetadataTypes::Bool(false)
    }

    /// The updates of `comment`: the identity of each emote used.
    pub open spec fn metadata_spec(&self, comment: Comment, r: MetadataUpdate) -> bool {
        &&& r.metadata_name@ == emote_metadata_name()
        &&& names_unique(r.updates@)
        &&& forall|k: int|
            0 <= k < r.updates@.len() ==> emote_url(self.seventv_emotes@, (#[trigger] r.updates@[k]).0@)
                is Some && r.updates@[k].1@ == MetadataView::BasicInfo(
                r.updates@[k].0@,
                emote_url(self.seventv_emotes@, r.updates@[k].0@)->0,
                PerformanceType::Emote,
            ) && exists|x: int|
                0 <= x < comment_emotes(self.seventv_emotes@, comment.fragments@).len()
                    && comment_emotes(self.seventv_emotes@, comment.fragments@)[x].0
                    == r.updates@[k].0@
        &&& forall|x: int|
            0 <= x < comment_emotes(self.seventv_emotes@, comment.fragments@).len() ==> has_entry_named(
                r.updates@,
                (#[trigger] comment_emotes(self.seventv_emotes@, comment.fragments@)[x]).0,
            )
    }

    /// Each 7TV emote used in `comment` gets its name, image URL and the emote kind, once.
    pub fn get_metadata(&self, comment: &Comment, sequence_no: u64) -> (r: MetadataUpdate)
        ensures
            self.metadata_spec(*comment, r),
    {
        let ghost cat = self.seventv_emotes@;
        let ghost fs = comment.fragments@;
        let mut updates: Vec<(String, MetadataTypes)> = Vec::new();
        let mut i: usize = 0;
        let ghost mut seen: Seq<(Seq<char>, Seq<char>)> = Seq::empty();
        while i < comment.fragments.len()
            invariant
                i <= fs.len(),
                fs == comment.fragments@,
                cat == self.seventv_emotes@,
                seen == comment_emotes(cat, fs.take(i as int)),
                names_unique(updates@),
                forall|k: int|
                    0 <= k < updates@.len() ==> emote_url(cat, (#[trigger] updates@[k]).0@) is Some
                        && updates@[k].1@ == MetadataView::BasicInfo(
                        updates@[k].0@,
                        emote_url(cat, updates@[k].0@)->0,
                        PerformanceType::Emote,
                    ),
                forall|k: int|
                    0 <= k < updates@.len() ==> occurs_within(seen, (#[trigger] updates@[k]).0@, seen.len() as int),
                forall|x: int| 0 <= x < seen.len() ==> has_entry_named(updates@, (#[trigger] seen[x]).0),
            decreases fs.len() - i,
        {
            let found = self.seventv_emotes.get_7tv_emotes_in_fragment(&comment.fragments[i].text);
            let ghost fv = found@.map_values(|e: SevenTVEmote| e@);
            let ghost seen1 = seen + fv;
            assert(fv.len() == found@.len());
            assert(fs.take(i + 1).drop_last() =~= fs.take(i as int));
            let mut m: usize = 0;
            assert forall|k: int| 0 <= k < updates@.len() implies occurs_within(seen1, (#[trigger] updates@[k]).0@, seen.len() + m) by {
                let x = choose|x: int| 0 <= x < seen.len() && seen[x].0 == updates@[k].0@;
                assert(seen1[x] == seen[x]);
            }
            assert forall|x: int| 0 <= x < seen.len() + m implies has_entry_named(
                updates@,
                (#[trigger] seen1[x]).0,
            ) by {
                assert(seen1[x] == seen[x]);
            }
            while m < found.len()
                invariant
                    m <= found@.len(),
                    fv == found@.map_values(|e: SevenTVEmote| e@),
                    fv.len() == found@.len(),
                    seen1 == seen + fv,
                    fv == crate::emotes::emotes_in_words(cat, crate::emotes::split_spaces(fs[i as int].text@)),
                    i < fs.len(),
                    fs == comment.fragments@,
                    cat == self.seventv_emotes@,
                    names_unique(updates@),
                    forall|k: int|
                        0 <= k < updates@.len() ==> emote_url(cat, (#[trigger] updates@[k]).0@) is Some
                            && updates@[k].1@ == MetadataView::BasicInfo(
                            updates@[k].0@,
                            emote_url(cat, updates@[k].0@)->0,
                            PerformanceType::Emote,
                        ),
                    forall|k: int|
                        0 <= k < updates@.len() ==> occurs_within(seen1, (#[trigger] updates@[k]).0@, seen.len() + m),
                    forall|x: int| 0 <= x < seen.len() + m ==> has_entry_named(updates@, (#[trigger] seen1[x]).0),
                decreases found@.len() - m,
            {
                let e = &found[m];
                proof {
                    crate::emotes::lemma_found_in_catalog(cat, crate::emotes::split_spaces(fs[i as int].text@), m as int);
                }
                assert(seen1[seen.len() + m] == fv[m as int]);
                let ghost u0 = updates@;
                match name_index(&updates, &e.name) {
                    Some(j) => {
                        assert(updates@[j as int].0@ == e.name@);
                    },
                    None => {
                        updates.push(
                            (
                                e.name.clone(),
                                MetadataTypes::BasicInfo(
                                    e.name.clone(),
                                    e.emote_url.clone(),
                                    PerformanceType::Emote,
                                ),
                            ),
                        );
                        assert forall|k: int| 0 <= k < u0.len() implies updates@[k] == u0[k] by {}
                        assert(updates@[u0.len() as int].0@ == e.name@);
                        assert forall|k: int| 0 <= k < updates@.len() implies occurs_within(seen1, (#[trigger] updates@[k]).0@, seen.len() + m + 1) by {
                            if k < u0.len() {
                                let x = choose|x: int| 0 <= x < seen.len() + m && seen1[x].0 == u0[k].0@;
                            } else {
                                assert(seen1[seen.len() + m].0 == updates@[k].0@);
                            }
                        }
                    },
                }
                assert forall|x: int| 0 <= x < seen.len() + m + 1 implies has_entry_named(
                    updates@,
                    (#[trigger] seen1[x]).0,
                ) by {
                    if x < seen.len() + m {
                        let k = choose|k: int| 0 <= k < u0.len() && (#[trigger] u0[k]).0@ == seen1[x].0;
                        assert(updates@[k] == u0[k]);
                    } else {
                        assert(seen1[x].0 == e.name@);
                    }
                }
                m += 1;
            }
            proof {
                assert forall|k: int| 0 <= k < updates@.len() implies occurs_within(seen1, (#[trigger] updates@[k]).0@, seen1.len() as int) by {
                    let x = choose|x: int| 0 <= x < seen.len() + m && seen1[x].0 == updates@[k].0@;
                }
                seen = seen1;
            }
            i += 1;
        }
        assert(fs.take(i as int) =~= fs);
        MetadataUpdate { metadata_name: self.get_name(), updates }
    }
}

/// The identity metadata: a commenter's display name and avatar.
pub struct BasicInfo;

impl BasicInfo {
    pub fn new() -> BasicInfo {
        BasicInfo
    }

    pub fn get_name(&self) -> (r: String)
        ensures
            r@ == basic_info_name(),
    {
        let r = String::from_str("basic_info");
        proof {
            reveal_strlit("basic_info");
        }
        assert(r@ =~= basic_info_name());
        r
    }

    pub fn get_default_value(&self) -> (r: MetadataTypes)
        ensures
            r@ == MetadataView::BasicInfo(Seq::empty(), Seq::empty(), PerformanceType::Unknown),
    {
        MetadataTypes::BasicInfo(String::new(), String::new(), PerformanceType::Unknown)
    }

    /// The update of `comment`: the sender's display name and avatar.
    pub open spec fn metadata_spec(&self, comment: Comment, r: MetadataUpdate) -> bool {
        &&& r.metadata_name@ == basic_info_name()
        &&& r.updates@.len() == 1
        &&& r.updates@[0].0@ == comment.commenter_id@
        &&& r.updates@[0].1@ == MetadataView::BasicInfo(
            comment.display_name@,
            comment.logo@,
            PerformanceType::User
        )
    }

    /// The sender of `comment` is a user with the message's display name and avatar.
    pub fn get_metadata(&self, comment: &Comment, sequence_no: u64) -> (r: MetadataUpdate)
        ensures
            self.metadata_spec(*comment, r),
    {
        let mut updates: Vec<(String, MetadataTypes)> = Vec::new();
        updates.push(
            (
                comment.commenter_id.clone(),
                MetadataTypes::BasicInfo(
                    comment.display_name.clone(),
                    comment.logo.clone(),
                    PerformanceType::User,
                ),
            ),
        );
        MetadataUpdate { metadata_name: self.get_name(), updates }
    }
}

pub open spec fn special_role_name() -> Seq<char> {
    seq!['s', 'p', 'e', 'c', 'i', 'a', 'l', '_', 'r', 'o', 'l', 'e']
}

/// The special-role metadata: whether a commenter holds a special role
/// (moderator, VIP) in the channel.
pub struct SpecialRole {
    /// Ids of the participants that hold a special role.
    pub role_holders: Vec<String>,
}

impl SpecialRole {
    pub fn new(role_holders: Vec<String>) -> (r: SpecialRole)
        ensures
            r.role_holders == role_holders,
    {
        SpecialRole { role_holders }
    }

    pub fn get_name(&self) -> (r: String)
        ensures
            r@ == special_role_name(),
    {
        let r = String::from_str("special_role");
        proof {
            reveal_strlit("special_role");
        }
        assert(r@ =~= special_role_name());
        r
    }

    pub fn get_default_value(&self) -> (r: MetadataTypes)
        ensures
            r@ == MetadataView::Bool(false),
    {
        MetadataTypes::Bool(false)
    }

    /// The update of `comment`: whether the sender holds a special role.
    pub open spec fn metadata_spec(&self, comment: Comment, r: MetadataUpdate) -> bool {
        &&& r.metadata_name@ == special_role_name()
        &&& r.updates@.len() == 1
        &&& r.updates@[0].0@ == comment.commenter_id@
        &&& r.updates@[0].1@ == MetadataView::Bool(
            exists|k: int|
                0 <= k < self.role_holders@.len() && (#[trigger] self.role_holders@[k])@
                    == comment.commenter_id@
        )
    }

    /// Whether the sender of `comment` holds a special role.
    pub fn get_metadata(&self, comment: &Comment, sequence_no: u64) -> (r: MetadataUpdate)
        ensures
            self.metadata_spec(*comment, r),
    {
        let mut holds = false;
        let mut i: usize = 0;
        while i < self.role_holders.len()
            invariant
                i <= self.role_holders@.len(),
                holds == exists|k: int|
                    0 <= k < i && (#[trigger] self.role_holders@[k])@ == comment.commenter_id@,
            decreases self.role_holders@.len() - i,
        {
            if self.role_holders[i] == comment.commenter_id {
                holds = true;
            }
            i += 1;
        }
        let mut updates: Vec<(String, MetadataTypes)> = Vec::new();
        updates.push((comment.commenter_id.clone(), MetadataTypes::Bool(holds)));
        MetadataUpdate { metadata_name: self.get_name(), updates }
    }
}

} // verus!
