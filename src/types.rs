use vstd::prelude::*;

verus! {

/// What kind of entity a performance record describes.
#[derive(PartialEq, Eq, Structural, Debug, Clone, Copy)]
pub enum PerformanceType {
    User,
    Emote,
    Unknown,
}

/// A chat badge as shown to viewers.
#[derive(Debug, Clone)]
pub struct BadgeInformation {
    pub description: String,
    pub image_url: String,
}

/// A descriptive attribute produced by a metadata component.
#[derive(Debug, Clone)]
pub enum MetadataTypes {
    Bool(bool),
    BadgeList(Vec<BadgeInformation>),
    /// Display name, avatar URL and kind of a participant.
    BasicInfo(String, String, PerformanceType),
}

/// Mathematical value of a metadata attribute.
pub enum MetadataView {
    Bool(bool),
    BadgeList(Seq<(Seq<char>, Seq<char>)>),
    BasicInfo(Seq<char>, Seq<char>, PerformanceType),
}

impl BadgeInformation {
    pub open spec fn view(&self) -> (Seq<char>, Seq<char>) {
        (self.description@, self.image_url@)
    }

    /// A copy with the same description and image.
    pub fn duplicate(&self) -> (r: BadgeInformation)
        ensures
            r@ == self@,
    {
        BadgeInformation { description: self.description.clone(), image_url: self.image_url.clone() }
    }
}

pub open spec fn badges_view(v: Seq<BadgeInformation>) -> Seq<(Seq<char>, Seq<char>)> {
    v.map_values(|b: BadgeInformation| b@)
}

/// Copies a badge list element by element.
pub fn duplicate_badges(v: &Vec<BadgeInformation>) -> (r: Vec<BadgeInformation>)
    ensures
        badges_view(r@) == badges_view(v@),
{
    let mut r: Vec<BadgeInformation> = Vec::new();
    let mut i: usize = 0;
    while i < v.len()
        invariant
            i <= v.len(),
            r.len() == i,
            forall|j: int| 0 <= j < i ==> (#[trigger] r@[j])@ == v@[j]@,
        decreases v.len() - i,
    {
        r.push(v[i].duplicate());
        i += 1;
    }
    assert(badges_view(r@) =~= badges_view(v@));
    r
}

impl MetadataTypes {
    pub open spec fn view(&self) -> MetadataView {
        match self {
            MetadataTypes::Bool(b) => MetadataView::Bool(*b),
            MetadataTypes::BadgeList(l) => MetadataView::BadgeList(badges_view(l@)),
            MetadataTypes::BasicInfo(n, a, t) => MetadataView::BasicInfo(n@, a@, *t),
        }
    }

    /// A copy with the same value.
    pub fn duplicate(&self) -> (r: MetadataTypes)
        ensures
            r@ == self@,
    {
        match self {
            MetadataTypes::Bool(b) => MetadataTypes::Bool(*b),
            MetadataTypes::BadgeList(l) => MetadataTypes::BadgeList(duplicate_badges(l)),
            MetadataTypes::BasicInfo(n, a, t) => MetadataTypes::BasicInfo(n.clone(), a.clone(), *t),
        }
    }

    /// The badge list, where the value is one.
    pub fn get_badge_list(&self) -> (r: Option<&Vec<BadgeInformation>>)
        ensures
            match self {
                MetadataTypes::BadgeList(l) => r == Some(l),
                _ => r is None,
            },
    {
        match self {
            MetadataTypes::BadgeList(badge_list) => Some(badge_list),
            _ => None,
        }
    }

    /// The flag, where the value is one.
    pub fn get_bool(&self) -> (r: Option<&bool>)
        ensures
            match self {
                MetadataTypes::Bool(b) => r == Some(b),
                _ => r is None,
            },
    {
        match self {
            MetadataTypes::Bool(b) => Some(b),
            _ => None,
        }
    }

    /// A copy of the identity triple, where the value is one.
    pub fn get_basic_info(&self) -> (r: Option<(String, String, PerformanceType)>)
        ensures
            match self {
                MetadataTypes::BasicInfo(n, a, t) => r matches Some(x) && x.0@ == n@ && x.1@ == a@
                    && x.2 == *t,
                _ => r is None,
            },
    {
        match self {
            MetadataTypes::BasicInfo(username, avatar, perf_type) => {
                Some((username.clone(), avatar.clone(), *perf_type))
            },
            _ => None,
        }
    }
}

} // verus!
