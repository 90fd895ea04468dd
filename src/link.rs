//! The closed set of tags that an association row may carry.

use vstd::prelude::*;

verus! {

/// What kind of entity the linked side of an association is.
#[derive(Clone, Copy, Debug, PartialEq, Eq, Structural)]
pub enum LinkType {
    Booking,
    Services,
    Discounts,
    Auxiliary,
    Company,
}

/// The tag under which each link type is stored.
pub open spec fn tag_of(t: LinkType) -> Seq<char> {
    match t {
        LinkType::Booking => "booking"@,
        LinkType::Services => "services"@,
        LinkType::Discounts => "discounts"@,
        LinkType::Auxiliary => "auxiliary"@,
        LinkType::Company => "company"@,
    }
}

/// The link type whose tag is `s`, if `s` is a known tag.
pub open spec fn parse_tag(s: Seq<char>) -> Option<LinkType> {
    if s == tag_of(LinkType::Booking) {
        Some(LinkType::Booking)
    } else if s == tag_of(LinkType::Services) {
        Some(LinkType::Services)
    } else if s == tag_of(LinkType::Discounts) {
        Some(LinkType::Discounts)
    } else if s == tag_of(LinkType::Auxiliary) {
        Some(LinkType::Auxiliary)
    } else if s == tag_of(LinkType::Company) {
        Some(LinkType::Company)
    } else {
        None
    }
}

/// The five tags are pairwise distinct.
pub proof fn lemma_tags_distinct()
    ensures
        forall|a: LinkType, b: LinkType| tag_of(a) == tag_of(b) ==> a == b,
{
    reveal_strlit("booking");
    reveal_strlit("services");
    reveal_strlit("discounts");
    reveal_strlit("auxiliary");
    reveal_strlit("company");
    assert("booking"@[0] != "services"@[0]);
    assert("booking"@[0] != "discounts"@[0]);
    assert("booking"@[0] != "auxiliary"@[0]);
    assert("booking"@[0] != "company"@[0]);
    assert("services"@[0] != "discounts"@[0]);
    assert("services"@[0] != "auxiliary"@[0]);
    assert("services"@[0] != "company"@[0]);
    assert("discounts"@[0] != "auxiliary"@[0]);
    assert("discounts"@[0] != "company"@[0]);
    assert("auxiliary"@[0] != "company"@[0]);
}

/// Reading back the tag of a link type gives that link type.
pub proof fn lemma_parse_tag_of(t: LinkType)
    ensures
        parse_tag(tag_of(t)) == Some(t),
{
    lemma_tags_distinct();
}

impl LinkType {
    /// The tag stored for this link type.
    pub fn as_str(&self) -> (r: &'static str)
        ensures
            r@ == tag_of(*self),
    {
        match self {
            LinkType::Booking => "booking",
            LinkType::Services => "services",
            LinkType::Discounts => "discounts",
            LinkType::Auxiliary => "auxiliary",
            LinkType::Company => "company",
        }
    }

    /// Validates a stored tag: the link type it names, or `None` for an
    /// unknown tag.
    pub fn from_tag(tag: &str) -> (r: Option<LinkType>)
        ensures
            r == parse_tag(tag@),
    {
        let s = tag.to_owned();
        if s == "booking".to_owned() {
            Some(LinkType::Booking)
        } else if s == "services".to_owned() {
            Some(LinkType::Services)
        } else if s == "discounts".to_owned() {
            Some(LinkType::Discounts)
        } else if s == "auxiliary".to_owned() {
            Some(LinkType::Auxiliary)
        } else if s == "company".to_owned() {
            Some(LinkType::Company)
        } else {
            None
        }
    }
}

} // verus!
