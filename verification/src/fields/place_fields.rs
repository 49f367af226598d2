//! Fields of a place.

use crate::fields::{is_name, Field};
use vstd::prelude::*;

verus! {

/// What a request can ask to have returned of a place.
#[derive(Debug, Clone, Copy, PartialEq, Eq, Hash, Structural)]
pub enum PlaceFields {
    ContainedWithin,
    Country,
    CountryCode,
    FullName,
    Geo,
    Id,
    Name,
    PlaceType,
}

impl PlaceFields {
    /// Every member, once, in declaration order.
    pub fn all() -> (result: Vec<Self>)
        ensures
            result@ == <Self as Field>::universe(),
    {
        let mut result = Vec::new();
        result.push(Self::ContainedWithin);
        result.push(Self::Country);
        result.push(Self::CountryCode);
        result.push(Self::FullName);
        result.push(Self::Geo);
        result.push(Self::Id);
        result.push(Self::Name);
        result.push(Self::PlaceType);
        assert(result@ =~= <Self as Field>::universe());
        result
    }

    /// The member's name as a string of its own.
    pub fn to_string(&self) -> (s: String)
        ensures
            s@ == self.label(),
    {
        self.as_str().to_owned()
    }
}

impl Field for PlaceFields {
    open spec fn universe() -> Seq<Self> {
        seq![
            Self::ContainedWithin,
            Self::Country,
            Self::CountryCode,
            Self::FullName,
            Self::Geo,
            Self::Id,
            Self::Name,
            Self::PlaceType,
        ]
    }

    open spec fn label(&self) -> Seq<char> {
        match self {
            Self::ContainedWithin => "contained_within"@,
            Self::Country => "country"@,
            Self::CountryCode => "country_code"@,
            Self::FullName => "full_name"@,
            Self::Geo => "geo"@,
            Self::Id => "id"@,
            Self::Name => "name"@,
            Self::PlaceType => "place_type"@,
        }
    }

    open spec fn ordinal(&self) -> int {
        match self {
            Self::ContainedWithin => 0,
            Self::Country => 1,
            Self::CountryCode => 2,
            Self::FullName => 3,
            Self::Geo => 4,
            Self::Id => 5,
            Self::Name => 6,
            Self::PlaceType => 7,
        }
    }

    fn members() -> (v: Vec<Self>) {
        Self::all()
    }

    fn index(&self) -> (i: usize) {
        match self {
            Self::ContainedWithin => 0,
            Self::Country => 1,
            Self::CountryCode => 2,
            Self::FullName => 3,
            Self::Geo => 4,
            Self::Id => 5,
            Self::Name => 6,
            Self::PlaceType => 7,
        }
    }

    fn as_str(&self) -> (s: &'static str) {
        match self {
            Self::ContainedWithin => "contained_within",
            Self::Country => "country",
            Self::CountryCode => "country_code",
            Self::FullName => "full_name",
            Self::Geo => "geo",
            Self::Id => "id",
            Self::Name => "name",
            Self::PlaceType => "place_type",
        }
    }

    proof fn lemma_member(m: Self) {
    }

    proof fn lemma_position(i: int) {
    }

    proof fn lemma_label_is_name(m: Self) {
        reveal_strlit("contained_within");
        assert(is_name("contained_within"@));
        reveal_strlit("country");
        assert(is_name("country"@));
        reveal_strlit("country_code");
        assert(is_name("country_code"@));
        reveal_strlit("full_name");
        assert(is_name("full_name"@));
        reveal_strlit("geo");
        assert(is_name("geo"@));
        reveal_strlit("id");
        assert(is_name("id"@));
        reveal_strlit("name");
        assert(is_name("name"@));
        reveal_strlit("place_type");
        assert(is_name("place_type"@));
    }

    proof fn lemma_labels_distinct(a: Self, b: Self) {
        reveal_strlit("contained_within");
        assert("contained_within"@.len() == 16);
        reveal_strlit("country");
        assert("country"@.len() == 7);
        reveal_strlit("country_code");
        assert("country_code"@.len() == 12);
        reveal_strlit("full_name");
        assert("full_name"@.len() == 9);
        reveal_strlit("geo");
        assert("geo"@.len() == 3);
        reveal_strlit("id");
        assert("id"@.len() == 2);
        reveal_strlit("name");
        assert("name"@.len() == 4);
        reveal_strlit("place_type");
        assert("place_type"@.len() == 10);
    }
}

} // verus!
