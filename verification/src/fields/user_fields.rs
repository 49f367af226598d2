//! Fields of a user.

use crate::fields::{is_name, Field};
use vstd::prelude::*;

verus! {

/// What a request can ask to have returned of a user.
#[derive(Debug, Clone, Copy, PartialEq, Eq, Hash, Structural)]
pub enum UserFields {
    CreatedAt,
    Description,
    Entities,
    Id,
    Location,
    Name,
    PinnedTweetId,
    ProfileImageUrl,
    Protected,
    PublicMetrics,
    Url,
    Username,
    Verified,
    Withheld,
}

impl UserFields {
    /// Every member, once, in declaration order.
    pub fn all() -> (result: Vec<Self>)
        ensures
            result@ == <Self as Field>::universe(),
    {
        let mut result = Vec::new();
        result.push(Self::CreatedAt);
        result.push(Self::Description);
        result.push(Self::Entities);
        result.push(Self::Id);
        result.push(Self::Location);
        result.push(Self::Name);
        result.push(Self::PinnedTweetId);
        result.push(Self::ProfileImageUrl);
        result.push(Self::Protected);
        result.push(Self::PublicMetrics);
        result.push(Self::Url);
        result.push(Self::Username);
        result.push(Self::Verified);
        result.push(Self::Withheld);
        assert(result@ =~= <Self as Field>::universe());
        result
    }

    /// The member's name as a string of its own.
    pub fn to_string(&self) -> (s: String)
        ensures
            s@ == self.label(),
    {
        self.as_str().to_owned()
    }
}

impl Field for UserFields {
    open spec fn universe() -> Seq<Self> {
        seq![
            Self::CreatedAt,
            Self::Description,
            Self::Entities,
            Self::Id,
            Self::Location,
            Self::Name,
            Self::PinnedTweetId,
            Self::ProfileImageUrl,
            Self::Protected,
            Self::PublicMetrics,
            Self::Url,
            Self::Username,
            Self::Verified,
            Self::Withheld,
        ]
    }

    open spec fn label(&self) -> Seq<char> {
        match self {
            Self::CreatedAt => "created_at"@,
            Self::Description => "description"@,
            Self::Entities => "entities"@,
            Self::Id => "id"@,
            Self::Location => "location"@,
            Self::Name => "name"@,
            Self::PinnedTweetId => "pinned_tweet_id"@,
            Self::ProfileImageUrl => "profile_image_url"@,
            Self::Protected => "protected"@,
            Self::PublicMetrics => "public_metrics"@,
            Self::Url => "url"@,
            Self::Username => "username"@,
            Self::Verified => "verified"@,
            Self::Withheld => "withheld"@,
        }
    }

    open spec fn ordinal(&self) -> int {
        match self {
            Self::CreatedAt => 0,
            Self::Description => 1,
            Self::Entities => 2,
            Self::Id => 3,
            Self::Location => 4,
            Self::Name => 5,
            Self::PinnedTweetId => 6,
            Self::ProfileImageUrl => 7,
            Self::Protected => 8,
            Self::PublicMetrics => 9,
            Self::Url => 10,
            Self::Username => 11,
            Self::Verified => 12,
            Self::Withheld => 13,
        }
    }

    fn members() -> (v: Vec<Self>) {
        Self::all()
    }

    fn index(&self) -> (i: usize) {
        match self {
            Self::CreatedAt => 0,
            Self::Description => 1,
            Self::Entities => 2,
            Self::Id => 3,
            Self::Location => 4,
            Self::Name => 5,
            Self::PinnedTweetId => 6,
            Self::ProfileImageUrl => 7,
            Self::Protected => 8,
            Self::PublicMetrics => 9,
            Self::Url => 10,
            Self::Username => 11,
            Self::Verified => 12,
            Self::Withheld => 13,
        }
    }

    fn as_str(&self) -> (s: &'static str) {
        match self {
            Self::CreatedAt => "created_at",
            Self::Description => "description",
            Self::Entities => "entities",
            Self::Id => "id",
            Self::Location => "location",
            Self::Name => "name",
            Self::PinnedTweetId => "pinned_tweet_id",
            Self::ProfileImageUrl => "profile_image_url",
            Self::Protected => "protected",
            Self::PublicMetrics => "public_metrics",
            Self::Url => "url",
            Self::Username => "username",
            Self::Verified => "verified",
            Self::Withheld => "withheld",
        }
    }

    proof fn lemma_member(m: Self) {
    }

    proof fn lemma_position(i: int) {
    }

    proof fn lemma_label_is_name(m: Self) {
        reveal_strlit("created_at");
        assert(is_name("created_at"@));
        reveal_strlit("description");
        assert(is_name("description"@));
        reveal_strlit("entities");
        assert(is_name("entities"@));
        reveal_strlit("id");
        assert(is_name("id"@));
        reveal_strlit("location");
        assert(is_name("location"@));
        reveal_strlit("name");
        assert(is_name("name"@));
        reveal_strlit("pinned_tweet_id");
        assert(is_name("pinned_tweet_id"@));
        reveal_strlit("profile_image_url");
        assert(is_name("profile_image_url"@));
        reveal_strlit("protected");
        assert(is_name("protected"@));
        reveal_strlit("public_metrics");
        assert(is_name("public_metrics"@));
        reveal_strlit("url");
        assert(is_name("url"@));
        reveal_strlit("username");
        assert(is_name("username"@));
        reveal_strlit("verified");
        assert(is_name("verified"@));
        reveal_strlit("withheld");
        assert(is_name("withheld"@));
    }

    proof fn lemma_labels_distinct(a: Self, b: Self) {
        reveal_strlit("created_at");
        assert("created_at"@.len() == 10 && "created_at"@[0] == 'c');
        reveal_strlit("description");
        assert("description"@.len() == 11 && "description"@[0] == 'd');
        reveal_strlit("entities");
        assert("entities"@.len() == 8 && "entities"@[0] == 'e');
        reveal_strlit("id");
        assert("id"@.len() == 2 && "id"@[0] == 'i');
        reveal_strlit("location");
        assert("location"@.len() == 8 && "location"@[0] == 'l');
        reveal_strlit("name");
        assert("name"@.len() == 4 && "name"@[0] == 'n');
        reveal_strlit("pinned_tweet_id");
        assert("pinned_tweet_id"@.len() == 15 && "pinned_tweet_id"@[0] == 'p');
        reveal_strlit("profile_image_url");
        assert("profile_image_url"@.len() == 17 && "profile_image_url"@[0] == 'p');
        reveal_strlit("protected");
        assert("protected"@.len() == 9 && "protected"@[0] == 'p');
        reveal_strlit("public_metrics");
        assert("public_metrics"@.len() == 14 && "public_metrics"@[0] == 'p');
        reveal_strlit("url");
        assert("url"@.len() == 3 && "url"@[0] == 'u');
        reveal_strlit("username");
        assert("username"@.len() == 8 && "username"@[0] == 'u');
        reveal_strlit("verified");
        assert("verified"@.len() == 8 && "verified"@[0] == 'v');
        reveal_strlit("withheld");
        assert("withheld"@.len() == 8 && "withheld"@[0] == 'w');
    }
}

} // verus!
