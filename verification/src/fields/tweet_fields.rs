//! Fields of a tweet.

use crate::fields::{is_name, Field};
use vstd::prelude::*;

verus! {

/// What a request can ask to have returned of a tweet.
#[derive(Debug, Clone, Copy, PartialEq, Eq, Hash, Structural)]
pub enum TweetFields {
    Attachments,
    AuthorId,
    ContextAnnotations,
    ConversationId,
    CreatedAt,
    EditControls,
    Entities,
    Geo,
    Id,
    InReplyToUserId,
    Lang,
    NonPublicMetrics,
    PublicMetrics,
    OrganicMetrics,
    PromotedMetrics,
    PossiblySensitive,
    ReferencedTweets,
    ReplySettings,
    Source,
    Text,
    Withheld,
}

impl TweetFields {
    /// Every member, once, in declaration order.
    pub fn all() -> (result: Vec<Self>)
        ensures
            result@ == <Self as Field>::universe(),
    {
        let mut result = Vec::new();
        result.push(Self::Attachments);
        result.push(Self::AuthorId);
        result.push(Self::ContextAnnotations);
        result.push(Self::ConversationId);
        result.push(Self::CreatedAt);
        result.push(Self::EditControls);
        result.push(Self::Entities);
        result.push(Self::Geo);
        result.push(Self::Id);
        result.push(Self::InReplyToUserId);
        result.push(Self::Lang);
        result.push(Self::NonPublicMetrics);
        result.push(Self::PublicMetrics);
        result.push(Self::OrganicMetrics);
        result.push(Self::PromotedMetrics);
        result.push(Self::PossiblySensitive);
        result.push(Self::ReferencedTweets);
        result.push(Self::ReplySettings);
        result.push(Self::Source);
        result.push(Self::Text);
        result.push(Self::Withheld);
        assert(result@ =~= <Self as Field>::universe());
        result
    }

    /// Every member but the metrics of promoted tweets.
    pub open spec fn organic_members() -> Seq<Self> {
        seq![
            Self::Attachments,
            Self::AuthorId,
            Self::ContextAnnotations,
            Self::ConversationId,
            Self::CreatedAt,
            Self::EditControls,
            Self::Entities,
            Self::Geo,
            Self::Id,
            Self::InReplyToUserId,
            Self::Lang,
            Self::NonPublicMetrics,
            Self::PublicMetrics,
            Self::OrganicMetrics,
            Self::PossiblySensitive,
            Self::ReferencedTweets,
            Self::ReplySettings,
            Self::Source,
            Self::Text,
            Self::Withheld,
        ]
    }

    /// Every member but the metrics of promoted tweets.
    pub fn organic() -> (result: Vec<Self>)
        ensures
            result@ == Self::organic_members(),
    {
        let mut result = Vec::new();
        result.push(Self::Attachments);
        result.push(Self::AuthorId);
        result.push(Self::ContextAnnotations);
        result.push(Self::ConversationId);
        result.push(Self::CreatedAt);
        result.push(Self::EditControls);
        result.push(Self::Entities);
        result.push(Self::Geo);
        result.push(Self::Id);
        result.push(Self::InReplyToUserId);
        result.push(Self::Lang);
        result.push(Self::NonPublicMetrics);
        result.push(Self::PublicMetrics);
        result.push(Self::OrganicMetrics);
        result.push(Self::PossiblySensitive);
        result.push(Self::ReferencedTweets);
        result.push(Self::ReplySettings);
        result.push(Self::Source);
        result.push(Self::Text);
        result.push(Self::Withheld);
        assert(result@ =~= Self::organic_members());
        result
    }

    /// [`Self::organic_members`] holds every member but those it leaves out,
    /// and none twice.
    pub proof fn lemma_organic_members()
        ensures
            Self::organic_members().no_duplicates(),
            forall|m: Self| Self::organic_members().contains(m) <==> (
                m != Self::PromotedMetrics
            ),
    {
        let list = Self::organic_members();
        assert forall|m: Self| m != Self::PromotedMetrics implies list.contains(
            m,
        ) by {
            let i = Self::organic_position(m);
            assert(list[i] == m);
        }
    }

    /// Where [`Self::organic_members`] holds the member.
    spec fn organic_position(m: Self) -> int {
        match m {
            Self::Attachments => 0,
            Self::AuthorId => 1,
            Self::ContextAnnotations => 2,
            Self::ConversationId => 3,
            Self::CreatedAt => 4,
            Self::EditControls => 5,
            Self::Entities => 6,
            Self::Geo => 7,
            Self::Id => 8,
            Self::InReplyToUserId => 9,
            Self::Lang => 10,
            Self::NonPublicMetrics => 11,
            Self::PublicMetrics => 12,
            Self::OrganicMetrics => 13,
            Self::PromotedMetrics => -1,
            Self::PossiblySensitive => 14,
            Self::ReferencedTweets => 15,
            Self::ReplySettings => 16,
            Self::Source => 17,
            Self::Text => 18,
            Self::Withheld => 19,
        }
    }

    /// Every member but the metrics that only the author may read.
    pub open spec fn open_members() -> Seq<Self> {
        seq![
            Self::Attachments,
            Self::AuthorId,
            Self::ContextAnnotations,
            Self::ConversationId,
            Self::CreatedAt,
            Self::EditControls,
            Self::Entities,
            Self::Geo,
            Self::Id,
            Self::InReplyToUserId,
            Self::Lang,
            Self::PublicMetrics,
            Self::PossiblySensitive,
            Self::ReferencedTweets,
            Self::ReplySettings,
            Self::Source,
            Self::Text,
            Self::Withheld,
        ]
    }

    /// Every member but the metrics that only the author may read.
    pub fn open() -> (result: Vec<Self>)
        ensures
            result@ == Self::open_members(),
    {
        let mut result = Vec::new();
        result.push(Self::Attachments);
        result.push(Self::AuthorId);
        result.push(Self::ContextAnnotations);
        result.push(Self::ConversationId);
        result.push(Self::CreatedAt);
        result.push(Self::EditControls);
        result.push(Self::Entities);
        result.push(Self::Geo);
        result.push(Self::Id);
        result.push(Self::InReplyToUserId);
        result.push(Self::Lang);
        result.push(Self::PublicMetrics);
        result.push(Self::PossiblySensitive);
        result.push(Self::ReferencedTweets);
        result.push(Self::ReplySettings);
        result.push(Self::Source);
        result.push(Self::Text);
        result.push(Self::Withheld);
        assert(result@ =~= Self::open_members());
        result
    }

    /// [`Self::open_members`] holds every member but those it leaves out,
    /// and none twice.
    pub proof fn lemma_open_members()
        ensures
            Self::open_members().no_duplicates(),
            forall|m: Self| Self::open_members().contains(m) <==> (
                m != Self::NonPublicMetrics && m != Self::OrganicMetrics
                && m != Self::PromotedMetrics
            ),
    {
        let list = Self::open_members();
        assert forall|m: Self| m != Self::NonPublicMetrics && m != Self::OrganicMetrics
            && m != Self::PromotedMetrics implies list.contains(
            m,
        ) by {
            let i = Self::open_position(m);
            assert(list[i] == m);
        }
    }

    /// Where [`Self::open_members`] holds the member.
    spec fn open_position(m: Self) -> int {
        match m {
            Self::Attachments => 0,
            Self::AuthorId => 1,
            Self::ContextAnnotations => 2,
            Self::ConversationId => 3,
            Self::CreatedAt => 4,
            Self::EditControls => 5,
            Self::Entities => 6,
            Self::Geo => 7,
            Self::Id => 8,
            Self::InReplyToUserId => 9,
            Self::Lang => 10,
            Self::NonPublicMetrics => -1,
            Self::PublicMetrics => 11,
            Self::OrganicMetrics => -1,
            Self::PromotedMetrics => -1,
            Self::PossiblySensitive => 12,
            Self::ReferencedTweets => 13,
            Self::ReplySettings => 14,
            Self::Source => 15,
            Self::Text => 16,
            Self::Withheld => 17,
        }
    }

    /// The member's name as a string of its own.
    pub fn to_string(&self) -> (s: String)
        ensures
            s@ == self.label(),
    {
        self.as_str().to_owned()
    }
}

impl Field for TweetFields {
    open spec fn universe() -> Seq<Self> {
        seq![
            Self::Attachments,
            Self::AuthorId,
            Self::ContextAnnotations,
            Self::ConversationId,
            Self::CreatedAt,
            Self::EditControls,
            Self::Entities,
            Self::Geo,
            Self::Id,
            Self::InReplyToUserId,
            Self::Lang,
            Self::NonPublicMetrics,
            Self::PublicMetrics,
            Self::OrganicMetrics,
            Self::PromotedMetrics,
            Self::PossiblySensitive,
            Self::ReferencedTweets,
            Self::ReplySettings,
            Self::Source,
            Self::Text,
            Self::Withheld,
        ]
    }

    open spec fn label(&self) -> Seq<char> {
        match self {
            Self::Attachments => "attachments"@,
            Self::AuthorId => "author_id"@,
            Self::ContextAnnotations => "context_annotations"@,
            Self::ConversationId => "conversation_id"@,
            Self::CreatedAt => "created_at"@,
            Self::EditControls => "edit_controls"@,
            Self::Entities => "entities"@,
            Self::Geo => "geo"@,
            Self::Id => "id"@,
            Self::InReplyToUserId => "in_reply_to_user_id"@,
            Self::Lang => "lang"@,
            Self::NonPublicMetrics => "non_public_metrics"@,
            Self::PublicMetrics => "public_metrics"@,
            Self::OrganicMetrics => "organic_metrics"@,
            Self::PromotedMetrics => "promoted_metrics"@,
            Self::PossiblySensitive => "possibly_sensitive"@,
            Self::ReferencedTweets => "referenced_tweets"@,
            Self::ReplySettings => "reply_settings"@,
            Self::Source => "source"@,
            Self::Text => "text"@,
            Self::Withheld => "withheld"@,
        }
    }

    open spec fn ordinal(&self) -> int {
        match self {
            Self::Attachments => 0,
            Self::AuthorId => 1,
            Self::ContextAnnotations => 2,
            Self::ConversationId => 3,
            Self::CreatedAt => 4,
            Self::EditControls => 5,
            Self::Entities => 6,
            Self::Geo => 7,
            Self::Id => 8,
            Self::InReplyToUserId => 9,
            Self::Lang => 10,
            Self::NonPublicMetrics => 11,
            Self::PublicMetrics => 12,
            Self::OrganicMetrics => 13,
            Self::PromotedMetrics => 14,
            Self::PossiblySensitive => 15,
            Self::ReferencedTweets => 16,
            Self::ReplySettings => 17,
            Self::Source => 18,
            Self::Text => 19,
            Self::Withheld => 20,
        }
    }

    fn members() -> (v: Vec<Self>) {
        Self::all()
    }

    fn index(&self) -> (i: usize) {
        match self {
            Self::Attachments => 0,
            Self::AuthorId => 1,
            Self::ContextAnnotations => 2,
            Self::ConversationId => 3,
            Self::CreatedAt => 4,
            Self::EditControls => 5,
            Self::Entities => 6,
            Self::Geo => 7,
            Self::Id => 8,
            Self::InReplyToUserId => 9,
            Self::Lang => 10,
            Self::NonPublicMetrics => 11,
            Self::PublicMetrics => 12,
            Self::OrganicMetrics => 13,
            Self::PromotedMetrics => 14,
            Self::PossiblySensitive => 15,
            Self::ReferencedTweets => 16,
            Self::ReplySettings => 17,
            Self::Source => 18,
            Self::Text => 19,
            Self::Withheld => 20,
        }
    }

    fn as_str(&self) -> (s: &'static str) {
        match self {
            Self::Attachments => "attachments",
            Self::AuthorId => "author_id",
            Self::ContextAnnotations => "context_annotations",
            Self::ConversationId => "conversation_id",
            Self::CreatedAt => "created_at",
            Self::EditControls => "edit_controls",
            Self::Entities => "entities",
            Self::Geo => "geo",
            Self::Id => "id",
            Self::InReplyToUserId => "in_reply_to_user_id",
            Self::Lang => "lang",
            Self::NonPublicMetrics => "non_public_metrics",
            Self::PublicMetrics => "public_metrics",
            Self::OrganicMetrics => "organic_metrics",
            Self::PromotedMetrics => "promoted_metrics",
            Self::PossiblySensitive => "possibly_sensitive",
            Self::ReferencedTweets => "referenced_tweets",
            Self::ReplySettings => "reply_settings",
            Self::Source => "source",
            Self::Text => "text",
            Self::Withheld => "withheld",
        }
    }

    proof fn lemma_member(m: Self) {
    }

    proof fn lemma_position(i: int) {
    }

    proof fn lemma_label_is_name(m: Self) {
        reveal_strlit("attachments");
        assert(is_name("attachments"@));
        reveal_strlit("author_id");
        assert(is_name("author_id"@));
        reveal_strlit("context_annotations");
        assert(is_name("context_annotations"@));
        reveal_strlit("conversation_id");
        assert(is_name("conversation_id"@));
        reveal_strlit("created_at");
        assert(is_name("created_at"@));
        reveal_strlit("edit_controls");
        assert(is_name("edit_controls"@));
        reveal_strlit("entities");
        assert(is_name("entities"@));
        reveal_strlit("geo");
        assert(is_name("geo"@));
        reveal_strlit("id");
        assert(is_name("id"@));
        reveal_strlit("in_reply_to_user_id");
        assert(is_name("in_reply_to_user_id"@));
        reveal_strlit("lang");
        assert(is_name("lang"@));
        reveal_strlit("non_public_metrics");
        assert(is_name("non_public_metrics"@));
        reveal_strlit("public_metrics");
        assert(is_name("public_metrics"@));
        reveal_strlit("organic_metrics");
        assert(is_name("organic_metrics"@));
        reveal_strlit("promoted_metrics");
        assert(is_name("promoted_metrics"@));
        reveal_strlit("possibly_sensitive");
        assert(is_name("possibly_sensitive"@));
        reveal_strlit("referenced_tweets");
        assert(is_name("referenced_tweets"@));
        reveal_strlit("reply_settings");
        assert(is_name("reply_settings"@));
        reveal_strlit("source");
        assert(is_name("source"@));
        reveal_strlit("text");
        assert(is_name("text"@));
        reveal_strlit("withheld");
        assert(is_name("withheld"@));
    }

    proof fn lemma_labels_distinct(a: Self, b: Self) {
        reveal_strlit("attachments");
        assert("attachments"@.len() == 11 && "attachments"@[0] == 'a');
        reveal_strlit("author_id");
        assert("author_id"@.len() == 9 && "author_id"@[0] == 'a');
        reveal_strlit("context_annotations");
        assert("context_annotations"@.len() == 19 && "context_annotations"@[0] == 'c');
        reveal_strlit("conversation_id");
        assert("conversation_id"@.len() == 15 && "conversation_id"@[0] == 'c');
        reveal_strlit("created_at");
        assert("created_at"@.len() == 10 && "created_at"@[0] == 'c');
        reveal_strlit("edit_controls");
        assert("edit_controls"@.len() == 13 && "edit_controls"@[0] == 'e');
        reveal_strlit("entities");
        assert("entities"@.len() == 8 && "entities"@[0] == 'e');
        reveal_strlit("geo");
        assert("geo"@.len() == 3 && "geo"@[0] == 'g');
        reveal_strlit("id");
        assert("id"@.len() == 2 && "id"@[0] == 'i');
        reveal_strlit("in_reply_to_user_id");
        assert("in_reply_to_user_id"@.len() == 19 && "in_reply_to_user_id"@[0] == 'i');
        reveal_strlit("lang");
        assert("lang"@.len() == 4 && "lang"@[0] == 'l');
        reveal_strlit("non_public_metrics");
        assert("non_public_metrics"@.len() == 18 && "non_public_metrics"@[0] == 'n');
        reveal_strlit("public_metrics");
        assert("public_metrics"@.len() == 14 && "public_metrics"@[0] == 'p');
        reveal_strlit("organic_metrics");
        assert("organic_metrics"@.len() == 15 && "organic_metrics"@[0] == 'o');
        reveal_strlit("promoted_metrics");
        assert("promoted_metrics"@.len() == 16 && "promoted_metrics"@[0] == 'p');
        reveal_strlit("possibly_sensitive");
        assert("possibly_sensitive"@.len() == 18 && "possibly_sensitive"@[0] == 'p');
        reveal_strlit("referenced_tweets");
        assert("referenced_tweets"@.len() == 17 && "referenced_tweets"@[0] == 'r');
        reveal_strlit("reply_settings");
        assert("reply_settings"@.len() == 14 && "reply_settings"@[0] == 'r');
        reveal_strlit("source");
        assert("source"@.len() == 6 && "source"@[0] == 's');
        reveal_strlit("text");
        assert("text"@.len() == 4 && "text"@[0] == 't');
        reveal_strlit("withheld");
        assert("withheld"@.len() == 8 && "withheld"@[0] == 'w');
    }
}

} // verus!
