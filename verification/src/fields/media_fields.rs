//! Fields of a media item.

use crate::fields::{is_name, Field};
use vstd::prelude::*;

verus! {

/// What a request can ask to have returned of a media item.
#[derive(Debug, Clone, Copy, PartialEq, Eq, Hash, Structural)]
pub enum MediaFields {
    DurationMs,
    Height,
    MediaKey,
    PreviewImageUrl,
    Type,
    Url,
    Width,
    PublicMetrics,
    NonPublicMetrics,
    OrganicMetrics,
    PromotedMetrics,
    AltText,
    Variants,
}

impl MediaFields {
    /// Every member, once, in declaration order.
    pub fn all() -> (result: Vec<Self>)
        ensures
            result@ == <Self as Field>::universe(),
    {
        let mut result = Vec::new();
        result.push(Self::DurationMs);
        result.push(Self::Height);
        result.push(Self::MediaKey);
        result.push(Self::PreviewImageUrl);
        result.push(Self::Type);
        result.push(Self::Url);
        result.push(Self::Width);
        result.push(Self::PublicMetrics);
        result.push(Self::NonPublicMetrics);
        result.push(Self::OrganicMetrics);
        result.push(Self::PromotedMetrics);
        result.push(Self::AltText);
        result.push(Self::Variants);
        assert(result@ =~= <Self as Field>::universe());
        result
    }

    /// Every member but the metrics of promoted tweets.
    pub open spec fn organic_members() -> Seq<Self> {
        seq![
            Self::DurationMs,
            Self::Height,
            Self::MediaKey,
            Self::PreviewImageUrl,
            Self::Type,
            Self::Url,
            Self::Width,
            Self::PublicMetrics,
            Self::NonPublicMetrics,
            Self::OrganicMetrics,
            Self::AltText,
            Self::Variants,
        ]
    }

    /// Every member but the metrics of promoted tweets.
    pub fn organic() -> (result: Vec<Self>)
        ensures
            result@ == Self::organic_members(),
    {
        let mut result = Vec::new();
        result.push(Self::DurationMs);
        result.push(Self::Height);
        result.push(Self::MediaKey);
        result.push(Self::PreviewImageUrl);
        result.push(Self::Type);
        result.push(Self::Url);
        result.push(Self::Width);
        result.push(Self::PublicMetrics);
        result.push(Self::NonPublicMetrics);
        result.push(Self::OrganicMetrics);
        result.push(Self::AltText);
        result.push(Self::Variants);
        assert(result@ =~= Self::organic_members());
        result
    }

    /// [`Self::organic_members`] holds every member but those it leaves out,
    /// and none twice.
    pub proof fn lemma_organic_members()
        ensures
            Self::organic_members().no_duplicates(),
            forall|m: Self| Self::organic_members().contains(m) <==> (
                m != Self::PromotedMetrics
            ),
    {
        let list = Self::organic_members();
        assert forall|m: Self| m != Self::PromotedMetrics implies list.contains(
            m,
        ) by {
            let i = Self::organic_position(m);
            assert(list[i] == m);
        }
    }

    /// Where [`Self::organic_members`] holds the member.
    spec fn organic_position(m: Self) -> int {
        match m {
            Self::DurationMs => 0,
            Self::Height => 1,
            Self::MediaKey => 2,
            Self::PreviewImageUrl => 3,
            Self::Type => 4,
            Self::Url => 5,
            Self::Width => 6,
            Self::PublicMetrics => 7,
            Self::NonPublicMetrics => 8,
            Self::OrganicMetrics => 9,
            Self::PromotedMetrics => -1,
            Self::AltText => 10,
            Self::Variants => 11,
        }
    }

    /// Every member but the metrics that only the author may read.
    pub open spec fn open_members() -> Seq<Self> {
        seq![
            Self::DurationMs,
            Self::Height,
            Self::MediaKey,
            Self::PreviewImageUrl,
            Self::Type,
            Self::Url,
            Self::Width,
            Self::PublicMetrics,
            Self::AltText,
            Self::Variants,
        ]
    }

    /// Every member but the metrics that only the author may read.
    pub fn open() -> (result: Vec<Self>)
        ensures
            result@ == Self::open_members(),
    {
        let mut result = Vec::new();
        result.push(Self::DurationMs);
        result.push(Self::Height);
        result.push(Self::MediaKey);
        result.push(Self::PreviewImageUrl);
        result.push(Self::Type);
        result.push(Self::Url);
        result.push(Self::Width);
        result.push(Self::PublicMetrics);
        result.push(Self::AltText);
        result.push(Self::Variants);
        assert(result@ =~= Self::open_members());
        result
    }

    /// [`Self::open_members`] holds every member but those it leaves out,
    /// and none twice.
    pub proof fn lemma_open_members()
        ensures
            Self::open_members().no_duplicates(),
            forall|m: Self| Self::open_members().contains(m) <==> (
                m != Self::NonPublicMetrics && m != Self::OrganicMetrics
                && m != Self::PromotedMetrics
            ),
    {
        let list = Self::open_members();
        assert forall|m: Self| m != Self::NonPublicMetrics && m != Self::OrganicMetrics
            && m != Self::PromotedMetrics implies list.contains(
            m,
        ) by {
            let i = Self::open_position(m);
            assert(list[i] == m);
        }
    }

    /// Where [`Self::open_members`] holds the member.
    spec fn open_position(m: Self) -> int {
        match m {
            Self::DurationMs => 0,
            Self::Height => 1,
            Self::MediaKey => 2,
            Self::PreviewImageUrl => 3,
            Self::Type => 4,
            Self::Url => 5,
            Self::Width => 6,
            Self::PublicMetrics => 7,
            Self::NonPublicMetrics => -1,
            Self::OrganicMetrics => -1,
            Self::PromotedMetrics => -1,
            Self::AltText => 8,
            Self::Variants => 9,
        }
    }

    /// The member's name as a string of its own.
    pub fn to_string(&self) -> (s: String)
        ensures
            s@ == self.label(),
    {
        self.as_str().to_owned()
    }
}

impl Field for MediaFields {
    open spec fn universe() -> Seq<Self> {
        seq![
            Self::DurationMs,
            Self::Height,
            Self::MediaKey,
            Self::PreviewImageUrl,
            Self::Type,
            Self::Url,
            Self::Width,
            Self::PublicMetrics,
            Self::NonPublicMetrics,
            Self::OrganicMetrics,
            Self::PromotedMetrics,
            Self::AltText,
            Self::Variants,
        ]
    }

    open spec fn label(&self) -> Seq<char> {
        match self {
            Self::DurationMs => "duration_ms"@,
            Self::Height => "height"@,
            Self::MediaKey => "media_key"@,
            Self::PreviewImageUrl => "preview_image_url"@,
            Self::Type => "type"@,
            Self::Url => "url"@,
            Self::Width => "width"@,
            Self::PublicMetrics => "public_metrics"@,
            Self::NonPublicMetrics => "non_public_metrics"@,
            Self::OrganicMetrics => "organic_metrics"@,
            Self::PromotedMetrics => "promoted_metrics"@,
            Self::AltText => "alt_text"@,
            Self::Variants => "variants"@,
        }
    }

    open spec fn ordinal(&self) -> int {
        match self {
            Self::DurationMs => 0,
            Self::Height => 1,
            Self::MediaKey => 2,
            Self::PreviewImageUrl => 3,
            Self::Type => 4,
            Self::Url => 5,
            Self::Width => 6,
            Self::PublicMetrics => 7,
            Self::NonPublicMetrics => 8,
            Self::OrganicMetrics => 9,
            Self::PromotedMetrics => 10,
            Self::AltText => 11,
            Self::Variants => 12,
        }
    }

    fn members() -> (v: Vec<Self>) {
        Self::all()
    }

    fn index(&self) -> (i: usize) {
        match self {
            Self::DurationMs => 0,
            Self::Height => 1,
            Self::MediaKey => 2,
            Self::PreviewImageUrl => 3,
            Self::Type => 4,
            Self::Url => 5,
            Self::Width => 6,
            Self::PublicMetrics => 7,
            Self::NonPublicMetrics => 8,
            Self::OrganicMetrics => 9,
            Self::PromotedMetrics => 10,
            Self::AltText => 11,
            Self::Variants => 12,
        }
    }

    fn as_str(&self) -> (s: &'static str) {
        match self {
            Self::DurationMs => "duration_ms",
            Self::Height => "height",
            Self::MediaKey => "media_key",
            Self::PreviewImageUrl => "preview_image_url",
            Self::Type => "type",
            Self::Url => "url",
            Self::Width => "width",
            Self::PublicMetrics => "public_metrics",
            Self::NonPublicMetrics => "non_public_metrics",
            Self::OrganicMetrics => "organic_metrics",
            Self::PromotedMetrics => "promoted_metrics",
            Self::AltText => "alt_text",
            Self::Variants => "variants",
        }
    }

    proof fn lemma_member(m: Self) {
    }

    proof fn lemma_position(i: int) {
    }

    proof fn lemma_label_is_name(m: Self) {
        reveal_strlit("duration_ms");
        assert(is_name("duration_ms"@));
        reveal_strlit("height");
        assert(is_name("height"@));
        reveal_strlit("media_key");
        assert(is_name("media_key"@));
        reveal_strlit("preview_image_url");
        assert(is_name("preview_image_url"@));
        reveal_strlit("type");
        assert(is_name("type"@));
        reveal_strlit("url");
        assert(is_name("url"@));
        reveal_strlit("width");
        assert(is_name("width"@));
        reveal_strlit("public_metrics");
        assert(is_name("public_metrics"@));
        reveal_strlit("non_public_metrics");
        assert(is_name("non_public_metrics"@));
        reveal_strlit("organic_metrics");
        assert(is_name("organic_metrics"@));
        reveal_strlit("promoted_metrics");
        assert(is_name("promoted_metrics"@));
        reveal_strlit("alt_text");
        assert(is_name("alt_text"@));
        reveal_strlit("variants");
        assert(is_name("variants"@));
    }

    proof fn lemma_labels_distinct(a: Self, b: Self) {
        reveal_strlit("duration_ms");
        assert("duration_ms"@.len() == 11 && "duration_ms"@[0] == 'd');
        reveal_strlit("height");
        assert("height"@.len() == 6 && "height"@[0] == 'h');
        reveal_strlit("media_key");
        assert("media_key"@.len() == 9 && "media_key"@[0] == 'm');
        reveal_strlit("preview_image_url");
        assert("preview_image_url"@.len() == 17 && "preview_image_url"@[0] == 'p');
        reveal_strlit("type");
        assert("type"@.len() == 4 && "type"@[0] == 't');
        reveal_strlit("url");
        assert("url"@.len() == 3 && "url"@[0] == 'u');
        reveal_strlit("width");
        assert("width"@.len() == 5 && "width"@[0] == 'w');
        reveal_strlit("public_metrics");
        assert("public_metrics"@.len() == 14 && "public_metrics"@[0] == 'p');
        reveal_strlit("non_public_metrics");
        assert("non_public_metrics"@.len() == 18 && "non_public_metrics"@[0] == 'n');
        reveal_strlit("organic_metrics");
        assert("organic_metrics"@.len() == 15 && "organic_metrics"@[0] == 'o');
        reveal_strlit("promoted_metrics");
        assert("promoted_metrics"@.len() == 16 && "promoted_metrics"@[0] == 'p');
        reveal_strlit("alt_text");
        assert("alt_text"@.len() == 8 && "alt_text"@[0] == 'a');
        reveal_strlit("variants");
        assert("variants"@.len() == 8 && "variants"@[0] == 'v');
    }
}

} // verus!
