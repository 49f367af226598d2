use twapi_v2::api::get_2_tweets_search_recent::Expantions;
use twapi_v2::api::get_2_tweets_search_stream::Expansions as StreamExpansions;
use twapi_v2::api::get_2_users_id_blocking::Expansions as BlockingExpansions;
use twapi_v2::fields::media_fields::MediaFields;
use twapi_v2::fields::place_fields::PlaceFields;
use twapi_v2::fields::poll_fields::PollFields;
use twapi_v2::fields::tweet_fields::TweetFields;
use twapi_v2::fields::user_fields::UserFields;
use twapi_v2::fields::{serialize, Field};

#[test]
fn expantions_all_holds_every_member_once() {
    let all = Expantions::all();
    assert_eq!(
        all,
        vec![
            Expantions::AttachmentsPollIds,
            Expantions::AttachmentsMediaKeys,
            Expantions::AuthorId,
            Expantions::EditHistoryTweetIds,
            Expantions::EntitiesMentionsUsername,
            Expantions::GeoPlaceId,
            Expantions::InReplyToUserId,
            Expantions::ReferencedTweetsId,
            Expantions::ReferencedTweetsIdAuthorId,
        ]
    );
}

#[test]
fn expantions_have_the_names_of_the_api() {
    let names: Vec<String> = Expantions::all().iter().map(|e| e.to_string()).collect();
    assert_eq!(
        names,
        vec![
            "attachments.poll_ids",
            "attachments.media_keys",
            "author_id",
            "edit_history_tweet_ids",
            "entities.mentions.username",
            "geo.place_id",
            "in_reply_to_user_id",
            "referenced_tweets.id",
            "referenced_tweets.id.author_id",
        ]
    );
    let stream: Vec<String> = StreamExpansions::all().iter().map(|e| e.to_string()).collect();
    assert_eq!(stream, names);
}

#[test]
fn blocking_expansions_are_one() {
    assert_eq!(BlockingExpansions::all(), vec![BlockingExpansions::PinnedTweetId]);
    assert_eq!(BlockingExpansions::PinnedTweetId.to_string(), "pinned_tweet_id");
    assert_eq!(BlockingExpansions::default(), BlockingExpansions::PinnedTweetId);
}

#[test]
fn serialize_joins_names_with_commas() {
    assert_eq!(
        serialize(&Expantions::all()),
        "attachments.poll_ids,attachments.media_keys,author_id,edit_history_tweet_ids,\
         entities.mentions.username,geo.place_id,in_reply_to_user_id,referenced_tweets.id,\
         referenced_tweets.id.author_id"
    );
    assert_eq!(serialize(&vec![UserFields::Id, UserFields::Name]), "id,name");
    assert_eq!(serialize(&vec![PollFields::VotingStatus]), "voting_status");
    assert_eq!(serialize::<PollFields>(&vec![]), "");
}

#[test]
fn serialize_ignores_order_and_repetition() {
    let forward = vec![UserFields::Id, UserFields::Name, UserFields::Username];
    let backward = vec![UserFields::Username, UserFields::Name, UserFields::Id];
    let repeated = vec![
        UserFields::Name,
        UserFields::Id,
        UserFields::Name,
        UserFields::Username,
        UserFields::Id,
    ];
    assert_eq!(serialize(&forward), "id,name,username");
    assert_eq!(serialize(&backward), "id,name,username");
    assert_eq!(serialize(&repeated), "id,name,username");
}

#[test]
fn serialize_lists_exactly_the_members() {
    let chosen = vec![TweetFields::Text, TweetFields::Lang, TweetFields::Id, TweetFields::Lang];
    let text = serialize(&chosen);
    let names: Vec<&str> = text.split(',').collect();
    assert_eq!(names.len(), 3);
    for member in TweetFields::all() {
        let listed = names.iter().filter(|n| **n == member.as_str()).count();
        assert_eq!(listed, if chosen.contains(&member) { 1 } else { 0 });
    }
}

#[test]
fn tweet_fields_presets() {
    assert_eq!(TweetFields::all().len(), 21);
    let organic = TweetFields::organic();
    assert_eq!(organic.len(), 20);
    assert!(!organic.contains(&TweetFields::PromotedMetrics));
    assert!(organic.contains(&TweetFields::OrganicMetrics));
    let open = TweetFields::open();
    assert_eq!(open.len(), 18);
    assert!(!open.contains(&TweetFields::PromotedMetrics));
    assert!(!open.contains(&TweetFields::OrganicMetrics));
    assert!(!open.contains(&TweetFields::NonPublicMetrics));
    assert!(open.contains(&TweetFields::PublicMetrics));
    assert_eq!(
        serialize(&open),
        "attachments,author_id,context_annotations,conversation_id,created_at,edit_controls,\
         entities,geo,id,in_reply_to_user_id,lang,public_metrics,possibly_sensitive,\
         referenced_tweets,reply_settings,source,text,withheld"
    );
}

#[test]
fn media_fields_presets() {
    assert_eq!(MediaFields::all().len(), 13);
    assert_eq!(MediaFields::organic().len(), 12);
    assert_eq!(MediaFields::open().len(), 10);
    assert_eq!(
        serialize(&MediaFields::open()),
        "duration_ms,height,media_key,preview_image_url,type,url,width,public_metrics,alt_text,variants"
    );
}

#[test]
fn every_member_stands_at_its_index() {
    for (i, m) in TweetFields::members().iter().enumerate() {
        assert_eq!(m.index(), i);
    }
    for (i, m) in UserFields::members().iter().enumerate() {
        assert_eq!(m.index(), i);
    }
    for (i, m) in PlaceFields::all().iter().enumerate() {
        assert_eq!(m.index(), i);
    }
    assert_eq!(
        serialize(&PlaceFields::all()),
        "contained_within,country,country_code,full_name,geo,id,name,place_type"
    );
    assert_eq!(
        serialize(&UserFields::all()),
        "created_at,description,entities,id,location,name,pinned_tweet_id,profile_image_url,\
         protected,public_metrics,url,username,verified,withheld"
    );
    assert_eq!(serialize(&PollFields::all()), "duration_minutes,end_datetime,id,options,voting_status");
}

#[test]
fn serialize_has_one_piece_for_each_member() {
    let cases: Vec<Vec<TweetFields>> = vec![
        vec![],
        vec![TweetFields::Id],
        vec![TweetFields::Text, TweetFields::Id, TweetFields::Text],
        TweetFields::all(),
    ];
    for chosen in cases {
        let text = serialize(&chosen);
        let mut distinct = chosen.clone();
        distinct.sort_by_key(|m| m.index());
        distinct.dedup();
        if distinct.is_empty() {
            assert_eq!(text, "");
            continue;
        }
        let pieces: Vec<&str> = text.split(',').collect();
        assert_eq!(pieces.len(), distinct.len());
        for (piece, member) in pieces.iter().zip(distinct.iter()) {
            assert_eq!(*piece, member.as_str());
            assert!(!piece.is_empty());
            assert!(piece.chars().all(|c| c.is_ascii_lowercase() || c == '_' || c == '.'));
        }
    }
}
