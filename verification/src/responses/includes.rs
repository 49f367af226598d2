//! Expanded objects.

use crate::json::{first_with_key, lemma_object_view, members_view, Json, JsonView, Members};
use crate::object::{
    absent, absent_json, foreign, keys_of, lemma_object_reads, lemma_object_rest,
    lemma_rest_is_foreign, lemma_rest_known, optional, present, present_spec, put_all, put_next,
    rest, rest_spec, written, Entry,
};
use crate::responses::places::{Places, PlacesView};
use crate::responses::tweets::{Tweets, TweetsView};
use crate::responses::users::{Users, UsersView};
use crate::text::{texts};
use vstd::prelude::*;

verus! {

/// The objects that a response holds beside its data, because the request asked
/// to have them expanded. Members that the type does not name are kept in
/// `extra`, in the order in which the JSON value that was read holds them; for
/// a value read from text that is the order in which the reader hands them
/// over.
#[derive(Debug, Clone, Default)]
pub struct Includes {
    pub users: Option<Vec<Users>>,
    pub tweets: Option<Vec<Tweets>>,
    pub places: Option<Vec<Places>>,
    pub extra: Vec<(String, Json)>,
}

/// An [`Includes`] as mathematical values.
pub struct IncludesView {
    pub users: Option<Seq<UsersView>>,
    pub tweets: Option<Seq<TweetsView>>,
    pub places: Option<Seq<PlacesView>>,
    pub extra: Members,
}

impl View for Includes {
    type V = IncludesView;

    open spec fn view(&self) -> IncludesView {
        IncludesView {
            users: match self.users {
                Some(list) => Some(Users::views(list@)),
                None => None,
            },
            tweets: match self.tweets {
                Some(list) => Some(Tweets::views(list@)),
                None => None,
            },
            places: match self.places {
                Some(list) => Some(Places::views(list@)),
                None => None,
            },
            extra: members_view(self.extra@),
        }
    }
}

impl Includes {
    /// The keys of the members that the type names, in the order in
    /// which they are written.
    pub open spec fn keys() -> Seq<Seq<char>> {
        seq![
            "users"@,
            "tweets"@,
            "places"@,
        ]
    }

    /// The members that the type names, each with the JSON value that
    /// stands for it, if it has a value.
    pub open spec fn entries(x: IncludesView) -> Seq<Entry> {
        seq![
            (
                "users"@,
                match x.users {
                    Some(list) => Some(JsonView::Array(Users::encode_all_spec(list))),
                    None => absent(true),
                },
            ),
            (
                "tweets"@,
                match x.tweets {
                    Some(list) => Some(JsonView::Array(Tweets::encode_all_spec(list))),
                    None => absent(true),
                },
            ),
            (
                "places"@,
                match x.places {
                    Some(list) => Some(JsonView::Array(Places::encode_all_spec(list))),
                    None => absent(true),
                },
            ),
        ]
    }

    /// The JSON object that stands for the value: the named members,
    /// then the others as they are.
    pub open spec fn encode_spec(x: IncludesView) -> JsonView {
        JsonView::Object(written(Self::entries(x)) + x.extra)
    }

    /// The value that a JSON value stands for: the JSON value must be an
    /// object, each named member must read well, and every other member
    /// is kept.
    pub open spec fn decode_spec(value: JsonView) -> Option<IncludesView> {
        match value {
            JsonView::Object(members) => {
                let users = optional(
                    first_with_key(members, "users"@),
                    Users::decode_all_spec(first_with_key(members, "users"@)->0),
                );
                let tweets = optional(
                    first_with_key(members, "tweets"@),
                    Tweets::decode_all_spec(first_with_key(members, "tweets"@)->0),
                );
                let places = optional(
                    first_with_key(members, "places"@),
                    Places::decode_all_spec(first_with_key(members, "places"@)->0),
                );
                if users is Some && tweets is Some && places is Some {
                    Some(
                        IncludesView {
                            users: users->0,
                            tweets: tweets->0,
                            places: places->0,
                            extra: rest_spec(members, Self::keys()),
                        },
                    )
                } else {
                    None
                }
            },
            _ => None,
        }
    }

    /// Whether the value can be told from what is written for it: no member
    /// kept beside the named ones has the key of a named one, and the same
    /// holds of the typed values inside.
    pub open spec fn wf(x: IncludesView) -> bool {
        &&& foreign(x.extra, Self::keys())
        &&& x.users matches Some(list) ==> Users::all_wf(list)
        &&& x.tweets matches Some(list) ==> Tweets::all_wf(list)
        &&& x.places matches Some(list) ==> Places::all_wf(list)
    }
}

impl Includes {
    /// The keys of the members that the type names.
    pub fn known() -> (keys: Vec<&'static str>)
        ensures
            texts(keys@) == Self::keys(),
    {
        let mut keys: Vec<&'static str> = Vec::new();
        keys.push("users");
        keys.push("tweets");
        keys.push("places");
        assert(texts(keys@) =~= Self::keys());
        keys
    }

    /// Reads the value that a JSON value stands for: each named member is
    /// looked up, a missing member and `null` count as no value, and every
    /// member that is not named is kept in `extra`. `None` where the JSON
    /// value is no object or a named member holds a value of another
    /// kind.
    pub fn from_json(source: &Json) -> (out: Option<Self>)
        ensures
            match out {
                Some(x) => Self::decode_spec(source@) == Some(x@),
                None => Self::decode_spec(source@) is None,
            },
    {
        let members = match source {
            Json::Object(members) => members,
            _ => {
                return None;
            },
        };
        proof {
            lemma_object_view(*source);
        }
        let users: Option<Vec<Users>> = match present(source.member("users")) {
            Some(member) => match Users::all_from_json(member) {
                Some(read) => Some(read),
                None => {
                    return None;
                },
            },
            None => None,
        };
        let tweets: Option<Vec<Tweets>> = match present(source.member("tweets")) {
            Some(member) => match Tweets::all_from_json(member) {
                Some(read) => Some(read),
                None => {
                    return None;
                },
            },
            None => None,
        };
        let places: Option<Vec<Places>> = match present(source.member("places")) {
            Some(member) => match Places::all_from_json(member) {
                Some(read) => Some(read),
                None => {
                    return None;
                },
            },
            None => None,
        };
        let known = Self::known();
        let extra = rest(members, &known);
        let out = Includes {
            users,
            tweets,
            places,
            extra,
        };
        assert(Self::decode_spec(source@) == Some(out@));
        Some(out)
    }

    /// Writes the JSON object that stands for the value: the named
    /// members in their order, a member without a value left out,
    /// then the members of `extra` as they are.
    pub fn to_json(&self) -> (value: Json)
        ensures
            value@ == Self::encode_spec(self@),
    {
        let mut members: Vec<(String, Json)> = Vec::new();
        let ghost all = Self::entries(self@);
        assert(members_view(members@) =~= written(all.take(0)));
        let users = match &self.users {
            Some(inner) => Some(Users::all_to_json(inner)),
            None => absent_json(true),
        };
        put_next(&mut members, "users", users, Ghost(all), Ghost(0));
        let tweets = match &self.tweets {
            Some(inner) => Some(Tweets::all_to_json(inner)),
            None => absent_json(true),
        };
        put_next(&mut members, "tweets", tweets, Ghost(all), Ghost(1));
        let places = match &self.places {
            Some(inner) => Some(Places::all_to_json(inner)),
            None => absent_json(true),
        };
        put_next(&mut members, "places", places, Ghost(all), Ghost(2));
        assert(all.take(3) == all);
        put_all(&mut members, &self.extra);
        let value = Json::Object(members);
        proof {
            lemma_object_view(value);
        }
        value
    }
}

impl Includes {
    /// The entries have the keys of the type, and no key twice.
    pub proof fn lemma_keys(x: IncludesView)
        ensures
            keys_of(Self::entries(x)) == Self::keys(),
            Self::keys().no_duplicates(),
    {
        reveal_strlit("users");
        assert("users"@.len() == 5 && "users"@[0] == 'u');
        reveal_strlit("tweets");
        assert("tweets"@.len() == 6 && "tweets"@[0] == 't');
        reveal_strlit("places");
        assert("places"@.len() == 6 && "places"@[0] == 'p');
        assert(keys_of(Self::entries(x)) =~= Self::keys());
    }

    /// Round trip: reading what was written for a value gives the value
    /// back, the members kept beside the named ones included.
    pub proof fn lemma_round_trip(x: IncludesView)
        requires
            Self::wf(x),
        ensures
            Self::decode_spec(Self::encode_spec(x)) == Some(x),
    {
        Self::lemma_keys(x);
        let entries = Self::entries(x);
        lemma_object_rest(entries, x.extra);
        lemma_object_reads(entries, x.extra, 0);
        if x.users is Some {
            Users::lemma_round_trip_all(x.users->0);
        }
        lemma_object_reads(entries, x.extra, 1);
        if x.tweets is Some {
            Tweets::lemma_round_trip_all(x.tweets->0);
        }
        lemma_object_reads(entries, x.extra, 2);
        if x.places is Some {
            Places::lemma_round_trip_all(x.places->0);
        }
        let back = Self::decode_spec(Self::encode_spec(x));
        assert(back is Some);
        assert(back->0.extra == x.extra);
        assert(back->0 == x);
    }

    /// What is read keeps every member that the type does not name, and
    /// what is written for it holds those members again, unchanged and in
    /// their order.
    pub proof fn lemma_extra_kept(members: Members)
        requires
            Self::decode_spec(JsonView::Object(members)) is Some,
        ensures
            ({
                let x = Self::decode_spec(JsonView::Object(members))->0;
                &&& x.extra == rest_spec(members, Self::keys())
                &&& foreign(x.extra, Self::keys())
                &&& Self::encode_spec(x) is Object
                &&& rest_spec(Self::encode_spec(x)->Object_0, Self::keys()) == x.extra
            }),
    {
        let x = Self::decode_spec(JsonView::Object(members))->0;
        Self::lemma_keys(x);
        lemma_rest_is_foreign(members, Self::keys());
        lemma_object_rest(Self::entries(x), x.extra);
    }
}

impl Includes {
    /// Whether the value, and every value in it that can tell, holds no
    /// member that its type does not name.
    pub open spec fn no_extra(&self) -> bool {
        &&& self.extra@.len() == 0
        &&& self.users matches Some(items) ==> forall|i: int|
            0 <= i < items@.len() ==> (#[trigger] items@[i]).no_extra()
    }

    /// Whether the value, and every value in it that can tell, holds no
    /// member that its type does not name.
    pub fn is_empty_extra(&self) -> (res: bool)
        ensures
            res == self.no_extra(),
    {
        if self.extra.len() != 0 {
            return false;
        }
        if let Some(items) = &self.users {
            let mut i: usize = 0;
            while i < items.len()
                invariant
                    i <= items.len(),
                    self.users == Some(*items),
                    forall|k: int| 0 <= k < i ==> (#[trigger] items@[k]).no_extra(),
                decreases items.len() - i,
            {
                if !items[i].is_empty_extra() {
                    assert(!items@[i as int].no_extra());
                    assert(self.users->0@[i as int] == items@[i as int]);
                    return false;
                }
                i += 1;
            }
        }
        true
    }
}

impl Includes {
    /// [`Self::no_extra`], said of the mathematical value.
    pub open spec fn bare(x: IncludesView) -> bool {
        &&& x.extra.len() == 0
        &&& x.users matches Some(list) ==> Users::all_bare(list)
    }

    /// Whether the JSON value is an object in which every member has a
    /// key that the type names, and the same holds of the typed
    /// values inside that [`Self::no_extra`] looks into.
    pub open spec fn modelled(value: JsonView) -> bool {
        match value {
            JsonView::Object(members) => {
                &&& forall|i: int|
                    0 <= i < members.len() ==> Self::keys().contains((#[trigger] members[i]).0)
                &&& present_spec(first_with_key(members, "users"@)) matches Some(inner)
                    ==> Users::all_modelled(inner)
            },
            _ => false,
        }
    }

    /// [`Self::no_extra`] holds of a value exactly if [`Self::bare`] holds
    /// of its view.
    pub proof fn lemma_no_extra(&self)
        ensures
            self.no_extra() == Self::bare(self@),
    {
        if let Some(items) = self.users {
            let list = Users::views(items@);
            assert forall|i: int| 0 <= i < items@.len() implies (
            #[trigger] items@[i]).no_extra() == Users::bare(list[i]) by {
                items@[i].lemma_no_extra();
            }
            if Users::all_bare(list) {
                assert forall|i: int| 0 <= i < items@.len() implies (
                #[trigger] items@[i]).no_extra() by {
                    assert(Users::bare(list[i]));
                }
            } else {
                let i = choose|i: int|
                    0 <= i < list.len() && !Users::bare(#[trigger] list[i]);
                assert(!items@[i].no_extra());
            }
        }
    }

    /// A value read from an object that holds no member beside those
    /// that the types name, at any level looked into, holds no extras.
    pub proof fn lemma_modelled_is_bare(value: JsonView)
        requires
            Self::modelled(value),
            Self::decode_spec(value) is Some,
        ensures
            Self::bare(Self::decode_spec(value)->0),
    {
        let members = value->Object_0;
        lemma_rest_known(members, Self::keys());
        if present_spec(first_with_key(members, "users"@)) is Some {
            Users::lemma_all_modelled(first_with_key(members, "users"@)->0);
        }
    }

    /// Read from an object that holds no member beside those that the
    /// types name, at any level looked into, a value has no extras to
    /// tell of.
    pub proof fn lemma_read_has_no_extra(&self, source: JsonView)
        requires
            Self::modelled(source),
            Self::decode_spec(source) == Some(self@),
        ensures
            self.no_extra(),
    {
        Self::lemma_modelled_is_bare(source);
        self.lemma_no_extra();
    }
}

} // verus!
