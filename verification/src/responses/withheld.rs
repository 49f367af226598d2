//! Withholding.

use crate::json::{first_with_key, lemma_object_view, members_view, Json, JsonView, Members};
use crate::object::{
    absent, absent_json, bool_of, bool_spec, foreign, keys_of, lemma_object_reads,
    lemma_object_rest, lemma_rest_is_foreign, lemma_texts_round_trip, optional, present, put_all,
    put_next, rest, rest_spec, texts_json, texts_of, texts_spec, texts_to_json, written, Entry,
};
use crate::text::{same_text, texts};
use vstd::prelude::*;

verus! {

/// What is withheld.
#[derive(Debug, Clone, Copy, PartialEq, Eq, Structural)]
pub enum Scope {
    Tweet,
    User,
}

impl Scope {
    /// The name of what is withheld, in lower case.
    pub open spec fn label(&self) -> Seq<char> {
        match self {
            Self::Tweet => "tweet"@,
            Self::User => "user"@,
        }
    }

    /// The JSON string that stands for the scope.
    pub open spec fn json_spec(scope: Scope) -> JsonView {
        match scope {
            Self::Tweet => JsonView::Text("Tweet"@),
            Self::User => JsonView::Text("User"@),
        }
    }

    /// The scope that a JSON value stands for.
    pub open spec fn read_spec(value: JsonView) -> Option<Scope> {
        if value == JsonView::Text("Tweet"@) {
            Some(Self::Tweet)
        } else if value == JsonView::Text("User"@) {
            Some(Self::User)
        } else {
            None
        }
    }

    /// The name of what is withheld, in lower case.
    pub fn to_string(&self) -> (s: String)
        ensures
            s@ == self.label(),
    {
        match self {
            Self::Tweet => "tweet".to_owned(),
            Self::User => "user".to_owned(),
        }
    }

    /// Reads the scope that a JSON value stands for.
    pub fn read(value: &Json) -> (scope: Option<Scope>)
        ensures
            scope == Self::read_spec(value@),
    {
        match value {
            Json::Text(text) => {
                if same_text(text.as_str(), "Tweet") {
                    Some(Self::Tweet)
                } else if same_text(text.as_str(), "User") {
                    Some(Self::User)
                } else {
                    None
                }
            },
            _ => None,
        }
    }

    /// Writes the JSON string that stands for the scope.
    pub fn to_json(&self) -> (value: Json)
        ensures
            value@ == Self::json_spec(*self),
    {
        match self {
            Self::Tweet => Json::Text("Tweet".to_owned()),
            Self::User => Json::Text("User".to_owned()),
        }
    }

    /// Round trip: reading what was written for a scope gives the scope
    /// back.
    pub proof fn lemma_round_trip(scope: Scope)
        ensures
            Self::read_spec(Self::json_spec(scope)) == Some(scope),
    {
        reveal_strlit("Tweet");
        reveal_strlit("User");
        assert("Tweet"@.len() == 5 && "User"@.len() == 4);
    }
}

impl Default for Scope {
    fn default() -> (scope: Self)
        ensures
            scope == Self::Tweet,
    {
        Self::Tweet
    }
}

/// Where and why a tweet or a user is withheld. Members that the type does not
/// name are kept in `extra`, in the order in which the JSON value that was read
/// holds them; for a value read from text that is the order in which the reader
/// hands them over.
#[derive(Debug, Clone, Default)]
pub struct Withheld {
    pub copyright: Option<bool>,
    pub country_codes: Option<Vec<String>>,
    pub scope: Option<Scope>,
    pub extra: Vec<(String, Json)>,
}

/// A [`Withheld`] as mathematical values.
pub struct WithheldView {
    pub copyright: Option<bool>,
    pub country_codes: Option<Seq<Seq<char>>>,
    pub scope: Option<Scope>,
    pub extra: Members,
}

impl View for Withheld {
    type V = WithheldView;

    open spec fn view(&self) -> WithheldView {
        WithheldView {
            copyright: self.copyright,
            country_codes: self.country_codes.deep_view(),
            scope: self.scope,
            extra: members_view(self.extra@),
        }
    }
}

impl Withheld {
    /// The keys of the members that the type names, in the order in
    /// which they are written.
    pub open spec fn keys() -> Seq<Seq<char>> {
        seq![
            "copyright"@,
            "country_codes"@,
            "scope"@,
        ]
    }

    /// The members that the type names, each with the JSON value that
    /// stands for it; `null` stands for no value.
    pub open spec fn entries(x: WithheldView) -> Seq<Entry> {
        seq![
            (
                "copyright"@,
                match x.copyright {
                    Some(b) => Some(JsonView::Bool(b)),
                    None => absent(false),
                },
            ),
            (
                "country_codes"@,
                match x.country_codes {
                    Some(list) => Some(texts_json(list)),
                    None => absent(false),
                },
            ),
            (
                "scope"@,
                match x.scope {
                    Some(scope) => Some(Scope::json_spec(scope)),
                    None => absent(false),
                },
            ),
        ]
    }

    /// The JSON object that stands for the value: the named members,
    /// then the others as they are.
    pub open spec fn encode_spec(x: WithheldView) -> JsonView {
        JsonView::Object(written(Self::entries(x)) + x.extra)
    }

    /// The value that a JSON value stands for: the JSON value must be an
    /// object, each named member must read well, and every other member
    /// is kept.
    pub open spec fn decode_spec(value: JsonView) -> Option<WithheldView> {
        match value {
            JsonView::Object(members) => {
                let copyright = optional(
                    first_with_key(members, "copyright"@),
                    bool_spec(first_with_key(members, "copyright"@)->0),
                );
                let country_codes = optional(
                    first_with_key(members, "country_codes"@),
                    texts_spec(first_with_key(members, "country_codes"@)->0),
                );
                let scope = optional(
                    first_with_key(members, "scope"@),
                    Scope::read_spec(first_with_key(members, "scope"@)->0),
                );
                if copyright is Some && country_codes is Some && scope is Some {
                    Some(
                        WithheldView {
                            copyright: copyright->0,
                            country_codes: country_codes->0,
                            scope: scope->0,
                            extra: rest_spec(members, Self::keys()),
                        },
                    )
                } else {
                    None
                }
            },
            _ => None,
        }
    }

    /// Whether the value can be told from what is written for it: no member
    /// kept beside the named ones has the key of a named one.
    pub open spec fn wf(x: WithheldView) -> bool {
        foreign(x.extra, Self::keys())
    }
}

impl Withheld {
    /// The keys of the members that the type names.
    pub fn known() -> (keys: Vec<&'static str>)
        ensures
            texts(keys@) == Self::keys(),
    {
        let mut keys: Vec<&'static str> = Vec::new();
        keys.push("copyright");
        keys.push("country_codes");
        keys.push("scope");
        assert(texts(keys@) =~= Self::keys());
        keys
    }

    /// Reads the value that a JSON value stands for: each named member is
    /// looked up, a missing member and `null` count as no value, and every
    /// member that is not named is kept in `extra`. `None` where the JSON
    /// value is no object or a named member holds a value of another
    /// kind.
    pub fn from_json(source: &Json) -> (out: Option<Self>)
        ensures
            match out {
                Some(x) => Self::decode_spec(source@) == Some(x@),
                None => Self::decode_spec(source@) is None,
            },
    {
        let members = match source {
            Json::Object(members) => members,
            _ => {
                return None;
            },
        };
        proof {
            lemma_object_view(*source);
        }
        let copyright: Option<bool> = match present(source.member("copyright")) {
            Some(member) => match bool_of(member) {
                Some(read) => Some(read),
                None => {
                    return None;
                },
            },
            None => None,
        };
        let country_codes: Option<Vec<String>> = match present(source.member("country_codes")) {
            Some(member) => match texts_of(member) {
                Some(read) => Some(read),
                None => {
                    return None;
                },
            },
            None => None,
        };
        let scope: Option<Scope> = match present(source.member("scope")) {
            Some(member) => match Scope::read(member) {
                Some(read) => Some(read),
                None => {
                    return None;
                },
            },
            None => None,
        };
        let known = Self::known();
        let extra = rest(members, &known);
        let out = Withheld {
            copyright,
            country_codes,
            scope,
            extra,
        };
        assert(Self::decode_spec(source@) == Some(out@));
        Some(out)
    }

    /// Writes the JSON object that stands for the value: the named
    /// members in their order, `null` for a member without a value,
    /// then the members of `extra` as they are.
    pub fn to_json(&self) -> (value: Json)
        ensures
            value@ == Self::encode_spec(self@),
    {
        let mut members: Vec<(String, Json)> = Vec::new();
        let ghost all = Self::entries(self@);
        assert(members_view(members@) =~= written(all.take(0)));
        let copyright = match &self.copyright {
            Some(inner) => Some(Json::Bool(*inner)),
            None => absent_json(false),
        };
        put_next(&mut members, "copyright", copyright, Ghost(all), Ghost(0));
        let country_codes = match &self.country_codes {
            Some(inner) => Some(texts_to_json(inner)),
            None => absent_json(false),
        };
        put_next(&mut members, "country_codes", country_codes, Ghost(all), Ghost(1));
        let scope = match &self.scope {
            Some(inner) => Some(inner.to_json()),
            None => absent_json(false),
        };
        put_next(&mut members, "scope", scope, Ghost(all), Ghost(2));
        assert(all.take(3) == all);
        put_all(&mut members, &self.extra);
        let value = Json::Object(members);
        proof {
            lemma_object_view(value);
        }
        value
    }
}

impl Withheld {
    /// The entries have the keys of the type, and no key twice.
    pub proof fn lemma_keys(x: WithheldView)
        ensures
            keys_of(Self::entries(x)) == Self::keys(),
            Self::keys().no_duplicates(),
    {
        reveal_strlit("copyright");
        assert("copyright"@.len() == 9);
        reveal_strlit("country_codes");
        assert("country_codes"@.len() == 13);
        reveal_strlit("scope");
        assert("scope"@.len() == 5);
        assert(keys_of(Self::entries(x)) =~= Self::keys());
    }

    /// Round trip: reading what was written for a value gives the value
    /// back, the members kept beside the named ones included.
    pub proof fn lemma_round_trip(x: WithheldView)
        requires
            Self::wf(x),
        ensures
            Self::decode_spec(Self::encode_spec(x)) == Some(x),
    {
        Self::lemma_keys(x);
        let entries = Self::entries(x);
        lemma_object_rest(entries, x.extra);
        lemma_object_reads(entries, x.extra, 0);
        lemma_object_reads(entries, x.extra, 1);
        if x.country_codes is Some {
            lemma_texts_round_trip(x.country_codes->0);
        }
        lemma_object_reads(entries, x.extra, 2);
        if x.scope is Some {
            Scope::lemma_round_trip(x.scope->0);
        }
        let back = Self::decode_spec(Self::encode_spec(x));
        assert(back is Some);
        assert(back->0.extra == x.extra);
        assert(back->0 == x);
    }

    /// What is read keeps every member that the type does not name, and
    /// what is written for it holds those members again, unchanged and in
    /// their order.
    pub proof fn lemma_extra_kept(members: Members)
        requires
            Self::decode_spec(JsonView::Object(members)) is Some,
        ensures
            ({
                let x = Self::decode_spec(JsonView::Object(members))->0;
                &&& x.extra == rest_spec(members, Self::keys())
                &&& foreign(x.extra, Self::keys())
                &&& Self::encode_spec(x) is Object
                &&& rest_spec(Self::encode_spec(x)->Object_0, Self::keys()) == x.extra
            }),
    {
        let x = Self::decode_spec(JsonView::Object(members))->0;
        Self::lemma_keys(x);
        lemma_rest_is_foreign(members, Self::keys());
        lemma_object_rest(Self::entries(x), x.extra);
    }
}

} // verus!
