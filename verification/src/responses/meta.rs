//! Page information.

use crate::json::{first_with_key, lemma_object_view, members_view, Json, JsonView, Members};
use crate::object::{
    absent, absent_json, foreign, int_of, int_spec, int_to_json, keys_of, lemma_object_reads,
    lemma_object_rest, lemma_rest_is_foreign, lemma_rest_known, optional, present, put_all,
    put_next, rest, rest_spec, text_of, text_spec, written, Entry,
};
use crate::text::{decimal_i64_spec, lemma_parse_i64_decimal, texts};
use vstd::prelude::*;

verus! {

/// What a response says of the page it holds. Members that the type does not
/// name are kept in `extra`, in the order in which the JSON value that was read
/// holds them; for a value read from text that is the order in which the reader
/// hands them over.
#[derive(Debug, Clone, Default)]
pub struct Meta {
    pub result_count: Option<i64>,
    pub next_token: Option<String>,
    pub previous_token: Option<String>,
    pub extra: Vec<(String, Json)>,
}

/// A [`Meta`] as mathematical values.
pub struct MetaView {
    pub result_count: Option<i64>,
    pub next_token: Option<Seq<char>>,
    pub previous_token: Option<Seq<char>>,
    pub extra: Members,
}

impl View for Meta {
    type V = MetaView;

    open spec fn view(&self) -> MetaView {
        MetaView {
            result_count: self.result_count,
            next_token: self.next_token.deep_view(),
            previous_token: self.previous_token.deep_view(),
            extra: members_view(self.extra@),
        }
    }
}

impl Meta {
    /// The keys of the members that the type names, in the order in
    /// which they are written.
    pub open spec fn keys() -> Seq<Seq<char>> {
        seq![
            "result_count"@,
            "next_token"@,
            "previous_token"@,
        ]
    }

    /// The members that the type names, each with the JSON value that
    /// stands for it, if it has a value.
    pub open spec fn entries(x: MetaView) -> Seq<Entry> {
        seq![
            (
                "result_count"@,
                match x.result_count {
                    Some(n) => Some(JsonView::Number(decimal_i64_spec(n as int))),
                    None => absent(true),
                },
            ),
            (
                "next_token"@,
                match x.next_token {
                    Some(text) => Some(JsonView::Text(text)),
                    None => absent(true),
                },
            ),
            (
                "previous_token"@,
                match x.previous_token {
                    Some(text) => Some(JsonView::Text(text)),
                    None => absent(true),
                },
            ),
        ]
    }

    /// The JSON object that stands for the value: the named members,
    /// then the others as they are.
    pub open spec fn encode_spec(x: MetaView) -> JsonView {
        JsonView::Object(written(Self::entries(x)) + x.extra)
    }

    /// The value that a JSON value stands for: the JSON value must be an
    /// object, each named member must read well, and every other member
    /// is kept.
    pub open spec fn decode_spec(value: JsonView) -> Option<MetaView> {
        match value {
            JsonView::Object(members) => {
                let result_count = optional(
                    first_with_key(members, "result_count"@),
                    int_spec(first_with_key(members, "result_count"@)->0),
                );
                let next_token = optional(
                    first_with_key(members, "next_token"@),
                    text_spec(first_with_key(members, "next_token"@)->0),
                );
                let previous_token = optional(
                    first_with_key(members, "previous_token"@),
                    text_spec(first_with_key(members, "previous_token"@)->0),
                );
                if result_count is Some && next_token is Some && previous_token is Some {
                    Some(
                        MetaView {
                            result_count: result_count->0,
                            next_token: next_token->0,
                            previous_token: previous_token->0,
                            extra: rest_spec(members, Self::keys()),
                        },
                    )
                } else {
                    None
                }
            },
            _ => None,
        }
    }

    /// Whether the value can be told from what is written for it: no member
    /// kept beside the named ones has the key of a named one.
    pub open spec fn wf(x: MetaView) -> bool {
        foreign(x.extra, Self::keys())
    }
}

impl Meta {
    /// The keys of the members that the type names.
    pub fn known() -> (keys: Vec<&'static str>)
        ensures
            texts(keys@) == Self::keys(),
    {
        let mut keys: Vec<&'static str> = Vec::new();
        keys.push("result_count");
        keys.push("next_token");
        keys.push("previous_token");
        assert(texts(keys@) =~= Self::keys());
        keys
    }

    /// Reads the value that a JSON value stands for: each named member is
    /// looked up, a missing member and `null` count as no value, and every
    /// member that is not named is kept in `extra`. `None` where the JSON
    /// value is no object or a named member holds a value of another
    /// kind.
    pub fn from_json(source: &Json) -> (out: Option<Self>)
        ensures
            match out {
                Some(x) => Self::decode_spec(source@) == Some(x@),
                None => Self::decode_spec(source@) is None,
            },
    {
        let members = match source {
            Json::Object(members) => members,
            _ => {
                return None;
            },
        };
        proof {
            lemma_object_view(*source);
        }
        let result_count: Option<i64> = match present(source.member("result_count")) {
            Some(member) => match int_of(member) {
                Some(read) => Some(read),
                None => {
                    return None;
                },
            },
            None => None,
        };
        let next_token: Option<String> = match present(source.member("next_token")) {
            Some(member) => match text_of(member) {
                Some(read) => Some(read),
                None => {
                    return None;
                },
            },
            None => None,
        };
        let previous_token: Option<String> = match present(source.member("previous_token")) {
            Some(member) => match text_of(member) {
                Some(read) => Some(read),
                None => {
                    return None;
                },
            },
            None => None,
        };
        let known = Self::known();
        let extra = rest(members, &known);
        let out = Meta {
            result_count,
            next_token,
            previous_token,
            extra,
        };
        assert(Self::decode_spec(source@) == Some(out@));
        Some(out)
    }

    /// Writes the JSON object that stands for the value: the named
    /// members in their order, a member without a value left out,
    /// then the members of `extra` as they are.
    pub fn to_json(&self) -> (value: Json)
        ensures
            value@ == Self::encode_spec(self@),
    {
        let mut members: Vec<(String, Json)> = Vec::new();
        let ghost all = Self::entries(self@);
        assert(members_view(members@) =~= written(all.take(0)));
        let result_count = match &self.result_count {
            Some(inner) => Some(int_to_json(*inner)),
            None => absent_json(true),
        };
        put_next(&mut members, "result_count", result_count, Ghost(all), Ghost(0));
        let next_token = match &self.next_token {
            Some(inner) => Some(Json::Text(inner.clone())),
            None => absent_json(true),
        };
        put_next(&mut members, "next_token", next_token, Ghost(all), Ghost(1));
        let previous_token = match &self.previous_token {
            Some(inner) => Some(Json::Text(inner.clone())),
            None => absent_json(true),
        };
        put_next(&mut members, "previous_token", previous_token, Ghost(all), Ghost(2));
        assert(all.take(3) == all);
        put_all(&mut members, &self.extra);
        let value = Json::Object(members);
        proof {
            lemma_object_view(value);
        }
        value
    }
}

impl Meta {
    /// The entries have the keys of the type, and no key twice.
    pub proof fn lemma_keys(x: MetaView)
        ensures
            keys_of(Self::entries(x)) == Self::keys(),
            Self::keys().no_duplicates(),
    {
        reveal_strlit("result_count");
        assert("result_count"@.len() == 12);
        reveal_strlit("next_token");
        assert("next_token"@.len() == 10);
        reveal_strlit("previous_token");
        assert("previous_token"@.len() == 14);
        assert(keys_of(Self::entries(x)) =~= Self::keys());
    }

    /// Round trip: reading what was written for a value gives the value
    /// back, the members kept beside the named ones included.
    pub proof fn lemma_round_trip(x: MetaView)
        requires
            Self::wf(x),
        ensures
            Self::decode_spec(Self::encode_spec(x)) == Some(x),
    {
        Self::lemma_keys(x);
        let entries = Self::entries(x);
        lemma_object_rest(entries, x.extra);
        lemma_object_reads(entries, x.extra, 0);
        if x.result_count is Some {
            lemma_parse_i64_decimal(x.result_count->0);
        }
        lemma_object_reads(entries, x.extra, 1);
        lemma_object_reads(entries, x.extra, 2);
        let back = Self::decode_spec(Self::encode_spec(x));
        assert(back is Some);
        assert(back->0.extra == x.extra);
        assert(back->0 == x);
    }

    /// What is read keeps every member that the type does not name, and
    /// what is written for it holds those members again, unchanged and in
    /// their order.
    pub proof fn lemma_extra_kept(members: Members)
        requires
            Self::decode_spec(JsonView::Object(members)) is Some,
        ensures
            ({
                let x = Self::decode_spec(JsonView::Object(members))->0;
                &&& x.extra == rest_spec(members, Self::keys())
                &&& foreign(x.extra, Self::keys())
                &&& Self::encode_spec(x) is Object
                &&& rest_spec(Self::encode_spec(x)->Object_0, Self::keys()) == x.extra
            }),
    {
        let x = Self::decode_spec(JsonView::Object(members))->0;
        Self::lemma_keys(x);
        lemma_rest_is_foreign(members, Self::keys());
        lemma_object_rest(Self::entries(x), x.extra);
    }
}

impl Meta {
    /// Whether the value, and every value in it that can tell, holds no
    /// member that its type does not name.
    pub open spec fn no_extra(&self) -> bool {
        self.extra@.len() == 0
    }

    /// Whether the value, and every value in it that can tell, holds no
    /// member that its type does not name.
    pub fn is_empty_extra(&self) -> (res: bool)
        ensures
            res == self.no_extra(),
    {
        self.extra.len() == 0
    }
}

impl Meta {
    /// [`Self::no_extra`], said of the mathematical value.
    pub open spec fn bare(x: MetaView) -> bool {
        x.extra.len() == 0
    }

    /// Whether the JSON value is an object in which every member has a
    /// key that the type names.
    pub open spec fn modelled(value: JsonView) -> bool {
        match value {
            JsonView::Object(members) => {
                &&& forall|i: int|
                    0 <= i < members.len() ==> Self::keys().contains((#[trigger] members[i]).0)
            },
            _ => false,
        }
    }

    /// [`Self::no_extra`] holds of a value exactly if [`Self::bare`] holds
    /// of its view.
    pub proof fn lemma_no_extra(&self)
        ensures
            self.no_extra() == Self::bare(self@),
    {
    }

    /// A value read from an object that holds no member beside those
    /// that the types name, at any level looked into, holds no extras.
    pub proof fn lemma_modelled_is_bare(value: JsonView)
        requires
            Self::modelled(value),
            Self::decode_spec(value) is Some,
        ensures
            Self::bare(Self::decode_spec(value)->0),
    {
        let members = value->Object_0;
        lemma_rest_known(members, Self::keys());
    }

    /// Read from an object that holds no member beside those that the
    /// types name, at any level looked into, a value has no extras to
    /// tell of.
    pub proof fn lemma_read_has_no_extra(&self, source: JsonView)
        requires
            Self::modelled(source),
            Self::decode_spec(source) == Some(self@),
        ensures
            self.no_extra(),
    {
        Self::lemma_modelled_is_bare(source);
        self.lemma_no_extra();
    }
}

} // verus!
