//! Annotations of a text.

use crate::json::{first_with_key, lemma_object_view, members_view, Json, JsonView, Members};
use crate::object::{
    absent, absent_json, foreign, int_of, int_spec, int_to_json, keys_of, lemma_object_reads,
    lemma_object_rest, lemma_rest_is_foreign, lemma_rest_known, number_of, number_spec, optional,
    present, put_all, put_next, rest, rest_spec, text_of, text_spec, written, Entry,
};
use crate::text::{decimal_i64_spec, lemma_parse_i64_decimal, texts};
use vstd::prelude::*;

verus! {

/// An entity that the API recognised in a text, with the span it covers.
/// Members that the type does not name are kept in `extra`, in the order in
/// which the JSON value that was read holds them; for a value read from text
/// that is the order in which the reader hands them over.
#[derive(Debug, Clone, Default)]
pub struct Annotations {
    pub start: Option<i64>,
    pub end: Option<i64>,
    pub probability: Option<String>,
    pub type_: Option<String>,
    pub normalized_text: Option<String>,
    pub extra: Vec<(String, Json)>,
}

/// An [`Annotations`] as mathematical values.
pub struct AnnotationsView {
    pub start: Option<i64>,
    pub end: Option<i64>,
    pub probability: Option<Seq<char>>,
    pub type_: Option<Seq<char>>,
    pub normalized_text: Option<Seq<char>>,
    pub extra: Members,
}

impl View for Annotations {
    type V = AnnotationsView;

    open spec fn view(&self) -> AnnotationsView {
        AnnotationsView {
            start: self.start,
            end: self.end,
            probability: self.probability.deep_view(),
            type_: self.type_.deep_view(),
            normalized_text: self.normalized_text.deep_view(),
            extra: members_view(self.extra@),
        }
    }
}

impl Annotations {
    /// The keys of the members that the type names, in the order in
    /// which they are written.
    pub open spec fn keys() -> Seq<Seq<char>> {
        seq![
            "start"@,
            "end"@,
            "probability"@,
            "type"@,
            "normalized_text"@,
        ]
    }

    /// The members that the type names, each with the JSON value that
    /// stands for it, if it has a value.
    pub open spec fn entries(x: AnnotationsView) -> Seq<Entry> {
        seq![
            (
                "start"@,
                match x.start {
                    Some(n) => Some(JsonView::Number(decimal_i64_spec(n as int))),
                    None => absent(true),
                },
            ),
            (
                "end"@,
                match x.end {
                    Some(n) => Some(JsonView::Number(decimal_i64_spec(n as int))),
                    None => absent(true),
                },
            ),
            (
                "probability"@,
                match x.probability {
                    Some(text) => Some(JsonView::Number(text)),
                    None => absent(true),
                },
            ),
            (
                "type"@,
                match x.type_ {
                    Some(text) => Some(JsonView::Text(text)),
                    None => absent(true),
                },
            ),
            (
                "normalized_text"@,
                match x.normalized_text {
                    Some(text) => Some(JsonView::Text(text)),
                    None => absent(true),
                },
            ),
        ]
    }

    /// The JSON object that stands for the value: the named members,
    /// then the others as they are.
    pub open spec fn encode_spec(x: AnnotationsView) -> JsonView {
        JsonView::Object(written(Self::entries(x)) + x.extra)
    }

    /// The value that a JSON value stands for: the JSON value must be an
    /// object, each named member must read well, and every other member
    /// is kept.
    pub open spec fn decode_spec(value: JsonView) -> Option<AnnotationsView> {
        match value {
            JsonView::Object(members) => {
                let start = optional(
                    first_with_key(members, "start"@),
                    int_spec(first_with_key(members, "start"@)->0),
                );
                let end = optional(
                    first_with_key(members, "end"@),
                    int_spec(first_with_key(members, "end"@)->0),
                );
                let probability = optional(
                    first_with_key(members, "probability"@),
                    number_spec(first_with_key(members, "probability"@)->0),
                );
                let type_ = optional(
                    first_with_key(members, "type"@),
                    text_spec(first_with_key(members, "type"@)->0),
                );
                let normalized_text = optional(
                    first_with_key(members, "normalized_text"@),
                    text_spec(first_with_key(members, "normalized_text"@)->0),
                );
                if start is Some && end is Some && probability is Some && type_ is Some
                    && normalized_text is Some {
                    Some(
                        AnnotationsView {
                            start: start->0,
                            end: end->0,
                            probability: probability->0,
                            type_: type_->0,
                            normalized_text: normalized_text->0,
                            extra: rest_spec(members, Self::keys()),
                        },
                    )
                } else {
                    None
                }
            },
            _ => None,
        }
    }

    /// Whether the value can be told from what is written for it: no member
    /// kept beside the named ones has the key of a named one.
    pub open spec fn wf(x: AnnotationsView) -> bool {
        foreign(x.extra, Self::keys())
    }
}

impl Annotations {
    /// The keys of the members that the type names.
    pub fn known() -> (keys: Vec<&'static str>)
        ensures
            texts(keys@) == Self::keys(),
    {
        let mut keys: Vec<&'static str> = Vec::new();
        keys.push("start");
        keys.push("end");
        keys.push("probability");
        keys.push("type");
        keys.push("normalized_text");
        assert(texts(keys@) =~= Self::keys());
        keys
    }

    /// Reads the value that a JSON value stands for: each named member is
    /// looked up, a missing member and `null` count as no value, and every
    /// member that is not named is kept in `extra`. `None` where the JSON
    /// value is no object or a named member holds a value of another
    /// kind.
    pub fn from_json(source: &Json) -> (out: Option<Self>)
        ensures
            match out {
                Some(x) => Self::decode_spec(source@) == Some(x@),
                None => Self::decode_spec(source@) is None,
            },
    {
        let members = match source {
            Json::Object(members) => members,
            _ => {
                return None;
            },
        };
        proof {
            lemma_object_view(*source);
        }
        let start: Option<i64> = match present(source.member("start")) {
            Some(member) => match int_of(member) {
                Some(read) => Some(read),
                None => {
                    return None;
                },
            },
            None => None,
        };
        let end: Option<i64> = match present(source.member("end")) {
            Some(member) => match int_of(member) {
                Some(read) => Some(read),
                None => {
                    return None;
                },
            },
            None => None,
        };
        let probability: Option<String> = match present(source.member("probability")) {
            Some(member) => match number_of(member) {
                Some(read) => Some(read),
                None => {
                    return None;
                },
            },
            None => None,
        };
        let type_: Option<String> = match present(source.member("type")) {
            Some(member) => match text_of(member) {
                Some(read) => Some(read),
                None => {
                    return None;
                },
            },
            None => None,
        };
        let normalized_text: Option<String> = match present(source.member("normalized_text")) {
            Some(member) => match text_of(member) {
                Some(read) => Some(read),
                None => {
                    return None;
                },
            },
            None => None,
        };
        let known = Self::known();
        let extra = rest(members, &known);
        let out = Annotations {
            start,
            end,
            probability,
            type_,
            normalized_text,
            extra,
        };
        assert(Self::decode_spec(source@) == Some(out@));
        Some(out)
    }

    /// Writes the JSON object that stands for the value: the named
    /// members in their order, a member without a value left out,
    /// then the members of `extra` as they are.
    pub fn to_json(&self) -> (value: Json)
        ensures
            value@ == Self::encode_spec(self@),
    {
        let mut members: Vec<(String, Json)> = Vec::new();
        let ghost all = Self::entries(self@);
        assert(members_view(members@) =~= written(all.take(0)));
        let start = match &self.start {
            Some(inner) => Some(int_to_json(*inner)),
            None => absent_json(true),
        };
        put_next(&mut members, "start", start, Ghost(all), Ghost(0));
        let end = match &self.end {
            Some(inner) => Some(int_to_json(*inner)),
            None => absent_json(true),
        };
        put_next(&mut members, "end", end, Ghost(all), Ghost(1));
        let probability = match &self.probability {
            Some(inner) => Some(Json::Number(inner.clone())),
            None => absent_json(true),
        };
        put_next(&mut members, "probability", probability, Ghost(all), Ghost(2));
        let type_ = match &self.type_ {
            Some(inner) => Some(Json::Text(inner.clone())),
            None => absent_json(true),
        };
        put_next(&mut members, "type", type_, Ghost(all), Ghost(3));
        let normalized_text = match &self.normalized_text {
            Some(inner) => Some(Json::Text(inner.clone())),
            None => absent_json(true),
        };
        put_next(&mut members, "normalized_text", normalized_text, Ghost(all), Ghost(4));
        assert(all.take(5) == all);
        put_all(&mut members, &self.extra);
        let value = Json::Object(members);
        proof {
            lemma_object_view(value);
        }
        value
    }
}

impl Annotations {
    /// The entries have the keys of the type, and no key twice.
    pub proof fn lemma_keys(x: AnnotationsView)
        ensures
            keys_of(Self::entries(x)) == Self::keys(),
            Self::keys().no_duplicates(),
    {
        reveal_strlit("start");
        assert("start"@.len() == 5);
        reveal_strlit("end");
        assert("end"@.len() == 3);
        reveal_strlit("probability");
        assert("probability"@.len() == 11);
        reveal_strlit("type");
        assert("type"@.len() == 4);
        reveal_strlit("normalized_text");
        assert("normalized_text"@.len() == 15);
        assert(keys_of(Self::entries(x)) =~= Self::keys());
    }

    /// Round trip: reading what was written for a value gives the value
    /// back, the members kept beside the named ones included.
    pub proof fn lemma_round_trip(x: AnnotationsView)
        requires
            Self::wf(x),
        ensures
            Self::decode_spec(Self::encode_spec(x)) == Some(x),
    {
        Self::lemma_keys(x);
        let entries = Self::entries(x);
        lemma_object_rest(entries, x.extra);
        lemma_object_reads(entries, x.extra, 0);
        if x.start is Some {
            lemma_parse_i64_decimal(x.start->0);
        }
        lemma_object_reads(entries, x.extra, 1);
        if x.end is Some {
            lemma_parse_i64_decimal(x.end->0);
        }
        lemma_object_reads(entries, x.extra, 2);
        lemma_object_reads(entries, x.extra, 3);
        lemma_object_reads(entries, x.extra, 4);
        let back = Self::decode_spec(Self::encode_spec(x));
        assert(back is Some);
        assert(back->0.extra == x.extra);
        assert(back->0 == x);
    }

    /// What is read keeps every member that the type does not name, and
    /// what is written for it holds those members again, unchanged and in
    /// their order.
    pub proof fn lemma_extra_kept(members: Members)
        requires
            Self::decode_spec(JsonView::Object(members)) is Some,
        ensures
            ({
                let x = Self::decode_spec(JsonView::Object(members))->0;
                &&& x.extra == rest_spec(members, Self::keys())
                &&& foreign(x.extra, Self::keys())
                &&& Self::encode_spec(x) is Object
                &&& rest_spec(Self::encode_spec(x)->Object_0, Self::keys()) == x.extra
            }),
    {
        let x = Self::decode_spec(JsonView::Object(members))->0;
        Self::lemma_keys(x);
        lemma_rest_is_foreign(members, Self::keys());
        lemma_object_rest(Self::entries(x), x.extra);
    }
}

impl Annotations {
    /// Whether the value, and every value in it that can tell, holds no
    /// member that its type does not name.
    pub open spec fn no_extra(&self) -> bool {
        self.extra@.len() == 0
    }

    /// Whether the value, and every value in it that can tell, holds no
    /// member that its type does not name.
    pub fn is_empty_extra(&self) -> (res: bool)
        ensures
            res == self.no_extra(),
    {
        self.extra.len() == 0
    }
}

impl Annotations {
    /// [`Self::no_extra`], said of the mathematical value.
    pub open spec fn bare(x: AnnotationsView) -> bool {
        x.extra.len() == 0
    }

    /// Whether the JSON value is an object in which every member has a
    /// key that the type names.
    pub open spec fn modelled(value: JsonView) -> bool {
        match value {
            JsonView::Object(members) => {
                &&& forall|i: int|
                    0 <= i < members.len() ==> Self::keys().contains((#[trigger] members[i]).0)
            },
            _ => false,
        }
    }

    /// [`Self::no_extra`] holds of a value exactly if [`Self::bare`] holds
    /// of its view.
    pub proof fn lemma_no_extra(&self)
        ensures
            self.no_extra() == Self::bare(self@),
    {
    }

    /// A value read from an object that holds no member beside those
    /// that the types name, at any level looked into, holds no extras.
    pub proof fn lemma_modelled_is_bare(value: JsonView)
        requires
            Self::modelled(value),
            Self::decode_spec(value) is Some,
        ensures
            Self::bare(Self::decode_spec(value)->0),
    {
        let members = value->Object_0;
        lemma_rest_known(members, Self::keys());
    }

    /// Read from an object that holds no member beside those that the
    /// types name, at any level looked into, a value has no extras to
    /// tell of.
    pub proof fn lemma_read_has_no_extra(&self, source: JsonView)
        requires
            Self::modelled(source),
            Self::decode_spec(source) == Some(self@),
        ensures
            self.no_extra(),
    {
        Self::lemma_modelled_is_bare(source);
        self.lemma_no_extra();
    }
}

} // verus!
