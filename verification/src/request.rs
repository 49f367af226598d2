//! The prepared request: what an endpoint builder hands to the transport.
//! It holds the verb, the URL with its path parameters filled in, the query
//! parameters in order, the headers and the body.

use vstd::prelude::*;

verus! {

/// HTTP verbs used by the endpoints.
#[derive(Clone, Copy, Debug, PartialEq, Eq, Structural)]
pub enum Method {
    Get,
    Post,
    Put,
    Delete,
}

impl Method {
    /// Upper-case token of the verb.
    pub open spec fn token(self) -> Seq<char> {
        match self {
            Method::Get => "GET"@,
            Method::Post => "POST"@,
            Method::Put => "PUT"@,
            Method::Delete => "DELETE"@,
        }
    }

    /// Upper-case token of the verb.
    pub fn as_str(&self) -> (s: &'static str)
        ensures
            s@ == self.token(),
    {
        match self {
            Method::Get => "GET",
            Method::Post => "POST",
            Method::Put => "PUT",
            Method::Delete => "DELETE",
        }
    }
}

/// A key and its value, as text.
pub type Param = (Seq<char>, Seq<char>);

/// A key with the value chosen for it, if one was chosen.
pub type Slot = (Seq<char>, Option<Seq<char>>);

/// A request ready to be sent.
#[derive(Debug, Clone)]
pub struct PreparedRequest {
    pub method: Method,
    pub url: String,
    pub query: Vec<(String, String)>,
    pub headers: Vec<(String, String)>,
    pub body: Option<String>,
}

/// What a prepared request holds, as mathematical values.
pub struct RequestView {
    pub method: Method,
    pub url: Seq<char>,
    pub query: Seq<Param>,
    pub headers: Seq<Param>,
    pub body: Option<Seq<char>>,
}

impl View for PreparedRequest {
    type V = RequestView;

    open spec fn view(&self) -> RequestView {
        RequestView {
            method: self.method,
            url: self.url@,
            query: self.query.deep_view(),
            headers: self.headers.deep_view(),
            body: self.body.deep_view(),
        }
    }
}

/// The parameter that a slot contributes: one if a value was chosen, none
/// otherwise.
pub open spec fn present(slot: Slot) -> Seq<Param> {
    match slot.1 {
        Some(value) => seq![(slot.0, value)],
        None => Seq::empty(),
    }
}

/// The parameters of a list of slots: those of the slots with a value, in
/// the order of the slots.
pub open spec fn assemble_spec(slots: Seq<Slot>) -> Seq<Param>
    decreases slots.len(),
{
    if slots.len() == 0 {
        Seq::empty()
    } else {
        assemble_spec(slots.drop_last()) + present(slots.last())
    }
}

/// Whether no two slots share a key.
pub open spec fn distinct_keys(slots: Seq<Slot>) -> bool {
    forall|i: int, j: int|
        0 <= i < slots.len() && 0 <= j < slots.len() && i != j ==> (#[trigger] slots[i]).0 != (
        #[trigger] slots[j]).0
}

/// Whether some parameter has the key.
pub open spec fn has_key(params: Seq<Param>, key: Seq<char>) -> bool {
    exists|i: int| 0 <= i < params.len() && (#[trigger] params[i]).0 == key
}

/// Builds the parameter list of a request from its slots: a slot without a
/// value leaves no trace, a slot with a value gives one parameter.
pub fn assemble(slots: &Vec<(&'static str, Option<String>)>) -> (params: Vec<(String, String)>)
    ensures
        params.deep_view() == assemble_spec(slots.deep_view()),
{
    let ghost all = slots.deep_view();
    let mut params: Vec<(String, String)> = Vec::new();
    let mut i: usize = 0;
    while i < slots.len()
        invariant
            i <= slots.len(),
            all == slots.deep_view(),
            params.deep_view() == assemble_spec(all.take(i as int)),
        decreases slots.len() - i,
    {
        let ghost so_far = params.deep_view();
        assert(all.take(i + 1).drop_last() == all.take(i as int));
        assert(all.take(i + 1).last() == all[i as int]);
        match &slots[i].1 {
            Some(text) => {
                params.push((slots[i].0.to_owned(), text.clone()));
                assert(params.deep_view() =~= so_far + present(all[i as int]));
            },
            None => {
                assert(params.deep_view() =~= so_far + present(all[i as int]));
            },
        }
        i += 1;
    }
    assert(all.take(i as int) == all);
    params
}

/// Every parameter of a request comes from a slot with a value: it has the
/// slot's key and the slot's value.
pub proof fn lemma_assemble_sources(slots: Seq<Slot>, k: int)
    requires
        0 <= k < assemble_spec(slots).len(),
    ensures
        exists|i: int|
            0 <= i < slots.len() && (#[trigger] slots[i]).1 == Some(assemble_spec(slots)[k].1)
                && slots[i].0 == assemble_spec(slots)[k].0,
    decreases slots.len(),
{
    if slots.len() > 0 {
        let init = slots.drop_last();
        if k < assemble_spec(init).len() {
            lemma_assemble_sources(init, k);
            let i = choose|i: int|
                0 <= i < init.len() && (#[trigger] init[i]).1 == Some(assemble_spec(init)[k].1)
                    && init[i].0 == assemble_spec(init)[k].0;
            assert(slots[i] == init[i]);
        } else {
            assert(slots[slots.len() - 1] == slots.last());
        }
    }
}

/// Inclusion: a slot with a value puts its key with that value among the
/// parameters.
pub proof fn lemma_assemble_includes(slots: Seq<Slot>, i: int)
    requires
        0 <= i < slots.len(),
        slots[i].1 is Some,
    ensures
        assemble_spec(slots).contains((slots[i].0, slots[i].1->0)),
    decreases slots.len(),
{
    let init = slots.drop_last();
    let wanted = (slots[i].0, slots[i].1->0);
    if i == slots.len() - 1 {
        let at = assemble_spec(init).len() as int;
        assert(assemble_spec(slots)[at] == wanted);
    } else {
        lemma_assemble_includes(init, i);
        let at = choose|at: int|
            0 <= at < assemble_spec(init).len() && assemble_spec(init)[at] == wanted;
        assert(assemble_spec(slots)[at] == wanted);
    }
}

/// Omission: where no two slots share a key, a slot without a value leaves
/// no parameter under its key.
pub proof fn lemma_assemble_omits(slots: Seq<Slot>, i: int)
    requires
        distinct_keys(slots),
        0 <= i < slots.len(),
        slots[i].1 is None,
    ensures
        !has_key(assemble_spec(slots), slots[i].0),
{
    let params = assemble_spec(slots);
    if has_key(params, slots[i].0) {
        let k = choose|k: int| 0 <= k < params.len() && (#[trigger] params[k]).0 == slots[i].0;
        lemma_assemble_sources(slots, k);
        let j = choose|j: int|
            0 <= j < slots.len() && (#[trigger] slots[j]).1 == Some(params[k].1) && slots[j].0
                == params[k].0;
        assert(slots[j].0 == slots[i].0);
        assert(i != j);
    }
}

/// Where no two slots share a key, a slot with a value gives the only
/// parameter under its key.
pub proof fn lemma_assemble_single(slots: Seq<Slot>, i: int, k: int)
    requires
        distinct_keys(slots),
        0 <= i < slots.len(),
        0 <= k < assemble_spec(slots).len(),
        assemble_spec(slots)[k].0 == slots[i].0,
    ensures
        slots[i].1 == Some(assemble_spec(slots)[k].1),
{
    let params = assemble_spec(slots);
    lemma_assemble_sources(slots, k);
    let j = choose|j: int|
        0 <= j < slots.len() && (#[trigger] slots[j]).1 == Some(params[k].1) && slots[j].0
            == params[k].0;
    assert(slots[j].0 == slots[i].0);
    assert(i == j);
}

/// Where no two slots share a key, no two parameters share one.
pub proof fn lemma_assemble_distinct(slots: Seq<Slot>)
    requires
        distinct_keys(slots),
    ensures
        forall|a: int, b: int|
            0 <= a < b < assemble_spec(slots).len() ==> (#[trigger] assemble_spec(slots)[a]).0 != (
            #[trigger] assemble_spec(slots)[b]).0,
    decreases slots.len(),
{
    if slots.len() > 0 {
        let init = slots.drop_last();
        let last = slots.len() - 1;
        assert(distinct_keys(init)) by {
            assert forall|i: int, j: int|
                0 <= i < init.len() && 0 <= j < init.len() && i != j implies (#[trigger] init[i]).0
                != (#[trigger] init[j]).0 by {
                assert(slots[i].0 != slots[j].0);
            }
        }
        lemma_assemble_distinct(init);
        let before = assemble_spec(init);
        let now = assemble_spec(slots);
        assert forall|a: int, b: int| 0 <= a < b < now.len() implies (#[trigger] now[a]).0 != (
        #[trigger] now[b]).0 by {
            assert(now[a] == before[a]);
            if b < before.len() {
                assert(now[b] == before[b]);
            } else {
                lemma_assemble_sources(init, a);
                let i = choose|i: int|
                    0 <= i < init.len() && (#[trigger] init[i]).1 == Some(before[a].1) && init[i].0
                        == before[a].0;
                assert(slots[i].0 != slots[last].0);
                assert(now[b].0 == slots[last].0);
            }
        }
    }
}

} // verus!
