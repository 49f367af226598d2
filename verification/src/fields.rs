//! Selectable fields. A request names the fields it wants as a list of
//! members of an enumeration; on the wire the list is the members' names
//! joined by commas. The order in which a caller listed the members, and
//! how often, does not show: members are written once each, in the order in
//! which the enumeration declares them.

use crate::text::{join, join_spec, texts};
use vstd::prelude::*;

pub mod media_fields;
pub mod place_fields;
pub mod poll_fields;
pub mod tweet_fields;
pub mod user_fields;

verus! {

/// An enumeration of names that a request parameter can list.
pub trait Field: Sized {
    /// Every member, once, in declaration order.
    spec fn universe() -> Seq<Self>;

    /// The name under which the API knows the member.
    spec fn label(&self) -> Seq<char>;

    /// Position of the member in [`Field::universe`].
    spec fn ordinal(&self) -> int;

    /// Every member, once, in declaration order.
    fn members() -> (v: Vec<Self>)
        ensures
            v@ == Self::universe(),
    ;

    /// Position of the member in declaration order.
    fn index(&self) -> (i: usize)
        ensures
            i == self.ordinal(),
            0 <= i < Self::universe().len(),
            Self::universe()[i as int] == *self,
    ;

    /// The name under which the API knows the member.
    fn as_str(&self) -> (s: &'static str)
        ensures
            s@ == self.label(),
    ;

    /// Each member stands in the universe at its ordinal.
    proof fn lemma_member(m: Self)
        ensures
            0 <= m.ordinal() < Self::universe().len(),
            Self::universe()[m.ordinal()] == m,
    ;

    /// The ordinal of the member at a position is that position.
    proof fn lemma_position(i: int)
        requires
            0 <= i < Self::universe().len(),
        ensures
            Self::universe()[i].ordinal() == i,
    ;

    /// Two members with one name are one member.
    proof fn lemma_labels_distinct(a: Self, b: Self)
        requires
            a.label() == b.label(),
        ensures
            a == b,
    ;

    /// The name of a member is not empty and holds neither comma nor
    /// space.
    proof fn lemma_label_is_name(m: Self)
        ensures
            is_name(m.label()),
    ;
}

/// Whether the character can stand in a name: a lower-case letter, `_` or
/// `.`.
pub open spec fn name_char(c: char) -> bool {
    ('a' <= c && c <= 'z') || c == '_' || c == '.'
}

/// Whether the text is a name: not empty, and made of the characters that
/// can stand in a name.
pub open spec fn is_name(text: Seq<char>) -> bool {
    text.len() > 0 && forall|i: int| 0 <= i < text.len() ==> name_char(#[trigger] text[i])
}

/// The pieces of a text between its commas: one more than it has commas,
/// a piece being empty where a comma stands first, last or next to
/// another.
pub open spec fn pieces(text: Seq<char>) -> Seq<Seq<char>>
    decreases text.len(),
{
    if text.len() == 0 {
        seq![Seq::empty()]
    } else if text.last() == ',' {
        pieces(text.drop_last()).push(Seq::empty())
    } else {
        let before = pieces(text.drop_last());
        before.drop_last().push(before.last().push(text.last()))
    }
}

/// Those of the first `n` members of the universe that occur in `items`,
/// in declaration order.
pub open spec fn selected<T: Field>(items: Seq<T>, n: int) -> Seq<T>
    decreases n,
{
    if n <= 0 {
        Seq::empty()
    } else {
        let rest = selected::<T>(items, n - 1);
        let m = T::universe()[n - 1];
        if items.contains(m) {
            rest.push(m)
        } else {
            rest
        }
    }
}

/// The names of the members, in the order given.
pub open spec fn labels<T: Field>(members: Seq<T>) -> Seq<Seq<char>> {
    members.map_values(|m: T| m.label())
}

/// The wire form of a selection: the names of the members that occur in
/// `items`, each once, in declaration order, with commas between them.
pub open spec fn serialize_spec<T: Field>(items: Seq<T>) -> Seq<char> {
    join_spec(labels(selected(items, T::universe().len() as int)), seq![','])
}

fn occurs<T: Field>(items: &Vec<T>, at: usize) -> (found: bool)
    requires
        at < T::universe().len(),
    ensures
        found == items@.contains(T::universe()[at as int]),
{
    let ghost wanted = T::universe()[at as int];
    let mut j: usize = 0;
    while j < items.len()
        invariant
            j <= items.len(),
            at < T::universe().len(),
            wanted == T::universe()[at as int],
            forall|k: int| 0 <= k < j ==> items@[k] != wanted,
        decreases items.len() - j,
    {
        if items[j].index() == at {
            assert(items@[j as int] == wanted);
            return true;
        }
        proof {
            if items@[j as int] == wanted {
                T::lemma_position(at as int);
            }
        }
        j += 1;
    }
    false
}

/// Writes a selection in its wire form.
pub fn serialize<T: Field>(items: &Vec<T>) -> (s: String)
    ensures
        s@ == serialize_spec(items@),
{
    let universe = T::members();
    let mut names: Vec<&str> = Vec::new();
    let mut i: usize = 0;
    while i < universe.len()
        invariant
            i <= universe.len(),
            universe@ == T::universe(),
            texts(names@) == labels(selected(items@, i as int)),
        decreases universe.len() - i,
    {
        let ghost before = names@;
        if occurs(items, i) {
            names.push(universe[i].as_str());
            assert(texts(names@) =~= texts(before).push(universe@[i as int].label()));
        }
        assert(texts(names@) =~= labels(selected(items@, i + 1)));
        i += 1;
    }
    proof {
        reveal_strlit(",");
        assert(","@ =~= seq![',']);
    }
    join(&names, ",")
}

/// What a selection writes depends only on which members it holds: neither
/// the order in which they were listed nor repetitions show.
pub proof fn lemma_serialize_ignores_order<T: Field>(a: Seq<T>, b: Seq<T>)
    requires
        forall|m: T| a.contains(m) <==> b.contains(m),
    ensures
        serialize_spec(a) == serialize_spec(b),
{
    lemma_selected_ignores_order(a, b, T::universe().len() as int);
}

proof fn lemma_selected_ignores_order<T: Field>(a: Seq<T>, b: Seq<T>, n: int)
    requires
        forall|m: T| a.contains(m) <==> b.contains(m),
    ensures
        selected(a, n) == selected(b, n),
    decreases n,
{
    if n > 0 {
        lemma_selected_ignores_order(a, b, n - 1);
    }
}

/// The members written for a selection stand in declaration order: their
/// positions in the universe rise strictly and stay below `n`.
pub proof fn lemma_selected_rising<T: Field>(items: Seq<T>, n: int)
    requires
        n <= T::universe().len(),
    ensures
        forall|i: int|
            0 <= i < selected(items, n).len() ==> 0 <= (#[trigger] selected(
                items,
                n,
            )[i]).ordinal() < n,
        forall|i: int, j: int|
            0 <= i < j < selected(items, n).len() ==> (#[trigger] selected(
                items,
                n,
            )[i]).ordinal() < (#[trigger] selected(items, n)[j]).ordinal(),
    decreases n,
{
    if n > 0 {
        lemma_selected_rising(items, n - 1);
        T::lemma_position(n - 1);
        let rest = selected(items, n - 1);
        let now = selected(items, n);
        assert forall|i: int| 0 <= i < now.len() implies 0 <= (#[trigger] now[i]).ordinal() < n by {
            if i < rest.len() {
                assert(now[i] == rest[i]);
            }
        }
        assert forall|i: int, j: int| 0 <= i < j < now.len() implies (#[trigger] now[i]).ordinal()
            < (#[trigger] now[j]).ordinal() by {
            assert(now[i] == rest[i]);
            if j < rest.len() {
                assert(now[j] == rest[j]);
            }
        }
    }
}

/// A member is written for a selection exactly if the selection holds it.
pub proof fn lemma_selected_members<T: Field>(items: Seq<T>, m: T)
    ensures
        selected(items, T::universe().len() as int).contains(m) <==> items.contains(m),
{
    T::lemma_member(m);
    lemma_selected_upto(items, T::universe().len() as int, m);
}

proof fn lemma_selected_upto<T: Field>(items: Seq<T>, n: int, m: T)
    requires
        0 <= n <= T::universe().len(),
    ensures
        selected(items, n).contains(m) <==> (items.contains(m) && m.ordinal() < n),
    decreases n,
{
    T::lemma_member(m);
    if n > 0 {
        lemma_selected_upto(items, n - 1, m);
        T::lemma_position(n - 1);
        let rest = selected(items, n - 1);
        let now = selected(items, n);
        let last = T::universe()[n - 1];
        if items.contains(last) {
            assert(now == rest.push(last));
            if now.contains(m) {
                let i = choose|i: int| 0 <= i < now.len() && now[i] == m;
                if i < rest.len() {
                    assert(rest[i] == m);
                }
            }
            if rest.contains(m) {
                let i = choose|i: int| 0 <= i < rest.len() && rest[i] == m;
                assert(now[i] == m);
            }
            if m == last {
                assert(now[rest.len() as int] == m);
            }
        }
    }
}

/// The wire form of a selection lists exactly the names of the members it
/// holds, and no name twice.
pub proof fn lemma_serialize_exact<T: Field>(items: Seq<T>)
    ensures
        labels(selected(items, T::universe().len() as int)).no_duplicates(),
        forall|m: T|
            items.contains(m) <==> #[trigger] labels(
                selected(items, T::universe().len() as int),
            ).contains(m.label()),
{
    let n = T::universe().len() as int;
    let chosen = selected::<T>(items, n);
    let names = labels(chosen);
    lemma_selected_rising(items, n);
    assert forall|i: int, j: int|
        0 <= i < names.len() && 0 <= j < names.len() && i != j implies names[i] != names[j] by {
        if names[i] == names[j] {
            T::lemma_labels_distinct(chosen[i], chosen[j]);
            if i < j {
                assert(chosen[i].ordinal() < chosen[j].ordinal());
            } else {
                assert(chosen[j].ordinal() < chosen[i].ordinal());
            }
        }
    }
    assert forall|m: T| items.contains(m) <==> #[trigger] names.contains(m.label()) by {
        lemma_selected_members(items, m);
        if items.contains(m) {
            let i = choose|i: int| 0 <= i < chosen.len() && chosen[i] == m;
            assert(names[i] == m.label());
        }
        if names.contains(m.label()) {
            let i = choose|i: int| 0 <= i < names.len() && names[i] == m.label();
            T::lemma_labels_distinct(chosen[i], m);
            assert(chosen[i] == m);
        }
    }
}

/// A text has at least one piece.
pub proof fn lemma_pieces_some(text: Seq<char>)
    ensures
        pieces(text).len() > 0,
    decreases text.len(),
{
    if text.len() > 0 {
        lemma_pieces_some(text.drop_last());
    }
}

/// Writing a text without commas after another lengthens the last piece.
pub proof fn lemma_pieces_append(text: Seq<char>, more: Seq<char>)
    requires
        forall|i: int| 0 <= i < more.len() ==> #[trigger] more[i] != ',',
    ensures
        pieces(text + more) == pieces(text).drop_last().push(pieces(text).last() + more),
    decreases more.len(),
{
    lemma_pieces_some(text);
    if more.len() == 0 {
        assert(text + more == text);
        assert(pieces(text).last() + more == pieces(text).last());
        assert(pieces(text).drop_last().push(pieces(text).last()) == pieces(text));
    } else {
        let init = more.drop_last();
        lemma_pieces_append(text, init);
        lemma_pieces_some(text + init);
        assert(more[more.len() - 1] != ',');
        assert((text + more).drop_last() == text + init);
        assert((text + more).last() == more.last());
        assert((pieces(text).last() + init).push(more.last()) == pieces(text).last() + more);
        let before = pieces(text).drop_last().push(pieces(text).last() + init);
        assert(before.drop_last() == pieces(text).drop_last());
    }
}

/// The pieces of names joined by commas are the names.
pub proof fn lemma_pieces_join(names: Seq<Seq<char>>)
    requires
        names.len() > 0,
        forall|i: int| 0 <= i < names.len() ==> is_name(#[trigger] names[i]),
    ensures
        pieces(join_spec(names, seq![','])) == names,
    decreases names.len(),
{
    let last = names.last();
    assert(is_name(names[names.len() - 1]));
    assert forall|i: int| 0 <= i < last.len() implies #[trigger] last[i] != ',' by {
        assert(name_char(last[i]));
    }
    if names.len() == 1 {
        let none = Seq::<char>::empty();
        lemma_pieces_append(none, last);
        assert(none + last == last);
        assert(pieces(none).drop_last().push(pieces(none).last() + last) == seq![last]);
        assert(names == seq![last]);
    } else {
        let init = names.drop_last();
        assert forall|i: int| 0 <= i < init.len() implies is_name(#[trigger] init[i]) by {
            assert(init[i] == names[i]);
        }
        lemma_pieces_join(init);
        let front = join_spec(init, seq![',']) + seq![','];
        assert(front.drop_last() == join_spec(init, seq![',']));
        assert(front.last() == ',');
        assert(pieces(front) == init.push(Seq::empty()));
        lemma_pieces_append(front, last);
        assert(Seq::<char>::empty() + last == last);
        assert(init.push(Seq::empty()).drop_last() == init);
        assert(init.push(last) == names);
    }
}

/// The wire form of any selection, of any enumeration: nothing for a
/// selection without members; else names with one comma between
/// neighbours, so that its pieces are as many as the selection has
/// distinct members, no two of them alike, each the name of a member that
/// the selection holds, and every member that it holds named. No comma
/// stands first, last or next to another, and there is no space.
pub proof fn lemma_serialize_general<T: Field>(items: Seq<T>)
    ensures
        items.len() == 0 ==> serialize_spec(items) == Seq::<char>::empty(),
        items.len() > 0 ==> pieces(serialize_spec(items)) == labels(
            selected(items, T::universe().len() as int),
        ),
        labels(selected(items, T::universe().len() as int)).len() == items.to_set().len(),
        labels(selected(items, T::universe().len() as int)).no_duplicates(),
        forall|m: T|
            items.contains(m) <==> #[trigger] labels(
                selected(items, T::universe().len() as int),
            ).contains(m.label()),
        forall|i: int|
            0 <= i < labels(selected(items, T::universe().len() as int)).len() ==> is_name(
                #[trigger] labels(selected(items, T::universe().len() as int))[i],
            ),
{
    let n = T::universe().len() as int;
    let chosen = selected::<T>(items, n);
    let names = labels(chosen);
    lemma_serialize_exact(items);
    lemma_selected_rising(items, n);
    assert forall|i: int| 0 <= i < names.len() implies is_name(#[trigger] names[i]) by {
        T::lemma_label_is_name(chosen[i]);
    }
    assert(chosen.no_duplicates()) by {
        assert forall|i: int, j: int|
            0 <= i < chosen.len() && 0 <= j < chosen.len() && i != j implies chosen[i]
            != chosen[j] by {
            if i < j {
                assert(chosen[i].ordinal() < chosen[j].ordinal());
            } else {
                assert(chosen[j].ordinal() < chosen[i].ordinal());
            }
        }
    }
    assert(chosen.to_set() =~= items.to_set()) by {
        assert forall|m: T| chosen.to_set().contains(m) <==> items.to_set().contains(m) by {
            lemma_selected_members(items, m);
        }
    }
    chosen.unique_seq_to_set();
    if items.len() == 0 {
        assert(chosen.to_set().len() == 0) by {
            assert(items.to_set() =~= Set::<T>::empty());
        }
        assert(names =~= Seq::<Seq<char>>::empty());
    } else {
        assert(items.contains(items[0]));
        lemma_selected_members(items, items[0]);
        lemma_pieces_join(names);
    }
}

} // verus!
