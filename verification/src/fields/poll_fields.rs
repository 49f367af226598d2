//! Fields of a poll.

use crate::fields::{is_name, Field};
use vstd::prelude::*;

verus! {

/// What a request can ask to have returned of a poll.
#[derive(Debug, Clone, Copy, PartialEq, Eq, Hash, Structural)]
pub enum PollFields {
    DurationMinutes,
    EndDatetime,
    Id,
    Options,
    VotingStatus,
}

impl PollFields {
    /// Every member, once, in declaration order.
    pub fn all() -> (result: Vec<Self>)
        ensures
            result@ == <Self as Field>::universe(),
    {
        let mut result = Vec::new();
        result.push(Self::DurationMinutes);
        result.push(Self::EndDatetime);
        result.push(Self::Id);
        result.push(Self::Options);
        result.push(Self::VotingStatus);
        assert(result@ =~= <Self as Field>::universe());
        result
    }

    /// The member's name as a string of its own.
    pub fn to_string(&self) -> (s: String)
        ensures
            s@ == self.label(),
    {
        self.as_str().to_owned()
    }
}

impl Field for PollFields {
    open spec fn universe() -> Seq<Self> {
        seq![
            Self::DurationMinutes,
            Self::EndDatetime,
            Self::Id,
            Self::Options,
            Self::VotingStatus,
        ]
    }

    open spec fn label(&self) -> Seq<char> {
        match self {
            Self::DurationMinutes => "duration_minutes"@,
            Self::EndDatetime => "end_datetime"@,
            Self::Id => "id"@,
            Self::Options => "options"@,
            Self::VotingStatus => "voting_status"@,
        }
    }

    open spec fn ordinal(&self) -> int {
        match self {
            Self::DurationMinutes => 0,
            Self::EndDatetime => 1,
            Self::Id => 2,
            Self::Options => 3,
            Self::VotingStatus => 4,
        }
    }

    fn members() -> (v: Vec<Self>) {
        Self::all()
    }

    fn index(&self) -> (i: usize) {
        match self {
            Self::DurationMinutes => 0,
            Self::EndDatetime => 1,
            Self::Id => 2,
            Self::Options => 3,
            Self::VotingStatus => 4,
        }
    }

    fn as_str(&self) -> (s: &'static str) {
        match self {
            Self::DurationMinutes => "duration_minutes",
            Self::EndDatetime => "end_datetime",
            Self::Id => "id",
            Self::Options => "options",
            Self::VotingStatus => "voting_status",
        }
    }

    proof fn lemma_member(m: Self) {
    }

    proof fn lemma_position(i: int) {
    }

    proof fn lemma_label_is_name(m: Self) {
        reveal_strlit("duration_minutes");
        assert(is_name("duration_minutes"@));
        reveal_strlit("end_datetime");
        assert(is_name("end_datetime"@));
        reveal_strlit("id");
        assert(is_name("id"@));
        reveal_strlit("options");
        assert(is_name("options"@));
        reveal_strlit("voting_status");
        assert(is_name("voting_status"@));
    }

    proof fn lemma_labels_distinct(a: Self, b: Self) {
        reveal_strlit("duration_minutes");
        assert("duration_minutes"@.len() == 16);
        reveal_strlit("end_datetime");
        assert("end_datetime"@.len() == 12);
        reveal_strlit("id");
        assert("id"@.len() == 2);
        reveal_strlit("options");
        assert("options"@.len() == 7);
        reveal_strlit("voting_status");
        assert("voting_status"@.len() == 13);
    }
}

} // verus!
