use vstd::prelude::*;

verus! {

/// Marker type naming the interface of the arena application: its operations,
/// messages, queries and query responses.
pub struct AetherArenaAbi;

/// Lifecycle state of an arena: `Open -> Live -> Resolving -> Closed`.
#[derive(Clone, Copy, Debug, PartialEq, Eq, Structural)]
pub enum ArenaStatus {
    Open,
    Live,
    Resolving,
    Closed,
}

/// The single legal successor of each non-terminal status.
pub open spec fn legal_transition(from: ArenaStatus, to: ArenaStatus) -> bool {
    ||| (from == ArenaStatus::Open && to == ArenaStatus::Live)
    ||| (from == ArenaStatus::Live && to == ArenaStatus::Resolving)
    ||| (from == ArenaStatus::Resolving && to == ArenaStatus::Closed)
}

/// Identity of an account: a 256-bit value held as two halves.
#[derive(Clone, Copy, Debug, PartialEq, Eq, Structural, Hash)]
pub struct Owner {
    pub high: u128,
    pub low: u128,
}

/// Why a mutation was refused. A refused mutation leaves the ledger unchanged.
#[derive(Clone, Copy, Debug, PartialEq, Eq, Structural)]
pub enum ArenaError {
    /// The referenced arena does not exist.
    NotFound,
    /// An outcome index lies outside the arena's outcome list.
    InvalidArgument,
    /// The arena's status does not permit the operation.
    InvalidState,
    /// A counter or a stake total would leave the range of `u64`.
    Overflow,
}

/// The text that describes each error.
pub open spec fn error_text(e: ArenaError) -> Seq<char> {
    match e {
        ArenaError::NotFound => "Arena not found"@,
        ArenaError::InvalidArgument => "Invalid outcome index"@,
        ArenaError::InvalidState => "Operation not permitted in the arena's status"@,
        ArenaError::Overflow => "Stake or identifier out of range"@,
    }
}

impl ArenaError {
    /// A human-readable description of the error.
    pub fn message(&self) -> (r: String)
        ensures
            r@ == error_text(*self),
    {
        proof {
            reveal_strlit("Arena not found");
            reveal_strlit("Invalid outcome index");
            reveal_strlit("Operation not permitted in the arena's status");
            reveal_strlit("Stake or identifier out of range");
        }
        match self {
            ArenaError::NotFound => String::from_str("Arena not found"),
            ArenaError::InvalidArgument => String::from_str("Invalid outcome index"),
            ArenaError::InvalidState => String::from_str("Operation not permitted in the arena's status"),
            ArenaError::Overflow => String::from_str("Stake or identifier out of range"),
        }
    }
}

/// One owner's stake on one outcome of one arena.
#[derive(Clone, Copy, Debug, PartialEq, Eq, Structural)]
pub struct Prediction {
    pub arena_id: u64,
    pub owner: Owner,
    pub outcome_index: usize,
    pub amount: u64,
    pub placed_at: u64,
}

/// A question with enumerated outcomes and its aggregate stakes.
#[derive(Clone, Debug)]
pub struct Arena {
    pub id: u64,
    pub question: String,
    pub outcomes: Vec<String>,
    pub status: ArenaStatus,
    pub total_stakes: Vec<u64>,
    pub creator: Owner,
    pub created_at: u64,
    pub resolution_outcome: Option<usize>,
}

/// The mathematical value of an arena.
pub struct ArenaView {
    pub id: u64,
    pub question: Seq<char>,
    pub outcomes: Seq<Seq<char>>,
    pub status: ArenaStatus,
    pub total_stakes: Seq<u64>,
    pub creator: Owner,
    pub created_at: u64,
    pub resolution_outcome: Option<usize>,
}

impl View for Arena {
    type V = ArenaView;

    open spec fn view(&self) -> ArenaView {
        ArenaView {
            id: self.id,
            question: self.question@,
            outcomes: self.outcomes@.map_values(|s: String| s@),
            status: self.status,
            total_stakes: self.total_stakes@,
            creator: self.creator,
            created_at: self.created_at,
            resolution_outcome: self.resolution_outcome,
        }
    }
}

impl Arena {
    /// An arena whose fields all hold the same values as this one.
    pub fn duplicate(&self) -> (r: Arena)
        ensures
            r@ == self@,
    {
        let mut outcomes: Vec<String> = Vec::new();
        let mut i: usize = 0;
        while i < self.outcomes.len()
            invariant
                i <= self.outcomes@.len(),
                outcomes@.len() == i,
                forall|j: int| 0 <= j < i ==> outcomes@[j]@ == self.outcomes@[j]@,
            decreases self.outcomes@.len() - i,
        {
            outcomes.push(self.outcomes[i].clone());
            i = i + 1;
        }
        let mut stakes: Vec<u64> = Vec::new();
        let mut k: usize = 0;
        while k < self.total_stakes.len()
            invariant
                k <= self.total_stakes@.len(),
                stakes@ == self.total_stakes@.subrange(0, k as int),
            decreases self.total_stakes@.len() - k,
        {
            stakes.push(self.total_stakes[k]);
            k = k + 1;
            assert(stakes@ =~= self.total_stakes@.subrange(0, k as int));
        }
        assert(stakes@ =~= self.total_stakes@);
        let r = Arena {
            id: self.id,
            question: self.question.clone(),
            outcomes,
            status: self.status,
            total_stakes: stakes,
            creator: self.creator,
            created_at: self.created_at,
            resolution_outcome: self.resolution_outcome,
        };
        assert(r.outcomes@.map_values(|s: String| s@) =~= self.outcomes@.map_values(|s: String| s@));
        r
    }
}

/// A caller-initiated mutation request.
#[derive(Clone, Debug)]
pub enum Operation {
    CreateArena { question: String, outcomes: Vec<String> },
    PlacePrediction { arena_id: u64, outcome_index: usize, amount: u64 },
    ResolveArena { arena_id: u64, winning_outcome: usize },
    UpdateArenaStatus { arena_id: u64, new_status: ArenaStatus },
}

/// A mutation request delivered without a caller to report back to.
#[derive(Clone, Copy, Debug)]
pub enum Message {
    PlacePrediction { arena_id: u64, outcome_index: usize, amount: u64 },
    ResolveArena { arena_id: u64, winning_outcome: usize },
}

/// A read-only request on the ledger.
#[derive(Clone, Copy, Debug)]
pub enum Query {
    GetArena { arena_id: u64 },
    GetArenas { status_filter: Option<ArenaStatus> },
    GetUserPredictions { user: Owner },
    GetArenaPredictions { arena_id: u64 },
}

/// The answer to a [`Query`].
#[derive(Clone, Debug)]
pub enum QueryResponse {
    Arena(Option<Arena>),
    Arenas(Vec<Arena>),
    Predictions(Vec<Prediction>),
    Empty,
}

} // verus!
