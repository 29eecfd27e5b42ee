use vstd::prelude::*;

verus! {

/// Marks the interface of the credit ledger application.
pub struct CreditAbi;

/// Marks the interface of the activity application, which runs meet-ups and
/// campaigns and rewards their participants through the ledger.
pub struct ActivityAbi;

/// Marks the interface of the feed application, which rewards authors.
pub struct FeedAbi;

/// Marks the interface of the foundation application, which holds and
/// distributes pooled funds.
pub struct FoundationAbi;

/// Marks the interface of the mall application, which sells works for credits.
pub struct MallAbi;

/// Marks the interface of the market application, which trades works for credits.
pub struct MarketAbi;

/// Marks the interface of the application that rates content and pays its raters.
pub struct ReviewAbi;

#[derive(Clone, Copy, Debug, PartialEq, Eq, Structural)]
pub enum ActivityType {
    MeetUp,
    Campaign,
}

/// Whether a vote counts once per account or by voting power.
#[derive(Clone, Copy, Debug, PartialEq, Eq, Structural)]
pub enum VoteType {
    Account,
    Power,
}

/// What an activity's candidates are.
#[derive(Clone, Copy, Debug, PartialEq, Eq, Structural)]
pub enum ObjectType {
    Content,
    Comment,
    Author,
    Reviewer,
    ArtWork,
    ArtCollection,
    Creator,
}

/// What a candidate of an activity must meet.
#[derive(Debug, PartialEq, Eq)]
pub struct ObjectCondition {
    pub classes: Option<Vec<String>>,
    pub min_words: u32,
    pub max_words: u32,
}

#[derive(Clone, Copy, Debug, PartialEq, Eq, Structural)]
pub enum JoinType {
    Online,
    InPerson,
}

/// A candidate that won a place in an activity.
#[derive(Debug, PartialEq, Eq)]
pub struct Winner {
    pub place: u16,
    pub object_id: String,
}

/// An announcement of an activity, stored under a content identifier.
#[derive(Debug)]
pub struct AnnounceParams {
    pub activity_id: u64,
    pub cid: String,
    pub title: String,
    pub content: String,
    pub announce_prize: bool,
}

/// The action that the foundation rewards.
#[derive(Clone, Copy, Debug, PartialEq, Eq, Structural)]
pub enum RewardType {
    Review,
    Publish,
    Activity,
}

} // verus!
