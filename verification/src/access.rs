//! Member ranks and the permission rules that compare them.

use vstd::prelude::*;

verus! {

/// The rank of a Discord user in the bot, lowest first.
#[derive(Clone, Copy, Debug, PartialEq, Eq, Structural)]
pub enum AccessRank {
    Default,
    Member,
    Trusted,
    Helper,
    Moderator,
    Admin,
    Owner,
}

impl AccessRank {
    /// The position of the rank, `Default` being 0 and `Owner` 6.
    pub open spec fn level(self) -> int {
        match self {
            AccessRank::Default => 0,
            AccessRank::Member => 1,
            AccessRank::Trusted => 2,
            AccessRank::Helper => 3,
            AccessRank::Moderator => 4,
            AccessRank::Admin => 5,
            AccessRank::Owner => 6,
        }
    }

    /// The position of the rank, `Default` being 0 and `Owner` 6.
    pub fn position(&self) -> (p: u8)
        ensures
            p == self.level(),
    {
        match self {
            AccessRank::Default => 0,
            AccessRank::Member => 1,
            AccessRank::Trusted => 2,
            AccessRank::Helper => 3,
            AccessRank::Moderator => 4,
            AccessRank::Admin => 5,
            AccessRank::Owner => 6,
        }
    }

    /// Whether this rank is `other` or above it.
    pub fn at_least(&self, other: AccessRank) -> (r: bool)
        ensures
            r == (self.level() >= other.level()),
    {
        self.position() >= other.position()
    }

    /// Whether this rank is strictly above `other`.
    pub fn above(&self, other: AccessRank) -> (r: bool)
        ensures
            r == (self.level() > other.level()),
    {
        self.position() > other.position()
    }
}

/// Whether a member of rank `invoker` may strike a member of rank `target`:
/// moderators and above may strike anyone ranked below them.
pub fn can_strike_rank(invoker: AccessRank, target: AccessRank) -> (r: bool)
    ensures
        r == (invoker.level() >= AccessRank::Moderator.level() && invoker.level() > target.level()),
{
    invoker.at_least(AccessRank::Moderator) && invoker.above(target)
}

/// Whether a member of `rank` counts as staff in tag reviews (Helper and above),
/// whose single verdict settles a review.
pub fn is_review_staff(rank: AccessRank) -> (r: bool)
    ensures
        r == (rank.level() >= AccessRank::Helper.level()),
{
    rank.at_least(AccessRank::Helper)
}

} // verus!
