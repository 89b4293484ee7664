//! The release-channel model: an ordered classification of release tracks.

use vstd::prelude::*;

verus! {

/// A toolchain's release track, from the most restrictive (`Stable`) to the
/// least restrictive (`Dev`).  The declaration order fixes the total order.
#[derive(Clone, Copy, Debug, PartialEq, Eq, Structural, PartialOrd, Ord, Hash)]
pub enum Channel {
    Stable,
    Beta,
    Nightly,
    Dev,
}

impl Channel {
    /// Rank in the fixed order Stable < Beta < Nightly < Dev.
    pub open spec fn spec_rank(self) -> nat {
        match self {
            Channel::Stable => 0,
            Channel::Beta => 1,
            Channel::Nightly => 2,
            Channel::Dev => 3,
        }
    }

    /// A channel meets a requirement when its rank is at least the
    /// required channel's rank.
    pub open spec fn spec_at_least(self, required: Channel) -> bool {
        self.spec_rank() >= required.spec_rank()
    }

    /// The channel a self-reported track token denotes: no token and the
    /// explicit "stable" token both mean `Stable`; "beta" and "nightly" name
    /// their tracks; any other token marks a development build.
    pub open spec fn spec_of_token(token: Option<Seq<char>>) -> Channel {
        match token {
            None => Channel::Stable,
            Some(t) => if t == "stable"@ {
                Channel::Stable
            } else if t == "beta"@ {
                Channel::Beta
            } else if t == "nightly"@ {
                Channel::Nightly
            } else {
                Channel::Dev
            },
        }
    }

    pub fn rank(&self) -> (r: u8)
        ensures
            r as nat == self.spec_rank(),
    {
        match self {
            Channel::Stable => 0,
            Channel::Beta => 1,
            Channel::Nightly => 2,
            Channel::Dev => 3,
        }
    }

    pub fn at_least(&self, required: &Channel) -> (r: bool)
        ensures
            r == self.spec_at_least(*required),
    {
        self.rank() >= required.rank()
    }

    /// Three-way comparison in the fixed channel order.
    pub fn compare(&self, other: &Channel) -> (r: core::cmp::Ordering)
        ensures
            self.spec_rank() < other.spec_rank() ==> r == core::cmp::Ordering::Less,
            self.spec_rank() > other.spec_rank() ==> r == core::cmp::Ordering::Greater,
            self.spec_rank() == other.spec_rank() ==> r == core::cmp::Ordering::Equal
                && *self == *other,
    {
        let a = self.rank();
        let b = other.rank();
        if a < b {
            core::cmp::Ordering::Less
        } else if a > b {
            core::cmp::Ordering::Greater
        } else {
            core::cmp::Ordering::Equal
        }
    }

    /// Classify a self-reported track token, absent when the toolchain
    /// reported none.
    pub fn parse(token: Option<&str>) -> (r: Channel)
        ensures
            r == Channel::spec_of_token(match token {
                Some(t) => Some(t@),
                None => None,
            }),
    {
        match token {
            None => Channel::Stable,
            Some(t) => {
                let owned = String::from_str(t);
                if owned == String::from_str("stable") {
                    Channel::Stable
                } else if owned == String::from_str("beta") {
                    Channel::Beta
                } else if owned == String::from_str("nightly") {
                    Channel::Nightly
                } else {
                    Channel::Dev
                }
            },
        }
    }
}

/// The channel order is fixed as Stable < Beta < Nightly < Dev, and every
/// channel is at least itself.
pub proof fn lemma_channel_order(c: Channel)
    ensures
        Channel::Stable.spec_rank() < Channel::Beta.spec_rank(),
        Channel::Beta.spec_rank() < Channel::Nightly.spec_rank(),
        Channel::Nightly.spec_rank() < Channel::Dev.spec_rank(),
        c.spec_at_least(c),
{
}

} // verus!
