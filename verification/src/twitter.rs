//! Taking back a reaction to a tweet.
use vstd::prelude::*;

verus! {

/// The kind of a reaction.
#[derive(Clone, Copy, Debug, PartialEq, Eq, Structural)]
pub enum ReactionType {
    Like,
    Dislike,
}

/// Why a reaction cannot be taken back.
#[derive(Clone, Copy, Debug, PartialEq, Eq, Structural)]
pub enum TwitterError {
    MinLikesReached,
    MinDislikesReached,
}

/// The counters of a tweet.
#[derive(Clone, Copy, Debug, PartialEq, Eq)]
pub struct Tweet {
    pub likes: u64,
    pub dislikes: u64,
}

/// A reaction to a tweet.
#[derive(Clone, Copy, Debug, PartialEq, Eq)]
pub struct Reaction {
    pub reaction: ReactionType,
}

/// What the removal of a reaction works on: the reaction, and the tweet it
/// was made to.
#[derive(Clone, Copy, Debug, PartialEq, Eq)]
pub struct RemoveReactionContext {
    pub tweet_reaction: Reaction,
    pub tweet: Tweet,
}

impl RemoveReactionContext {
    /// The tweet after the reaction has been taken back: the counter of the
    /// reaction's kind is one less.  A counter at zero cannot be lowered.
    pub open spec fn outcome(self) -> Result<Tweet, TwitterError> {
        match self.tweet_reaction.reaction {
            ReactionType::Like => if self.tweet.likes == 0 {
                Err(TwitterError::MinLikesReached)
            } else {
                Ok(Tweet { likes: (self.tweet.likes - 1) as u64, ..self.tweet })
            },
            ReactionType::Dislike => if self.tweet.dislikes == 0 {
                Err(TwitterError::MinDislikesReached)
            } else {
                Ok(Tweet { dislikes: (self.tweet.dislikes - 1) as u64, ..self.tweet })
            },
        }
    }
}

/// Takes the reaction back from the counters of its tweet.  On failure
/// nothing has changed.
pub fn remove_reaction(ctx: &mut RemoveReactionContext) -> (r: Result<(), TwitterError>)
    ensures
        final(ctx).tweet_reaction == old(ctx).tweet_reaction,
        match old(ctx).outcome() {
            Ok(after) => r is Ok && final(ctx).tweet == after,
            Err(e) => r == Err::<(), TwitterError>(e) && final(ctx).tweet == old(ctx).tweet,
        },
{
    match ctx.tweet_reaction.reaction {
        ReactionType::Like => {
            match ctx.tweet.likes.checked_sub(1) {
                Some(likes) => {
                    ctx.tweet.likes = likes;
                },
                None => {
                    return Err(TwitterError::MinLikesReached);
                },
            }
        },
        ReactionType::Dislike => {
            match ctx.tweet.dislikes.checked_sub(1) {
                Some(dislikes) => {
                    ctx.tweet.dislikes = dislikes;
                },
                None => {
                    return Err(TwitterError::MinDislikesReached);
                },
            }
        },
    }
    Ok(())
}

} // verus!
