use event_ticketing::address::Address;
use event_ticketing::twitter::{
    remove_reaction, Reaction, ReactionType, RemoveReactionContext, Tweet, TwitterError,
};
use event_ticketing::vault::{Vault, VaultError, Withdraw, WithdrawEvent, _withdraw};

fn vault_of(locked: bool, lamports: u64, authority_lamports: u64) -> Withdraw {
    Withdraw {
        vault_authority: Address::new([1; 32]),
        authority_lamports,
        vault_key: Address::new([2; 32]),
        vault: Vault { locked, lamports },
    }
}

#[test]
fn withdraw_moves_the_amount_to_the_authority() {
    let mut ctx = vault_of(false, 100, 5);
    assert_eq!(
        _withdraw(&mut ctx, 40),
        Ok(WithdrawEvent {
            amount: 40,
            vault_authority: Address::new([1; 32]),
            vault: Address::new([2; 32]),
        })
    );
    assert_eq!(ctx, vault_of(false, 60, 45));
    assert_eq!(_withdraw(&mut ctx, 60).map(|e| e.amount), Ok(60));
    assert_eq!(ctx, vault_of(false, 0, 105));
    assert_eq!(_withdraw(&mut ctx, 0).map(|e| e.amount), Ok(0));
    assert_eq!(ctx, vault_of(false, 0, 105));
}

#[test]
fn withdraw_from_a_locked_vault() {
    let mut ctx = vault_of(true, 100, 5);
    assert_eq!(_withdraw(&mut ctx, 40), Err(VaultError::VaultLocked));
    assert_eq!(_withdraw(&mut ctx, 1000), Err(VaultError::VaultLocked));
    assert_eq!(ctx, vault_of(true, 100, 5));
}

#[test]
fn withdraw_of_more_than_the_vault_holds() {
    let mut ctx = vault_of(false, 100, 5);
    assert_eq!(_withdraw(&mut ctx, 101), Err(VaultError::InsufficientBalance));
    assert_eq!(ctx, vault_of(false, 100, 5));
}

fn reacted(reaction: ReactionType, likes: u64, dislikes: u64) -> RemoveReactionContext {
    RemoveReactionContext { tweet_reaction: Reaction { reaction }, tweet: Tweet { likes, dislikes } }
}

#[test]
fn remove_reaction_lowers_the_counter_of_its_kind() {
    let mut ctx = reacted(ReactionType::Like, 3, 7);
    assert_eq!(remove_reaction(&mut ctx), Ok(()));
    assert_eq!(ctx, reacted(ReactionType::Like, 2, 7));
    let mut ctx = reacted(ReactionType::Dislike, 3, 7);
    assert_eq!(remove_reaction(&mut ctx), Ok(()));
    assert_eq!(ctx, reacted(ReactionType::Dislike, 3, 6));
    let mut ctx = reacted(ReactionType::Like, u64::MAX, 0);
    assert_eq!(remove_reaction(&mut ctx), Ok(()));
    assert_eq!(ctx.tweet.likes, u64::MAX - 1);
}

#[test]
fn remove_reaction_from_a_counter_at_zero() {
    let mut ctx = reacted(ReactionType::Like, 0, 7);
    assert_eq!(remove_reaction(&mut ctx), Err(TwitterError::MinLikesReached));
    assert_eq!(ctx, reacted(ReactionType::Like, 0, 7));
    let mut ctx = reacted(ReactionType::Dislike, 4, 0);
    assert_eq!(remove_reaction(&mut ctx), Err(TwitterError::MinDislikesReached));
    assert_eq!(ctx, reacted(ReactionType::Dislike, 4, 0));
}
