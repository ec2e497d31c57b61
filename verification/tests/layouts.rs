//! The stored forms of the program's data.

use indie_games::constants::{ORACLE_DISCRIMINATOR, RANKED_GAME_DISCRIMINATOR};
use indie_games::error::ProgramError;
use indie_games::instruction::IndieGamesInstruction;
use indie_games::state::character::{CharacterAccount, CHARACTER_NAME_MAX_LEN};
use indie_games::state::game::{GameAccount, GameAccountV1, GAME_TITLE_MAX_LEN, GAME_URL_MAX_LEN};
use indie_games::state::oracle::OraclePriceState;
use indie_games::state::ranked_game::{RankedGameState, RankedGameStatus};
use indie_games::state::user_account::{UserAccount, USERNAME_MAX_LEN};

fn game() -> GameAccount {
    GameAccount {
        is_initialized: true,
        version: 2,
        game_title: [b'g'; 32],
        owner: [1; 32],
        dev_fee_bps: 0x1234,
        game_to_protocol_share_bps: 2_000,
        game_cost: 5_000_000,
        game_url: [b'u'; 64],
        total_users: 0x0a0b_0c0d,
        total_revenue_usd_micro: 77,
    }
}

fn user() -> UserAccount {
    UserAccount {
        is_initialized: true,
        version: 1,
        bump: 250,
        owner: [1; 32],
        game: [2; 32],
        username: [b'n'; 32],
        current_ranked_game: [3; 32],
        total_ranked_games_played: 4,
        total_wins: 5,
        total_usd_spent_micro: 6,
        total_usd_rewards_micro: 7,
    }
}

fn ranked() -> RankedGameState {
    RankedGameState {
        discriminator: RANKED_GAME_DISCRIMINATOR,
        ranked_game_id: 42,
        game: [2; 32],
        entry_fee: 100,
        participant_count: 3,
        status: RankedGameStatus::InProgress,
        bump: 251,
    }
}

fn oracle() -> OraclePriceState {
    OraclePriceState {
        discriminator: ORACLE_DISCRIMINATOR,
        sol_price_usd_micro_per_lamport: 150_000_000,
        skr_price_usd_micro_per_atom: 20_000,
        slice_price_usd_micro_per_atom: 30_000,
        bump: 252,
    }
}

fn character() -> CharacterAccount {
    CharacterAccount {
        is_initialized: true,
        version: 3,
        owner_wallet: [4; 32],
        creation_date: -2,
        character_name: "Zoë".to_string(),
        level: 5,
        ranked_games_played: 6,
        ranked_games_won: 7,
        current_ranked_game: Some([8; 32]),
    }
}

fn character_error(bytes: &[u8]) -> ProgramError {
    CharacterAccount::try_from_slice(bytes).unwrap_err()
}

#[test]
fn sizes() {
    assert_eq!(GameAccount::MAX_SIZE, 154);
    assert_eq!(UserAccount::MAX_SIZE, 155);
    assert_eq!(RankedGameState::LEN, 62);
    assert_eq!(OraclePriceState::LEN, 33);
    assert_eq!(CharacterAccount::MAX_SIZE, 123);
    assert_eq!(CHARACTER_NAME_MAX_LEN, 32);
    assert_eq!(GAME_TITLE_MAX_LEN, 32);
    assert_eq!(GAME_URL_MAX_LEN, 64);
    assert_eq!(USERNAME_MAX_LEN, 32);
}

#[test]
fn game_layout() {
    let bytes = game().serialize();
    assert_eq!(bytes.len(), GameAccount::MAX_SIZE);
    assert_eq!(&bytes[..2], &[1, 2]);
    assert_eq!(&bytes[2..34], &[b'g'; 32]);
    assert_eq!(&bytes[34..66], &[1; 32]);
    assert_eq!(&bytes[66..68], &[0x34, 0x12]);
    assert_eq!(&bytes[68..70], &2_000u16.to_le_bytes());
    assert_eq!(&bytes[70..78], &5_000_000u64.to_le_bytes());
    assert_eq!(&bytes[78..142], &[b'u'; 64]);
    assert_eq!(&bytes[142..146], &[0x0d, 0x0c, 0x0b, 0x0a]);
    assert_eq!(&bytes[146..], &77u64.to_le_bytes());
    assert_eq!(GameAccount::try_from_slice(&bytes), Ok(game()));
}

#[test]
fn game_reading_is_strict_or_lenient_at_the_end() {
    let mut bytes = game().serialize();
    bytes.push(9);
    assert_eq!(GameAccount::try_from_slice(&bytes), Err(ProgramError::BorshIoError));
    assert_eq!(GameAccount::deserialize(&bytes), Ok(game()));
    assert_eq!(GameAccount::deserialize(&bytes[..153]), Err(ProgramError::BorshIoError));
    bytes.pop();
    bytes[0] = 2;
    assert_eq!(GameAccount::try_from_slice(&bytes), Err(ProgramError::BorshIoError));
}

#[test]
fn first_game_layout() {
    let bytes = game().serialize();
    let old_game = GameAccountV1::try_from_slice(&bytes[..70]).unwrap();
    assert_eq!(old_game.game_title, game().game_title);
    assert_eq!(old_game.owner, game().owner);
    assert_eq!(old_game.dev_fee_bps, 0x1234);
    assert_eq!(old_game.game_to_protocol_share_bps, 2_000);
    assert_eq!(GameAccountV1::try_from_slice(&bytes), Err(ProgramError::BorshIoError));
    assert_eq!(GameAccountV1::try_from_slice(&bytes[..69]), Err(ProgramError::BorshIoError));
}

#[test]
fn user_layout() {
    let bytes = user().serialize();
    assert_eq!(bytes.len(), UserAccount::MAX_SIZE);
    assert_eq!(&bytes[..3], &[1, 1, 250]);
    assert_eq!(&bytes[99..131], &[3; 32]);
    assert_eq!(&bytes[131..135], &4u32.to_le_bytes());
    assert_eq!(&bytes[147..], &7u64.to_le_bytes());
    assert_eq!(UserAccount::try_from_slice(&bytes), Ok(user()));
    assert_eq!(UserAccount::try_from_slice(&bytes[..154]), Err(ProgramError::BorshIoError));
}

#[test]
fn ranked_layout() {
    let bytes = ranked().serialize();
    assert_eq!(bytes.len(), RankedGameState::LEN);
    assert_eq!(&bytes[..8], b"RNKDGAME");
    assert_eq!(&bytes[8..16], &42u64.to_le_bytes());
    assert_eq!(&bytes[56..60], &3u32.to_le_bytes());
    assert_eq!(&bytes[60..], &[1, 251]);
    assert_eq!(RankedGameState::try_from_slice(&bytes), Ok(ranked()));
    let mut bad = bytes.clone();
    bad[60] = 3;
    assert_eq!(RankedGameState::try_from_slice(&bad), Err(ProgramError::BorshIoError));
}

#[test]
fn oracle_layout() {
    let bytes = oracle().serialize();
    assert_eq!(bytes.len(), OraclePriceState::LEN);
    assert_eq!(&bytes[8..16], &150_000_000u64.to_le_bytes());
    assert_eq!(bytes[32], 252);
    assert_eq!(OraclePriceState::try_from_slice(&bytes), Ok(oracle()));
    assert_eq!(OraclePriceState::try_from_slice(&[]), Err(ProgramError::BorshIoError));
}

#[test]
fn character_layout() {
    let bytes = character().serialize().unwrap();
    assert_eq!(bytes.len(), 1 + 1 + 32 + 8 + 4 + 4 + 12 + 33);
    assert_eq!(&bytes[..2], &[1, 3]);
    assert_eq!(&bytes[34..42], &[0xfe, 0xff, 0xff, 0xff, 0xff, 0xff, 0xff, 0xff]);
    assert_eq!(&bytes[42..50], &[4, 0, 0, 0, b'Z', b'o', 0xc3, 0xab]);
    assert_eq!(&bytes[50..54], &5u32.to_le_bytes());
    assert_eq!(bytes[62], 1);
    assert_eq!(&bytes[63..], &[8; 32]);
    let back = CharacterAccount::try_from_slice(&bytes).unwrap();
    assert!(back.is_initialized);
    assert_eq!(back.version, 3);
    assert_eq!(back.owner_wallet, [4; 32]);
    assert_eq!(back.creation_date, -2);
    assert_eq!(back.character_name, "Zoë");
    assert_eq!((back.level, back.ranked_games_played, back.ranked_games_won), (5, 6, 7));
    assert_eq!(back.current_ranked_game, Some([8; 32]));
    assert_eq!(back.serialize().unwrap(), bytes);
}

#[test]
fn longest_character_fills_its_account() {
    let mut c = character();
    c.character_name = "n".repeat(CHARACTER_NAME_MAX_LEN);
    assert_eq!(c.serialize().unwrap().len(), CharacterAccount::MAX_SIZE);
    c.current_ranked_game = None;
    c.character_name = String::new();
    c.creation_date = i64::MAX;
    let bytes = c.serialize().unwrap();
    assert_eq!(bytes.len(), 59);
    assert_eq!(bytes[58], 0);
    let back = CharacterAccount::try_from_slice(&bytes).unwrap();
    assert_eq!(back.character_name, "");
    assert_eq!(back.creation_date, i64::MAX);
    assert_eq!(back.current_ranked_game, None);
}

#[test]
fn character_refusals() {
    let bytes = character().serialize().unwrap();
    for len in 0..bytes.len() {
        assert_eq!(character_error(&bytes[..len]), ProgramError::BorshIoError, "{} bytes", len);
    }
    let mut longer = bytes.clone();
    longer.push(0);
    assert_eq!(character_error(&longer), ProgramError::BorshIoError);
    // the flag, the second half of a letter, the tag of the ranked game
    for (at, byte) in [(0usize, 2u8), (49, b'b'), (62, 2)] {
        let mut bad = bytes.clone();
        bad[at] = byte;
        assert_eq!(character_error(&bad), ProgramError::BorshIoError, "byte {}", at);
    }
    // a name longer than what follows
    let mut bad = bytes.clone();
    bad[45] = 1;
    assert_eq!(character_error(&bad), ProgramError::BorshIoError);
    // what follows a character is handed back
    let (x, rest) = CharacterAccount::read(&longer).unwrap();
    assert_eq!(x.level, 5);
    assert_eq!(rest, &[0]);
}

#[test]
fn borsh_writes_the_same() {
    // a tuple of the fields has the layout of the structure
    let u = user();
    let head = borsh::to_vec(&(u.is_initialized, u.version, u.bump, u.owner, u.game, u.username)).unwrap();
    let tail = borsh::to_vec(&(
        u.current_ranked_game,
        u.total_ranked_games_played,
        u.total_wins,
        u.total_usd_spent_micro,
        u.total_usd_rewards_micro,
    ))
    .unwrap();
    assert_eq!(u.serialize(), [head, tail].concat());
    let c = character();
    let theirs = borsh::to_vec(&(
        c.is_initialized,
        c.version,
        c.owner_wallet,
        c.creation_date,
        c.character_name.clone(),
        c.level,
        c.ranked_games_played,
        c.ranked_games_won,
        c.current_ranked_game,
    ))
    .unwrap();
    assert_eq!(c.serialize().unwrap(), theirs);
}

#[test]
fn status_tags() {
    for (status, tag) in [
        (RankedGameStatus::Open, 0u8),
        (RankedGameStatus::InProgress, 1),
        (RankedGameStatus::Finished, 2),
    ] {
        assert_eq!(status.to_tag(), tag);
        assert_eq!(RankedGameStatus::from_tag(tag), Some(status));
    }
    assert_eq!(RankedGameStatus::from_tag(3), None);
}

#[test]
fn instructions_read_back() {
    let all = [
        IndieGamesInstruction::InitOracle {
            sol_price_usd_micro_per_lamport: 1,
            skr_price_usd_micro_per_atom: 2,
            slice_price_usd_micro_per_atom: 3,
        },
        IndieGamesInstruction::UpdateOraclePrices {
            sol_price_usd_micro_per_lamport: 4,
            skr_price_usd_micro_per_atom: 5,
            slice_price_usd_micro_per_atom: 6,
        },
        IndieGamesInstruction::CreateGame {
            title: [7; 32],
            dev_fee_bps: 8,
            game_to_protocol_share_bps: 9,
            game_cost: 10,
            game_url: [11; 64],
        },
        IndieGamesInstruction::UpdateFeeShare { new_dev_fees_bps: 12, new_game_to_protocol_share_bps: 13 },
        IndieGamesInstruction::UpdateGameCost { new_game_cost: 14 },
        IndieGamesInstruction::TransferGameOwnership { new_owner: [15; 32] },
        IndieGamesInstruction::UpgradeGameStateVersion,
        IndieGamesInstruction::CreateUserAccount { username: [16; 32], timestamp: 17, payment_token: [18; 32] },
        IndieGamesInstruction::CreateRankedGame { ranked_game_id: 19, entry_fee_usd_micro: 20 },
        IndieGamesInstruction::JoinRankedGame { ranked_game_id: 21, payment_token: [22; 32] },
        IndieGamesInstruction::DeveloperWithdraw,
        IndieGamesInstruction::RewardUserAccount { percentage_of_the_pool: 23 },
        IndieGamesInstruction::WithdrawRewards { timestamp: 24 },
        IndieGamesInstruction::UpdateRankedGameStatus { ranked_game_id: 25, new_status: 26 },
        IndieGamesInstruction::RewardWinner { ranked_game_id: 27, amount_usd_micro: 28 },
        IndieGamesInstruction::CloseRankedGame { ranked_game_id: 29 },
    ];
    for (n, instruction) in all.iter().enumerate() {
        let bytes = instruction.serialize();
        assert_eq!(bytes[0] as usize, n);
        assert_eq!(IndieGamesInstruction::try_from_slice(&bytes), Ok(*instruction));
        let mut longer = bytes.clone();
        longer.push(0);
        assert_eq!(IndieGamesInstruction::try_from_slice(&longer), Err(ProgramError::BorshIoError));
        assert!(IndieGamesInstruction::try_from_slice(&bytes[..bytes.len() - 1]).is_err());
    }
    assert_eq!(
        IndieGamesInstruction::UpdateFeeShare { new_dev_fees_bps: 0x0102, new_game_to_protocol_share_bps: 3 }.serialize(),
        vec![3, 2, 1, 3, 0]
    );
    assert!(IndieGamesInstruction::try_from_slice(&[16]).is_err());
    assert!(IndieGamesInstruction::try_from_slice(&[]).is_err());
}
