//! Addresses, discriminators, seeds and the payment tokens of the protocol.

use vstd::prelude::*;

verus! {

/// An address on the chain.
pub type Pubkey = [u8; 32];

/// This program: `iGPa16mPdKghdCffhHyXs5HBUAZP7EvJohpGbQgnBiv`.
pub const PROGRAM_ID: [u8; 32] = [
    10, 146, 54, 181, 115, 97, 175, 168, 225, 252, 30, 97, 38, 32, 135, 218,
    35, 194, 231, 245, 224, 171, 35, 116, 149, 107, 19, 199, 40, 111, 117, 191,
];

/// The protocol authority: `iGPbBHvkpLmVUWVExoGspENmjVr5As2zSRavnmR811h`.
pub const AUTHORITY: [u8; 32] = [
    10, 146, 54, 207, 89, 126, 143, 197, 146, 163, 237, 251, 64, 218, 232, 99,
    163, 167, 110, 19, 210, 133, 110, 67, 78, 95, 240, 199, 211, 10, 251, 0,
];

/// The least share of its fees that a game may pay to the protocol, in basis
/// points: 10 %. Games can pay more, but not less.
pub const MIN_GAME_TO_PROTOCOL_SHARE_BPS: u16 = 1_000;

/// The mint of the Solana Mobile Seeker token: `SKRbvo6Gf7GondiT3BbTfuRDPqLWei4j2Qy2NPGZhW3`.
pub const SKR_MINT: [u8; 32] = [
    6, 124, 90, 62, 5, 254, 65, 71, 18, 167, 162, 234, 254, 66, 190, 118,
    16, 188, 217, 12, 191, 87, 22, 39, 117, 131, 115, 203, 138, 208, 216, 164,
];

/// The mint of the protocol's own token: `SLiCEp8HFG2E3Hai7XB7UKtgbd7heUgqn5tV7zfBJNX`.
pub const SLICE_MINT: [u8; 32] = [
    6, 125, 206, 129, 122, 180, 142, 41, 161, 115, 88, 211, 17, 184, 62, 152,
    57, 189, 33, 158, 43, 224, 102, 112, 117, 152, 87, 11, 121, 58, 181, 84,
];

/// The mint of the USDC stablecoin: `EPjFWdd5AufqSSqeM2qN1xzybapC8G4wEGGkZwyTDt1v`.
pub const USDC_MINT: [u8; 32] = [
    198, 250, 122, 243, 190, 219, 173, 58, 61, 101, 243, 106, 171, 201, 116, 49,
    177, 187, 228, 194, 210, 246, 224, 228, 124, 166, 2, 3, 69, 47, 93, 97,
];

/// The address that stands for native SOL: `So11111111111111111111111111111111111111112`.
pub const SOL_MINT: [u8; 32] = [
    6, 155, 136, 87, 254, 171, 129, 132, 251, 104, 127, 99, 70, 24, 192, 53,
    218, 196, 57, 220, 26, 235, 59, 85, 152, 160, 240, 0, 0, 0, 0, 1,
];

/// The system program: `11111111111111111111111111111111`.
pub const SYSTEM_PROGRAM_ID: [u8; 32] = [
    0, 0, 0, 0, 0, 0, 0, 0, 0, 0, 0, 0, 0, 0, 0, 0,
    0, 0, 0, 0, 0, 0, 0, 0, 0, 0, 0, 0, 0, 0, 0, 0,
];

/// The SPL Token program: `TokenkegQfeZyiNwAJbNbGKPFXCWuBvf9Ss623VQ5DA`.
pub const TOKEN_PROGRAM_ID: [u8; 32] = [
    6, 221, 246, 225, 215, 101, 161, 147, 217, 203, 225, 70, 206, 235, 121, 172,
    28, 180, 133, 237, 95, 91, 55, 145, 58, 140, 245, 133, 126, 255, 0, 169,
];

/// The SPL Associated Token Account program: `ATokenGPvbdGVxr1b2hvZbsiqW5xWH25efTNsLJA8knL`.
pub const ASSOCIATED_TOKEN_PROGRAM_ID: [u8; 32] = [
    140, 151, 37, 143, 78, 36, 137, 241, 187, 61, 16, 41, 20, 142, 13, 131,
    11, 90, 19, 153, 218, 255, 16, 132, 4, 142, 123, 216, 219, 233, 248, 89,
];

/// First bytes of a ranked game's data: `RNKDGAME` in ASCII.
pub const RANKED_GAME_DISCRIMINATOR: [u8; 8] = [82, 78, 75, 68, 71, 65, 77, 69];

/// First bytes of the oracle's data: `ORACLE11` in ASCII.
pub const ORACLE_DISCRIMINATOR: [u8; 8] = [79, 82, 65, 67, 76, 69, 49, 49];

/// First seed of the oracle's address: `igp_oracle` in ASCII.
pub const ORACLE_SEED: [u8; 10] = [105, 103, 112, 95, 111, 114, 97, 99, 108, 101];

/// First seed of a game's address: `igp_game` in ASCII.
pub const GAME_SEED: [u8; 8] = [105, 103, 112, 95, 103, 97, 109, 101];

/// First seed of a user account's address: `igp_user` in ASCII.
pub const USER_SEED: [u8; 8] = [105, 103, 112, 95, 117, 115, 101, 114];

/// First seed of a game's protocol treasury: `igp_game_protocol` in ASCII.
pub const GAME_PROTOCOL_SEED: [u8; 17] = [105, 103, 112, 95, 103, 97, 109, 101, 95, 112, 114, 111, 116, 111, 99, 111, 108];

/// First seed of a ranked game's address: `igp_ranked_game` in ASCII.
pub const RANKED_GAME_SEED: [u8; 15] = [105, 103, 112, 95, 114, 97, 110, 107, 101, 100, 95, 103, 97, 109, 101];

/// The version of the game layout that is current.
pub const CURRENT_GAME_STATE_VERSION: u8 = 2;

/// The address of which every byte is zero.
pub const NO_KEY: [u8; 32] = [
    0, 0, 0, 0, 0, 0, 0, 0, 0, 0, 0, 0, 0, 0, 0, 0,
    0, 0, 0, 0, 0, 0, 0, 0, 0, 0, 0, 0, 0, 0, 0, 0,
];

/// What a player can pay with.
#[derive(Clone, Copy, Debug, PartialEq, Eq, Structural)]
pub enum PaymentToken {
    /// Native SOL, counted in lamports.
    SOL,
    /// The Solana Mobile Seeker token.
    SKR,
    /// The protocol's own token.
    SLICE,
    /// The USDC stablecoin.
    USDC,
}

impl PaymentToken {
    /// The mint that stands for the token.
    pub open spec fn spec_mint(self) -> Pubkey {
        match self {
            PaymentToken::SOL => SOL_MINT,
            PaymentToken::SKR => SKR_MINT,
            PaymentToken::SLICE => SLICE_MINT,
            PaymentToken::USDC => USDC_MINT,
        }
    }

    /// The token for which a mint stands.
    pub open spec fn spec_from_mint(mint: Pubkey) -> Option<PaymentToken> {
        if mint@ == SOL_MINT@ {
            Some(PaymentToken::SOL)
        } else if mint@ == SKR_MINT@ {
            Some(PaymentToken::SKR)
        } else if mint@ == SLICE_MINT@ {
            Some(PaymentToken::SLICE)
        } else if mint@ == USDC_MINT@ {
            Some(PaymentToken::USDC)
        } else {
            None
        }
    }

    /// The mint that stands for the token.
    pub fn mint(&self) -> (r: Pubkey)
        ensures
            r == self.spec_mint(),
    {
        match self {
            PaymentToken::SOL => SOL_MINT,
            PaymentToken::SKR => SKR_MINT,
            PaymentToken::SLICE => SLICE_MINT,
            PaymentToken::USDC => USDC_MINT,
        }
    }

    /// The token for which a mint stands, if it is one that the protocol takes.
    pub fn from_mint(mint: &Pubkey) -> (r: Option<PaymentToken>)
        ensures
            r == Self::spec_from_mint(*mint),
    {
        if same_key(mint, &SOL_MINT) {
            Some(PaymentToken::SOL)
        } else if same_key(mint, &SKR_MINT) {
            Some(PaymentToken::SKR)
        } else if same_key(mint, &SLICE_MINT) {
            Some(PaymentToken::SLICE)
        } else if same_key(mint, &USDC_MINT) {
            Some(PaymentToken::USDC)
        } else {
            None
        }
    }
}

/// The mint of a token stands for that token and no other.
pub proof fn law_mint_names_token(token: PaymentToken)
    ensures
        PaymentToken::spec_from_mint(token.spec_mint()) == Some(token),
{
    assert(SOL_MINT@[1] == 155 && SKR_MINT@[1] == 124 && SLICE_MINT@[1] == 125 && USDC_MINT@[1] == 250);
}

/// Whether two byte arrays are equal.
pub fn same_bytes<const N: usize>(a: &[u8; N], b: &[u8; N]) -> (r: bool)
    ensures
        r == (*a == *b),
        r == (a@ == b@),
{
    let mut i: usize = 0;
    while i < N
        invariant
            i <= N,
            forall|j: int| 0 <= j < i ==> a@[j] == b@[j],
        decreases N - i,
    {
        if a[i] != b[i] {
            assert(a@[i as int] != b@[i as int]);
            return false;
        }
        i += 1;
    }
    assert(*a =~= *b);
    true
}

/// Whether two addresses are equal.
pub fn same_key(a: &Pubkey, b: &Pubkey) -> (r: bool)
    ensures
        r == (*a == *b),
        r == (a@ == b@),
{
    same_bytes(a, b)
}

} // verus!
