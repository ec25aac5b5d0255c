use crate::key::Key;
use mpl_token_metadata::instruction::create_metadata_accounts_v3;
use mpl_token_metadata::solana_program::pubkey::Pubkey;
use mpl_token_metadata::state::Creator;
use vstd::prelude::*;
use vstd::utf8::encode_utf8;

verus! {

/// The royalty written into the metadata of every asset: five percent, in
/// hundredths of a percent.
pub const SELLER_FEE_BASIS_POINTS: u16 = 500;

/// The identifier of the metadata program.
pub const METADATA_PROGRAM: [u8; 32] = [
    11, 112, 101, 177, 227, 209, 124, 69, 56, 157, 82, 127, 107, 4, 195, 205, 88, 184, 108, 115,
    26, 160, 253, 181, 73, 182, 209, 188, 3, 248, 41, 70,
];

/// An account as an instruction names it.
#[derive(Clone, Copy, Debug)]
pub struct AccountRef {
    pub key: Key,
    pub is_signer: bool,
    pub is_writable: bool,
}

/// An instruction for another program: the program, the accounts it is given
/// and the bytes it is to read.
#[derive(Debug)]
pub struct Invocation {
    pub program: Key,
    pub accounts: Vec<AccountRef>,
    pub data: Vec<u8>,
}

/// The bytes by which the metadata program is told to create the metadata of
/// an asset with one creator, outside any collection and without use limits.
pub uninterp spec fn metadata_args_encoding(
    name: Seq<char>,
    symbol: Seq<char>,
    uri: Seq<char>,
    creator: Seq<u8>,
    creator_verified: bool,
    creator_share: u8,
    seller_fee_basis_points: u16,
    is_mutable: bool,
) -> Seq<u8>;

/// Whether `accounts` are those that the creation of a metadata account
/// names, in their order: the metadata account, written to; the mint; the
/// mint authority, which signs; the payer, which signs and is written to; the
/// update authority, which signs where `update_authority_is_signer`; and the
/// system program, whose identifier is all zero.
pub open spec fn metadata_accounts(
    accounts: Seq<AccountRef>,
    metadata: Key,
    mint: Key,
    mint_authority: Key,
    payer: Key,
    update_authority: Key,
    update_authority_is_signer: bool,
) -> bool {
    &&& accounts.len() == 6
    &&& accounts[0] == AccountRef { key: metadata, is_signer: false, is_writable: true }
    &&& accounts[1] == AccountRef { key: mint, is_signer: false, is_writable: false }
    &&& accounts[2] == AccountRef { key: mint_authority, is_signer: true, is_writable: false }
    &&& accounts[3] == AccountRef { key: payer, is_signer: true, is_writable: true }
    &&& accounts[4] == AccountRef {
        key: update_authority,
        is_signer: update_authority_is_signer,
        is_writable: false,
    }
    &&& accounts[5].key.bytes() == Seq::new(32, |i: int| 0u8)
    &&& !accounts[5].is_signer
    &&& !accounts[5].is_writable
}

/// `mpl_token_metadata::instruction::create_metadata_accounts_v3`, with one
/// creator and with no collection, no use limits and no collection details.
/// It only builds the instruction: nothing is sent. The program is claimed
/// to be the one given and the accounts to be those that the function
/// lists; the data is claimed to depend on nothing but the name, the symbol,
/// the address, the creator, the fee and `is_mutable`. The function fails on
/// a string of more than `u32::MAX` bytes, which the `requires` leaves out.
#[verifier::external_body]
fn metadata_invocation(
    program: Key,
    metadata: Key,
    mint: Key,
    mint_authority: Key,
    payer: Key,
    update_authority: Key,
    name: String,
    symbol: String,
    uri: String,
    creator: Key,
    creator_verified: bool,
    creator_share: u8,
    seller_fee_basis_points: u16,
    update_authority_is_signer: bool,
    is_mutable: bool,
) -> (r: Invocation)
    requires
        encode_utf8(name@).len() <= u32::MAX,
        encode_utf8(symbol@).len() <= u32::MAX,
        encode_utf8(uri@).len() <= u32::MAX,
    ensures
        r.program == program,
        metadata_accounts(
            r.accounts@,
            metadata,
            mint,
            mint_authority,
            payer,
            update_authority,
            update_authority_is_signer,
        ),
        r.data@ == metadata_args_encoding(
            name@,
            symbol@,
            uri@,
            creator.bytes(),
            creator_verified,
            creator_share,
            seller_fee_basis_points,
            is_mutable,
        ),
{
    let address = Pubkey::new_from_array(creator.0);
    let creators = vec![Creator { address, verified: creator_verified, share: creator_share }];
    let ix = create_metadata_accounts_v3(
        Pubkey::new_from_array(program.0),
        Pubkey::new_from_array(metadata.0),
        Pubkey::new_from_array(mint.0),
        Pubkey::new_from_array(mint_authority.0),
        Pubkey::new_from_array(payer.0),
        Pubkey::new_from_array(update_authority.0),
        name, symbol, uri, Some(creators),
        seller_fee_basis_points, update_authority_is_signer, is_mutable, None, None, None,
    );
    let accounts = ix.accounts.iter().map(|a| AccountRef { key: Key(a.pubkey.to_bytes()), is_signer: a.is_signer, is_writable: a.is_writable }).collect();
    Invocation { program: Key(ix.program_id.to_bytes()), accounts, data: ix.data }
}

/// A collection of assets and the number of assets issued in it.
#[derive(Debug)]
pub struct Collection {
    pub authority: Key,
    pub name: String,
    pub symbol: String,
    pub uri: String,
    pub total_supply: u64,
}

/// A collection as a value of specifications.
pub struct CollectionView {
    pub authority: Key,
    pub name: Seq<char>,
    pub symbol: Seq<char>,
    pub uri: Seq<char>,
    pub total_supply: u64,
}

impl View for Collection {
    type V = CollectionView;

    open spec fn view(&self) -> CollectionView {
        CollectionView {
            authority: self.authority,
            name: self.name@,
            symbol: self.symbol@,
            uri: self.uri@,
            total_supply: self.total_supply,
        }
    }
}

/// A request to found a collection: the principal that makes it.
#[derive(Clone, Copy, Debug)]
pub struct Initialize {
    pub authority: Key,
}

/// A request to issue an asset in a collection.
#[derive(Debug)]
pub struct MintNFT {
    pub collection: Collection,
    /// The identifier of the new asset.
    pub mint: Key,
    /// The account that is to hold the metadata of the asset.
    pub metadata: Key,
    /// The account that receives the one unit of the asset.
    pub token_account: Key,
    /// The principal that makes the request, pays for it and is written down
    /// as the creator.
    pub authority: Key,
}

/// A request to hand one unit from one account to another.
#[derive(Clone, Copy, Debug)]
pub struct TransferNFT {
    pub from: Key,
    pub to: Key,
    pub authority: Key,
}

/// An order to the token program to issue `amount` units of `mint` to `to`.
#[derive(Clone, Copy, Debug)]
pub struct MintTo {
    pub mint: Key,
    pub to: Key,
    pub authority: Key,
    pub amount: u64,
}

/// An order to the token program to move `amount` units from `from` to `to`.
#[derive(Clone, Copy, Debug)]
pub struct TokenTransfer {
    pub from: Key,
    pub to: Key,
    pub authority: Key,
    pub amount: u64,
}

/// What the issue of an asset asks for, in the order in which it is to be
/// done, and the collection as it is to be stored once all of it is done.
#[derive(Debug)]
pub struct MintPlan {
    pub metadata: Invocation,
    pub mint_to: MintTo,
    pub collection: Collection,
}

/// Founds a collection under the authority of the caller, with no asset
/// issued yet.
pub fn initialize(
    ctx: &Initialize,
    collection_name: String,
    collection_symbol: String,
    collection_uri: String,
) -> (c: Collection)
    ensures
        c@ == (CollectionView {
            authority: ctx.authority,
            name: collection_name@,
            symbol: collection_symbol@,
            uri: collection_uri@,
            total_supply: 0,
        }),
{
    Collection {
        authority: ctx.authority,
        name: collection_name,
        symbol: collection_symbol,
        uri: collection_uri,
        total_supply: 0,
    }
}

/// What `plan` must be for a request `ctx` whose metadata instruction is
/// `metadata`: one unit of the new asset goes to the token account on the
/// authority of the caller, and the collection counts one asset more.
pub open spec fn is_mint_plan(plan: MintPlan, ctx: MintNFT, metadata: Invocation) -> bool {
    &&& plan.metadata == metadata
    &&& plan.mint_to == MintTo {
        mint: ctx.mint,
        to: ctx.token_account,
        authority: ctx.authority,
        amount: 1,
    }
    &&& plan.collection@ == CollectionView {
        total_supply: (ctx.collection.total_supply + 1) as u64,
        ..ctx.collection@
    }
}

/// Puts the plan of an issue together from the request and the metadata
/// instruction that was built for it.
pub fn mint_plan(ctx: MintNFT, metadata: Invocation) -> (plan: MintPlan)
    requires
        ctx.collection.total_supply < u64::MAX,
    ensures
        is_mint_plan(plan, ctx, metadata),
{
    let MintNFT { collection, mint, metadata: _, token_account, authority } = ctx;
    let Collection { authority: founder, name, symbol, uri, total_supply } = collection;
    MintPlan {
        metadata,
        mint_to: MintTo { mint, to: token_account, authority, amount: 1 },
        collection: Collection {
            authority: founder,
            name,
            symbol,
            uri,
            total_supply: total_supply + 1,
        },
    }
}

/// Issues an asset in a collection: the metadata program is to create the
/// metadata of the asset with the caller as its one creator, verified, with the share given, with
/// the royalty of `SELLER_FEE_BASIS_POINTS`, and closed to later change; one
/// unit of the asset goes to the token account; the collection counts one
/// asset more.
pub fn mint_nft(ctx: MintNFT, name: String, symbol: String, uri: String, creator_share: u8) -> (plan:
    MintPlan)
    requires
        ctx.collection.total_supply < u64::MAX,
        encode_utf8(name@).len() <= u32::MAX,
        encode_utf8(symbol@).len() <= u32::MAX,
        encode_utf8(uri@).len() <= u32::MAX,
    ensures
        is_mint_plan(plan, ctx, plan.metadata),
        plan.metadata.program == Key(METADATA_PROGRAM),
        metadata_accounts(
            plan.metadata.accounts@,
            ctx.metadata,
            ctx.mint,
            ctx.authority,
            ctx.authority,
            ctx.authority,
            true,
        ),
        plan.metadata.data@ == metadata_args_encoding(
            name@,
            symbol@,
            uri@,
            ctx.authority.bytes(),
            true,
            creator_share,
            SELLER_FEE_BASIS_POINTS,
            false,
        ),
{
    let metadata = metadata_invocation(
        Key(METADATA_PROGRAM),
        ctx.metadata,
        ctx.mint,
        ctx.authority,
        ctx.authority,
        ctx.authority,
        name,
        symbol,
        uri,
        ctx.authority,
        true,
        creator_share,
        SELLER_FEE_BASIS_POINTS,
        true,
        false,
    );
    mint_plan(ctx, metadata)
}

/// Hands one unit from one account to another on the authority of the
/// caller.
pub fn transfer_nft(ctx: &TransferNFT) -> (t: TokenTransfer)
    ensures
        t == (TokenTransfer { from: ctx.from, to: ctx.to, authority: ctx.authority, amount: 1 }),
{
    TokenTransfer { from: ctx.from, to: ctx.to, authority: ctx.authority, amount: 1 }
}

} // verus!
