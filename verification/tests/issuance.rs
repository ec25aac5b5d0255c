use art_ai_marketplace::{
    initialize, mint_nft, mint_plan, transfer_nft, AccountRef, Collection, Initialize, Invocation,
    Key, Marketplace, MintNFT, TransferNFT,
};
use mpl_token_metadata::instruction::create_metadata_accounts_v3;
use mpl_token_metadata::solana_program::pubkey::Pubkey;
use mpl_token_metadata::state::Creator;

fn at(n: u8) -> Key {
    Key([n; 32])
}

fn founded() -> Collection {
    initialize(
        &Initialize { authority: at(1) },
        "Gallery".to_string(),
        "GAL".to_string(),
        "https://example.org/gallery.json".to_string(),
    )
}

fn request(collection: Collection) -> MintNFT {
    MintNFT { collection, mint: at(9), metadata: at(8), token_account: at(7), authority: at(1) }
}

#[test]
fn initialize_founds_an_empty_collection() {
    let c = founded();
    assert_eq!(c.authority, at(1));
    assert_eq!(c.name, "Gallery");
    assert_eq!(c.symbol, "GAL");
    assert_eq!(c.uri, "https://example.org/gallery.json");
    assert_eq!(c.total_supply, 0);
}

#[test]
fn mint_counts_one_more_and_orders_one_unit() {
    let plan = mint_nft(request(founded()), "One".to_string(), "ONE".to_string(), "u".to_string(), 100);
    assert_eq!(plan.collection.total_supply, 1);
    assert_eq!(plan.collection.authority, at(1));
    assert_eq!(plan.collection.name, "Gallery");
    assert_eq!(plan.collection.symbol, "GAL");
    assert_eq!(plan.collection.uri, "https://example.org/gallery.json");
    assert_eq!(plan.mint_to.mint, at(9));
    assert_eq!(plan.mint_to.to, at(7));
    assert_eq!(plan.mint_to.authority, at(1));
    assert_eq!(plan.mint_to.amount, 1);

    let again = mint_nft(request(plan.collection), "Two".to_string(), "TWO".to_string(), "v".to_string(), 100);
    assert_eq!(again.collection.total_supply, 2);
}

#[test]
fn mint_counts_up_to_the_largest_supply() {
    let mut c = founded();
    c.total_supply = u64::MAX - 1;
    let plan = mint_nft(request(c), "Last".to_string(), "L".to_string(), "w".to_string(), 0);
    assert_eq!(plan.collection.total_supply, u64::MAX);
}

#[test]
fn mint_names_the_accounts_of_the_metadata_instruction() {
    let plan = mint_nft(request(founded()), "One".to_string(), "ONE".to_string(), "u".to_string(), 100);
    let seen: Vec<([u8; 32], bool, bool)> =
        plan.metadata.accounts.iter().map(|a| (a.key.0, a.is_signer, a.is_writable)).collect();
    assert_eq!(
        seen,
        vec![
            ([8u8; 32], false, true),
            ([9u8; 32], false, false),
            ([1u8; 32], true, false),
            ([1u8; 32], true, true),
            ([1u8; 32], true, false),
            ([0u8; 32], false, false),
        ]
    );
    assert_eq!(plan.metadata.program.0, mpl_token_metadata::ID.to_bytes());
}

#[test]
fn mint_builds_the_data_of_the_metadata_instruction() {
    let plan = mint_nft(request(founded()), "One".to_string(), "ONE".to_string(), "u".to_string(), 40);
    let authority = Pubkey::new_from_array([1u8; 32]);
    let expected = create_metadata_accounts_v3(
        mpl_token_metadata::ID,
        Pubkey::new_from_array([8u8; 32]),
        Pubkey::new_from_array([9u8; 32]),
        authority,
        authority,
        authority,
        "One".to_string(),
        "ONE".to_string(),
        "u".to_string(),
        Some(vec![Creator { address: authority, verified: true, share: 40 }]),
        500,
        true,
        false,
        None,
        None,
        None,
    );
    assert_eq!(plan.metadata.data, expected.data);
    assert!(!plan.metadata.data.is_empty());

    let other = mint_nft(request(founded()), "One".to_string(), "ONE".to_string(), "u".to_string(), 41);
    assert_ne!(other.metadata.data, plan.metadata.data);
}

#[test]
fn mint_plan_keeps_the_instruction_it_is_given() {
    let given = Invocation {
        program: at(5),
        accounts: vec![AccountRef { key: at(6), is_signer: true, is_writable: false }],
        data: vec![1, 2, 3],
    };
    let plan = mint_plan(request(founded()), given);
    assert_eq!(plan.metadata.program, at(5));
    assert_eq!(plan.metadata.accounts.len(), 1);
    assert_eq!(plan.metadata.accounts[0].key, at(6));
    assert!(plan.metadata.accounts[0].is_signer);
    assert!(!plan.metadata.accounts[0].is_writable);
    assert_eq!(plan.metadata.data, vec![1, 2, 3]);
    assert_eq!(plan.collection.total_supply, 1);
    assert_eq!(plan.mint_to.amount, 1);
}

#[test]
fn transfer_orders_one_unit() {
    let t = transfer_nft(&TransferNFT { from: at(2), to: at(3), authority: at(4) });
    assert_eq!(t.from, at(2));
    assert_eq!(t.to, at(3));
    assert_eq!(t.authority, at(4));
    assert_eq!(t.amount, 1);
}

#[test]
fn an_issued_asset_can_be_listed() {
    let plan = mint_nft(request(founded()), "One".to_string(), "ONE".to_string(), "u".to_string(), 100);
    let mut m = Marketplace::new();
    assert_eq!(m.register_asset(plan.mint_to.mint, plan.mint_to.to), Ok(()));
    assert_eq!(m.create_listing(at(7), at(9), 10, 60, 0), Ok(0));
}
