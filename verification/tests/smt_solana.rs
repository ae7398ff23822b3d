use rand::Rng;
use sparse_merkle::record::Pubkey;
use sparse_merkle::smt_solana::{SparseMerkleTree, TransactionData};

fn generate_random_pubkey() -> Pubkey {
    let mut rng = rand::thread_rng();
    let mut random_bytes = [0u8; 32];
    rng.fill(&mut random_bytes);
    Pubkey::new_from_array(random_bytes)
}

fn generate_random_amount() -> u64 {
    rand::thread_rng().gen_range(1..10000)
}

#[test]
fn test_transaction_insertion() {
    let mut smt = SparseMerkleTree::new();

    let transaction_data = TransactionData {
        sender: generate_random_pubkey(),
        receiver: generate_random_pubkey(),
        amount: generate_random_amount(),
    };

    smt.insert(&transaction_data).unwrap();

    let root = smt.get_root();
    println!("Root after first insertion: {:?}", root);
    assert!(smt.verify_root(&root), "The Merkle tree root is incorrect after insertion.");
}

#[test]
fn test_multiple_transactions() {
    let mut smt = SparseMerkleTree::new();

    let transaction_data1 = TransactionData {
        sender: generate_random_pubkey(),
        receiver: generate_random_pubkey(),
        amount: generate_random_amount(),
    };

    let transaction_data2 = TransactionData {
        sender: generate_random_pubkey(),
        receiver: generate_random_pubkey(),
        amount: generate_random_amount(),
    };

    smt.insert(&transaction_data1).unwrap();
    let root1 = smt.get_root();

    smt.insert(&transaction_data2).unwrap();
    let root2 = smt.get_root();

    println!("Root after first insertion: {:?}", root1);
    println!("Root after second insertion: {:?}", root2);

    assert_ne!(root1, root2, "Roots should not be identical after multiple insertions.");
    assert!(smt.verify_root(&root2), "The root after multiple insertions is incorrect.");
}
