use solana_sdk::signature::{keypair_from_seed, Keypair as SolanaKeypair};
use solana_sdk::signer::Signer;
use solana_sdk::system_instruction;
use solana_sdk::transaction::Transaction as SolanaTransaction;
use solana_tx_retry::keys::{Blockhash, Pubkey, Signature};
use solana_tx_retry::preflight_cache::make_cache_key;
use solana_tx_retry::transaction::{CompiledInstruction, Keypair, Message, Transaction};

fn solana_keypair(n: u8) -> SolanaKeypair {
    keypair_from_seed(&[n; 32]).unwrap()
}

fn keypair(n: u8) -> Keypair {
    Keypair { bytes: solana_keypair(n).to_bytes() }
}

fn blockhash(n: u8) -> Blockhash {
    Blockhash { bytes: [n; 32] }
}

fn transfer(payer: u8, hash: u8, lamports: u64) -> SolanaTransaction {
    let payer = solana_keypair(payer);
    let call = system_instruction::transfer(&payer.pubkey(), &solana_keypair(9).pubkey(), lamports);
    SolanaTransaction::new_signed_with_payer(
        &[call],
        Some(&payer.pubkey()),
        &[&payer],
        solana_sdk::hash::Hash::from([hash; 32]),
    )
}

fn plain(tx: &SolanaTransaction) -> Transaction {
    Transaction {
        signatures: tx.signatures.iter().map(|s| Signature { bytes: (*s).into() }).collect(),
        message: Message {
            num_required_signatures: tx.message.header.num_required_signatures,
            num_readonly_signed_accounts: tx.message.header.num_readonly_signed_accounts,
            num_readonly_unsigned_accounts: tx.message.header.num_readonly_unsigned_accounts,
            account_keys: tx.message.account_keys.iter().map(|k| Pubkey { bytes: k.to_bytes() }).collect(),
            recent_blockhash: Blockhash { bytes: tx.message.recent_blockhash.to_bytes() },
            instructions: tx
                .message
                .instructions
                .iter()
                .map(|call| CompiledInstruction {
                    program_id_index: call.program_id_index,
                    accounts: call.accounts.clone(),
                    data: call.data.clone(),
                })
                .collect(),
        },
    }
}

#[test]
fn the_key_is_that_of_the_message_without_its_block_hash() {
    let tx = transfer(1, 5, 100);
    let mut timeless = tx.message.clone();
    timeless.recent_blockhash = solana_sdk::hash::Hash::default();
    assert_eq!(plain(&tx).message_key(), make_cache_key(&timeless.serialize()));
    assert_eq!(plain(&tx).message_key(), plain(&transfer(1, 6, 100)).message_key());
    assert_ne!(plain(&tx).message_key(), plain(&transfer(1, 5, 101)).message_key());
    assert_ne!(plain(&tx).message_key(), plain(&transfer(2, 5, 100)).message_key());
}

#[test]
fn a_transaction_is_signed_anew() {
    let mut tx = plain(&transfer(1, 5, 100));
    let key = tx.message_key();
    assert!(tx.refresh_blockhash(&keypair(1), blockhash(6)));
    let expected = plain(&transfer(1, 6, 100));
    assert_eq!(tx.message.recent_blockhash, blockhash(6));
    assert_eq!(tx.signatures, expected.signatures);
    assert_eq!(tx.message.account_keys, expected.message.account_keys);
    assert_eq!(tx.message.instructions.len(), 1);
    assert_eq!(tx.message.instructions[0].data, expected.message.instructions[0].data);
    assert_eq!(tx.message_key(), key);
    assert_eq!(tx.first_signature(), transfer(1, 6, 100).signatures[0].to_string());
    assert!(tx.refresh_blockhash(&keypair(1), blockhash(5)));
    assert_eq!(tx.signatures, plain(&transfer(1, 5, 100)).signatures);
}

#[test]
fn only_the_one_signer_that_is_needed_can_sign_anew() {
    let mut other = plain(&transfer(1, 5, 100));
    assert!(!other.refresh_blockhash(&keypair(2), blockhash(6)));
    assert_eq!(other.message.recent_blockhash, blockhash(5));
    assert_eq!(other.signatures, plain(&transfer(1, 5, 100)).signatures);
    let mut two = plain(&transfer(1, 5, 100));
    two.message.num_required_signatures = 2;
    assert!(!two.refresh_blockhash(&keypair(1), blockhash(6)));
    let mut none = plain(&transfer(1, 5, 100));
    none.message.num_required_signatures = 0;
    assert!(!none.refresh_blockhash(&keypair(1), blockhash(6)));
    let broken = Keypair { bytes: [3; 64] };
    assert!(keypair(1).is_valid());
    assert!(!broken.is_valid());
    assert!(!plain(&transfer(1, 5, 100)).refresh_blockhash(&broken, blockhash(6)));
}

#[test]
fn lists_of_a_message_have_lengths_of_sixteen_bits() {
    let mut tx = plain(&transfer(1, 5, 100));
    assert!(tx.message.has_short_lists());
    tx.message.instructions[0].data = vec![0; 65535];
    assert!(tx.message.has_short_lists());
    tx.message.instructions[0].data = vec![0; 65536];
    assert!(!tx.message.has_short_lists());
    tx.message.instructions[0].data = vec![];
    tx.message.instructions[0].accounts = vec![0; 65536];
    assert!(!tx.message.has_short_lists());
    tx.message.instructions.clear();
    assert!(tx.message.has_short_lists());
    tx.message.account_keys = vec![Pubkey { bytes: [0; 32] }; 65536];
    assert!(!tx.message.has_short_lists());
}

#[test]
fn a_transaction_without_signatures_has_no_first_one() {
    let tx = Transaction { signatures: vec![], ..plain(&transfer(1, 5, 100)) };
    assert_eq!(tx.first_signature(), "");
}
