//! Transactions, held as plain values, and how they are signed anew.

use crate::keys::{signature_to_text, Blockhash, Pubkey, Signature};
use crate::preflight_cache::{cache_key, make_cache_key};
use solana_sdk::instruction::CompiledInstruction as SolanaInstruction;
use solana_sdk::message::Message as SolanaMessage;
use solana_sdk::signature::Keypair as SolanaKeypair;
use solana_sdk::transaction::Transaction as SolanaTransaction;
use vstd::prelude::*;

verus! {

/// One call of a program.
#[derive(Debug)]
pub struct CompiledInstruction {
    /// Which of the keys of the message is the program.
    pub program_id_index: u8,
    /// Which of the keys of the message the program is given.
    pub accounts: Vec<u8>,
    /// What the program is told.
    pub data: Vec<u8>,
}

/// What is signed of a transaction.
#[derive(Debug)]
pub struct Message {
    /// How many signatures the transaction needs; their keys come first.
    pub num_required_signatures: u8,
    /// How many of the keys that sign are only read.
    pub num_readonly_signed_accounts: u8,
    /// How many of the other keys are only read.
    pub num_readonly_unsigned_accounts: u8,
    /// All keys that the transaction speaks of.
    pub account_keys: Vec<Pubkey>,
    /// The block hash that the transaction commits to.
    pub recent_blockhash: Blockhash,
    /// The calls that the transaction makes.
    pub instructions: Vec<CompiledInstruction>,
}

/// A transaction.
#[derive(Debug)]
pub struct Transaction {
    /// The signatures that it bears.
    pub signatures: Vec<Signature>,
    /// What they sign.
    pub message: Message,
}

/// The two halves of a signing key, the secret one first.
pub struct Keypair {
    pub bytes: [u8; 64],
}

/// One call of a program, in bytes.
pub struct InstructionView {
    pub program_id_index: u8,
    pub accounts: Seq<u8>,
    pub data: Seq<u8>,
}

/// What is signed of a transaction, in bytes.
pub struct MessageView {
    pub num_required_signatures: u8,
    pub num_readonly_signed_accounts: u8,
    pub num_readonly_unsigned_accounts: u8,
    pub account_keys: Seq<Seq<u8>>,
    pub recent_blockhash: Seq<u8>,
    pub instructions: Seq<InstructionView>,
}

/// A transaction, in bytes.
pub struct TransactionView {
    pub signatures: Seq<Seq<u8>>,
    pub message: MessageView,
}

impl View for CompiledInstruction {
    type V = InstructionView;

    open spec fn view(&self) -> InstructionView {
        InstructionView {
            program_id_index: self.program_id_index,
            accounts: self.accounts@,
            data: self.data@,
        }
    }
}

impl View for Message {
    type V = MessageView;

    open spec fn view(&self) -> MessageView {
        MessageView {
            num_required_signatures: self.num_required_signatures,
            num_readonly_signed_accounts: self.num_readonly_signed_accounts,
            num_readonly_unsigned_accounts: self.num_readonly_unsigned_accounts,
            account_keys: self.account_keys@.map_values(|key: Pubkey| key@),
            recent_blockhash: self.recent_blockhash@,
            instructions: self.instructions@.map_values(|call: CompiledInstruction| call@),
        }
    }
}

impl View for Transaction {
    type V = TransactionView;

    open spec fn view(&self) -> TransactionView {
        TransactionView {
            signatures: signatures_view(self.signatures@),
            message: self.message@,
        }
    }
}

impl View for Keypair {
    type V = Seq<u8>;

    open spec fn view(&self) -> Seq<u8> {
        self.bytes@
    }
}

/// Signatures, in bytes.
pub open spec fn signatures_view(signatures: Seq<Signature>) -> Seq<Seq<u8>> {
    signatures.map_values(|signature: Signature| signature@)
}

/// The bytes of a signature that nobody has given yet.
pub open spec fn blank() -> Seq<u8> {
    Seq::new(64, |i: int| 0u8)
}

impl InstructionView {
    /// Whether the lists of the call can be written with lengths of 16 bits.
    pub open spec fn fits(self) -> bool {
        self.accounts.len() <= u16::MAX && self.data.len() <= u16::MAX
    }
}

impl MessageView {
    /// Whether the lists of the message can be written with lengths of 16 bits.
    pub open spec fn fits(self) -> bool {
        &&& self.account_keys.len() <= u16::MAX
        &&& self.instructions.len() <= u16::MAX
        &&& forall|i: int|
            0 <= i < self.instructions.len() ==> (#[trigger] self.instructions[i]).fits()
    }

    /// Whether the message needs one signature, and that of the given key pair: its first key is
    /// the public half of the pair.
    pub open spec fn is_signed_by(self, keypair: Seq<u8>) -> bool {
        &&& self.num_required_signatures == 1
        &&& self.account_keys.len() > 0
        &&& self.account_keys[0] == keypair.subrange(32, 64)
    }

    /// The message with another block hash.
    pub open spec fn at(self, blockhash: Seq<u8>) -> MessageView {
        MessageView { recent_blockhash: blockhash, ..self }
    }

    /// The message with a block hash of zeros.
    pub open spec fn timeless(self) -> MessageView {
        self.at(Seq::new(32, |i: int| 0u8))
    }
}

/// The bytes of a message as they are signed and sent, which is what `Message::serialize` of
/// `solana_sdk` returns of it.
pub uninterp spec fn message_bytes(message: MessageView) -> Seq<u8>;

/// Whether bytes are those of a key pair, which is whether `Keypair::from_bytes` of `solana_sdk`
/// reads them.
pub uninterp spec fn is_keypair(bytes: Seq<u8>) -> bool;

/// The signature of some bytes by a key pair, which is what `Keypair::sign_message` of `solana_sdk`
/// returns.
pub uninterp spec fn signature_of(keypair: Seq<u8>, bytes: Seq<u8>) -> Seq<u8>;

/// The signatures of a message that is signed with one key, given whether that is a key pair and
/// the signature that it makes: this one alone, where the message needs it and no other and it is
/// not one that stands for none.
pub open spec fn signatures_with(
    message: MessageView,
    keypair: Seq<u8>,
    valid: bool,
    signature: Seq<u8>,
) -> Option<Seq<Seq<u8>>> {
    if valid && message.is_signed_by(keypair) && signature != blank() {
        Some(seq![signature])
    } else {
        None
    }
}

/// The signatures of a message that is signed with one key; nothing where it cannot be.
pub open spec fn signed_by(message: MessageView, keypair: Seq<u8>) -> Option<Seq<Seq<u8>>> {
    signatures_with(
        message,
        keypair,
        is_keypair(keypair),
        signature_of(keypair, message_bytes(message)),
    )
}

/// Calls `Keypair::from_bytes` of `solana_sdk`. Whether it reads a pair depends on the bytes
/// alone.
#[verifier::external_body]
fn reads_as_keypair(bytes: &[u8; 64]) -> (valid: bool)
    ensures
        valid == is_keypair(bytes@),
{
    SolanaKeypair::from_bytes(bytes).is_ok()
}

/// Calls `Message::serialize` of `solana_sdk` on the message with the given block hash in place
/// of its own. The bytes depend on these two alone. It panics where a list of the message has a
/// length of more than 16 bits.
#[verifier::external_body]
fn serialize_message(message: &Message, blockhash: &Blockhash) -> (bytes: Vec<u8>)
    requires
        message@.fits(),
    ensures
        bytes@ == message_bytes(message@.at(blockhash@)),
{
    SolanaMessage::new_with_compiled_instructions(
        message.num_required_signatures,
        message.num_readonly_signed_accounts,
        message.num_readonly_unsigned_accounts,
        message.account_keys.iter().map(|key| key.bytes.into()).collect(),
        blockhash.bytes.into(),
        message.instructions.iter().map(|call| SolanaInstruction::new_from_raw_parts(
            call.program_id_index, call.data.clone(), call.accounts.clone())).collect(),
    ).serialize()
}

/// Calls `Transaction::try_sign` of `solana_sdk` on a transaction that bears no signature yet,
/// with one key pair and the given block hash in place of that of the message. It succeeds exactly
/// where the bytes are a key pair, the message needs one signature, its first key is the public
/// half of the pair, and the signature of its bytes is not all zeros, which `try_sign` takes for a
/// missing one; that signature is then the only one. It panics where a list of the message has a
/// length of more than 16 bits.
#[verifier::external_body]
fn sign_message(message: &Message, blockhash: &Blockhash, signer: &Keypair) -> (signatures: Option<
    Vec<Signature>,
>)
    requires
        message@.fits(),
    ensures
        (match signatures {
            Some(list) => Some(signatures_view(list@)),
            None => None,
        }) == signatures_with(
            message@.at(blockhash@),
            signer@,
            is_keypair(signer@),
            signature_of(signer@, message_bytes(message@.at(blockhash@))),
        ),
{
    let keypair = SolanaKeypair::from_bytes(&signer.bytes).ok()?;
    let mut tx = SolanaTransaction::new_unsigned(SolanaMessage::new_with_compiled_instructions(
        message.num_required_signatures,
        message.num_readonly_signed_accounts,
        message.num_readonly_unsigned_accounts,
        message.account_keys.iter().map(|key| key.bytes.into()).collect(),
        blockhash.bytes.into(),
        message.instructions.iter().map(|call| SolanaInstruction::new_from_raw_parts(
            call.program_id_index, call.data.clone(), call.accounts.clone())).collect(),
    ));
    tx.try_sign(&[&keypair], blockhash.bytes.into()).ok()?;
    Some(tx.signatures.into_iter().map(|s| Signature { bytes: s.into() }).collect())
}

impl MessageView {
    /// The key under which simulations of the message are cached: that of its bytes with the
    /// block hash left out.
    pub open spec fn key(self) -> Seq<char> {
        cache_key(message_bytes(self.timeless()))
    }
}

impl TransactionView {
    /// The text of the first signature; empty where there is none.
    pub open spec fn first_signature(self) -> Seq<char> {
        if self.signatures.len() > 0 {
            signature_to_text(self.signatures[0])
        } else {
            Seq::empty()
        }
    }

    /// The transaction with another block hash and the signatures that were given for it.
    pub open spec fn renewed(
        self,
        blockhash: Seq<u8>,
        signatures: Seq<Seq<u8>>,
    ) -> TransactionView {
        TransactionView { signatures, message: self.message.at(blockhash) }
    }

    /// The transaction signed anew for another block hash; nothing where the key pair cannot
    /// sign it.
    pub open spec fn refreshed(self, keypair: Seq<u8>, blockhash: Seq<u8>) -> Option<
        TransactionView,
    > {
        match signed_by(self.message.at(blockhash), keypair) {
            Some(signatures) => Some(self.renewed(blockhash, signatures)),
            None => None,
        }
    }
}

impl Message {
    /// Whether the lists of the message can be written with lengths of 16 bits.
    pub fn has_short_lists(&self) -> (fits: bool)
        ensures
            fits == self@.fits(),
    {
        if self.account_keys.len() > 0xffff || self.instructions.len() > 0xffff {
            return false;
        }
        let mut i: usize = 0;
        while i < self.instructions.len()
            invariant
                i <= self.instructions@.len(),
                forall|j: int|
                    0 <= j < i ==> (#[trigger] self@.instructions[j]).fits(),
            decreases self.instructions@.len() - i,
        {
            let call: &CompiledInstruction = &self.instructions[i];
            assert(self@.instructions[i as int] == call@);
            if call.accounts.len() > 0xffff || call.data.len() > 0xffff {
                assert(!self@.instructions[i as int].fits());
                return false;
            }
            i = i + 1;
        }
        true
    }
}

impl Keypair {
    /// Whether the bytes are those of a key pair.
    pub fn is_valid(&self) -> (valid: bool)
        ensures
            valid == is_keypair(self@),
    {
        reads_as_keypair(&self.bytes)
    }
}

impl Transaction {
    /// The text of the first signature; empty where there is none.
    pub fn first_signature(&self) -> (text: String)
        ensures
            text@ == self@.first_signature(),
    {
        if self.signatures.len() > 0 {
            self.signatures[0].to_text()
        } else {
            String::new()
        }
    }

    /// The key under which simulations of the transaction are cached. It depends on neither the
    /// block hash nor the signatures, so a transaction keeps it when it is signed anew.
    pub fn message_key(&self) -> (key: String)
        requires
            self@.message.fits(),
        ensures
            key@ == self@.message.key(),
    {
        let zeros = Blockhash { bytes: [0u8; 32] };
        assert(zeros@ =~= Seq::new(32, |i: int| 0u8));
        let bytes: Vec<u8> = serialize_message(&self.message, &zeros);
        make_cache_key(bytes.as_slice())
    }

    /// Signs the transaction anew for another block hash, and says whether the key pair could
    /// sign it; where it could not, nothing changes. It can where it is a key pair and the
    /// transaction needs its signature and no other, unless the signature is all zeros; the
    /// transaction then bears it alone.
    pub fn refresh_blockhash(&mut self, signer: &Keypair, blockhash: Blockhash) -> (signed: bool)
        requires
            old(self)@.message.fits(),
        ensures
            signed == (old(self)@.refreshed(signer@, blockhash@) is Some),
            signed ==> Some(final(self)@) == old(self)@.refreshed(signer@, blockhash@),
            !signed ==> final(self)@ == old(self)@,
            signed <==> is_keypair(signer@) && old(self)@.message.is_signed_by(signer@)
                && signature_of(signer@, message_bytes(old(self)@.message.at(blockhash@)))
                != blank(),
            signed ==> final(self)@.signatures.len() == 1 && final(self)@.signatures[0] != blank(),
    {
        match sign_message(&self.message, &blockhash, signer) {
            Some(signatures) => {
                self.renew(blockhash, signatures);
                true
            },
            None => false,
        }
    }

    /// Gives the transaction another block hash and the signatures that were made for it.
    pub fn renew(&mut self, blockhash: Blockhash, signatures: Vec<Signature>)
        ensures
            final(self)@ == old(self)@.renewed(blockhash@, signatures_view(signatures@)),
    {
        self.message.recent_blockhash = blockhash;
        self.signatures = signatures;
    }
}

/// A transaction that is signed anew commits to the fresh block hash, and nothing else of its
/// message changes.
pub proof fn law_refresh_changes_the_blockhash_only(
    tx: TransactionView,
    keypair: Seq<u8>,
    blockhash: Seq<u8>,
)
    ensures
        tx.refreshed(keypair, blockhash) matches Some(renewed) ==> {
            &&& renewed.message.recent_blockhash == blockhash
            &&& renewed.message.at(tx.message.recent_blockhash) == tx.message
        },
{
}

/// The one signer that a transaction needs can sign it anew for every block hash, as long as the
/// signature is not all zeros; nobody else can.
pub proof fn law_sole_signer_can_sign(tx: TransactionView, keypair: Seq<u8>, blockhash: Seq<u8>)
    ensures
        tx.refreshed(keypair, blockhash) is Some <==> is_keypair(keypair)
            && tx.message.is_signed_by(keypair) && signature_of(
            keypair,
            message_bytes(tx.message.at(blockhash)),
        ) != blank(),
        tx.refreshed(keypair, blockhash) matches Some(renewed) ==> renewed.signatures
            == seq![signature_of(keypair, message_bytes(renewed.message))],
{
}

/// A transaction keeps its cache key when it is signed anew, with whatever key pair and for
/// whatever block hash.
pub proof fn law_key_survives_signing(tx: TransactionView, keypair: Seq<u8>, blockhash: Seq<u8>)
    ensures
        tx.refreshed(keypair, blockhash) matches Some(renewed) ==> renewed.message.key()
            == tx.message.key(),
{
}

/// To sign a transaction anew twice is to sign it anew for the second block hash alone.
pub proof fn law_refresh_forgets_the_last(
    tx: TransactionView,
    keypair: Seq<u8>,
    first: Seq<u8>,
    second: Seq<u8>,
)
    ensures
        tx.refreshed(keypair, first) matches Some(renewed) ==> renewed.refreshed(keypair, second)
            == tx.refreshed(keypair, second),
{
}

/// A transaction that is signed anew has the message that it had but for the block hash, field for
/// field, and bears the signature of the one key pair over that message and no other.
pub proof fn law_renewed_message_is_signed(
    tx: TransactionView,
    keypair: Seq<u8>,
    blockhash: Seq<u8>,
)
    ensures
        tx.refreshed(keypair, blockhash) matches Some(renewed) ==> {
            &&& renewed.message == (MessageView { recent_blockhash: blockhash, ..tx.message })
            &&& renewed.signatures == seq![signature_of(keypair, message_bytes(renewed.message))]
        },
        tx.refreshed(keypair, blockhash) is Some <==> {
            &&& is_keypair(keypair)
            &&& tx.message.num_required_signatures == 1
            &&& tx.message.account_keys.len() > 0
            &&& tx.message.account_keys[0] == keypair.subrange(32, 64)
            &&& signature_of(
                keypair,
                message_bytes(MessageView { recent_blockhash: blockhash, ..tx.message }),
            ) != Seq::new(64, |i: int| 0u8)
        },
{
}

/// The key of a message is that of its bytes with thirty-two zeros for the block hash, and with
/// everything else of the message as it is.
pub proof fn law_key_is_of_all_but_the_blockhash(message: MessageView)
    ensures
        message.key() == cache_key(
            message_bytes(
                MessageView { recent_blockhash: Seq::new(32, |i: int| 0u8), ..message },
            ),
        ),
{
}

/// A transaction is told of by the text of its first signature, and by nothing where it has none.
pub proof fn law_first_signature_is_told(tx: TransactionView)
    ensures
        tx.signatures.len() == 0 ==> tx.first_signature().len() == 0,
        tx.signatures.len() > 0 ==> tx.first_signature() == signature_to_text(tx.signatures[0]),
{
}

/// A message fits exactly where none of its lists is longer than sixteen bits can tell.
pub proof fn law_short_lists_fit(message: MessageView)
    ensures
        message.fits() <==> {
            &&& message.account_keys.len() < 65536
            &&& message.instructions.len() < 65536
            &&& forall|i: int|
                #![trigger message.instructions[i]]
                0 <= i < message.instructions.len() ==> message.instructions[i].accounts.len()
                    < 65536 && message.instructions[i].data.len() < 65536
        },
{
    if message.fits() {
        assert forall|i: int|
            #![trigger message.instructions[i]]
            0 <= i < message.instructions.len() implies message.instructions[i].accounts.len()
            < 65536 && message.instructions[i].data.len() < 65536 by {
            assert(message.instructions[i].fits());
        }
    }
}

/// Signatures are told whole and in their order.
pub proof fn law_signatures_are_told_whole(signatures: Seq<Signature>)
    ensures
        signatures_view(signatures).len() == signatures.len(),
        forall|i: int|
            0 <= i < signatures.len() ==> #[trigger] signatures_view(signatures)[i]
                == signatures[i].bytes@,
{
}

} // verus!
