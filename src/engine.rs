use vstd::prelude::*;
use vstd::std_specs::convert::FromSpec;
use crate::codec::{le_bytes, le_value, Codec};
use crate::extension::dispatch_extension_output;
use crate::flags::{is_reverted, ReturnFlags};
use crate::hashing::{blake2_256_of, Blake2x256, CryptoHash};
use crate::storage::{opt_bytes, Key, Table};

verus! {

/// The identity of an account.
pub type AccountId = [u8; 32];

/// An amount of value.
pub type Balance = u128;

/// The output of the chain's hash.
pub type Hash = [u8; 32];

/// A block's time stamp.
pub type Timestamp = u64;

/// A block's number.
pub type BlockNumber = u32;

/// What went wrong at the host boundary.
#[derive(Debug, Clone, Copy, PartialEq, Eq, Structural)]
pub enum EnvError {
    /// Bytes read from the host did not decode as the requested type.
    DecodeFailed,
    /// The called account holds no contract that can be called.
    NotCallable,
    /// The contract's balance does not cover the value to move.
    TransferFailed,
    /// The called contract ended with the reverted bit set.
    CalleeReverted,
}

/// What the host tells an execution about its surroundings.
#[derive(Clone, Copy)]
pub struct ExecContext {
    pub caller: AccountId,
    pub account_id: AccountId,
    pub transferred: Balance,
    pub balance: Balance,
    pub gas_left: u64,
    pub gas_price: u64,
    pub block_number: BlockNumber,
    pub block_timestamp: Timestamp,
    pub minimum_balance: Balance,
    pub tombstone_deposit: Balance,
    pub rent_allowance: Balance,
}

/// A call of a message of another contract.
pub struct CallParams<Args> {
    pub callee: AccountId,
    pub gas_limit: u64,
    pub transferred_value: Balance,
    pub selector: [u8; 4],
    pub args: Args,
}

/// The instantiation of a new contract from uploaded code.
pub struct CreateParams<Args> {
    pub code_hash: Hash,
    pub gas_limit: u64,
    pub endowment: Balance,
    pub selector: [u8; 4],
    pub args: Args,
    pub salt: Vec<u8>,
}

/// A call that the host saw: callee, gas limit, value and input bytes.
pub struct CallRecord {
    pub callee: AccountId,
    pub gas_limit: u64,
    pub transferred_value: Balance,
    pub input: Vec<u8>,
}

impl View for CallRecord {
    type V = (Seq<u8>, u64, Balance, Seq<u8>);

    open spec fn view(&self) -> (Seq<u8>, u64, Balance, Seq<u8>) {
        (self.callee@, self.gas_limit, self.transferred_value, self.input@)
    }
}

/// The input bytes of a call: the selector, then the encoded arguments.
pub open spec fn call_input<Args: Codec>(selector: [u8; 4], args: Args) -> Seq<u8> {
    selector@ + args.encoded()
}

/// What the host sees of a call.
pub open spec fn call_record<Args: Codec>(p: CallParams<Args>) -> (Seq<u8>, u64, Balance, Seq<u8>) {
    (p.callee@, p.gas_limit, p.transferred_value, call_input(p.selector, p.args))
}

/// The bytes that the address of a new contract is derived from: the
/// deployer, the code hash and the salt.
pub open spec fn address_seed(deployer: AccountId, code_hash: Hash, salt: Seq<u8>) -> Seq<u8> {
    deployer@ + code_hash@ + salt
}

/// The value in a table entry, absent where the table has none.
pub open spec fn lookup(m: Map<Seq<u8>, Option<Seq<u8>>>, k: Seq<u8>) -> Option<Seq<u8>> {
    if m.contains_key(k) {
        m[k]
    } else {
        None
    }
}

/// The value under `k` in `pending` laid over `committed`.
pub open spec fn overlay(
    pending: Map<Seq<u8>, Option<Seq<u8>>>,
    committed: Map<Seq<u8>, Option<Seq<u8>>>,
    k: Seq<u8>,
) -> Option<Seq<u8>> {
    if pending.contains_key(k) {
        pending[k]
    } else {
        lookup(committed, k)
    }
}

/// Moves every entry of `pending` into `committed`.
fn merge_tables(committed: &mut Table, pending: &mut Table)
    requires
        old(committed).wf(),
        old(pending).wf(),
    ensures
        final(committed).wf(),
        final(pending).wf(),
        final(pending)@ == Map::<Seq<u8>, Option<Seq<u8>>>::empty(),
        forall|k: Seq<u8>|
            #[trigger] lookup(final(committed)@, k) == overlay(old(pending)@, old(committed)@, k),
{
    loop
        invariant
            committed.wf(),
            pending.wf(),
            forall|k: Seq<u8>|
                #[trigger] overlay(pending@, committed@, k) == overlay(old(pending)@, old(committed)@, k),
        decreases pending.len(),
    {
        let ghost p0 = pending@;
        let ghost c0 = committed@;
        match pending.pop() {
            None => {
                assert forall|k: Seq<u8>|
                    #[trigger] lookup(committed@, k) == overlay(old(pending)@, old(committed)@, k) by {
                    assert(overlay(p0, c0, k) == overlay(old(pending)@, old(committed)@, k));
                }
                return;
            },
            Some(e) => {
                committed.put(e.0, e.1);
                assert forall|k: Seq<u8>|
                    #[trigger] overlay(pending@, committed@, k) == overlay(old(pending)@, old(committed)@, k) by {
                    assert(overlay(p0, c0, k) == overlay(old(pending)@, old(committed)@, k));
                }
            },
        }
    }
}

/// The answer that a contract stores: the flag word it returns with, as
/// four little-endian bytes, then its reply.
pub open spec fn contract_answer(flags: u32, reply: Seq<u8>) -> Seq<u8> {
    le_bytes(flags as nat, 4) + reply
}

/// What calling a contract whose stored answer is `entry` gives: the reply,
/// or the error that the host reports.
pub open spec fn call_outcome(entry: Option<Seq<u8>>) -> Result<Seq<u8>, EnvError> {
    match entry {
        None => Err(EnvError::NotCallable),
        Some(b) => if b.len() < 4 {
            Err(EnvError::NotCallable)
        } else if is_reverted(le_value(b.take(4)) as u32) {
            Err(EnvError::CalleeReverted)
        } else {
            Ok(b.skip(4))
        },
    }
}

/// What reading a storage slot returns, given the bytes that it holds.
pub open spec fn read_result<R: Codec>(stored: Option<Seq<u8>>) -> Result<Option<R>, EnvError> {
    match stored {
        None => Ok(None),
        Some(b) => match R::decoded(b) {
            Some(v) => Ok(Some(v)),
            None => Err(EnvError::DecodeFailed),
        },
    }
}

/// What decoding the input buffer returns.
pub open spec fn decode_result<T: Codec>(input: Seq<u8>) -> Result<T, EnvError> {
    match T::decoded(input) {
        Some(v) => Ok(v),
        None => Err(EnvError::DecodeFailed),
    }
}

/// An event value that derives the ordered topics that the host indexes it by.
pub trait Topics {
    /// The topics of `self`, in order.
    spec fn topics_of(&self) -> Seq<Seq<u8>>;

    fn topics(&self) -> (r: Vec<Hash>)
        ensures
            r@.map_values(|t: Hash| t@) == self.topics_of(),
    ;
}

/// The status with which the host answers a call of a chain extension that
/// is not registered, with an empty output buffer.
pub const UNKNOWN_EXTENSION: u32 = 0xffff_ffff;

/// A reply that a registered chain extension gives.
struct ExtensionReply {
    func_id: u32,
    status: u32,
    output: Vec<u8>,
}

/// The status and output of the first reply in `exts` registered under `id`.
spec fn extension_in(exts: Seq<ExtensionReply>, id: u32) -> Option<(u32, Seq<u8>)> {
    if exists|i: int| 0 <= i < exts.len() && #[trigger] exts[i].func_id == id {
        let i = choose|i: int| 0 <= i < exts.len() && #[trigger] exts[i].func_id == id;
        Some((exts[i].status, exts[i].output@))
    } else {
        None
    }
}

/// An in-process host: it holds contract storage, the input and output of an
/// execution, the calls made to other contracts, registered chain extensions
/// and the execution's context, and keeps every effect in the order made.
///
/// Writes of the running execution stay apart from the storage as it was
/// when the execution began, so that a reverted return can drop them.
pub struct Engine {
    committed: Table,
    pending: Table,
    input: Vec<u8>,
    output: Option<(u32, Vec<u8>)>,
    contracts: Table,
    pending_contracts: Table,
    extensions: Vec<ExtensionReply>,
    extension_calls: Vec<(u32, Vec<u8>)>,
    calls: Vec<CallRecord>,
    transfers: Vec<(AccountId, Balance)>,
    events: Vec<(Vec<Hash>, Vec<u8>)>,
    printed: Vec<String>,
    context: ExecContext,
    start_context: ExecContext,
    start_transfers: usize,
    start_events: usize,
}

impl Engine {
    pub closed spec fn wf(&self) -> bool {
        &&& self.committed.wf()
        &&& self.pending.wf()
        &&& self.contracts.wf()
        &&& self.pending_contracts.wf()
        &&& self.start_transfers <= self.transfers@.len()
        &&& self.start_events <= self.events@.len()
        &&& forall|i: int, j: int|
            0 <= i < self.extensions@.len() && 0 <= j < self.extensions@.len() && i != j
                ==> self.extensions@[i].func_id != self.extensions@[j].func_id
    }

    /// The bytes that storage holds under `k`, as the running execution sees them.
    pub closed spec fn stored(&self, k: Seq<u8>) -> Option<Seq<u8>> {
        overlay(self.pending@, self.committed@, k)
    }

    /// The bytes that storage held under `k` when the execution began.
    pub closed spec fn committed_value(&self, k: Seq<u8>) -> Option<Seq<u8>> {
        lookup(self.committed@, k)
    }

    /// Whether the running execution has written nothing yet.
    pub closed spec fn no_pending_writes(&self) -> bool {
        self.pending@ == Map::<Seq<u8>, Option<Seq<u8>>>::empty()
    }

    pub closed spec fn input_bytes(&self) -> Seq<u8> {
        self.input@
    }

    /// The flag word and the bytes that the last finished execution returned.
    pub closed spec fn output(&self) -> Option<(u32, Seq<u8>)> {
        match self.output {
            Some(o) => Some((o.0, o.1@)),
            None => None,
        }
    }

    /// The calls of other contracts made so far, in order.
    pub closed spec fn calls(&self) -> Seq<(Seq<u8>, u64, Balance, Seq<u8>)> {
        self.calls@.map_values(|c: CallRecord| c@)
    }

    /// The reply that the contract at `id` gives, if a contract is there.
    pub closed spec fn contract_reply(&self, id: Seq<u8>) -> Option<Seq<u8>> {
        overlay(self.pending_contracts@, self.contracts@, id)
    }

    /// The reply of the contract at `id` as it was when the execution began.
    pub closed spec fn committed_contract(&self, id: Seq<u8>) -> Option<Seq<u8>> {
        lookup(self.contracts@, id)
    }

    /// The context as it was when the execution began.
    pub closed spec fn start_context(&self) -> ExecContext {
        self.start_context
    }

    /// The transfers made before the execution began.
    pub closed spec fn transfers_at_start(&self) -> Seq<(Seq<u8>, Balance)> {
        self.transfers().take(self.start_transfers as int)
    }

    /// The events emitted before the execution began.
    pub closed spec fn events_at_start(&self) -> Seq<(Seq<Seq<u8>>, Seq<u8>)> {
        self.events().take(self.start_events as int)
    }

    /// What the running execution began from is as in `other`.
    pub open spec fn same_start(&self, other: &Engine) -> bool {
        &&& forall|k: Seq<u8>| #[trigger] self.committed_value(k) == other.committed_value(k)
        &&& forall|id: Seq<u8>| #[trigger] self.committed_contract(id) == other.committed_contract(id)
        &&& self.start_context() == other.start_context()
        &&& self.transfers_at_start() == other.transfers_at_start()
        &&& self.events_at_start() == other.events_at_start()
    }

    /// The running execution has changed nothing yet.
    pub open spec fn at_execution_start(&self) -> bool {
        &&& self.no_pending_writes()
        &&& forall|k: Seq<u8>| #[trigger] self.stored(k) == self.committed_value(k)
        &&& forall|id: Seq<u8>| #[trigger] self.contract_reply(id) == self.committed_contract(id)
        &&& self.context() == self.start_context()
        &&& self.transfers() == self.transfers_at_start()
        &&& self.events() == self.events_at_start()
    }

    /// The status and output that the chain extension `id` gives, if registered.
    pub closed spec fn extension(&self, id: u32) -> Option<(u32, Seq<u8>)> {
        extension_in(self.extensions@, id)
    }

    /// The status that the chain extension `id` answers with; the host
    /// answers `UNKNOWN_EXTENSION` for an id that nothing is registered under.
    pub open spec fn extension_status(&self, id: u32) -> u32 {
        match self.extension(id) {
            Some(e) => e.0,
            None => UNKNOWN_EXTENSION,
        }
    }

    /// The output buffer that the chain extension `id` answers with.
    pub open spec fn extension_output(&self, id: u32) -> Seq<u8> {
        match self.extension(id) {
            Some(e) => e.1,
            None => Seq::empty(),
        }
    }

    /// The chain-extension calls made so far: function id and input bytes.
    pub closed spec fn extension_calls(&self) -> Seq<(u32, Seq<u8>)> {
        self.extension_calls@.map_values(|c: (u32, Vec<u8>)| (c.0, c.1@))
    }

    /// The transfers made so far: destination and value.
    pub closed spec fn transfers(&self) -> Seq<(Seq<u8>, Balance)> {
        self.transfers@.map_values(|t: (AccountId, Balance)| (t.0@, t.1))
    }

    /// The events emitted so far: topics and encoded payload.
    pub closed spec fn events(&self) -> Seq<(Seq<Seq<u8>>, Seq<u8>)> {
        self.events@.map_values(|e: (Vec<Hash>, Vec<u8>)| (e.0@.map_values(|t: Hash| t@), e.1@))
    }

    pub closed spec fn printed(&self) -> Seq<Seq<char>> {
        self.printed@.map_values(|s: String| s@)
    }

    pub closed spec fn context(&self) -> ExecContext {
        self.context
    }

    /// Everything but storage is as in `other`.
    pub closed spec fn same_but_storage(&self, other: &Engine) -> bool {
        &&& self.input == other.input
        &&& self.output == other.output
        &&& self.contracts == other.contracts
        &&& self.pending_contracts == other.pending_contracts
        &&& self.extensions == other.extensions
        &&& self.extension_calls == other.extension_calls
        &&& self.calls == other.calls
        &&& self.transfers == other.transfers
        &&& self.events == other.events
        &&& self.printed == other.printed
        &&& self.context == other.context
        &&& self.start_context == other.start_context
        &&& self.start_transfers == other.start_transfers
        &&& self.start_events == other.start_events
    }

    /// A host with empty storage, no contracts and no extensions.
    pub fn new(context: ExecContext) -> (r: Engine)
        ensures
            r.wf(),
            r.no_pending_writes(),
            forall|k: Seq<u8>| r.stored(k) == None::<Seq<u8>>,
            forall|k: Seq<u8>| r.committed_value(k) == None::<Seq<u8>>,
            r.input_bytes() == Seq::<u8>::empty(),
            r.output() == None::<(u32, Seq<u8>)>,
            r.calls() == Seq::<(Seq<u8>, u64, Balance, Seq<u8>)>::empty(),
            r.extension_calls() == Seq::<(u32, Seq<u8>)>::empty(),
            r.transfers() == Seq::<(Seq<u8>, Balance)>::empty(),
            forall|id: Seq<u8>| r.contract_reply(id) == None::<Seq<u8>>,
            forall|id: u32| r.extension(id) == None::<(u32, Seq<u8>)>,
            r.context() == context,
            r.at_execution_start(),
    {
        let r = Engine {
            committed: Table::new(),
            pending: Table::new(),
            input: Vec::new(),
            output: None,
            contracts: Table::new(),
            pending_contracts: Table::new(),
            extensions: Vec::new(),
            extension_calls: Vec::new(),
            calls: Vec::new(),
            transfers: Vec::new(),
            events: Vec::new(),
            printed: Vec::new(),
            context,
            start_context: context,
            start_transfers: 0,
            start_events: 0,
        };
        assert(r.events() =~= Seq::<(Seq<Seq<u8>>, Seq<u8>)>::empty());
        assert(r.transfers_at_start() =~= r.transfers());
        assert(r.events_at_start() =~= r.events());
        assert(r.calls() =~= Seq::<(Seq<u8>, u64, Balance, Seq<u8>)>::empty());
        assert(r.extension_calls() =~= Seq::<(u32, Seq<u8>)>::empty());
        assert(r.transfers() =~= Seq::<(Seq<u8>, Balance)>::empty());
        r
    }

    /// Writes the value to the contract storage under the given key.
    pub fn set_contract_storage<V: Codec>(&mut self, key: &Key, value: &V)
        requires
            old(self).wf(),
        ensures
            final(self).wf(),
            final(self).same_surroundings(old(self)),
            final(self).same_start(old(self)),
            final(self).calls() == old(self).calls(),
            forall|k: Seq<u8>|
                #[trigger] final(self).stored(k) == if k == key@ {
                    Some(value.encoded())
                } else {
                    old(self).stored(k)
                },
            forall|k: Seq<u8>| #[trigger] final(self).committed_value(k) == old(self).committed_value(k),
    {
        let bytes = value.encode();
        self.pending.put(key.0, Some(bytes));
    }

    /// Returns the value stored under the given key, `Ok(None)` where there is
    /// none, and `Err(EnvError::DecodeFailed)` where the stored bytes do not
    /// decode as `R`.
    pub fn get_contract_storage<R: Codec>(&mut self, key: &Key) -> (r: Result<Option<R>, EnvError>)
        requires
            old(self).wf(),
        ensures
            *final(self) == *old(self),
            r == read_result::<R>(old(self).stored(key@)),
    {
        let found = match self.pending.get(&key.0) {
            Some(v) => v,
            None => match self.committed.get(&key.0) {
                Some(v) => v,
                None => return Ok(None),
            },
        };
        match found {
            None => Ok(None),
            Some(bytes) => match R::decode(bytes.as_slice()) {
                Some(v) => Ok(Some(v)),
                None => Err(EnvError::DecodeFailed),
            },
        }
    }

    /// Clears the contract's storage entry under the given key.
    pub fn clear_contract_storage(&mut self, key: &Key)
        requires
            old(self).wf(),
        ensures
            final(self).wf(),
            final(self).same_surroundings(old(self)),
            final(self).same_start(old(self)),
            final(self).calls() == old(self).calls(),
            forall|k: Seq<u8>|
                #[trigger] final(self).stored(k) == if k == key@ {
                    None
                } else {
                    old(self).stored(k)
                },
            forall|k: Seq<u8>| #[trigger] final(self).committed_value(k) == old(self).committed_value(k),
    {
        self.pending.put(key.0, None);
    }

    /// Begins an execution with the given input: a selector followed by the
    /// encoded arguments.
    pub fn set_input(&mut self, input: Vec<u8>)
        requires
            old(self).wf(),
        ensures
            final(self).wf(),
            final(self).input_bytes() == input@,
            final(self).output() == old(self).output(),
            final(self).context() == old(self).context(),
            final(self).calls() == old(self).calls(),
            forall|k: Seq<u8>| #[trigger] final(self).stored(k) == old(self).stored(k),
            forall|k: Seq<u8>| #[trigger] final(self).committed_value(k) == old(self).committed_value(k),
            final(self).no_pending_writes() == old(self).no_pending_writes(),
            final(self).same_start(old(self)),
            old(self).at_execution_start() ==> final(self).at_execution_start(),
    {
        self.input = input;
        assert(old(self).at_execution_start() ==> self.at_execution_start()) by {
            if old(self).at_execution_start() {
                assert forall|k: Seq<u8>| #[trigger] self.stored(k) == self.committed_value(k) by {
                    assert(old(self).stored(k) == old(self).committed_value(k));
                }
                assert forall|id: Seq<u8>| #[trigger] self.contract_reply(id) == self.committed_contract(id) by {
                    assert(old(self).contract_reply(id) == old(self).committed_contract(id));
                }
            }
        }
    }

    /// Decodes the execution's input as `T`.
    ///
    /// This is to be the first interaction of an execution with the host:
    /// the execution must not have changed anything yet.
    pub fn decode_input<T: Codec>(&mut self) -> (r: Result<T, EnvError>)
        requires
            old(self).at_execution_start(),
        ensures
            *final(self) == *old(self),
            r == decode_result::<T>(old(self).input_bytes()),
    {
        match T::decode(self.input.as_slice()) {
            Some(v) => Ok(v),
            None => Err(EnvError::DecodeFailed),
        }
    }

    /// Ends the execution and returns the encoded value to the caller with
    /// the given flags.
    ///
    /// Where the flags carry the reverted bit, every state change of the
    /// execution is dropped: storage writes, instantiated contracts, the
    /// context (balance, rent allowance), transfers and events are as they
    /// were when the execution began. Otherwise every change is kept. Either
    /// way the next execution begins from the state left here.
    pub fn return_value<R: Codec>(&mut self, flags: ReturnFlags, return_value: &R)
        requires
            old(self).wf(),
        ensures
            final(self).wf(),
            final(self).at_execution_start(),
            final(self).output() == Some((flags@, return_value.encoded())),
            final(self).calls() == old(self).calls(),
            final(self).input_bytes() == old(self).input_bytes(),
            final(self).extension_calls() == old(self).extension_calls(),
            final(self).printed() == old(self).printed(),
            forall|id: u32| #[trigger] final(self).extension(id) == old(self).extension(id),
            is_reverted(flags@) ==> {
                &&& forall|k: Seq<u8>| #[trigger] final(self).stored(k) == old(self).committed_value(k)
                &&& forall|id: Seq<u8>|
                    #[trigger] final(self).contract_reply(id) == old(self).committed_contract(id)
                &&& final(self).context() == old(self).start_context()
                &&& final(self).transfers() == old(self).transfers_at_start()
                &&& final(self).events() == old(self).events_at_start()
            },
            !is_reverted(flags@) ==> {
                &&& forall|k: Seq<u8>| #[trigger] final(self).stored(k) == old(self).stored(k)
                &&& forall|id: Seq<u8>| #[trigger] final(self).contract_reply(id) == old(self).contract_reply(id)
                &&& final(self).context() == old(self).context()
                &&& final(self).transfers() == old(self).transfers()
                &&& final(self).events() == old(self).events()
            },
    {
        let bits = flags.into_u32();
        let bytes = return_value.encode();
        if bits & crate::flags::REVERT_BIT == crate::flags::REVERT_BIT {
            self.pending = Table::new();
            self.pending_contracts = Table::new();
            self.context = self.start_context;
            self.transfers.truncate(self.start_transfers);
            self.events.truncate(self.start_events);
            assert(self.pending@ =~= Map::<Seq<u8>, Option<Seq<u8>>>::empty());
            assert(self.pending_contracts@ =~= Map::<Seq<u8>, Option<Seq<u8>>>::empty());
            assert(self.transfers() =~= old(self).transfers_at_start());
            assert(self.events() =~= old(self).events_at_start());
        } else {
            merge_tables(&mut self.committed, &mut self.pending);
            merge_tables(&mut self.contracts, &mut self.pending_contracts);
        }
        self.start_context = self.context;
        self.start_transfers = self.transfers.len();
        self.start_events = self.events.len();
        self.output = Some((bits, bytes));
        assert(self.transfers() =~= self.transfers_at_start());
        assert(self.events() =~= self.events_at_start());
        assert forall|k: Seq<u8>| #[trigger] self.stored(k) == self.committed_value(k) by {
            assert(!self.pending@.contains_key(k));
        }
        assert forall|id: Seq<u8>| #[trigger] self.contract_reply(id) == self.committed_contract(id) by {
            assert(!self.pending_contracts@.contains_key(id));
        }
    }

    /// Records the given text in the diagnostic log; never fails.
    pub fn println(&mut self, content: &str)
        requires
            old(self).wf(),
        ensures
            final(self).wf(),
            final(self).printed() == old(self).printed().push(content@),
            final(self).calls() == old(self).calls(),
            final(self).same_start(old(self)),
            forall|k: Seq<u8>| #[trigger] final(self).stored(k) == old(self).stored(k),
    {
        let line = content.to_string();
        proof {
            vstd::string::to_string_from_display_ensures_for_str(content, line);
        }
        self.printed.push(line);
        assert(self.printed() =~= old(self).printed().push(content@));
    }

    /// Writes the digest of `input` under `H` into `output`.
    pub fn hash_bytes<H: CryptoHash>(&mut self, input: &[u8], output: &mut [u8; 32])
        ensures
            *final(self) == *old(self),
            final(output)@ == H::digest(input@),
    {
        H::hash(input, output);
    }

    /// Writes the digest of the encoding of `input` under `H` into `output`.
    pub fn hash_encoded<H: CryptoHash, T: Codec>(&mut self, input: &T, output: &mut [u8; 32])
        ensures
            *final(self) == *old(self),
            final(output)@ == H::digest(input.encoded()),
    {
        let bytes = input.encode();
        H::hash(bytes.as_slice(), output);
    }
}


/// The bytes that a call hands over: the selector, then the encoded arguments.
fn input_bytes<Args: Codec>(selector: &[u8; 4], args: &Args) -> (r: Vec<u8>)
    ensures
        r@ == call_input(*selector, *args),
{
    let mut input: Vec<u8> = vec![selector[0], selector[1], selector[2], selector[3]];
    assert(input@ =~= selector@);
    let mut encoded = args.encode();
    input.append(&mut encoded);
    input
}

/// The BLAKE2b-256 digest of `bytes`.
fn blake2_of(bytes: &[u8]) -> (r: [u8; 32])
    ensures
        r@ == blake2_256_of(bytes@),
{
    let mut out: [u8; 32] = [0u8; 32];
    Blake2x256::hash(bytes, &mut out);
    out
}

/// The seed that `random` derives from a subject in a block.
pub open spec fn random_seed(subject: Seq<u8>, block: BlockNumber) -> Seq<u8> {
    blake2_256_of(subject + block.encoded())
}

impl Engine {
    /// Everything but the log of calls is as in `other`.
    pub closed spec fn same_but_calls(&self, other: &Engine) -> bool {
        &&& self.committed == other.committed
        &&& self.pending == other.pending
        &&& self.input == other.input
        &&& self.output == other.output
        &&& self.contracts == other.contracts
        &&& self.extensions == other.extensions
        &&& self.extension_calls == other.extension_calls
        &&& self.transfers == other.transfers
        &&& self.events == other.events
        &&& self.printed == other.printed
        &&& self.context == other.context
    }

    /// Everything that the host shows but storage and the log of calls is as in `other`.
    pub open spec fn same_surroundings(&self, other: &Engine) -> bool {
        &&& self.context() == other.context()
        &&& self.input_bytes() == other.input_bytes()
        &&& self.output() == other.output()
        &&& self.extension_calls() == other.extension_calls()
        &&& self.transfers() == other.transfers()
        &&& self.events() == other.events()
        &&& self.printed() == other.printed()
        &&& forall|id: Seq<u8>| #[trigger] self.contract_reply(id) == other.contract_reply(id)
        &&& forall|id: u32| #[trigger] self.extension(id) == other.extension(id)
    }

    /// `self` is `before` after the host saw the call `rec` and nothing else.
    pub open spec fn made_call(&self, before: &Engine, rec: (Seq<u8>, u64, Balance, Seq<u8>)) -> bool {
        &&& self.wf()
        &&& self.calls() == before.calls().push(rec)
        &&& self.same_surroundings(before)
        &&& self.same_start(before)
        &&& forall|k: Seq<u8>| #[trigger] self.stored(k) == before.stored(k)
        &&& forall|k: Seq<u8>| #[trigger] self.committed_value(k) == before.committed_value(k)
        &&& self.no_pending_writes() == before.no_pending_writes()
        &&& self.same_but_calls(before)
    }

    fn record_call<Args: Codec>(&mut self, params: &CallParams<Args>)
        requires
            old(self).wf(),
        ensures
            final(self).made_call(old(self), call_record(*params)),
    {
        let input = input_bytes(&params.selector, &params.args);
        let rec = CallRecord {
            callee: params.callee,
            gas_limit: params.gas_limit,
            transferred_value: params.transferred_value,
            input,
        };
        self.calls.push(rec);
        assert(self.calls() =~= old(self).calls().push(call_record(*params)));
    }

    /// Places a contract at `account` whose messages end with `flags` and
    /// reply with `reply`. This sets up the host and is no part of an
    /// execution: a revert does not undo it.
    pub fn deploy_contract(&mut self, account: AccountId, flags: ReturnFlags, reply: Vec<u8>)
        requires
            old(self).wf(),
        ensures
            final(self).wf(),
            forall|id: Seq<u8>|
                #[trigger] final(self).contract_reply(id) == if id == account@ {
                    Some(contract_answer(flags@, reply@))
                } else {
                    old(self).contract_reply(id)
                },
            forall|id: Seq<u8>|
                #[trigger] final(self).committed_contract(id) == if id == account@ {
                    Some(contract_answer(flags@, reply@))
                } else {
                    old(self).committed_contract(id)
                },
            final(self).calls() == old(self).calls(),
            forall|k: Seq<u8>| #[trigger] final(self).stored(k) == old(self).stored(k),
            forall|k: Seq<u8>| #[trigger] final(self).committed_value(k) == old(self).committed_value(k),
            final(self).context() == old(self).context(),
            final(self).start_context() == old(self).start_context(),
            final(self).transfers() == old(self).transfers(),
            final(self).transfers_at_start() == old(self).transfers_at_start(),
            final(self).events() == old(self).events(),
            final(self).events_at_start() == old(self).events_at_start(),
    {
        let mut answer = flags.into_u32().encode();
        let mut rest = reply;
        answer.append(&mut rest);
        let copy = answer.clone();
        assert(copy@ == answer@);
        self.contracts.put(account, Some(answer));
        self.pending_contracts.put(account, Some(copy));
    }

    /// The reply of the contract at `callee`, or the error that the host reports.
    fn call_contract(&self, callee: &AccountId) -> (r: Result<&[u8], EnvError>)
        requires
            self.wf(),
        ensures
            match call_outcome(self.contract_reply(callee@)) {
                Ok(b) => r is Ok && r->Ok_0@ == b,
                Err(e) => r == Err::<&[u8], EnvError>(e),
            },
    {
        let entry = match self.pending_contracts.get(callee) {
            Some(v) => v,
            None => match self.contracts.get(callee) {
                Some(v) => v,
                None => return Err(EnvError::NotCallable),
            },
        };
        match entry {
            None => Err(EnvError::NotCallable),
            Some(bytes) => {
                let b = bytes.as_slice();
                if b.len() < 4 {
                    return Err(EnvError::NotCallable);
                }
                match <u32 as Codec>::decode(b) {
                    None => Err(EnvError::NotCallable),
                    Some(f) => {
                        if f & crate::flags::REVERT_BIT == crate::flags::REVERT_BIT {
                            Err(EnvError::CalleeReverted)
                        } else {
                            let reply = vstd::slice::slice_subrange(b, 4, b.len());
                            assert(reply@ =~= b@.skip(4));
                            Ok(reply)
                        }
                    },
                }
            },
        }
    }

    /// Invokes a message of another contract and drops its reply. A callee
    /// that reverts comes back as `EnvError::CalleeReverted`.
    pub fn invoke_contract<Args: Codec>(&mut self, call_data: &CallParams<Args>) -> (r: Result<(), EnvError>)
        requires
            old(self).wf(),
        ensures
            final(self).made_call(old(self), call_record(*call_data)),
            r == match call_outcome(old(self).contract_reply(call_data.callee@)) {
                Ok(_) => Ok::<(), EnvError>(()),
                Err(e) => Err(e),
            },
    {
        self.record_call(call_data);
        match self.call_contract(&call_data.callee) {
            Ok(_) => Ok(()),
            Err(e) => Err(e),
        }
    }

    /// Evaluates a message of another contract and decodes its reply as `R`.
    /// A callee that reverts comes back as `EnvError::CalleeReverted`.
    pub fn eval_contract<Args: Codec, R: Codec>(&mut self, call_data: &CallParams<Args>) -> (r: Result<R, EnvError>)
        requires
            old(self).wf(),
        ensures
            final(self).made_call(old(self), call_record(*call_data)),
            r == match call_outcome(old(self).contract_reply(call_data.callee@)) {
                Ok(b) => decode_result::<R>(b),
                Err(e) => Err(e),
            },
    {
        self.record_call(call_data);
        match self.call_contract(&call_data.callee) {
            Ok(reply) => match R::decode(reply) {
                Some(v) => Ok(v),
                None => Err(EnvError::DecodeFailed),
            },
            Err(e) => Err(e),
        }
    }

    /// Instantiates a contract from the code under `params.code_hash` and
    /// returns its address, derived from this contract's own address, the
    /// code hash and the salt. The endowment leaves this contract's balance;
    /// where the balance does not cover it, nothing happens and the call
    /// fails with `EnvError::TransferFailed`.
    pub fn instantiate_contract<Args: Codec>(&mut self, params: &CreateParams<Args>) -> (r: Result<AccountId, EnvError>)
        requires
            old(self).wf(),
        ensures
            final(self).wf(),
            params.endowment > old(self).context().balance ==> r == Err::<AccountId, EnvError>(
                EnvError::TransferFailed,
            ) && *final(self) == *old(self),
            params.endowment <= old(self).context().balance ==> {
                &&& r is Ok
                &&& r->Ok_0@ == blake2_256_of(
                    address_seed(old(self).context().account_id, params.code_hash, params.salt@),
                )
                &&& final(self).context().balance == old(self).context().balance - params.endowment
                &&& final(self).contract_reply(r->Ok_0@) == Some(contract_answer(0, Seq::empty()))
                &&& final(self).same_start(old(self))
                &&& final(self).calls() == old(self).calls().push(
                    (r->Ok_0@, params.gas_limit, params.endowment, call_input(params.selector, params.args)),
                )
                &&& forall|k: Seq<u8>| #[trigger] final(self).stored(k) == old(self).stored(k)
            },
    {
        if params.endowment > self.context.balance {
            return Err(EnvError::TransferFailed);
        }
        let mut seed: Vec<u8> = Vec::new();
        let mut i: usize = 0;
        while i < 32
            invariant
                0 <= i <= 32,
                seed@ == self.context.account_id@.take(i as int),
            decreases 32 - i,
        {
            seed.push(self.context.account_id[i]);
            i = i + 1;
            assert(seed@ =~= self.context.account_id@.take(i as int));
        }
        let mut i: usize = 0;
        while i < 32
            invariant
                0 <= i <= 32,
                seed@ == self.context.account_id@ + params.code_hash@.take(i as int),
            decreases 32 - i,
        {
            seed.push(params.code_hash[i]);
            i = i + 1;
            assert(seed@ =~= self.context.account_id@ + params.code_hash@.take(i as int));
        }
        assert(self.context.account_id@.take(32) =~= self.context.account_id@);
        assert(params.code_hash@.take(32) =~= params.code_hash@);
        seed.extend_from_slice(params.salt.as_slice());
        assert(seed@ =~= address_seed(self.context.account_id, params.code_hash, params.salt@));
        let address = blake2_of(seed.as_slice());
        self.context.balance = self.context.balance - params.endowment;
        self.pending_contracts.put(address, Some(0u32.encode()));
        assert(contract_answer(0, Seq::empty()) =~= le_bytes(0, 4));
        let input = input_bytes(&params.selector, &params.args);
        self.calls.push(CallRecord {
            callee: address,
            gas_limit: params.gas_limit,
            transferred_value: params.endowment,
            input,
        });
        assert(self.calls() =~= old(self).calls().push(
            (address@, params.gas_limit, params.endowment, call_input(params.selector, params.args)),
        ));
        Ok(address)
    }

    /// Moves `value` from this contract to `destination`; fails with
    /// `EnvError::TransferFailed`, changing nothing, where the balance does
    /// not cover it.
    pub fn transfer(&mut self, destination: AccountId, value: Balance) -> (r: Result<(), EnvError>)
        requires
            old(self).wf(),
        ensures
            final(self).wf(),
            value > old(self).context().balance ==> r == Err::<(), EnvError>(EnvError::TransferFailed)
                && *final(self) == *old(self),
            value <= old(self).context().balance ==> {
                &&& r == Ok::<(), EnvError>(())
                &&& final(self).context().balance == old(self).context().balance - value
                &&& final(self).transfers() == old(self).transfers().push((destination@, value))
                &&& final(self).calls() == old(self).calls()
                &&& final(self).same_start(old(self))
                &&& forall|k: Seq<u8>| #[trigger] final(self).stored(k) == old(self).stored(k)
            },
    {
        if value > self.context.balance {
            return Err(EnvError::TransferFailed);
        }
        self.context.balance = self.context.balance - value;
        self.transfers.push((destination, value));
        assert(self.transfers() =~= old(self).transfers().push((destination@, value)));
        assert(self.transfers_at_start() =~= old(self).transfers_at_start());
        Ok(())
    }
}


impl Engine {
    fn find_extension(&self, func_id: u32) -> (r: Option<usize>)
        requires
            self.wf(),
        ensures
            match r {
                Some(i) => {
                    &&& i < self.extensions@.len()
                    &&& self.extensions@[i as int].func_id == func_id
                    &&& self.extension(func_id) == Some(
                        (self.extensions@[i as int].status, self.extensions@[i as int].output@),
                    )
                },
                None => self.extension(func_id) is None,
            },
    {
        let mut i: usize = 0;
        while i < self.extensions.len()
            invariant
                self.wf(),
                0 <= i <= self.extensions@.len(),
                forall|j: int| 0 <= j < i ==> self.extensions@[j].func_id != func_id,
            decreases self.extensions@.len() - i,
        {
            if self.extensions[i].func_id == func_id {
                assert(self.extensions@[i as int].func_id == func_id);
                return Some(i);
            }
            i = i + 1;
        }
        None
    }

    /// Registers a chain extension under `func_id` that answers every call
    /// with `status` and `output`, in place of one registered there before.
    pub fn register_chain_extension(&mut self, func_id: u32, status: u32, output: Vec<u8>)
        requires
            old(self).wf(),
        ensures
            final(self).wf(),
            forall|id: u32|
                #[trigger] final(self).extension(id) == if id == func_id {
                    Some((status, output@))
                } else {
                    old(self).extension(id)
                },
            final(self).calls() == old(self).calls(),
            forall|k: Seq<u8>| #[trigger] final(self).stored(k) == old(self).stored(k),
            final(self).same_start(old(self)),
            final(self).context() == old(self).context(),
            final(self).transfers() == old(self).transfers(),
            final(self).events() == old(self).events(),
    {
        let ghost out = output@;
        let reply = ExtensionReply { func_id, status, output };
        let ghost n: int;
        match self.find_extension(func_id) {
            Some(i) => {
                self.extensions.set(i, reply);
                proof { n = i as int; }
            },
            None => {
                self.extensions.push(reply);
                proof { n = self.extensions@.len() - 1; }
            },
        }
        assert forall|a: int, b: int|
            0 <= a < self.extensions@.len() && 0 <= b < self.extensions@.len() && a != b
                implies self.extensions@[a].func_id != self.extensions@[b].func_id by {
            if a != n && b != n {
                assert(self.extensions@[a] == old(self).extensions@[a]);
                assert(self.extensions@[b] == old(self).extensions@[b]);
            } else if a == n {
                assert(self.extensions@[b] == old(self).extensions@[b]);
            } else {
                assert(self.extensions@[a] == old(self).extensions@[a]);
            }
        }
        assert forall|id: u32|
            #[trigger] self.extension(id) == if id == func_id {
                Some((status, out))
            } else {
                old(self).extension(id)
            } by {
            if id == func_id {
                assert(self.extensions@[n].func_id == id);
            } else {
                if exists|j: int| 0 <= j < self.extensions@.len() && #[trigger] self.extensions@[j].func_id == id {
                    let j = choose|j: int| 0 <= j < self.extensions@.len() && #[trigger] self.extensions@[j].func_id == id;
                    assert(j != n);
                    assert(old(self).extensions@[j] == self.extensions@[j]);
                }
                if exists|j: int| 0 <= j < old(self).extensions@.len() && #[trigger] old(self).extensions@[j].func_id == id {
                    let j = choose|j: int| 0 <= j < old(self).extensions@.len() && #[trigger] old(self).extensions@[j].func_id == id;
                    assert(j != n);
                    assert(old(self).extensions@[j] == self.extensions@[j]);
                }
            }
        }
    }

    /// Calls the chain extension `func_id` with the encoded `input`.
    ///
    /// The host answers with a status code and an output buffer.
    /// `status_to_result` maps the status; where it gives an error code, that
    /// error comes back converted and `decode_to_result` is not called; where
    /// it gives success, `decode_to_result` decodes the host's output buffer
    /// and its result comes back.
    pub fn call_chain_extension<I: Codec, T, E, ErrorCode, F, D>(
        &mut self,
        func_id: u32,
        input: &I,
        status_to_result: F,
        decode_to_result: D,
    ) -> (r: Result<T, E>) where
        E: From<ErrorCode>,
        F: FnOnce(u32) -> Result<(), ErrorCode>,
        D: FnOnce(&[u8]) -> Result<T, E>,

        requires
            old(self).wf(),
            status_to_result.requires((old(self).extension_status(func_id),)),
            forall|s: Result<(), ErrorCode>, o: &[u8]|
                #[trigger] status_to_result.ensures((old(self).extension_status(func_id),), s) && s is Ok
                    && o@ == old(self).extension_output(func_id) ==> #[trigger] decode_to_result.requires((o,)),
        ensures
            final(self).wf(),
            final(self).extension_calls() == old(self).extension_calls().push((func_id, input.encoded())),
            final(self).calls() == old(self).calls(),
            forall|k: Seq<u8>| #[trigger] final(self).stored(k) == old(self).stored(k),
            final(self).same_start(old(self)),
            final(self).context() == old(self).context(),
            final(self).transfers() == old(self).transfers(),
            final(self).events() == old(self).events(),
            exists|s: Result<(), ErrorCode>|
                #[trigger] status_to_result.ensures((old(self).extension_status(func_id),), s) && match s {
                    Ok(_) => exists|o: &[u8]|
                        o@ == old(self).extension_output(func_id) && #[trigger] decode_to_result.ensures((o,), r),
                    Err(c) => r is Err && (E::obeys_from_spec() ==> r == Err::<T, E>(E::from_spec(c))),
                },
    {
        let found = self.find_extension(func_id);
        let encoded = input.encode();
        self.extension_calls.push((func_id, encoded));
        assert(self.extension_calls() =~= old(self).extension_calls().push((func_id, input.encoded())));
        let empty: Vec<u8> = Vec::new();
        let (status, output) = match found {
            Some(i) => (self.extensions[i].status, self.extensions[i].output.as_slice()),
            None => {
                assert(empty@ =~= Seq::<u8>::empty());
                (UNKNOWN_EXTENSION, empty.as_slice())
            },
        };
        assert(forall|s: Result<(), ErrorCode>|
            #[trigger] status_to_result.ensures((status,), s) && s is Ok ==> decode_to_result.requires((output,)));
        dispatch_extension_output(status, output, status_to_result, decode_to_result)
    }

    /// The account that called the running execution.
    pub fn caller(&mut self) -> (r: Result<AccountId, EnvError>)
        ensures
            *final(self) == *old(self),
            r == Ok::<AccountId, EnvError>(old(self).context().caller),
    {
        Ok(self.context.caller)
    }

    /// The value transferred along with the running execution.
    pub fn transferred_balance(&mut self) -> (r: Result<Balance, EnvError>)
        ensures
            *final(self) == *old(self),
            r == Ok::<Balance, EnvError>(old(self).context().transferred),
    {
        Ok(self.context.transferred)
    }

    /// The price of `gas` units of gas.
    pub fn weight_to_fee(&mut self, gas: u64) -> (r: Result<Balance, EnvError>)
        ensures
            *final(self) == *old(self),
            r == Ok::<Balance, EnvError>((gas * old(self).context().gas_price) as Balance),
    {
        let price = self.context.gas_price as u128;
        let g = gas as u128;
        assert(g * price <= 0xffff_ffff_ffff_ffffu128 * 0xffff_ffff_ffff_ffffu128) by (nonlinear_arith)
            requires
                g <= 0xffff_ffff_ffff_ffffu128,
                price <= 0xffff_ffff_ffff_ffffu128,
        ;
        Ok(g * price)
    }

    /// The gas left for the running execution.
    pub fn gas_left(&mut self) -> (r: Result<u64, EnvError>)
        ensures
            *final(self) == *old(self),
            r == Ok::<u64, EnvError>(old(self).context().gas_left),
    {
        Ok(self.context.gas_left)
    }

    /// The time stamp of the current block.
    pub fn block_timestamp(&mut self) -> (r: Result<Timestamp, EnvError>)
        ensures
            *final(self) == *old(self),
            r == Ok::<Timestamp, EnvError>(old(self).context().block_timestamp),
    {
        Ok(self.context.block_timestamp)
    }

    /// The address of the executed contract.
    pub fn account_id(&mut self) -> (r: Result<AccountId, EnvError>)
        ensures
            *final(self) == *old(self),
            r == Ok::<AccountId, EnvError>(old(self).context().account_id),
    {
        Ok(self.context.account_id)
    }

    /// The balance of the executed contract.
    pub fn balance(&mut self) -> (r: Result<Balance, EnvError>)
        ensures
            *final(self) == *old(self),
            r == Ok::<Balance, EnvError>(old(self).context().balance),
    {
        Ok(self.context.balance)
    }

    /// The rent allowance of the executed contract.
    pub fn rent_allowance(&mut self) -> (r: Result<Balance, EnvError>)
        ensures
            *final(self) == *old(self),
            r == Ok::<Balance, EnvError>(old(self).context().rent_allowance),
    {
        Ok(self.context.rent_allowance)
    }

    /// The number of the current block.
    pub fn block_number(&mut self) -> (r: Result<BlockNumber, EnvError>)
        ensures
            *final(self) == *old(self),
            r == Ok::<BlockNumber, EnvError>(old(self).context().block_number),
    {
        Ok(self.context.block_number)
    }

    /// The least balance that an account must hold.
    pub fn minimum_balance(&mut self) -> (r: Result<Balance, EnvError>)
        ensures
            *final(self) == *old(self),
            r == Ok::<Balance, EnvError>(old(self).context().minimum_balance),
    {
        Ok(self.context.minimum_balance)
    }

    /// The deposit that a tombstone of this chain costs.
    pub fn tombstone_deposit(&mut self) -> (r: Result<Balance, EnvError>)
        ensures
            *final(self) == *old(self),
            r == Ok::<Balance, EnvError>(old(self).context().tombstone_deposit),
    {
        Ok(self.context.tombstone_deposit)
    }

    /// Sets the rent allowance of the executed contract.
    pub fn set_rent_allowance(&mut self, new_value: Balance)
        requires
            old(self).wf(),
        ensures
            final(self).wf(),
            final(self).context() == (ExecContext { rent_allowance: new_value, ..old(self).context() }),
            final(self).same_start(old(self)),
            final(self).transfers() == old(self).transfers(),
            final(self).events() == old(self).events(),
            final(self).calls() == old(self).calls(),
            forall|k: Seq<u8>| #[trigger] final(self).stored(k) == old(self).stored(k),
    {
        self.context.rent_allowance = new_value;
    }

    /// A seed derived from `subject` and the current block, with the block's number.
    pub fn random(&mut self, subject: &[u8]) -> (r: Result<(Hash, BlockNumber), EnvError>)
        ensures
            *final(self) == *old(self),
            r is Ok,
            r->Ok_0.0@ == random_seed(subject@, old(self).context().block_number),
            r->Ok_0.1 == old(self).context().block_number,
    {
        let block = self.context.block_number;
        let mut seed: Vec<u8> = Vec::new();
        seed.extend_from_slice(subject);
        let mut encoded = block.encode();
        seed.append(&mut encoded);
        assert(seed@ =~= subject@ + block.encoded());
        let hash = blake2_of(seed.as_slice());
        Ok((hash, block))
    }
}


impl Engine {
    /// The calls of other contracts made so far, in order.
    pub fn call_log(&self) -> (r: &Vec<CallRecord>)
        ensures
            r@.map_values(|c: CallRecord| c@) == self.calls(),
    {
        &self.calls
    }

    /// The flag word and the bytes that the last finished execution returned.
    pub fn last_output(&self) -> (r: &Option<(u32, Vec<u8>)>)
        ensures
            match *r {
                Some(o) => self.output() == Some((o.0, o.1@)),
                None => self.output() is None,
            },
    {
        &self.output
    }

    /// The chain-extension calls made so far: function id and input bytes.
    pub fn extension_call_log(&self) -> (r: &Vec<(u32, Vec<u8>)>)
        ensures
            r@.map_values(|c: (u32, Vec<u8>)| (c.0, c.1@)) == self.extension_calls(),
    {
        &self.extension_calls
    }

    /// The transfers made so far: destination and value.
    pub fn transfer_log(&self) -> (r: &Vec<(AccountId, Balance)>)
        ensures
            r@.map_values(|t: (AccountId, Balance)| (t.0@, t.1)) == self.transfers(),
    {
        &self.transfers
    }

    /// The lines printed so far.
    pub fn printed_lines(&self) -> (r: &Vec<String>)
        ensures
            r@.map_values(|s: String| s@) == self.printed(),
    {
        &self.printed
    }
}

impl Engine {
    /// Ends the executed contract for good: all of its storage is removed,
    /// the writes of the running execution included, and its whole balance
    /// goes to `beneficiary`. Contracts that the execution instantiated stay.
    pub fn terminate_contract(&mut self, beneficiary: AccountId)
        requires
            old(self).wf(),
        ensures
            final(self).wf(),
            final(self).no_pending_writes(),
            forall|k: Seq<u8>| #[trigger] final(self).stored(k) == None::<Seq<u8>>,
            final(self).context().balance == 0,
            final(self).transfers() == old(self).transfers().push(
                (beneficiary@, old(self).context().balance),
            ),
            final(self).calls() == old(self).calls(),
            final(self).at_execution_start(),
            forall|id: Seq<u8>| #[trigger] final(self).contract_reply(id) == old(self).contract_reply(id),
    {
        let remaining = self.context.balance;
        self.committed = Table::new();
        self.pending = Table::new();
        self.context.balance = 0;
        self.transfers.push((beneficiary, remaining));
        merge_tables(&mut self.contracts, &mut self.pending_contracts);
        self.start_context = self.context;
        self.start_transfers = self.transfers.len();
        self.start_events = self.events.len();
        assert(self.pending@ =~= Map::<Seq<u8>, Option<Seq<u8>>>::empty());
        assert(self.transfers() =~= old(self).transfers().push((beneficiary@, remaining)));
        assert(self.transfers() =~= self.transfers_at_start());
        assert(self.events() =~= self.events_at_start());
        assert forall|k: Seq<u8>| #[trigger] self.stored(k) == self.committed_value(k) by {
            assert(!self.pending@.contains_key(k));
        }
        assert forall|id: Seq<u8>| #[trigger] self.contract_reply(id) == self.committed_contract(id) by {
            assert(!self.pending_contracts@.contains_key(id));
        }
    }
}

impl Engine {
    /// Hands the event's topics and its encoding to the host.
    pub fn emit_event<Event: Topics + Codec>(&mut self, event: Event)
        requires
            old(self).wf(),
        ensures
            final(self).wf(),
            final(self).events() == old(self).events().push((event.topics_of(), event.encoded())),
            final(self).calls() == old(self).calls(),
            final(self).same_start(old(self)),
            final(self).context() == old(self).context(),
            final(self).transfers() == old(self).transfers(),
            forall|k: Seq<u8>| #[trigger] final(self).stored(k) == old(self).stored(k),
    {
        let topics = event.topics();
        let payload = event.encode();
        self.events.push((topics, payload));
        assert(self.events() =~= old(self).events().push((event.topics_of(), event.encoded())));
        assert(self.events_at_start() =~= old(self).events_at_start());
    }

    /// The events emitted so far: topics and encoded payload.
    pub fn event_log(&self) -> (r: &Vec<(Vec<Hash>, Vec<u8>)>)
        ensures
            r@.map_values(|e: (Vec<Hash>, Vec<u8>)| (e.0@.map_values(|t: Hash| t@), e.1@)) == self.events(),
    {
        &self.events
    }
}

/// Reading a key back after writing a value under it gives the value, and
/// reading it after clearing it gives nothing.
///
/// `set_contract_storage` leaves the key holding the value's encoding and
/// `clear_contract_storage` leaves it holding nothing; `get_contract_storage`
/// returns `read_result` of what the key holds.
pub proof fn lemma_storage_round_trip<V: Codec>(engine: Engine, key: Key, value: V)
    ensures
        engine.stored(key@) == Some(value.encoded()) ==> read_result::<V>(engine.stored(key@))
            == Ok::<Option<V>, EnvError>(Some(value)),
        engine.stored(key@) == None::<Seq<u8>> ==> read_result::<V>(engine.stored(key@))
            == Ok::<Option<V>, EnvError>(None),
{
    V::lemma_decode_encoded(value);
}

/// A return with the reverted bit leaves the host as it was when the
/// execution began, whatever the execution did: storage, instantiated
/// contracts, the context, transfers and events. A return without it keeps
/// every change.
///
/// `start` is the host as the execution began, `running` the host when the
/// execution returns (every operation of an execution keeps what it began
/// from), and `after` the host as `return_value` with `flags` leaves it.
pub proof fn lemma_return_rollback(start: Engine, running: Engine, after: Engine, flags: ReturnFlags)
    requires
        start.at_execution_start(),
        running.same_start(&start),
        is_reverted(flags@) ==> {
            &&& forall|k: Seq<u8>| #[trigger] after.stored(k) == running.committed_value(k)
            &&& forall|id: Seq<u8>| #[trigger] after.contract_reply(id) == running.committed_contract(id)
            &&& after.context() == running.start_context()
            &&& after.transfers() == running.transfers_at_start()
            &&& after.events() == running.events_at_start()
        },
        !is_reverted(flags@) ==> {
            &&& forall|k: Seq<u8>| #[trigger] after.stored(k) == running.stored(k)
            &&& forall|id: Seq<u8>| #[trigger] after.contract_reply(id) == running.contract_reply(id)
            &&& after.context() == running.context()
            &&& after.transfers() == running.transfers()
            &&& after.events() == running.events()
        },
    ensures
        is_reverted(flags@) ==> {
            &&& forall|k: Seq<u8>| #[trigger] after.stored(k) == start.stored(k)
            &&& forall|id: Seq<u8>| #[trigger] after.contract_reply(id) == start.contract_reply(id)
            &&& after.context() == start.context()
            &&& after.transfers() == start.transfers()
            &&& after.events() == start.events()
        },
        !is_reverted(flags@) ==> {
            &&& forall|k: Seq<u8>| #[trigger] after.stored(k) == running.stored(k)
            &&& after.context() == running.context()
            &&& after.transfers() == running.transfers()
            &&& after.events() == running.events()
        },
{
    if is_reverted(flags@) {
        assert forall|k: Seq<u8>| #[trigger] after.stored(k) == start.stored(k) by {
            assert(start.stored(k) == start.committed_value(k));
            assert(running.committed_value(k) == start.committed_value(k));
        }
        assert forall|id: Seq<u8>| #[trigger] after.contract_reply(id) == start.contract_reply(id) by {
            assert(start.contract_reply(id) == start.committed_contract(id));
            assert(running.committed_contract(id) == start.committed_contract(id));
        }
    }
}

/// Invoking and evaluating a contract with the same parameters from the same
/// host state have the same effects on the host: the same call is logged and
/// nothing else changes. They differ only in what they return.
pub proof fn lemma_invoke_eval_same_effects<Args: Codec>(
    start: Engine,
    after_invoke: Engine,
    after_eval: Engine,
    params: CallParams<Args>,
)
    requires
        after_invoke.made_call(&start, call_record(params)),
        after_eval.made_call(&start, call_record(params)),
    ensures
        after_invoke.calls() == after_eval.calls(),
        after_invoke.calls().last() == call_record(params),
        forall|k: Seq<u8>| #[trigger] after_invoke.stored(k) == after_eval.stored(k),
        forall|k: Seq<u8>| #[trigger] after_invoke.committed_value(k) == after_eval.committed_value(k),
        forall|id: Seq<u8>| #[trigger] after_invoke.contract_reply(id) == after_eval.contract_reply(id),
        after_invoke.output() == after_eval.output(),
        after_invoke.extension_calls() == after_eval.extension_calls(),
        after_invoke.transfers() == after_eval.transfers(),
        after_invoke.context() == after_eval.context(),
{
}

} // verus!
