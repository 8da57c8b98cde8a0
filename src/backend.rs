use vstd::prelude::*;
use vstd::std_specs::convert::FromSpec;
use crate::codec::Codec;
use crate::engine::{
    address_seed, call_outcome, call_input, call_record, decode_result, random_seed, read_result,
    AccountId, Balance, BlockNumber, CallParams, CreateParams, Engine, EnvError, ExecContext,
    Timestamp, Topics,
};
use crate::hashing::blake2_256_of;
use crate::flags::{is_reverted, ReturnFlags};
use crate::hashing::CryptoHash;
use crate::storage::Key;

verus! {

/// Environmental contract functionality that does not depend on the chain's
/// types: storage, input, return, logging, hashing and chain extensions.
pub trait EnvBackend: Sized {
    /// The backend's own invariant.
    spec fn backend_wf(&self) -> bool;

    /// The bytes under `k`, as the running execution sees them.
    spec fn slot(&self, k: Seq<u8>) -> Option<Seq<u8>>;

    /// The bytes under `k` when the execution began.
    spec fn slot_at_start(&self, k: Seq<u8>) -> Option<Seq<u8>>;

    /// The execution's input buffer.
    spec fn input_buffer(&self) -> Seq<u8>;

    /// The running execution has not interacted with the host yet.
    spec fn untouched(&self) -> bool;

    /// The flag word and bytes that the last finished execution returned.
    spec fn returned(&self) -> Option<(u32, Seq<u8>)>;

    /// The diagnostic lines recorded so far.
    spec fn log(&self) -> Seq<Seq<char>>;

    /// The status and output buffer with which the host answers the chain
    /// extension `id`.
    spec fn extension_answer(&self, id: u32) -> (u32, Seq<u8>);

    /// Writes the value to the contract storage under the given key.
    fn set_contract_storage<V: Codec>(&mut self, key: &Key, value: &V)
        requires
            old(self).backend_wf(),
        ensures
            final(self).backend_wf(),
            forall|k: Seq<u8>|
                #[trigger] final(self).slot(k) == if k == key@ {
                    Some(value.encoded())
                } else {
                    old(self).slot(k)
                },
    ;

    /// Returns the value under the given key, if any; fails where the stored
    /// bytes do not decode as `R`.
    fn get_contract_storage<R: Codec>(&mut self, key: &Key) -> (r: Result<Option<R>, EnvError>)
        requires
            old(self).backend_wf(),
        ensures
            final(self).backend_wf(),
            r == read_result::<R>(old(self).slot(key@)),
            forall|k: Seq<u8>| #[trigger] final(self).slot(k) == old(self).slot(k),
    ;

    /// Clears the contract's storage entry under the given key.
    fn clear_contract_storage(&mut self, key: &Key)
        requires
            old(self).backend_wf(),
        ensures
            final(self).backend_wf(),
            forall|k: Seq<u8>|
                #[trigger] final(self).slot(k) == if k == key@ {
                    None
                } else {
                    old(self).slot(k)
                },
    ;

    /// Decodes the execution's input as `T`; the first interaction of an
    /// execution with the host.
    fn decode_input<T: Codec>(&mut self) -> (r: Result<T, EnvError>)
        requires
            old(self).untouched(),
        ensures
            r == decode_result::<T>(old(self).input_buffer()),
    ;

    /// Ends the execution and returns the encoded value with the given flags;
    /// with the reverted bit storage is as it was when the execution began.
    fn return_value<R: Codec>(&mut self, flags: ReturnFlags, return_value: &R)
        requires
            old(self).backend_wf(),
        ensures
            final(self).backend_wf(),
            final(self).returned() == Some((flags@, return_value.encoded())),
            forall|k: Seq<u8>|
                #[trigger] final(self).slot(k) == if is_reverted(flags@) {
                    old(self).slot_at_start(k)
                } else {
                    old(self).slot(k)
                },
    ;

    /// Records the given text in the diagnostic log; never fails.
    fn println(&mut self, content: &str)
        requires
            old(self).backend_wf(),
        ensures
            final(self).backend_wf(),
            final(self).log() == old(self).log().push(content@),
    ;

    /// Writes the digest of `input` under `H` into `output`.
    fn hash_bytes<H: CryptoHash>(&mut self, input: &[u8], output: &mut [u8; 32])
        ensures
            final(output)@ == H::digest(input@),
    ;

    /// Writes the digest of the encoding of `input` under `H` into `output`.
    fn hash_encoded<H: CryptoHash, T: Codec>(&mut self, input: &T, output: &mut [u8; 32])
        ensures
            final(output)@ == H::digest(input.encoded()),
    ;

    /// Calls the chain extension `func_id`: `status_to_result` maps the
    /// host's status, and only on success `decode_to_result` decodes the
    /// host's output buffer.
    fn call_chain_extension<I: Codec, T, E, ErrorCode, F, D>(
        &mut self,
        func_id: u32,
        input: &I,
        status_to_result: F,
        decode_to_result: D,
    ) -> (r: Result<T, E>) where
        E: From<ErrorCode>,
        F: FnOnce(u32) -> Result<(), ErrorCode>,
        D: FnOnce(&[u8]) -> Result<T, E>,

        requires
            old(self).backend_wf(),
            status_to_result.requires((old(self).extension_answer(func_id).0,)),
            forall|s: Result<(), ErrorCode>, o: &[u8]|
                #[trigger] status_to_result.ensures((old(self).extension_answer(func_id).0,), s) && s is Ok
                    && o@ == old(self).extension_answer(func_id).1 ==> #[trigger] decode_to_result.requires((o,)),
        ensures
            final(self).backend_wf(),
            exists|s: Result<(), ErrorCode>|
                #[trigger] status_to_result.ensures((old(self).extension_answer(func_id).0,), s) && match s {
                    Ok(_) => exists|o: &[u8]|
                        o@ == old(self).extension_answer(func_id).1 && #[trigger] decode_to_result.ensures((o,), r),
                    Err(c) => r is Err && (E::obeys_from_spec() ==> r == Err::<T, E>(E::from_spec(c))),
                },
    ;
}

impl EnvBackend for Engine {
    open spec fn backend_wf(&self) -> bool {
        self.wf()
    }

    open spec fn slot(&self, k: Seq<u8>) -> Option<Seq<u8>> {
        self.stored(k)
    }

    open spec fn slot_at_start(&self, k: Seq<u8>) -> Option<Seq<u8>> {
        self.committed_value(k)
    }

    open spec fn input_buffer(&self) -> Seq<u8> {
        self.input_bytes()
    }

    open spec fn untouched(&self) -> bool {
        self.at_execution_start()
    }

    open spec fn returned(&self) -> Option<(u32, Seq<u8>)> {
        self.output()
    }

    open spec fn log(&self) -> Seq<Seq<char>> {
        self.printed()
    }

    open spec fn extension_answer(&self, id: u32) -> (u32, Seq<u8>) {
        (self.extension_status(id), self.extension_output(id))
    }

    fn set_contract_storage<V: Codec>(&mut self, key: &Key, value: &V) {
        Engine::set_contract_storage(self, key, value)
    }

    fn get_contract_storage<R: Codec>(&mut self, key: &Key) -> (r: Result<Option<R>, EnvError>) {
        Engine::get_contract_storage(self, key)
    }

    fn clear_contract_storage(&mut self, key: &Key) {
        Engine::clear_contract_storage(self, key)
    }

    fn decode_input<T: Codec>(&mut self) -> (r: Result<T, EnvError>) {
        Engine::decode_input(self)
    }

    fn return_value<R: Codec>(&mut self, flags: ReturnFlags, return_value: &R) {
        Engine::return_value(self, flags, return_value)
    }

    fn println(&mut self, content: &str) {
        Engine::println(self, content)
    }

    fn hash_bytes<H: CryptoHash>(&mut self, input: &[u8], output: &mut [u8; 32]) {
        Engine::hash_bytes::<H>(self, input, output)
    }

    fn hash_encoded<H: CryptoHash, T: Codec>(&mut self, input: &T, output: &mut [u8; 32]) {
        Engine::hash_encoded::<H, T>(self, input, output)
    }

    fn call_chain_extension<I: Codec, T, E, ErrorCode, F, D>(
        &mut self,
        func_id: u32,
        input: &I,
        status_to_result: F,
        decode_to_result: D,
    ) -> (r: Result<T, E>) where
        E: From<ErrorCode>,
        F: FnOnce(u32) -> Result<(), ErrorCode>,
        D: FnOnce(&[u8]) -> Result<T, E>,
     {
        Engine::call_chain_extension(self, func_id, input, status_to_result, decode_to_result)
    }
}


/// Environmental contract functionality over the chain's types: the
/// execution's context, events, calls of other contracts, instantiation,
/// transfers, termination and randomness.
pub trait TypedEnvBackend: EnvBackend {
    /// What the host tells the execution about its surroundings.
    spec fn ctx(&self) -> ExecContext;

    /// The stored answer of the contract at `id`, if a contract is there.
    spec fn callee_entry(&self, id: Seq<u8>) -> Option<Seq<u8>>;

    /// The calls of other contracts made so far.
    spec fn host_calls(&self) -> Seq<(Seq<u8>, u64, Balance, Seq<u8>)>;

    /// The transfers made so far.
    spec fn transfer_record(&self) -> Seq<(Seq<u8>, Balance)>;

    /// The events emitted so far.
    spec fn event_record(&self) -> Seq<(Seq<Seq<u8>>, Seq<u8>)>;

    fn caller(&mut self) -> (r: Result<AccountId, EnvError>)
        ensures
            r == Ok::<AccountId, EnvError>(old(self).ctx().caller),
    ;

    fn transferred_balance(&mut self) -> (r: Result<Balance, EnvError>)
        ensures
            r == Ok::<Balance, EnvError>(old(self).ctx().transferred),
    ;

    fn weight_to_fee(&mut self, gas: u64) -> (r: Result<Balance, EnvError>)
        ensures
            r == Ok::<Balance, EnvError>((gas * old(self).ctx().gas_price) as Balance),
    ;

    fn gas_left(&mut self) -> (r: Result<u64, EnvError>)
        ensures
            r == Ok::<u64, EnvError>(old(self).ctx().gas_left),
    ;

    fn block_timestamp(&mut self) -> (r: Result<Timestamp, EnvError>)
        ensures
            r == Ok::<Timestamp, EnvError>(old(self).ctx().block_timestamp),
    ;

    fn account_id(&mut self) -> (r: Result<AccountId, EnvError>)
        ensures
            r == Ok::<AccountId, EnvError>(old(self).ctx().account_id),
    ;

    fn balance(&mut self) -> (r: Result<Balance, EnvError>)
        ensures
            r == Ok::<Balance, EnvError>(old(self).ctx().balance),
    ;

    fn rent_allowance(&mut self) -> (r: Result<Balance, EnvError>)
        ensures
            r == Ok::<Balance, EnvError>(old(self).ctx().rent_allowance),
    ;

    fn block_number(&mut self) -> (r: Result<BlockNumber, EnvError>)
        ensures
            r == Ok::<BlockNumber, EnvError>(old(self).ctx().block_number),
    ;

    fn minimum_balance(&mut self) -> (r: Result<Balance, EnvError>)
        ensures
            r == Ok::<Balance, EnvError>(old(self).ctx().minimum_balance),
    ;

    fn tombstone_deposit(&mut self) -> (r: Result<Balance, EnvError>)
        ensures
            r == Ok::<Balance, EnvError>(old(self).ctx().tombstone_deposit),
    ;

    fn emit_event<Event: Topics + Codec>(&mut self, event: Event)
        requires
            old(self).backend_wf(),
        ensures
            final(self).backend_wf(),
            final(self).event_record() == old(self).event_record().push((event.topics_of(), event.encoded())),
    ;

    fn set_rent_allowance(&mut self, new_value: Balance)
        requires
            old(self).backend_wf(),
        ensures
            final(self).backend_wf(),
            final(self).ctx() == (ExecContext { rent_allowance: new_value, ..old(self).ctx() }),
    ;

    fn invoke_contract<Args: Codec>(&mut self, call_data: &CallParams<Args>) -> (r: Result<(), EnvError>)
        requires
            old(self).backend_wf(),
        ensures
            final(self).backend_wf(),
            final(self).host_calls() == old(self).host_calls().push(call_record(*call_data)),
            r == match call_outcome(old(self).callee_entry(call_data.callee@)) {
                Ok(_) => Ok::<(), EnvError>(()),
                Err(e) => Err(e),
            },
    ;

    fn eval_contract<Args: Codec, R: Codec>(&mut self, call_data: &CallParams<Args>) -> (r: Result<R, EnvError>)
        requires
            old(self).backend_wf(),
        ensures
            final(self).backend_wf(),
            final(self).host_calls() == old(self).host_calls().push(call_record(*call_data)),
            r == match call_outcome(old(self).callee_entry(call_data.callee@)) {
                Ok(b) => decode_result::<R>(b),
                Err(e) => Err(e),
            },
    ;

    fn instantiate_contract<Args: Codec>(&mut self, params: &CreateParams<Args>) -> (r: Result<AccountId, EnvError>)
        requires
            old(self).backend_wf(),
        ensures
            final(self).backend_wf(),
            params.endowment > old(self).ctx().balance ==> r == Err::<AccountId, EnvError>(
                EnvError::TransferFailed,
            ),
            params.endowment <= old(self).ctx().balance ==> {
                &&& r is Ok
                &&& r->Ok_0@ == blake2_256_of(
                    address_seed(old(self).ctx().account_id, params.code_hash, params.salt@),
                )
                &&& final(self).host_calls() == old(self).host_calls().push(
                    (r->Ok_0@, params.gas_limit, params.endowment, call_input(params.selector, params.args)),
                )
            },
    ;

    fn terminate_contract(&mut self, beneficiary: AccountId)
        requires
            old(self).backend_wf(),
        ensures
            final(self).backend_wf(),
            forall|k: Seq<u8>| #[trigger] final(self).slot(k) == None::<Seq<u8>>,
            final(self).transfer_record() == old(self).transfer_record().push(
                (beneficiary@, old(self).ctx().balance),
            ),
    ;

    fn transfer(&mut self, destination: AccountId, value: Balance) -> (r: Result<(), EnvError>)
        requires
            old(self).backend_wf(),
        ensures
            final(self).backend_wf(),
            value > old(self).ctx().balance ==> r == Err::<(), EnvError>(EnvError::TransferFailed),
            value <= old(self).ctx().balance ==> r == Ok::<(), EnvError>(())
                && final(self).transfer_record() == old(self).transfer_record().push((destination@, value)),
    ;

    fn random(&mut self, subject: &[u8]) -> (r: Result<([u8; 32], BlockNumber), EnvError>)
        ensures
            r is Ok,
            r->Ok_0.0@ == random_seed(subject@, old(self).ctx().block_number),
            r->Ok_0.1 == old(self).ctx().block_number,
    ;
}

impl TypedEnvBackend for Engine {
    open spec fn ctx(&self) -> ExecContext {
        self.context()
    }

    open spec fn callee_entry(&self, id: Seq<u8>) -> Option<Seq<u8>> {
        self.contract_reply(id)
    }

    open spec fn host_calls(&self) -> Seq<(Seq<u8>, u64, Balance, Seq<u8>)> {
        self.calls()
    }

    open spec fn transfer_record(&self) -> Seq<(Seq<u8>, Balance)> {
        self.transfers()
    }

    open spec fn event_record(&self) -> Seq<(Seq<Seq<u8>>, Seq<u8>)> {
        self.events()
    }

    fn caller(&mut self) -> (r: Result<AccountId, EnvError>) {
        Engine::caller(self)
    }

    fn transferred_balance(&mut self) -> (r: Result<Balance, EnvError>) {
        Engine::transferred_balance(self)
    }

    fn weight_to_fee(&mut self, gas: u64) -> (r: Result<Balance, EnvError>) {
        Engine::weight_to_fee(self, gas)
    }

    fn gas_left(&mut self) -> (r: Result<u64, EnvError>) {
        Engine::gas_left(self)
    }

    fn block_timestamp(&mut self) -> (r: Result<Timestamp, EnvError>) {
        Engine::block_timestamp(self)
    }

    fn account_id(&mut self) -> (r: Result<AccountId, EnvError>) {
        Engine::account_id(self)
    }

    fn balance(&mut self) -> (r: Result<Balance, EnvError>) {
        Engine::balance(self)
    }

    fn rent_allowance(&mut self) -> (r: Result<Balance, EnvError>) {
        Engine::rent_allowance(self)
    }

    fn block_number(&mut self) -> (r: Result<BlockNumber, EnvError>) {
        Engine::block_number(self)
    }

    fn minimum_balance(&mut self) -> (r: Result<Balance, EnvError>) {
        Engine::minimum_balance(self)
    }

    fn tombstone_deposit(&mut self) -> (r: Result<Balance, EnvError>) {
        Engine::tombstone_deposit(self)
    }

    fn emit_event<Event: Topics + Codec>(&mut self, event: Event) {
        Engine::emit_event(self, event)
    }

    fn set_rent_allowance(&mut self, new_value: Balance) {
        Engine::set_rent_allowance(self, new_value)
    }

    fn invoke_contract<Args: Codec>(&mut self, call_data: &CallParams<Args>) -> (r: Result<(), EnvError>) {
        Engine::invoke_contract(self, call_data)
    }

    fn eval_contract<Args: Codec, R: Codec>(&mut self, call_data: &CallParams<Args>) -> (r: Result<R, EnvError>) {
        Engine::eval_contract(self, call_data)
    }

    fn instantiate_contract<Args: Codec>(&mut self, params: &CreateParams<Args>) -> (r: Result<AccountId, EnvError>) {
        Engine::instantiate_contract(self, params)
    }

    fn terminate_contract(&mut self, beneficiary: AccountId) {
        Engine::terminate_contract(self, beneficiary)
    }

    fn transfer(&mut self, destination: AccountId, value: Balance) -> (r: Result<(), EnvError>) {
        Engine::transfer(self, destination, value)
    }

    fn random(&mut self, subject: &[u8]) -> (r: Result<([u8; 32], BlockNumber), EnvError>) {
        Engine::random(self, subject)
    }
}

} // verus!
