use ink_env::{
    dispatch_extension_output, Blake2x256, CallParams, Codec, CreateParams, CryptoHash, Engine,
    EnvError, ExecContext, Key, ReturnFlags, Sha2x256, UNKNOWN_EXTENSION,
};

fn context() -> ExecContext {
    ExecContext {
        caller: [1u8; 32],
        account_id: [2u8; 32],
        transferred: 10,
        balance: 1_000,
        gas_left: 5_000,
        gas_price: 3,
        block_number: 7,
        block_timestamp: 1_600_000_000,
        minimum_balance: 100,
        tombstone_deposit: 50,
        rent_allowance: 20,
    }
}

#[derive(Debug, PartialEq)]
enum ExtError {
    Status(u32),
    Decode,
}

impl From<u32> for ExtError {
    fn from(code: u32) -> Self {
        ExtError::Status(code)
    }
}

#[test]
fn return_flags_default_is_zero() {
    assert_eq!(ReturnFlags::default().into_u32(), 0);
}

#[test]
fn return_flags_set_and_clear_reverted() {
    let set = ReturnFlags::default().set_reverted(true);
    assert_eq!(set.into_u32(), 1);
    let twice = ReturnFlags::default().set_reverted(true).set_reverted(true);
    assert_eq!(twice.into_u32(), 1);
    let cleared = ReturnFlags::default().set_reverted(true).set_reverted(false);
    assert_eq!(cleared.into_u32(), 0);
    let never = ReturnFlags::default().set_reverted(false);
    assert_eq!(never.into_u32(), 0);
}

#[test]
fn codec_encodes_little_endian() {
    assert_eq!(42u32.encode(), vec![42, 0, 0, 0]);
    assert_eq!(0x0102_0304u32.encode(), vec![4, 3, 2, 1]);
    assert_eq!(1u64.encode(), vec![1, 0, 0, 0, 0, 0, 0, 0]);
    assert_eq!(258u128.encode().len(), 16);
    assert_eq!(<u32 as Codec>::decode(&[4, 3, 2, 1, 9]), Some(0x0102_0304u32));
    assert_eq!(<u32 as Codec>::decode(&[4, 3, 2]), None);
    assert_eq!(<u128 as Codec>::decode(&258u128.encode()), Some(258u128));
}

#[test]
fn storage_scenario_u32() {
    let mut engine = Engine::new(context());
    let k = Key([0u8; 32]);
    engine.set_contract_storage(&k, &42u32);
    assert_eq!(engine.get_contract_storage::<u32>(&k), Ok(Some(42)));
    let never = Key([9u8; 32]);
    assert_eq!(engine.get_contract_storage::<u32>(&never), Ok(None));
    assert_eq!(engine.get_contract_storage::<u64>(&k), Err(EnvError::DecodeFailed));
}

#[test]
fn storage_overwrite_and_clear() {
    let mut engine = Engine::new(context());
    let k = Key([3u8; 32]);
    engine.set_contract_storage(&k, &7u64);
    engine.set_contract_storage(&k, &8u64);
    assert_eq!(engine.get_contract_storage::<u64>(&k), Ok(Some(8)));
    engine.clear_contract_storage(&k);
    assert_eq!(engine.get_contract_storage::<u64>(&k), Ok(None));
    engine.clear_contract_storage(&k);
    assert_eq!(engine.get_contract_storage::<u64>(&k), Ok(None));
}

#[test]
fn reverted_return_discards_writes() {
    let mut engine = Engine::new(context());
    let a = Key([1u8; 32]);
    let b = Key([2u8; 32]);
    engine.set_contract_storage(&a, &1u32);
    engine.return_value(ReturnFlags::default(), &0u32);
    assert_eq!(engine.get_contract_storage::<u32>(&a), Ok(Some(1)));

    engine.set_input(vec![]);
    engine.set_contract_storage(&a, &2u32);
    engine.set_contract_storage(&b, &3u32);
    engine.clear_contract_storage(&a);
    engine.return_value(ReturnFlags::default().set_reverted(true), &5u32);
    assert_eq!(engine.get_contract_storage::<u32>(&a), Ok(Some(1)));
    assert_eq!(engine.get_contract_storage::<u32>(&b), Ok(None));
    assert_eq!(engine.last_output(), &Some((1u32, vec![5, 0, 0, 0])));
}

#[test]
fn non_reverted_return_keeps_writes() {
    let mut engine = Engine::new(context());
    let a = Key([1u8; 32]);
    engine.set_contract_storage(&a, &1u32);
    engine.return_value(ReturnFlags::default().set_reverted(false), &9u64);
    engine.set_input(vec![]);
    engine.set_contract_storage(&a, &2u32);
    engine.return_value(ReturnFlags::default().set_reverted(true).set_reverted(false), &9u64);
    assert_eq!(engine.get_contract_storage::<u32>(&a), Ok(Some(2)));
    assert_eq!(engine.last_output(), &Some((0u32, vec![9, 0, 0, 0, 0, 0, 0, 0])));
}

#[test]
fn decode_input_reads_and_reports_failure() {
    let mut engine = Engine::new(context());
    engine.set_input(vec![0xde, 0xad, 0xbe, 0xef, 1]);
    assert_eq!(engine.decode_input::<u32>(), Ok(0xefbe_adde));
    assert_eq!(engine.decode_input::<u64>(), Err(EnvError::DecodeFailed));
}

#[test]
fn println_never_fails() {
    let mut engine = Engine::new(context());
    engine.println("hello");
    engine.println("");
    assert_eq!(engine.printed_lines(), &vec!["hello".to_string(), "".to_string()]);
}

#[test]
fn hash_bytes_is_deterministic_sha2() {
    let mut engine = Engine::new(context());
    let mut first = [0u8; 32];
    let mut second = [0xffu8; 32];
    engine.hash_bytes::<Sha2x256>(b"abc", &mut first);
    engine.hash_bytes::<Sha2x256>(b"abc", &mut second);
    assert_eq!(first, second);
    let expected: [u8; 32] = [
        0xba, 0x78, 0x16, 0xbf, 0x8f, 0x01, 0xcf, 0xea, 0x41, 0x41, 0x40, 0xde, 0x5d, 0xae, 0x22,
        0x23, 0xb0, 0x03, 0x61, 0xa3, 0x96, 0x17, 0x7a, 0x9c, 0xb4, 0x10, 0xff, 0x61, 0xf2, 0x00,
        0x15, 0xad,
    ];
    assert_eq!(first, expected);
}

#[test]
fn hash_bytes_blake2_known_value() {
    let mut out = [0u8; 32];
    Blake2x256::hash(&[], &mut out);
    let expected: [u8; 32] = [
        0x0e, 0x57, 0x51, 0xc0, 0x26, 0xe5, 0x43, 0xb2, 0xe8, 0xab, 0x2e, 0xb0, 0x60, 0x99, 0xda,
        0xa1, 0xd1, 0xe5, 0xdf, 0x47, 0x77, 0x8f, 0x77, 0x87, 0xfa, 0xab, 0x45, 0xcd, 0xf1, 0x2f,
        0xe3, 0xa8,
    ];
    assert_eq!(out, expected);
}

#[test]
fn hash_encoded_hashes_the_encoding() {
    let mut engine = Engine::new(context());
    let mut from_value = [0u8; 32];
    let mut from_bytes = [0u8; 32];
    engine.hash_encoded::<Blake2x256, u32>(&42u32, &mut from_value);
    engine.hash_bytes::<Blake2x256>(&[42, 0, 0, 0], &mut from_bytes);
    assert_eq!(from_value, from_bytes);
    let mut other = [0u8; 32];
    engine.hash_encoded::<Blake2x256, u32>(&43u32, &mut other);
    assert_ne!(from_value, other);
}

#[test]
fn extension_error_status_skips_decoding() {
    let r: Result<u32, ExtError> = dispatch_extension_output(
        3,
        &[1, 0, 0, 0],
        |s: u32| if s == 0 { Ok(()) } else { Err(s) },
        |_out: &[u8]| -> Result<u32, ExtError> { panic!("decoder must not run") },
    );
    assert_eq!(r, Err(ExtError::Status(3)));
}

#[test]
fn extension_success_status_decodes_output() {
    let r: Result<u32, ExtError> = dispatch_extension_output(
        0,
        &[5, 0, 0, 0],
        |s: u32| if s == 0 { Ok(()) } else { Err(s) },
        |out: &[u8]| <u32 as Codec>::decode(out).ok_or(ExtError::Decode),
    );
    assert_eq!(r, Ok(5));
}

#[test]
fn engine_chain_extension_round_trip() {
    let mut engine = Engine::new(context());
    engine.register_chain_extension(11, 0, vec![7, 0, 0, 0]);
    engine.register_chain_extension(12, 4, vec![]);
    let ok: Result<u32, ExtError> = engine.call_chain_extension(
        11,
        &1u32,
        |s: u32| if s == 0 { Ok(()) } else { Err(s) },
        |out: &[u8]| <u32 as Codec>::decode(out).ok_or(ExtError::Decode),
    );
    assert_eq!(ok, Ok(7));
    let failed: Result<u32, ExtError> = engine.call_chain_extension(
        12,
        &2u64,
        |s: u32| if s == 0 { Ok(()) } else { Err(s) },
        |_out: &[u8]| -> Result<u32, ExtError> { panic!("decoder must not run") },
    );
    assert_eq!(failed, Err(ExtError::Status(4)));
    assert_eq!(
        engine.extension_call_log(),
        &vec![(11u32, vec![1, 0, 0, 0]), (12u32, vec![2, 0, 0, 0, 0, 0, 0, 0])]
    );
}

#[test]
fn invoke_and_eval_have_the_same_effects() {
    let callee = [5u8; 32];
    let params = CallParams {
        callee,
        gas_limit: 100,
        transferred_value: 0,
        selector: [0xca, 0xfe, 0xba, 0xbe],
        args: 9u32,
    };
    let mut by_invoke = Engine::new(context());
    by_invoke.deploy_contract(callee, ReturnFlags::default(), vec![6, 0, 0, 0]);
    let mut by_eval = Engine::new(context());
    by_eval.deploy_contract(callee, ReturnFlags::default(), vec![6, 0, 0, 0]);
    assert_eq!(by_invoke.invoke_contract(&params), Ok(()));
    assert_eq!(by_eval.eval_contract::<u32, u32>(&params), Ok(6));
    let a = by_invoke.call_log();
    let b = by_eval.call_log();
    assert_eq!(a.len(), 1);
    assert_eq!(b.len(), 1);
    assert_eq!(a[0].callee, b[0].callee);
    assert_eq!(a[0].gas_limit, 100);
    assert_eq!(a[0].input, vec![0xca, 0xfe, 0xba, 0xbe, 9, 0, 0, 0]);
    assert_eq!(a[0].input, b[0].input);
}

#[test]
fn calling_an_empty_account_fails() {
    let mut engine = Engine::new(context());
    let params = CallParams {
        callee: [8u8; 32],
        gas_limit: 1,
        transferred_value: 0,
        selector: [0, 0, 0, 1],
        args: 0u64,
    };
    assert_eq!(engine.invoke_contract(&params), Err(EnvError::NotCallable));
    assert_eq!(engine.eval_contract::<u64, u32>(&params), Err(EnvError::NotCallable));
    assert_eq!(engine.call_log().len(), 2);
}

#[test]
fn eval_reports_undecodable_reply() {
    let mut engine = Engine::new(context());
    engine.deploy_contract([4u8; 32], ReturnFlags::default(), vec![1, 2]);
    let params = CallParams {
        callee: [4u8; 32],
        gas_limit: 1,
        transferred_value: 0,
        selector: [0, 0, 0, 2],
        args: 0u32,
    };
    assert_eq!(engine.eval_contract::<u32, u32>(&params), Err(EnvError::DecodeFailed));
}

#[test]
fn instantiate_with_distinct_salts_gives_distinct_accounts() {
    let mut engine = Engine::new(context());
    let with_salt = |salt: Vec<u8>| CreateParams {
        code_hash: [7u8; 32],
        gas_limit: 10,
        endowment: 100,
        selector: [1, 2, 3, 4],
        args: 5u32,
        salt,
    };
    let first = engine.instantiate_contract(&with_salt(vec![1])).unwrap();
    let second = engine.instantiate_contract(&with_salt(vec![2])).unwrap();
    assert_ne!(first, second);
    let again = engine.instantiate_contract(&with_salt(vec![1])).unwrap();
    assert_eq!(first, again);
    assert_eq!(engine.balance(), Ok(700));
}

#[test]
fn instantiate_without_funds_fails() {
    let mut engine = Engine::new(context());
    let params = CreateParams {
        code_hash: [7u8; 32],
        gas_limit: 10,
        endowment: 1_001,
        selector: [1, 2, 3, 4],
        args: 5u32,
        salt: vec![],
    };
    assert_eq!(engine.instantiate_contract(&params), Err(EnvError::TransferFailed));
    assert_eq!(engine.balance(), Ok(1_000));
    assert_eq!(engine.call_log().len(), 0);
}

#[test]
fn transfer_moves_value_or_fails() {
    let mut engine = Engine::new(context());
    assert_eq!(engine.transfer([9u8; 32], 400), Ok(()));
    assert_eq!(engine.balance(), Ok(600));
    assert_eq!(engine.transfer([9u8; 32], 601), Err(EnvError::TransferFailed));
    assert_eq!(engine.balance(), Ok(600));
    assert_eq!(engine.transfer_log(), &vec![([9u8; 32], 400u128)]);
}

#[test]
fn context_accessors() {
    let mut engine = Engine::new(context());
    assert_eq!(engine.caller(), Ok([1u8; 32]));
    assert_eq!(engine.account_id(), Ok([2u8; 32]));
    assert_eq!(engine.transferred_balance(), Ok(10));
    assert_eq!(engine.gas_left(), Ok(5_000));
    assert_eq!(engine.block_number(), Ok(7));
    assert_eq!(engine.block_timestamp(), Ok(1_600_000_000));
    assert_eq!(engine.minimum_balance(), Ok(100));
    assert_eq!(engine.tombstone_deposit(), Ok(50));
    assert_eq!(engine.rent_allowance(), Ok(20));
    engine.set_rent_allowance(77);
    assert_eq!(engine.rent_allowance(), Ok(77));
}

#[test]
fn weight_to_fee_multiplies_by_price() {
    let mut engine = Engine::new(context());
    assert_eq!(engine.weight_to_fee(0), Ok(0));
    assert_eq!(engine.weight_to_fee(1_000), Ok(3_000));
    assert_eq!(engine.weight_to_fee(u64::MAX), Ok(u64::MAX as u128 * 3));
}

#[test]
fn random_depends_on_subject() {
    let mut engine = Engine::new(context());
    let (a, block) = engine.random(b"one").unwrap();
    let (b, _) = engine.random(b"one").unwrap();
    let (c, _) = engine.random(b"two").unwrap();
    assert_eq!(block, 7);
    assert_eq!(a, b);
    assert_ne!(a, c);
}

#[test]
fn terminate_removes_storage_and_pays_out() {
    let mut engine = Engine::new(context());
    let k = Key([1u8; 32]);
    engine.set_contract_storage(&k, &1u32);
    engine.return_value(ReturnFlags::default(), &0u32);
    engine.set_contract_storage(&Key([2u8; 32]), &2u32);
    engine.terminate_contract([6u8; 32]);
    assert_eq!(engine.get_contract_storage::<u32>(&k), Ok(None));
    assert_eq!(engine.get_contract_storage::<u32>(&Key([2u8; 32])), Ok(None));
    assert_eq!(engine.balance(), Ok(0));
    assert_eq!(engine.transfer_log(), &vec![([6u8; 32], 1_000u128)]);
}

#[test]
fn reverted_return_undoes_every_change() {
    let mut engine = Engine::new(context());
    engine.set_input(vec![]);
    assert_eq!(engine.transfer([9u8; 32], 300), Ok(()));
    engine.set_rent_allowance(5);
    let params = CreateParams {
        code_hash: [7u8; 32],
        gas_limit: 10,
        endowment: 100,
        selector: [1, 2, 3, 4],
        args: 5u32,
        salt: vec![1],
    };
    let created = engine.instantiate_contract(&params).unwrap();
    engine.return_value(ReturnFlags::default().set_reverted(true), &0u32);
    assert_eq!(engine.balance(), Ok(1_000));
    assert_eq!(engine.rent_allowance(), Ok(20));
    assert_eq!(engine.transfer_log(), &vec![]);
    let call = CallParams {
        callee: created,
        gas_limit: 1,
        transferred_value: 0,
        selector: [0, 0, 0, 0],
        args: 0u32,
    };
    assert_eq!(engine.invoke_contract(&call), Err(EnvError::NotCallable));
}

#[test]
fn kept_return_keeps_every_change() {
    let mut engine = Engine::new(context());
    assert_eq!(engine.transfer([9u8; 32], 300), Ok(()));
    let params = CreateParams {
        code_hash: [7u8; 32],
        gas_limit: 10,
        endowment: 100,
        selector: [1, 2, 3, 4],
        args: 5u32,
        salt: vec![1],
    };
    let created = engine.instantiate_contract(&params).unwrap();
    engine.return_value(ReturnFlags::default(), &0u32);
    engine.return_value(ReturnFlags::default().set_reverted(true), &0u32);
    assert_eq!(engine.balance(), Ok(600));
    assert_eq!(engine.transfer_log(), &vec![([9u8; 32], 300u128)]);
    let call = CallParams {
        callee: created,
        gas_limit: 1,
        transferred_value: 0,
        selector: [0, 0, 0, 0],
        args: 0u32,
    };
    assert_eq!(engine.invoke_contract(&call), Ok(()));
}

#[test]
fn reverting_callee_is_an_error_for_invoke_and_eval() {
    let callee = [5u8; 32];
    let params = CallParams {
        callee,
        gas_limit: 100,
        transferred_value: 0,
        selector: [0xca, 0xfe, 0xba, 0xbe],
        args: 9u32,
    };
    let mut engine = Engine::new(context());
    engine.deploy_contract(callee, ReturnFlags::default().set_reverted(true), vec![6, 0, 0, 0]);
    assert_eq!(engine.invoke_contract(&params), Err(EnvError::CalleeReverted));
    assert_eq!(engine.eval_contract::<u32, u32>(&params), Err(EnvError::CalleeReverted));
    assert_eq!(engine.call_log().len(), 2);
    assert_eq!(engine.call_log()[0].input, engine.call_log()[1].input);
}

#[test]
fn unknown_extension_reports_host_status() {
    let mut engine = Engine::new(context());
    let r: Result<u32, ExtError> = engine.call_chain_extension(
        99,
        &1u32,
        |s: u32| if s == 0 { Ok(()) } else { Err(s) },
        |_out: &[u8]| -> Result<u32, ExtError> { panic!("decoder must not run") },
    );
    assert_eq!(r, Err(ExtError::Status(UNKNOWN_EXTENSION)));
    let empty: Result<u32, ExtError> = engine.call_chain_extension(
        99,
        &1u32,
        |_s: u32| Ok::<(), u32>(()),
        |out: &[u8]| <u32 as Codec>::decode(out).ok_or(ExtError::Decode),
    );
    assert_eq!(empty, Err(ExtError::Decode));
}

fn round_trip_through<B: ink_env::EnvBackend>(backend: &mut B, key: &Key) -> Result<Option<u64>, EnvError> {
    backend.set_contract_storage(key, &77u64);
    backend.get_contract_storage::<u64>(key)
}

#[test]
fn engine_serves_as_a_backend() {
    let mut engine = Engine::new(context());
    assert_eq!(round_trip_through(&mut engine, &Key([4u8; 32])), Ok(Some(77)));
    assert_eq!(
        <Engine as ink_env::TypedEnvBackend>::block_number(&mut engine),
        Ok(7)
    );
}
