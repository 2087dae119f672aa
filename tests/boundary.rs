use wasi_crypto::ctx::WasiCryptoCtx;
use wasi_crypto::error::{to_wire_size, CryptoErrno};
use wasi_crypto::guest::{read_bytes, read_name, regions_overlap, write_bytes};
use wasi_crypto::key_manager::{VERSION_ALL, VERSION_LATEST};
use wasi_crypto::options::{OptionValue, OptionsBag, OptionsType, RetainedBuffer};
use wasi_crypto::array_output::ArrayOutput;

fn memory_with(at: usize, bytes: &[u8], size: usize) -> Vec<u8> {
    let mut mem = vec![0u8; size];
    mem[at..at + bytes.len()].copy_from_slice(bytes);
    mem
}

#[test]
fn wire_size_narrowing() {
    assert_eq!(to_wire_size(u32::MAX as usize), Ok(u32::MAX));
    assert_eq!(to_wire_size(1usize << 32), Err(CryptoErrno::Overflow));
    assert_eq!(to_wire_size(usize::MAX), Err(CryptoErrno::Overflow));
    assert_eq!(to_wire_size(0), Ok(0));
}

#[test]
fn options_closed_handle_is_invalid() {
    let mut ctx = WasiCryptoCtx::new();
    let mut mem = memory_with(0, b"iterations", 64);
    let h = ctx.options_open(OptionsType::Symmetric).unwrap();
    assert_eq!(h, 1);
    assert_eq!(ctx.options_set_u64(&mut mem, 1, 0, 10, 10000), Ok(()));
    assert_eq!(ctx.options_close(1), Ok(()));
    assert_eq!(ctx.options_set_u64(&mut mem, 1, 0, 10, 1), Err(CryptoErrno::InvalidHandle));
    assert_eq!(ctx.options_close(1), Err(CryptoErrno::InvalidHandle));
    assert!(ctx.options(1).is_err());
}

#[test]
fn key_manager_forwards_identifier_untouched() {
    let mut ctx = WasiCryptoCtx::new();
    let mut mem = memory_with(8, &[0x01, 0x02], 16);
    let before = mem.clone();
    let h = ctx.key_manager_open(None).unwrap();
    assert_eq!(ctx.key_manager_invalidate(&mut mem, h, 8, 2, VERSION_ALL), Ok(()));
    assert_eq!(mem, before);
    let km = ctx.key_manager(h).unwrap();
    assert_eq!(km.options(), None);
    assert_eq!(km.invalidations().len(), 1);
    assert_eq!(km.invalidations()[0].key_id, vec![0x01, 0x02]);
    assert_eq!(km.invalidations()[0].version, VERSION_ALL);
}

#[test]
fn options_set_reads_back_and_overwrites() {
    let mut ctx = WasiCryptoCtx::new();
    let mut mem = memory_with(0, b"k", 32);
    mem[4..7].copy_from_slice(&[9, 8, 7]);
    mem[8..10].copy_from_slice(&[1, 2]);
    let h = ctx.options_open(OptionsType::Signatures).unwrap();
    assert_eq!(ctx.options_set(&mut mem, h, 0, 1, 4, 3), Ok(()));
    match ctx.options(h).unwrap().get(b"k") {
        Some(OptionValue::Bytes(b)) => assert_eq!(b, &vec![9, 8, 7]),
        other => panic!("unexpected {:?}", other),
    }
    assert_eq!(ctx.options_set(&mut mem, h, 0, 1, 8, 2), Ok(()));
    let bag = ctx.options(h).unwrap();
    assert_eq!(bag.len(), 1);
    match bag.get(b"k") {
        Some(OptionValue::Bytes(b)) => assert_eq!(b, &vec![1, 2]),
        other => panic!("unexpected {:?}", other),
    }
    assert_eq!(ctx.options_set_u64(&mut mem, h, 0, 1, 5), Ok(()));
    match ctx.options(h).unwrap().get(b"k") {
        Some(OptionValue::U64(n)) => assert_eq!(*n, 5),
        other => panic!("unexpected {:?}", other),
    }
    assert_eq!(ctx.options(h).unwrap().kind(), OptionsType::Signatures);
}

#[test]
fn options_guest_buffer_is_retained_by_reference() {
    let mut ctx = WasiCryptoCtx::new();
    let mut mem = memory_with(0, b"out", 64);
    let h = ctx.options_open(OptionsType::KeyExchange).unwrap();
    assert_eq!(ctx.options_set_guest_buffer(&mut mem, h, 0, 3, 16, 32), Ok(()));
    match ctx.options(h).unwrap().get(b"out") {
        Some(OptionValue::GuestBuffer(g)) => assert_eq!(*g, RetainedBuffer { ptr: 16, len: 32 }),
        other => panic!("unexpected {:?}", other),
    }
    assert_eq!(ctx.options_set_guest_buffer(&mut mem, h, 0, 3, 2, 8), Err(CryptoErrno::RegionOverlap));
    assert_eq!(ctx.options_set_guest_buffer(&mut mem, h, 0, 3, 40, 32), Err(CryptoErrno::OutOfBounds));
}

#[test]
fn options_name_errors() {
    let mut ctx = WasiCryptoCtx::new();
    let mut mem = memory_with(0, &[0xff, 0xfe], 16);
    let h = ctx.options_open(OptionsType::Symmetric).unwrap();
    assert_eq!(ctx.options_set_u64(&mut mem, h, 0, 2, 1), Err(CryptoErrno::InvalidEncoding));
    assert_eq!(ctx.options_set_u64(&mut mem, h, 10, 7, 1), Err(CryptoErrno::OutOfBounds));
    assert_eq!(ctx.options_set_u64(&mut mem, h, u32::MAX, 2, 1), Err(CryptoErrno::OutOfBounds));
    assert_eq!(ctx.options_set(&mut mem, h, 4, 1, 12, 8), Err(CryptoErrno::OutOfBounds));
    assert_eq!(ctx.options_set(&mut mem, 99, 4, 1, 12, 2), Err(CryptoErrno::InvalidHandle));
    assert_eq!(ctx.options(h).unwrap().len(), 0);
}

#[test]
fn array_output_drains_exactly() {
    let mut ctx = WasiCryptoCtx::new();
    let data: Vec<u8> = (0u8..10).collect();
    let h = ctx.array_output_open(data.clone()).unwrap();
    let mut mem = vec![0u8; 32];
    let mut got = Vec::new();
    let mut last = ctx.array_output_len(h).unwrap();
    assert_eq!(last, 10);
    for size in [0u32, 3, 1, 20, 4] {
        let n = ctx.array_output_pull(&mut mem, h, 0, size).unwrap();
        assert!(n <= size);
        got.extend_from_slice(&mem[..n as usize]);
        let now = ctx.array_output_len(h).unwrap();
        assert!(now <= last);
        last = now;
    }
    assert_eq!(got, data);
    assert_eq!(last, 0);
    assert_eq!(ctx.array_output_pull(&mut mem, h, 0, 8), Ok(0));
    assert_eq!(ctx.array_output_close(h), Ok(()));
    assert_eq!(ctx.array_output_len(h), Err(CryptoErrno::InvalidHandle));
}

#[test]
fn array_output_out_of_bounds_copies_nothing() {
    let mut ctx = WasiCryptoCtx::new();
    let h = ctx.array_output_open(vec![1, 2, 3, 4]).unwrap();
    let mut mem = vec![0u8; 8];
    assert_eq!(ctx.array_output_pull(&mut mem, h, 6, 4), Err(CryptoErrno::OutOfBounds));
    assert_eq!(mem, vec![0u8; 8]);
    assert_eq!(ctx.array_output_len(h), Ok(4));
    assert_eq!(ctx.array_output_pull(&mut mem, h, 6, 2), Ok(2));
    assert_eq!(mem, vec![0, 0, 0, 0, 0, 0, 1, 2]);
    assert_eq!(ctx.array_output_len(h), Ok(2));
}

#[test]
fn handles_of_another_kind_are_rejected() {
    let mut ctx = WasiCryptoCtx::new();
    let mut mem = vec![0u8; 16];
    let o = ctx.options_open(OptionsType::Symmetric).unwrap();
    let a = ctx.array_output_open(vec![5]).unwrap();
    let k = ctx.key_manager_open(Some(o)).unwrap();
    assert_eq!((o, a, k), (1, 2, 3));
    assert_eq!(ctx.key_manager(k).unwrap().options(), Some(o));
    assert_eq!(ctx.array_output_len(o), Err(CryptoErrno::InvalidHandle));
    assert_eq!(ctx.array_output_pull(&mut mem, k, 0, 1), Err(CryptoErrno::InvalidHandle));
    assert_eq!(ctx.options_close(a), Err(CryptoErrno::InvalidHandle));
    assert_eq!(ctx.key_manager_close(o), Err(CryptoErrno::InvalidHandle));
    assert_eq!(ctx.key_manager_open(Some(a)), Err(CryptoErrno::InvalidHandle));
    assert_eq!(ctx.key_manager_invalidate(&mut mem, a, 0, 1, VERSION_LATEST), Err(CryptoErrno::InvalidHandle));
    assert_eq!(ctx.array_output_len(a), Ok(1));
    assert_eq!(ctx.key_manager_close(k), Ok(()));
    assert_eq!(ctx.key_manager_invalidate(&mut mem, k, 0, 1, 7), Err(CryptoErrno::InvalidHandle));
    assert_eq!(ctx.key_manager_invalidate(&mut mem, k, 15, 2, 7), Err(CryptoErrno::OutOfBounds));
}

#[test]
fn guest_memory_reads_and_writes() {
    let mut mem = memory_with(2, b"abc", 8);
    assert_eq!(read_bytes(&mut mem, 2, 3), Ok(b"abc".to_vec()));
    assert_eq!(read_bytes(&mut mem, 6, 3), Err(CryptoErrno::OutOfBounds));
    assert_eq!(read_bytes(&mut mem, 8, 0), Ok(vec![]));
    assert_eq!(read_name(&mut mem, 2, 3), Ok(b"abc".to_vec()));
    assert_eq!(write_bytes(&mut mem, 0, &[7, 7]), Ok(()));
    assert_eq!(&mem[..5], &[7, 7, b'a', b'b', b'c']);
    assert_eq!(write_bytes(&mut mem, 7, &[1, 1]), Err(CryptoErrno::OutOfBounds));
    assert_eq!(mem[7], 0);
    assert!(regions_overlap(0, 4, 3, 1));
    assert!(!regions_overlap(0, 4, 4, 1));
    assert!(!regions_overlap(0, 0, 0, 4));
}

#[test]
fn stream_and_bag_units() {
    let mut a = ArrayOutput::new(vec![1, 2, 3]);
    assert_eq!(a.pull(2), vec![1, 2]);
    assert_eq!(a.len(), 1);
    assert_eq!(a.pull(5), vec![3]);
    assert_eq!(a.pull(5), Vec::<u8>::new());
    let mut b = OptionsBag::new(OptionsType::Symmetric);
    b.set(b"x".to_vec(), OptionValue::U64(1));
    b.set(b"y".to_vec(), OptionValue::U64(2));
    b.set(b"x".to_vec(), OptionValue::U64(3));
    assert_eq!(b.len(), 2);
    assert!(matches!(b.get(b"x"), Some(OptionValue::U64(3))));
    assert!(b.get(b"z").is_none());
}

#[test]
fn error_codes_are_distinct() {
    let all = [
        CryptoErrno::InvalidHandle,
        CryptoErrno::InvalidEncoding,
        CryptoErrno::OutOfBounds,
        CryptoErrno::RegionOverlap,
        CryptoErrno::Overflow,
        CryptoErrno::ResourceExhausted,
        CryptoErrno::UnsupportedOperation,
        CryptoErrno::Internal,
    ];
    let codes: Vec<u16> = all.iter().map(|e| e.code()).collect();
    assert_eq!(codes, vec![1, 2, 3, 4, 5, 6, 7, 8]);
}
