use sandbot::address_book::{AddressBook, AddressBookEntry};
use sandbot::block_scanner::{BlockScanner, ScanAction, ScanEvent};
use sandbot::config::Config;
use sandbot::dex::{
    call_all_pairs, call_without_args, deadline_for, decode_address_result, decode_reserves, decode_uint_result, hop_pairs, Dex,
    Pair, RawTx,
};
use sandbot::engine::{Advance, Decision, Engine, Fingerprint, Outcome, Status, Trigger};
use sandbot::mempool::{MempoolAction, MempoolMonitor};
use sandbot::nonce::NonceManager;
use sandbot::stream::{backoff_ms, link_step, LinkAction, LinkEvent, Phase};
use sandbot::swap_call::{decode_swap_call, encode_swap_call, SwapCall, SwapKind};
use sandbot::types::{Address, ErrorKind, TxHash, U256};

fn addr(n: u128) -> Address {
    Address { hi: 0, lo: n }
}

fn token_a() -> Address {
    addr(0xA)
}

fn token_b() -> Address {
    addr(0xB)
}

fn router() -> Address {
    Address { hi: 0x7a25, lo: 0x0d56 }
}

fn sample_call(path: Vec<Address>, amount_in: u128) -> SwapCall {
    SwapCall {
        kind: SwapKind::ExactTokensForTokens,
        amount_in: U256::from_u128(amount_in),
        amount_out_min: U256::from_u128(90),
        path,
        to: addr(0x77),
        deadline: U256::from_u128(1_700_000_000),
    }
}

fn swap_tx(hash: u128, path: Vec<Address>, amount_in: u128) -> RawTx {
    RawTx {
        hash: TxHash { hi: 0, lo: hash },
        from: addr(0x55),
        to: Some(router()),
        input: encode_swap_call(&sample_call(path, amount_in)),
    }
}

fn live_scanner() -> BlockScanner {
    let mut s = BlockScanner::new();
    assert_eq!(s.step(ScanEvent::Link(LinkEvent::Start)), ScanAction::Link(LinkAction::Subscribe));
    s
}

fn delivered(s: &mut BlockScanner, heights: &[u64]) -> Vec<u64> {
    let mut out = Vec::new();
    for h in heights {
        if let ScanAction::Deliver(d) = s.step(ScanEvent::Height(*h)) {
            out.push(d);
        }
    }
    out
}

#[test]
fn heights_delivered_increasing_without_duplicates() {
    let mut s = live_scanner();
    let out = delivered(&mut s, &[5, 3, 5, 6, 6, 4, 7, 7, 10]);
    assert_eq!(out, vec![5, 6, 7, 10]);
    assert_eq!(s.last, Some(10));
}

#[test]
fn heights_dropped_before_start() {
    let mut s = BlockScanner::new();
    assert_eq!(s.step(ScanEvent::Height(1)), ScanAction::Drop);
    assert_eq!(s.last, None);
}

#[test]
fn scanner_reconnects_and_resumes() {
    let mut s = live_scanner();
    assert_eq!(delivered(&mut s, &[1, 2]), vec![1, 2]);
    assert_eq!(
        s.step(ScanEvent::Link(LinkEvent::Disconnected)),
        ScanAction::Link(LinkAction::Sleep(500))
    );
    assert_eq!(s.phase, Phase::Reconnecting(0));
    assert_eq!(s.step(ScanEvent::Height(3)), ScanAction::Drop);
    assert_eq!(
        s.step(ScanEvent::Link(LinkEvent::ConnectFailed)),
        ScanAction::Link(LinkAction::Sleep(1000))
    );
    assert_eq!(s.phase, Phase::Reconnecting(1));
    assert_eq!(s.step(ScanEvent::Link(LinkEvent::Connected)), ScanAction::Link(LinkAction::Nothing));
    assert_eq!(s.phase, Phase::Polling);
    assert_eq!(delivered(&mut s, &[2, 3, 4]), vec![3, 4]);
}

#[test]
fn backoff_doubles_up_to_cap() {
    assert_eq!(backoff_ms(0), 500);
    assert_eq!(backoff_ms(1), 1000);
    assert_eq!(backoff_ms(5), 16000);
    assert_eq!(backoff_ms(6), 30000);
    assert_eq!(backoff_ms(1000), 30000);
    assert_eq!(backoff_ms(u32::MAX), 30000);
}

#[test]
fn disconnect_of_one_stream_leaves_the_other_live() {
    let dex = Dex::new(addr(1), router());
    let mut mempool = MempoolMonitor::new(dex);
    assert_eq!(mempool.on_link(LinkEvent::Start), LinkAction::Subscribe);
    let mut scanner = live_scanner();
    assert_eq!(
        scanner.step(ScanEvent::Link(LinkEvent::Disconnected)),
        ScanAction::Link(LinkAction::Sleep(500))
    );
    assert_eq!(mempool.phase, Phase::Polling);
    let tx = swap_tx(1, vec![token_a(), token_b()], 100);
    assert!(matches!(mempool.on_tx(&tx), MempoolAction::Forward(_)));
    assert_eq!(mempool.on_link(LinkEvent::Disconnected), LinkAction::Sleep(500));
    assert!(matches!(mempool.on_tx(&tx), MempoolAction::Discard));
    assert_eq!(scanner.step(ScanEvent::Link(LinkEvent::Connected)), ScanAction::Link(LinkAction::Nothing));
    assert_eq!(delivered(&mut scanner, &[9]), vec![9]);
}

#[test]
fn link_ignores_events_out_of_place() {
    assert_eq!(link_step(Phase::Idle, LinkEvent::Connected), (Phase::Idle, LinkAction::Nothing));
    assert_eq!(link_step(Phase::Polling, LinkEvent::Start), (Phase::Polling, LinkAction::Nothing));
}

#[test]
fn swap_call_round_trip() {
    let call = SwapCall {
        kind: SwapKind::ExactTokensForTokensFeeOnTransfer,
        amount_in: U256 { hi: 3, lo: u128::MAX },
        amount_out_min: U256 { hi: u128::MAX, lo: 7 },
        path: vec![token_a(), Address { hi: u32::MAX, lo: 12345 }, token_b()],
        to: Address { hi: 0xdead, lo: 0xbeef },
        deadline: U256::from_u128(1_700_000_123),
    };
    let bytes = encode_swap_call(&call);
    assert_eq!(bytes.len(), 4 + 160 + 32 + 3 * 32);
    assert_eq!(&bytes[0..4], &[0x5c, 0x11, 0xd7, 0x95]);
    let back = decode_swap_call(&bytes).unwrap().unwrap();
    assert_eq!(back.kind, call.kind);
    assert_eq!(back.amount_in, call.amount_in);
    assert_eq!(back.amount_out_min, call.amount_out_min);
    assert_eq!(back.path, call.path);
    assert_eq!(back.to, call.to);
    assert_eq!(back.deadline, call.deadline);
    assert_eq!(encode_swap_call(&back), bytes);
}

#[test]
fn encoding_layout_is_canonical() {
    let bytes = encode_swap_call(&sample_call(vec![token_a(), token_b()], 100));
    assert_eq!(&bytes[0..4], &[0x38, 0xed, 0x17, 0x39]);
    assert_eq!(bytes[35], 100);
    assert_eq!(bytes[67], 90);
    assert_eq!(bytes[99], 160);
    assert_eq!(bytes[131], 0x77);
    assert_eq!(bytes[195], 2);
    assert_eq!(bytes[227], 0xA);
    assert_eq!(bytes[259], 0xB);
    assert!(bytes[100..131].iter().all(|b| *b == 0));
}

#[test]
fn non_swap_payloads_are_none() {
    let dex = Dex::new(addr(1), router());
    let good = encode_swap_call(&sample_call(vec![token_a(), token_b()], 100));
    let other_target = RawTx { hash: TxHash { hi: 0, lo: 1 }, from: addr(2), to: Some(addr(3)), input: good.clone() };
    assert!(matches!(dex.decode_swap(&other_target), Ok(None)));
    let creation = RawTx { hash: TxHash { hi: 0, lo: 1 }, from: addr(2), to: None, input: good };
    assert!(matches!(dex.decode_swap(&creation), Ok(None)));
    let empty = RawTx { hash: TxHash { hi: 0, lo: 1 }, from: addr(2), to: Some(router()), input: vec![] };
    assert!(matches!(dex.decode_swap(&empty), Ok(None)));
    let short = RawTx { hash: TxHash { hi: 0, lo: 1 }, from: addr(2), to: Some(router()), input: vec![0x38, 0xed, 0x17] };
    assert!(matches!(dex.decode_swap(&short), Ok(None)));
    let transfer = RawTx {
        hash: TxHash { hi: 0, lo: 1 },
        from: addr(2),
        to: Some(router()),
        input: vec![0xa9, 0x05, 0x9c, 0xbb, 0, 0, 0, 0, 1, 2, 3],
    };
    assert!(matches!(dex.decode_swap(&transfer), Ok(None)));
}

#[test]
fn malformed_swap_payloads_are_decode_errors() {
    let good = encode_swap_call(&sample_call(vec![token_a(), token_b()], 100));
    let truncated = good[0..100].to_vec();
    assert_eq!(decode_swap_call(&truncated).unwrap_err(), ErrorKind::DecodeError);
    let cut_path = good[0..240].to_vec();
    assert_eq!(decode_swap_call(&cut_path).unwrap_err(), ErrorKind::DecodeError);
    let mut dirty_address = good.clone();
    dirty_address[100] = 1;
    assert_eq!(decode_swap_call(&dirty_address).unwrap_err(), ErrorKind::DecodeError);
    let mut short_path = good.clone();
    short_path[195] = 1;
    assert_eq!(decode_swap_call(&short_path).unwrap_err(), ErrorKind::DecodeError);
    let mut far_offset = good.clone();
    far_offset[98] = 0xff;
    assert_eq!(decode_swap_call(&far_offset).unwrap_err(), ErrorKind::DecodeError);
    let monitor = {
        let mut m = MempoolMonitor::new(Dex::new(addr(1), router()));
        m.on_link(LinkEvent::Start);
        m
    };
    let tx = RawTx { hash: TxHash { hi: 0, lo: 4 }, from: addr(2), to: Some(router()), input: truncated };
    assert!(matches!(monitor.on_tx(&tx), MempoolAction::Malformed));
}

#[test]
fn decode_swap_fills_intent() {
    let dex = Dex::new(addr(1), router());
    let tx = swap_tx(42, vec![token_a(), token_b()], 100);
    let intent = dex.decode_swap(&tx).unwrap().unwrap();
    assert_eq!(intent.source, TxHash { hi: 0, lo: 42 });
    assert_eq!(intent.sender, addr(0x55));
    assert_eq!(intent.recipient, addr(0x77));
    assert_eq!(intent.path, vec![token_a(), token_b()]);
    assert_eq!(intent.amount_in, U256::from_u128(100));
    assert_eq!(intent.amount_out_min, U256::from_u128(90));
    assert_eq!(intent.deadline, U256::from_u128(1_700_000_000));
}

#[test]
fn build_swap_sets_deadline() {
    let dex = Dex::new(addr(1), router());
    let bytes = dex.build_swap(vec![token_b(), token_a()], U256::from_u128(5), U256::from_u128(4), addr(9), U256::from_u128(777));
    let call = decode_swap_call(&bytes).unwrap().unwrap();
    assert_eq!(call.deadline, U256::from_u128(777));
    assert_eq!(call.path, vec![token_b(), token_a()]);
    assert_eq!(call.to, addr(9));
}

fn pair_ab() -> Pair {
    Pair { address: addr(0x1111), token0: token_a(), token1: token_b(), reserve0: 1000, reserve1: 1000, block: 10 }
}

#[test]
fn single_submission_for_pending_swap() {
    let pairs = vec![pair_ab()];
    let dex = Dex::new(addr(1), router());
    let intent = dex.decode_swap(&swap_tx(7, vec![token_a(), token_b()], 100)).unwrap().unwrap();
    assert_eq!(intent.amount_in, U256::from_u128(100));
    let targets = hop_pairs(&pairs, &intent.path);
    assert_eq!(targets, vec![addr(0x1111)]);
    let pair = pairs[0];
    assert!(!pair.needs_refresh(10));
    assert_eq!((pair.reserve0, pair.reserve1), (1000, 1000));
    let mut engine = Engine::new(5);
    engine.detect_all(Trigger::Intent(intent.source), &targets, 12);
    assert_eq!(engine.len(), 1);
    assert_eq!(engine.get(0).status, Status::Detected);
    engine.evaluate(0, 20, 3);
    assert_eq!(engine.get(0).status, Status::Evaluated);
    assert_eq!(engine.get(0).net_profit, 17);
    assert_eq!(engine.try_submit(0), Decision::Submit);
    assert_eq!(engine.get(0).status, Status::Submitted);
    assert_eq!(engine.try_submit(0), Decision::NotReady);
    assert_eq!(engine.get(0).status, Status::Submitted);
}

#[test]
fn same_fingerprint_while_submitted_is_duplicate() {
    let fp = Fingerprint { trigger: Trigger::Block(10), pair: addr(0x1111) };
    let mut engine = Engine::new(0);
    let first = engine.detect(fp, 12);
    engine.evaluate(first, 10, 1);
    assert_eq!(engine.try_submit(first), Decision::Submit);
    let second = engine.detect(fp, 12);
    engine.evaluate(second, 10, 1);
    assert_eq!(engine.get(second).status, Status::Evaluated);
    assert!(engine.is_pair_in_flight(fp.pair));
    assert_eq!(engine.try_submit(second), Decision::Duplicate);
    assert_eq!(engine.get(second).status, Status::Evaluated);
    engine.record_outcome(first, Outcome::Confirmed);
    assert_eq!(engine.get(first).status, Status::Confirmed);
    assert!(!engine.is_pair_in_flight(fp.pair));
    assert_eq!(engine.try_submit(second), Decision::Submit);
}

#[test]
fn second_pending_swap_on_pair_while_submitted_is_duplicate() {
    let pairs = vec![pair_ab()];
    let dex = Dex::new(addr(1), router());
    let mut engine = Engine::new(5);
    engine.on_block(10);
    let first = dex.decode_swap(&swap_tx(7, vec![token_a(), token_b()], 100)).unwrap().unwrap();
    let second = dex.decode_swap(&swap_tx(8, vec![token_b(), token_a()], 200)).unwrap().unwrap();
    assert_ne!(first.source, second.source);
    engine.detect_all(Trigger::Intent(first.source), &hop_pairs(&pairs, &first.path), 12);
    engine.evaluate(0, 20, 3);
    assert_eq!(engine.try_submit(0), Decision::Submit);
    engine.detect_all(Trigger::Intent(second.source), &hop_pairs(&pairs, &second.path), 12);
    assert_eq!(engine.len(), 2);
    assert_eq!(engine.get(1).fingerprint.pair, addr(0x1111));
    assert_ne!(engine.get(0).fingerprint, engine.get(1).fingerprint);
    engine.evaluate(1, 30, 3);
    assert_eq!(engine.get(1).status, Status::Evaluated);
    assert_eq!(engine.try_submit(1), Decision::Duplicate);
    assert_eq!(engine.get(1).status, Status::Evaluated);
    let submitted = (0..engine.len()).filter(|i| engine.get(*i).status == Status::Submitted).count();
    assert_eq!(submitted, 1);
    engine.record_outcome(0, Outcome::Failed);
    assert!(!engine.is_pair_in_flight(addr(0x1111)));
    assert_eq!(engine.try_submit(1), Decision::Submit);
}

#[test]
fn distinct_pairs_both_submitted() {
    let mut engine = Engine::new(0);
    let a = engine.detect(Fingerprint { trigger: Trigger::Block(1), pair: addr(1) }, 5);
    let b = engine.detect(Fingerprint { trigger: Trigger::Block(1), pair: addr(2) }, 5);
    engine.evaluate(a, 2, 1);
    engine.evaluate(b, 2, 1);
    assert_eq!(engine.try_submit(a), Decision::Submit);
    assert_eq!(engine.try_submit(b), Decision::Submit);
}

#[test]
fn unprofitable_is_terminal() {
    let mut engine = Engine::new(10);
    let i = engine.detect(Fingerprint { trigger: Trigger::Block(1), pair: addr(1) }, 5);
    engine.evaluate(i, 12, 2);
    assert_eq!(engine.get(i).status, Status::Unprofitable);
    assert_eq!(engine.get(i).net_profit, 10);
    assert_eq!(engine.try_submit(i), Decision::NotReady);
    let j = engine.detect(Fingerprint { trigger: Trigger::Block(1), pair: addr(2) }, 5);
    engine.evaluate(j, 1, 2);
    assert_eq!(engine.get(j).status, Status::Unprofitable);
    assert_eq!(engine.get(j).net_profit, 0);
}

#[test]
fn failed_submission_is_reported_not_retried() {
    let fp = Fingerprint { trigger: Trigger::Intent(TxHash { hi: 1, lo: 2 }), pair: addr(1) };
    let mut engine = Engine::new(0);
    let i = engine.detect(fp, 5);
    engine.evaluate(i, 3, 1);
    assert_eq!(engine.try_submit(i), Decision::Submit);
    engine.record_outcome(i, Outcome::Failed);
    assert_eq!(engine.get(i).status, Status::Failed);
    assert_eq!(engine.try_submit(i), Decision::NotReady);
    engine.record_outcome(i, Outcome::Confirmed);
    assert_eq!(engine.get(i).status, Status::Failed);
}

#[test]
fn blocks_expire_open_opportunities() {
    let mut engine = Engine::new(0);
    let a = engine.detect(Fingerprint { trigger: Trigger::Block(1), pair: addr(1) }, 5);
    let b = engine.detect(Fingerprint { trigger: Trigger::Block(1), pair: addr(2) }, 9);
    let c = engine.detect(Fingerprint { trigger: Trigger::Block(1), pair: addr(3) }, 5);
    engine.evaluate(c, 0, 1);
    engine.on_block(6);
    assert_eq!(engine.get(a).status, Status::Expired);
    assert_eq!(engine.get(b).status, Status::Detected);
    assert_eq!(engine.get(c).status, Status::Unprofitable);
}

#[test]
fn stale_reserves_need_refresh() {
    let p = pair_ab();
    assert!(p.needs_refresh(11));
    let q = p.with_reserves(900, 1100, 11);
    assert!(!q.needs_refresh(11));
    assert_eq!((q.reserve0, q.reserve1, q.block, q.address), (900, 1100, 11, p.address));
}

#[test]
fn find_pair_either_order() {
    let pairs = vec![
        Pair { address: addr(1), token0: addr(5), token1: addr(6), reserve0: 0, reserve1: 0, block: 0 },
        pair_ab(),
        Pair { address: addr(2), token0: token_b(), token1: token_a(), reserve0: 0, reserve1: 0, block: 0 },
    ];
    assert_eq!(Dex::find_pair(&pairs, token_b(), token_a()), Some(1));
    assert_eq!(Dex::find_pair(&pairs, token_a(), addr(5)), None);
    assert_eq!(hop_pairs(&pairs, &vec![addr(6), addr(5), token_a(), token_b()]), vec![addr(1), addr(0x1111)]);
    assert_eq!(hop_pairs(&pairs, &vec![token_a()]), Vec::<Address>::new());
}

#[test]
fn nonces_increase() {
    let mut n = NonceManager::new(7);
    assert_eq!(n.allocate(), Some(7));
    assert_eq!(n.allocate(), Some(8));
    n.resync(5);
    assert_eq!(n.peek(), 9);
    n.resync(20);
    assert_eq!(n.allocate(), Some(20));
    let mut full = NonceManager::new(u64::MAX);
    assert_eq!(full.allocate(), None);
}

#[test]
fn address_book_keeps_first_entry() {
    let mut book = AddressBook::new();
    assert!(book.lookup(token_a()).is_none());
    assert!(book.insert(AddressBookEntry { address: token_a(), symbol: "WETH".to_string(), decimals: 18 }));
    assert!(book.insert(AddressBookEntry { address: token_b(), symbol: "USDC".to_string(), decimals: 6 }));
    assert!(!book.insert(AddressBookEntry { address: token_a(), symbol: "XXX".to_string(), decimals: 1 }));
    let e = book.lookup(token_a()).unwrap();
    assert_eq!((e.symbol.as_str(), e.decimals), ("WETH", 18));
    assert_eq!(book.lookup(token_b()).unwrap().decimals, 6);
}

#[test]
fn config_parses_addresses() {
    let c = Config::from_text(
        "0x0000000100000000000000000000000000000002",
        "00000000000000000000000000000000000000ff",
    )
    .unwrap();
    assert_eq!(c.dex_factory, Address { hi: 1, lo: 2 });
    assert_eq!(c.dex_router, Address { hi: 0, lo: 0xff });
    let d = c.create_dex(c.dex_factory, c.dex_router);
    assert_eq!(d.router, Address { hi: 0, lo: 0xff });
}

#[test]
fn config_rejects_bad_addresses() {
    assert_eq!(Config::from_text("0x12", "0x00000000000000000000000000000000000000ff"), Err(ErrorKind::ConfigError));
    assert_eq!(
        Config::from_text("0x00000000000000000000000000000000000000ff", "0xzz000000000000000000000000000000000000ff"),
        Err(ErrorKind::ConfigError)
    );
    assert_eq!(Config::from_parsed(Some(vec![0; 19]), Some(vec![0; 20])), Err(ErrorKind::ConfigError));
    assert_eq!(Config::from_parsed(None, Some(vec![0; 20])), Err(ErrorKind::ConfigError));
}

#[test]
fn contract_call_data_and_results() {
    assert_eq!(call_without_args(0x0902f1ac), vec![0x09, 0x02, 0xf1, 0xac]);
    let c = call_all_pairs(258);
    assert_eq!(c.len(), 36);
    assert_eq!(&c[0..4], &[0x1e, 0x3d, 0xd1, 0x8b]);
    assert_eq!((c[34], c[35]), (1, 2));
    let mut word = vec![0u8; 32];
    word[12] = 1;
    word[31] = 2;
    assert_eq!(decode_address_result(&word), Some(Address { hi: 0x0100_0000, lo: 2 }));
    assert_eq!(decode_uint_result(&word), None);
    let mut count = vec![0u8; 32];
    count[17] = 1;
    count[31] = 2;
    assert_eq!(decode_uint_result(&count), Some((1u128 << 112) + 2));
    word[0] = 1;
    assert_eq!(decode_address_result(&word), None);
    assert_eq!(decode_uint_result(&word), None);
    assert_eq!(decode_address_result(&vec![0u8; 31]), None);
    let mut reserves = vec![0u8; 96];
    reserves[30] = 3;
    reserves[31] = 0xe8;
    reserves[63] = 7;
    assert_eq!(decode_reserves(&reserves), Some((1000, 7)));
    assert_eq!(decode_reserves(&reserves[0..63].to_vec()), None);
}

#[test]
fn deadline_follows_expiry() {
    assert_eq!(deadline_for(1_000, 10, 12, 12), U256::from_u128(1_024));
    assert_eq!(deadline_for(1_000, 12, 12, 12), U256::from_u128(1_000));
    assert_eq!(deadline_for(1_000, 15, 12, 12), U256::from_u128(1_000));
    assert_eq!(
        deadline_for(u64::MAX, 0, u64::MAX, u64::MAX),
        U256::from_u128(u64::MAX as u128 + (u64::MAX as u128) * (u64::MAX as u128))
    );
}

#[test]
fn advance_refreshes_stale_reserves_then_submits_once() {
    let mut engine = Engine::new(5);
    let fp = Fingerprint { trigger: Trigger::Intent(TxHash { hi: 0, lo: 7 }), pair: addr(0x1111) };
    let i = engine.detect(fp, 14);
    let stale = pair_ab();
    assert_eq!(engine.advance(i, &stale, 11, Some((20, 3))), Advance::RefreshReserves);
    assert_eq!(engine.get(i).status, Status::Detected);
    let fresh = stale.with_reserves(1000, 1000, 11);
    assert_eq!(engine.advance(i, &fresh, 11, None), Advance::Pass);
    assert_eq!(engine.get(i).status, Status::Detected);
    assert_eq!(engine.advance(i, &fresh, 11, Some((20, 3))), Advance::Decided(Decision::Submit));
    assert_eq!(engine.get(i).status, Status::Submitted);
    let other = Fingerprint { trigger: Trigger::Intent(TxHash { hi: 0, lo: 8 }), pair: addr(0x1111) };
    let j = engine.detect(other, 14);
    assert_eq!(engine.advance(j, &fresh, 11, Some((50, 3))), Advance::Decided(Decision::Duplicate));
    assert_eq!(engine.get(j).status, Status::Evaluated);
    let k = engine.detect(Fingerprint { trigger: Trigger::Block(11), pair: addr(0x1111) }, 14);
    assert_eq!(engine.advance(k, &fresh, 11, Some((7, 3))), Advance::Decided(Decision::NotReady));
    assert_eq!(engine.get(k).status, Status::Unprofitable);
}

#[test]
fn config_parse_accepts_either_case_and_skips_whitespace() {
    let upper = Config::from_text(
        "0x00000000000000000000000000000000000000AB",
        "00000000000000000000000000000000000000ab",
    )
    .unwrap();
    assert_eq!(upper.dex_factory, Address { hi: 0, lo: 0xab });
    assert_eq!(upper.dex_router, upper.dex_factory);
    let spaced = Config::from_text(
        "0x0000 0000000000000000000000000000000000ab",
        "0X00000000000000000000000000000000000000ab",
    );
    assert_eq!(spaced, Err(ErrorKind::ConfigError));
    let spaced_ok = Config::from_text(
        "0x0000 0000000000000000000000000000000000ab",
        "0x00000000000000000000000000000000000000ab",
    )
    .unwrap();
    assert_eq!(spaced_ok.dex_factory, Address { hi: 0, lo: 0xab });
}
