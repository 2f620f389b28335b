use agentpulse::{
    derive_address, record_evaluation, record_vote, truncate_name, Ledger, RecordError,
    RecordEvaluation, RecordKind, RecordVote, Signer, Slot, PROGRAM_ID,
};

const RATE: u64 = 6960;
const EVAL_DEPOSIT: u64 = (128 + 157) * RATE;
const VOTE_DEPOSIT: u64 = (128 + 86) * RATE;

fn key(b: u8) -> [u8; 32] {
    let mut k = [0u8; 32];
    for (i, x) in k.iter_mut().enumerate() {
        *x = b.wrapping_add(i as u8);
    }
    k
}

fn signer(b: u8) -> Signer {
    Signer { key: key(b), is_signer: true, lamports: 1_000_000_000 }
}

fn hash() -> [u8; 32] {
    let mut h = [0u8; 32];
    for (i, x) in h.iter_mut().enumerate() {
        *x = (i as u8) * 7 + 3;
    }
    h
}

fn eval(ledger: &mut Ledger, s: Signer, now: i64, pid: u32, name: &str) -> (Result<(), RecordError>, Signer) {
    let mut ctx = RecordEvaluation { authority: s };
    let r = record_evaluation(&mut ctx, ledger, now, pid, name.to_string(), 87, 92, hash());
    (r, ctx.authority)
}

fn eval_address(s: &Signer, pid: u32) -> [u8; 32] {
    derive_address(RecordKind::Evaluation, &s.key, pid, &PROGRAM_ID).unwrap().0
}

#[test]
fn derivation_is_deterministic() {
    let a = derive_address(RecordKind::Evaluation, &key(1), 42, &PROGRAM_ID).unwrap();
    let b = derive_address(RecordKind::Evaluation, &key(1), 42, &PROGRAM_ID).unwrap();
    assert_eq!(a, b);
}

#[test]
fn derivation_separates_keys() {
    let mut seen: Vec<[u8; 32]> = Vec::new();
    for auth in 0u8..4 {
        for pid in [0u32, 1, 255, 256, 65536, u32::MAX] {
            let (addr, _) = derive_address(RecordKind::Evaluation, &key(auth), pid, &PROGRAM_ID).unwrap();
            assert!(!seen.contains(&addr));
            seen.push(addr);
        }
    }
}

#[test]
fn derived_address_is_not_an_input() {
    let (addr, bump) = derive_address(RecordKind::Vote, &key(9), 7, &PROGRAM_ID).unwrap();
    assert_ne!(addr, key(9));
    assert_ne!(addr, PROGRAM_ID);
    assert!(bump >= 1);
}

#[test]
fn kinds_have_distinct_addresses() {
    let e = derive_address(RecordKind::Evaluation, &key(3), 5, &PROGRAM_ID).unwrap();
    let v = derive_address(RecordKind::Vote, &key(3), 5, &PROGRAM_ID).unwrap();
    assert_ne!(e.0, v.0);
}

#[test]
fn field_fidelity_round_trip() {
    let mut ledger = Ledger::new(PROGRAM_ID, RATE);
    let s = signer(1);
    let before = std::time::SystemTime::now()
        .duration_since(std::time::UNIX_EPOCH)
        .unwrap()
        .as_secs() as i64;
    let (r, after_signer) = eval(&mut ledger, s, before, 42, "Project X");
    let after = std::time::SystemTime::now()
        .duration_since(std::time::UNIX_EPOCH)
        .unwrap()
        .as_secs() as i64;
    assert_eq!(r, Ok(()));
    let (addr, bump) = derive_address(RecordKind::Evaluation, &s.key, 42, &PROGRAM_ID).unwrap();
    let rec = ledger.evaluation_at(&addr).unwrap();
    assert_eq!(rec.authority, s.key);
    assert_eq!(rec.project_id, 42);
    assert_eq!(rec.project_name, "Project X");
    assert_eq!(rec.score, 87);
    assert_eq!(rec.confidence, 92);
    assert_eq!(rec.reasoning_hash, hash());
    assert!(before <= rec.timestamp && rec.timestamp <= after);
    assert_eq!(rec.bump, bump);
    assert_eq!(after_signer.lamports, 1_000_000_000 - EVAL_DEPOSIT);
    assert_eq!(ledger.len(), 1);
}

#[test]
fn second_evaluation_is_rejected() {
    let mut ledger = Ledger::new(PROGRAM_ID, RATE);
    let s = signer(2);
    let (r1, s1) = eval(&mut ledger, s, 100, 7, "first");
    assert_eq!(r1, Ok(()));
    let mut ctx = RecordEvaluation { authority: s1 };
    let r2 = record_evaluation(&mut ctx, &mut ledger, 200, 7, "second".to_string(), 1, 2, [9u8; 32]);
    assert_eq!(r2, Err(RecordError::AlreadyExists));
    assert_eq!(ctx.authority.lamports, s1.lamports);
    let rec = ledger.evaluation_at(&eval_address(&s, 7)).unwrap();
    assert_eq!(rec.project_name, "first");
    assert_eq!(rec.score, 87);
    assert_eq!(rec.timestamp, 100);
    assert_eq!(ledger.len(), 1);
}

#[test]
fn second_vote_is_rejected_and_vote_unchanged() {
    let mut ledger = Ledger::new(PROGRAM_ID, RATE);
    let mut ctx = RecordVote { authority: signer(3) };
    assert_eq!(record_vote(&mut ctx, &mut ledger, 10, 5, 1, hash()), Ok(()));
    assert_eq!(ctx.authority.lamports, 1_000_000_000 - VOTE_DEPOSIT);
    assert_eq!(record_vote(&mut ctx, &mut ledger, 20, 5, 2, [0u8; 32]), Err(RecordError::AlreadyExists));
    let (addr, bump) = derive_address(RecordKind::Vote, &key(3), 5, &PROGRAM_ID).unwrap();
    let v = ledger.vote_at(&addr).unwrap();
    assert_eq!(v.vote_type, 1);
    assert_eq!(v.reasoning_hash, hash());
    assert_eq!(v.timestamp, 10);
    assert_eq!(v.bump, bump);
    assert_eq!(v.authority, key(3));
    assert_eq!(v.project_id, 5);
}

#[test]
fn same_project_other_authority_succeeds() {
    let mut ledger = Ledger::new(PROGRAM_ID, RATE);
    assert_eq!(eval(&mut ledger, signer(4), 1, 9, "a").0, Ok(()));
    assert_eq!(eval(&mut ledger, signer(5), 1, 9, "b").0, Ok(()));
    assert_eq!(eval(&mut ledger, signer(4), 1, 10, "c").0, Ok(()));
    assert_eq!(ledger.len(), 3);
}

#[test]
fn evaluation_and_vote_are_independent() {
    let mut ledger = Ledger::new(PROGRAM_ID, RATE);
    let s = signer(6);
    let (r, s1) = eval(&mut ledger, s, 1, 11, "both");
    assert_eq!(r, Ok(()));
    let mut ctx = RecordVote { authority: s1 };
    assert_eq!(record_vote(&mut ctx, &mut ledger, 2, 11, 0, hash()), Ok(()));
    assert_eq!(ledger.len(), 2);
    assert!(ledger.evaluation_at(&eval_address(&s, 11)).is_some());
    let (vaddr, _) = derive_address(RecordKind::Vote, &s.key, 11, &PROGRAM_ID).unwrap();
    assert!(ledger.vote_at(&vaddr).is_some());
    assert!(ledger.evaluation_at(&vaddr).is_none());
    match ledger.get(&vaddr) {
        Some(Slot::Vote(v)) => assert_eq!(v.project_id, 11),
        _ => panic!("expected a vote"),
    }
}

#[test]
fn long_name_is_truncated_to_64_bytes() {
    let name: String = (0..100).map(|i| (b'a' + (i % 26) as u8) as char).collect();
    let mut ledger = Ledger::new(PROGRAM_ID, RATE);
    let s = signer(7);
    assert_eq!(eval(&mut ledger, s, 1, 1, &name).0, Ok(()));
    let rec = ledger.evaluation_at(&eval_address(&s, 1)).unwrap();
    assert_eq!(rec.project_name.len(), 64);
    assert_eq!(rec.project_name, name[..64]);
}

#[test]
fn short_name_is_kept() {
    let mut ledger = Ledger::new(PROGRAM_ID, RATE);
    let s = signer(8);
    assert_eq!(eval(&mut ledger, s, 1, 1, "ten chars!").0, Ok(()));
    let rec = ledger.evaluation_at(&eval_address(&s, 1)).unwrap();
    assert_eq!(rec.project_name, "ten chars!");
}

#[test]
fn truncation_edges() {
    assert_eq!(truncate_name(""), "");
    let exact = "x".repeat(64);
    assert_eq!(truncate_name(&exact), exact);
    let over = "y".repeat(65);
    assert_eq!(truncate_name(&over), "y".repeat(64));
    // a two-byte char straddling byte 64 is dropped whole
    let straddle = format!("{}é", "z".repeat(63));
    assert_eq!(truncate_name(&straddle), "z".repeat(63));
    let fits = format!("{}é", "z".repeat(62));
    assert_eq!(truncate_name(&fits), fits);
}

#[test]
fn unsigned_request_is_rejected() {
    let mut ledger = Ledger::new(PROGRAM_ID, RATE);
    let mut s = signer(9);
    s.is_signer = false;
    let (r, after) = eval(&mut ledger, s, 1, 1, "n");
    assert_eq!(r, Err(RecordError::Unauthenticated));
    assert_eq!(after.lamports, s.lamports);
    let mut ctx = RecordVote { authority: s };
    assert_eq!(record_vote(&mut ctx, &mut ledger, 1, 1, 1, hash()), Err(RecordError::Unauthenticated));
    assert_eq!(ledger.len(), 0);
}

#[test]
fn poor_authority_is_rejected() {
    let mut ledger = Ledger::new(PROGRAM_ID, RATE);
    let mut s = signer(10);
    s.lamports = EVAL_DEPOSIT - 1;
    let (r, after) = eval(&mut ledger, s, 1, 1, "n");
    assert_eq!(r, Err(RecordError::InsufficientResources));
    assert_eq!(after.lamports, EVAL_DEPOSIT - 1);
    assert_eq!(ledger.len(), 0);
    s.lamports = EVAL_DEPOSIT;
    let (r, after) = eval(&mut ledger, s, 1, 1, "n");
    assert_eq!(r, Ok(()));
    assert_eq!(after.lamports, 0);
}

#[test]
fn huge_deposit_rate_is_unaffordable() {
    let mut ledger = Ledger::new(PROGRAM_ID, u64::MAX);
    let mut s = signer(11);
    s.lamports = u64::MAX;
    let mut ctx = RecordVote { authority: s };
    assert_eq!(record_vote(&mut ctx, &mut ledger, 1, 1, 1, hash()), Err(RecordError::InsufficientResources));
}

#[test]
fn free_store_takes_nothing() {
    let mut ledger = Ledger::new(PROGRAM_ID, 0);
    let mut s = signer(12);
    s.lamports = 0;
    let (r, after) = eval(&mut ledger, s, -5, u32::MAX, "edge");
    assert_eq!(r, Ok(()));
    assert_eq!(after.lamports, 0);
    let rec = ledger.evaluation_at(&eval_address(&s, u32::MAX)).unwrap();
    assert_eq!(rec.timestamp, -5);
    assert_eq!(rec.project_id, u32::MAX);
}

#[test]
fn ledger_reports_its_configuration() {
    let ledger = Ledger::new(PROGRAM_ID, RATE);
    assert_eq!(*ledger.program_id(), PROGRAM_ID);
    assert_eq!(ledger.deposit_per_byte(), RATE);
    assert!(!ledger.contains(&key(0)));
    assert!(ledger.get(&key(0)).is_none());
}

#[test]
fn records_never_change_after_creation() {
    let mut ledger = Ledger::new(PROGRAM_ID, RATE);
    let s = signer(13);
    assert_eq!(eval(&mut ledger, s, 10, 77, "original").0, Ok(()));
    let mut vctx = RecordVote { authority: s };
    assert_eq!(record_vote(&mut vctx, &mut ledger, 11, 77, 3, hash()), Ok(()));
    let ea = eval_address(&s, 77);
    let (va, _) = derive_address(RecordKind::Vote, &s.key, 77, &PROGRAM_ID).unwrap();
    let eval_bytes = ledger.account_data(&ea).unwrap();
    let vote_bytes = ledger.account_data(&va).unwrap();
    for attempt in 0u8..5 {
        let mut ctx = RecordEvaluation { authority: s };
        let r = record_evaluation(&mut ctx, &mut ledger, 99, 77, format!("other {}", attempt), attempt as u16, 0, [attempt; 32]);
        assert_eq!(r, Err(RecordError::AlreadyExists));
        let mut vctx = RecordVote { authority: s };
        assert_eq!(record_vote(&mut vctx, &mut ledger, 99, 77, attempt, [attempt; 32]), Err(RecordError::AlreadyExists));
        assert_eq!(ledger.account_data(&ea).unwrap(), eval_bytes);
        assert_eq!(ledger.account_data(&va).unwrap(), vote_bytes);
    }
    assert_eq!(ledger.len(), 2);
}
