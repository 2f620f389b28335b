use agentpulse::{
    derive_address, record_evaluation, record_vote, EvaluationRecord, Ledger, RecordEvaluation,
    RecordKind, RecordVote, Signer, VoteRecord, PROGRAM_ID,
};

fn sample_vote() -> VoteRecord {
    VoteRecord {
        authority: [1u8; 32],
        project_id: 0x0403_0201,
        vote_type: 7,
        reasoning_hash: [2u8; 32],
        timestamp: -2,
        bump: 254,
    }
}

fn sample_evaluation(name: &str) -> EvaluationRecord {
    EvaluationRecord {
        authority: [5u8; 32],
        project_id: 300,
        project_name: name.to_string(),
        score: 87,
        confidence: 92,
        reasoning_hash: [9u8; 32],
        timestamp: 1_700_000_000,
        bump: 251,
    }
}

#[test]
fn vote_layout_exact_bytes() {
    let d = sample_vote().to_account_data();
    let mut expected: Vec<u8> = vec![112, 9, 123, 165, 234, 9, 157, 167];
    expected.extend_from_slice(&[1u8; 32]);
    expected.extend_from_slice(&[1, 2, 3, 4]);
    expected.push(7);
    expected.extend_from_slice(&[2u8; 32]);
    expected.extend_from_slice(&[0xfe, 0xff, 0xff, 0xff, 0xff, 0xff, 0xff, 0xff]);
    expected.push(254);
    assert_eq!(d.len(), 86);
    assert_eq!(d, expected);
}

#[test]
fn evaluation_layout_exact_bytes() {
    let d = sample_evaluation("abc").to_account_data();
    assert_eq!(d.len(), 157);
    assert_eq!(&d[0..8], &[11, 75, 86, 83, 213, 40, 43, 130]);
    assert_eq!(&d[8..40], &[5u8; 32]);
    assert_eq!(&d[40..44], &[44, 1, 0, 0]);
    assert_eq!(&d[44..48], &[3, 0, 0, 0]);
    assert_eq!(&d[48..51], b"abc");
    assert_eq!(&d[51..53], &[87, 0]);
    assert_eq!(&d[53..55], &[92, 0]);
    assert_eq!(&d[55..87], &[9u8; 32]);
    assert_eq!(&d[87..95], &1_700_000_000i64.to_le_bytes());
    assert_eq!(d[95], 251);
    assert!(d[96..].iter().all(|b| *b == 0));
}

#[test]
fn vote_layout_round_trip() {
    let v = sample_vote();
    let back = VoteRecord::from_account_data(&v.to_account_data()).unwrap();
    assert_eq!(back.authority, v.authority);
    assert_eq!(back.project_id, v.project_id);
    assert_eq!(back.vote_type, v.vote_type);
    assert_eq!(back.reasoning_hash, v.reasoning_hash);
    assert_eq!(back.timestamp, v.timestamp);
    assert_eq!(back.bump, v.bump);
}

#[test]
fn evaluation_layout_round_trip() {
    for name in ["", "Project X", "héllo wörld", &"n".repeat(64)] {
        let e = sample_evaluation(name);
        let back = EvaluationRecord::from_account_data(&e.to_account_data()).unwrap();
        assert_eq!(back.project_name, name);
        assert_eq!(back.authority, e.authority);
        assert_eq!(back.project_id, 300);
        assert_eq!(back.score, 87);
        assert_eq!(back.confidence, 92);
        assert_eq!(back.reasoning_hash, e.reasoning_hash);
        assert_eq!(back.timestamp, 1_700_000_000);
        assert_eq!(back.bump, 251);
    }
}

#[test]
fn extreme_timestamps_round_trip() {
    for t in [i64::MIN, -1, 0, 1, i64::MAX] {
        let mut v = sample_vote();
        v.timestamp = t;
        assert_eq!(VoteRecord::from_account_data(&v.to_account_data()).unwrap().timestamp, t);
    }
}

#[test]
fn wrong_discriminator_is_refused() {
    let d = sample_vote().to_account_data();
    assert!(EvaluationRecord::from_account_data(&d).is_none());
    let e = sample_evaluation("x").to_account_data();
    assert!(VoteRecord::from_account_data(&e).is_none());
    let mut bad = d.clone();
    bad[3] ^= 1;
    assert!(VoteRecord::from_account_data(&bad).is_none());
}

#[test]
fn short_data_is_refused() {
    let d = sample_vote().to_account_data();
    assert!(VoteRecord::from_account_data(&d[..85]).is_none());
    assert!(VoteRecord::from_account_data(&[]).is_none());
    let e = sample_evaluation("abc").to_account_data();
    assert!(EvaluationRecord::from_account_data(&e[..95]).is_none());
    assert!(EvaluationRecord::from_account_data(&e[..96]).is_some());
}

#[test]
fn invalid_name_bytes_are_refused() {
    let mut e = sample_evaluation("abc").to_account_data();
    e[48] = 0xff;
    assert!(EvaluationRecord::from_account_data(&e).is_none());
    let mut long = sample_evaluation("abc").to_account_data();
    long[44] = 200;
    assert!(EvaluationRecord::from_account_data(&long).is_none());
}

#[test]
fn ledger_slot_data_reads_back() {
    let mut ledger = Ledger::new(PROGRAM_ID, 1);
    let s = Signer { key: [4u8; 32], is_signer: true, lamports: 1_000_000 };
    let mut ctx = RecordEvaluation { authority: s };
    let name = "z".repeat(100);
    assert!(record_evaluation(&mut ctx, &mut ledger, 55, 3, name, 87, 92, [8u8; 32]).is_ok());
    let mut vctx = RecordVote { authority: ctx.authority };
    assert!(record_vote(&mut vctx, &mut ledger, 56, 3, 2, [6u8; 32]).is_ok());

    let (ea, eb) = derive_address(RecordKind::Evaluation, &s.key, 3, &PROGRAM_ID).unwrap();
    let data = ledger.account_data(&ea).unwrap();
    assert_eq!(data.len(), 157);
    let e = EvaluationRecord::from_account_data(&data).unwrap();
    assert_eq!(e.project_name, "z".repeat(64));
    assert_eq!((e.score, e.confidence, e.timestamp, e.bump), (87, 92, 55, eb));
    assert_eq!(e.reasoning_hash, [8u8; 32]);

    let (va, vb) = derive_address(RecordKind::Vote, &s.key, 3, &PROGRAM_ID).unwrap();
    let v = VoteRecord::from_account_data(&ledger.account_data(&va).unwrap()).unwrap();
    assert_eq!((v.vote_type, v.timestamp, v.bump, v.project_id), (2, 56, vb, 3));
    assert!(ledger.account_data(&[0u8; 32]).is_none());
}
