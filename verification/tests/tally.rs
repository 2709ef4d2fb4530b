use voting_backend::ledger::Ledger;
use voting_backend::models::Vote;
use voting_backend::tally::{count_votes_for, shares_from_counts, CandidateCount, Share};

fn percentage(share: &Share) -> f64 {
    (share.votes as f64 / share.total as f64) * 100.0
}

#[test]
fn no_votes_give_no_percentages() {
    let ledger = Ledger::new();
    assert!(ledger.compute_percentages().is_empty());
    assert!(ledger.counts().is_empty());
}

#[test]
fn three_to_one_is_seventy_five_and_twenty_five() {
    let mut ledger = Ledger::new();
    ledger.cast_vote_at("d1", "A", 1).unwrap();
    ledger.cast_vote_at("d2", "B", 2).unwrap();
    ledger.cast_vote_at("d3", "A", 3).unwrap();
    ledger.cast_vote_at("d4", "A", 4).unwrap();
    let shares = ledger.compute_percentages();
    assert_eq!(shares.len(), 2);
    let a = shares.iter().find(|s| s.name == "A").unwrap();
    let b = shares.iter().find(|s| s.name == "B").unwrap();
    assert_eq!((a.votes, a.total), (3, 4));
    assert_eq!((b.votes, b.total), (1, 4));
    assert_eq!(percentage(a), 75.0);
    assert_eq!(percentage(b), 25.0);
    let sum: f64 = shares.iter().map(percentage).sum();
    assert!((sum - 100.0).abs() < 1e-9);
}

#[test]
fn a_single_vote_is_the_whole() {
    let mut ledger = Ledger::new();
    ledger.cast_vote_at("d1", "Only", 1).unwrap();
    let shares = ledger.compute_percentages();
    assert_eq!(shares, vec![Share { name: "Only".to_string(), votes: 1, total: 1 }]);
    assert_eq!(percentage(&shares[0]), 100.0);
}

#[test]
fn candidates_without_votes_are_left_out() {
    let mut ledger = Ledger::new();
    ledger.cast_vote_at("d1", "A", 1).unwrap();
    ledger.cast_vote_at("d1", "B", 2).unwrap();
    ledger.get_or_create_candidate("C").unwrap();
    assert_eq!(ledger.candidate_count(), 3);
    let shares = ledger.compute_percentages();
    assert_eq!(shares, vec![Share { name: "B".to_string(), votes: 1, total: 1 }]);
    assert_eq!(ledger.counts(), vec![CandidateCount { name: "B".to_string(), votes: 1 }]);
}

#[test]
fn thirds_add_up_within_tolerance() {
    let mut ledger = Ledger::new();
    ledger.cast_vote_at("d1", "A", 1).unwrap();
    ledger.cast_vote_at("d2", "B", 1).unwrap();
    ledger.cast_vote_at("d3", "C", 1).unwrap();
    let shares = ledger.compute_percentages();
    assert_eq!(shares.len(), 3);
    let votes: u64 = shares.iter().map(|s| s.votes).sum();
    assert_eq!(votes, 3);
    assert!(shares.iter().all(|s| s.total == 3 && s.votes == 1));
    let sum: f64 = shares.iter().map(percentage).sum();
    assert!((sum - 100.0).abs() < 1e-9);
}

#[test]
fn shares_add_up_to_the_total_after_mixed_writes() {
    let mut ledger = Ledger::new();
    let names = ["A", "B", "C", "D"];
    for round in 0..40i64 {
        let device = format!("dev-{}", (round * 7) % 11);
        ledger.cast_vote_at(&device, names[(round % 4) as usize], round).unwrap();
        if round % 9 == 8 {
            ledger.delete_candidate(names[((round / 9) % 4) as usize]);
        }
        let shares = ledger.compute_percentages();
        let total = ledger.vote_count() as u64;
        let votes: u64 = shares.iter().map(|s| s.votes).sum();
        assert_eq!(votes, total);
        for share in &shares {
            assert!(share.votes >= 1);
            assert_eq!(share.total, total);
            let id = ledger.find_candidate(&share.name).unwrap();
            assert_eq!(share.votes as usize, count_votes_for(ledger.votes(), id));
        }
        let mut shown: Vec<&str> = shares.iter().map(|s| s.name.as_str()).collect();
        shown.sort();
        shown.dedup();
        assert_eq!(shown.len(), shares.len());
    }
}

#[test]
fn deleting_a_candidate_recomputes_the_percentages() {
    let mut ledger = Ledger::new();
    ledger.cast_vote_at("d1", "A", 1).unwrap();
    ledger.cast_vote_at("d2", "A", 2).unwrap();
    ledger.cast_vote_at("d3", "B", 3).unwrap();
    ledger.cast_vote_at("d4", "C", 4).unwrap();
    ledger.cast_vote_at("d5", "C", 5).unwrap();
    ledger.cast_vote_at("d6", "C", 6).unwrap();
    assert!(ledger.delete_candidate("A"));
    let shares = ledger.compute_percentages();
    assert!(shares.iter().all(|s| s.name != "A"));
    assert_eq!(shares.len(), 2);
    let b = shares.iter().find(|s| s.name == "B").unwrap();
    let c = shares.iter().find(|s| s.name == "C").unwrap();
    assert_eq!((b.votes, b.total), (1, 4));
    assert_eq!((c.votes, c.total), (3, 4));
    assert_eq!(percentage(b), 25.0);
    assert_eq!(percentage(c), 75.0);
}

#[test]
fn deleting_the_only_voted_candidate_empties_the_percentages() {
    let mut ledger = Ledger::new();
    ledger.cast_vote_at("d1", "A", 1).unwrap();
    ledger.get_or_create_candidate("B").unwrap();
    assert!(ledger.delete_candidate("A"));
    assert_eq!(ledger.vote_count(), 0);
    assert!(ledger.compute_percentages().is_empty());
}

#[test]
fn shares_from_counts_keeps_rows_and_total() {
    let counts = vec![
        CandidateCount { name: "A".to_string(), votes: 3 },
        CandidateCount { name: "B".to_string(), votes: 1 },
    ];
    let shares = shares_from_counts(4, &counts);
    assert_eq!(
        shares,
        vec![
            Share { name: "A".to_string(), votes: 3, total: 4 },
            Share { name: "B".to_string(), votes: 1, total: 4 },
        ]
    );
}

#[test]
fn shares_from_counts_with_no_votes_is_empty() {
    let counts = vec![CandidateCount { name: "A".to_string(), votes: 3 }];
    assert!(shares_from_counts(0, &counts).is_empty());
    assert!(shares_from_counts(0, &Vec::new()).is_empty());
    assert!(shares_from_counts(5, &Vec::new()).is_empty());
}

#[test]
fn counting_votes_for_an_identity() {
    let votes = vec![
        Vote { device_id: "a".to_string(), candidate_id: 1, timestamp: 0 },
        Vote { device_id: "b".to_string(), candidate_id: 2, timestamp: 0 },
        Vote { device_id: "c".to_string(), candidate_id: 1, timestamp: 0 },
    ];
    assert_eq!(count_votes_for(&votes, 1), 2);
    assert_eq!(count_votes_for(&votes, 2), 1);
    assert_eq!(count_votes_for(&votes, 3), 0);
    assert_eq!(count_votes_for(&Vec::new(), 1), 0);
}
