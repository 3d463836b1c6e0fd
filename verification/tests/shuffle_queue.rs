use voicebot::session::GuildSession;
use voicebot::session::PlayState;
use voicebot::shuffle::fisher_yates;
use voicebot::track::Metadata;
use voicebot::track::TrackRequest;

fn track(stream_id: u64) -> TrackRequest {
    TrackRequest {
        locator: format!("t{}", stream_id),
        stream_id,
        metadata: Metadata { title: None, artist: None, thumbnail_url: None, duration_secs: None },
    }
}

#[test]
fn shuffle_is_a_permutation_of_the_pending_queue() {
    let mut s = GuildSession::new(1);
    s.connect();
    for id in 1..=6u64 {
        s.enqueue(track(id));
    }
    // Stream 1 is current; 2..=6 are pending.
    s.shuffle();
    assert_eq!(s.play_state, PlayState::Playing);
    assert_eq!(s.current.as_ref().unwrap().stream_id, 1);
    let mut ids: Vec<u64> = s.queue.peek_all().iter().map(|t| t.stream_id).collect();
    assert_eq!(ids.len(), 5);
    ids.sort();
    assert_eq!(ids, vec![2, 3, 4, 5, 6]);
}

#[test]
fn shuffle_of_empty_and_single_queues_is_harmless() {
    let mut v: Vec<u64> = vec![];
    fisher_yates(&mut v);
    assert!(v.is_empty());
    let mut v = vec![5u64];
    fisher_yates(&mut v);
    assert_eq!(v, vec![5]);
}

fn permutation_index(v: &[u64; 4]) -> usize {
    // Lehmer code over the four distinct values 0..4.
    let mut idx = 0usize;
    let weights = [6usize, 2, 1];
    for i in 0..3 {
        let smaller_after = (i + 1..4).filter(|&j| v[j] < v[i]).count();
        idx += smaller_after * weights[i];
    }
    idx
}

#[test]
fn fisher_yates_reaches_every_ordering_without_significant_bias() {
    // Each of the 4! = 24 orderings of four items must be reachable, and a
    // chi-squared statistic over many passes must show no significant bias.
    let trials = 24_000usize;
    let mut counts = [0usize; 24];
    for _ in 0..trials {
        let mut v: Vec<u64> = vec![0, 1, 2, 3];
        fisher_yates(&mut v);
        let arr = [v[0], v[1], v[2], v[3]];
        counts[permutation_index(&arr)] += 1;
    }
    for (i, &c) in counts.iter().enumerate() {
        assert!(c > 0, "ordering {} was never produced", i);
    }
    let expected = trials as f64 / 24.0;
    let chi2: f64 = counts
        .iter()
        .map(|&c| {
            let d = c as f64 - expected;
            d * d / expected
        })
        .sum();
    // 23 degrees of freedom: values this large have probability far below
    // one in a billion for an unbiased shuffle.
    assert!(chi2 < 100.0, "chi-squared {} suggests a biased shuffle", chi2);
}
