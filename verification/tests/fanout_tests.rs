use manta_ws::fanout::FanOut;

#[test]
fn twelve_nodes_bound_five_all_get_results() {
    // Hardware-inventory fan-out over 12 nodes with a concurrency bound
    // of 5: at no instant may more than 5 calls be in flight, and every
    // node must end with a result or a per-node failure marker.
    let total = 12;
    let bound = 5;
    let mut fo: FanOut<Result<String, String>> = FanOut::new(total, bound);
    let mut running: Vec<usize> = Vec::new();
    let mut max_in_flight: usize = 0;

    while !fo.is_complete() {
        // Start as many calls as the permits allow.
        while fo.can_start() {
            let idx = fo.start();
            running.push(idx);
            assert!(fo.in_flight() <= bound);
            if fo.in_flight() > max_in_flight {
                max_in_flight = fo.in_flight();
            }
        }
        assert!(fo.in_flight() <= bound);
        // One call finishes; nodes divisible by three fail.
        let idx = running.remove(0);
        let outcome = if idx % 3 == 0 {
            Err(format!("node {} unreachable", idx))
        } else {
            Ok(format!("inventory of node {}", idx))
        };
        fo.complete(idx, outcome);
    }

    assert_eq!(max_in_flight, bound);
    assert_eq!(fo.finished, total);
    assert_eq!(fo.results.len(), total);
    for (idx, slot) in fo.results.iter().enumerate() {
        let outcome = slot.as_ref().expect("every node must have an outcome");
        if idx % 3 == 0 {
            assert!(outcome.is_err());
        } else {
            assert!(outcome.is_ok());
        }
    }
}

#[test]
fn permits_are_handed_back_on_completion() {
    let mut fo: FanOut<u32> = FanOut::new(3, 2);
    assert!(fo.can_start());
    let a = fo.start();
    let b = fo.start();
    assert_eq!(fo.in_flight(), 2);
    // The bound is reached: the third task cannot start yet.
    assert!(!fo.can_start());
    fo.complete(a, 10);
    assert_eq!(fo.in_flight(), 1);
    assert!(fo.can_start());
    let c = fo.start();
    fo.complete(b, 20);
    fo.complete(c, 30);
    assert!(fo.is_complete());
    assert_eq!(fo.results, vec![Some(10), Some(20), Some(30)]);
}

#[test]
fn bound_of_one_serialises_the_calls() {
    let mut fo: FanOut<bool> = FanOut::new(4, 1);
    let mut done = 0;
    while !fo.is_complete() {
        assert!(fo.can_start());
        let idx = fo.start();
        assert_eq!(fo.in_flight(), 1);
        assert!(!fo.can_start());
        fo.complete(idx, true);
        done += 1;
    }
    assert_eq!(done, 4);
}
