use entangled::slice::chunks_of;
use entangled::slice::chunks_of_mut;
use entangled::slice::splat_chunk_size;

#[test]
fn chunk_map_example_sum() {
    let v = vec![42; 1000];
    let chunks = chunks_of(&v, 512);
    assert_eq!(chunks.len(), 2);
    assert_eq!(chunks[0].len(), 512);
    assert_eq!(chunks[1].len(), 488);
    let outputs: Vec<i32> = chunks.iter().map(|c| c.iter().sum()).collect();
    let mut sum = 0;
    for output in outputs {
        sum += output;
    }
    assert_eq!(sum, 1000 * 42);
}

#[test]
fn chunks_match_std_chunks() {
    let v: Vec<u32> = (0..23).collect();
    for size in 1..30 {
        let ours: Vec<&[u32]> = chunks_of(&v, size);
        let std: Vec<&[u32]> = v.chunks(size).collect();
        assert_eq!(ours, std);
    }
}

#[test]
fn chunks_of_empty_slice() {
    let v: Vec<u8> = Vec::new();
    assert!(chunks_of(&v, 4).is_empty());
}

#[test]
fn chunks_concatenate_to_slice() {
    let v: Vec<u32> = (0..17).collect();
    let joined: Vec<u32> = chunks_of(&v, 5).concat();
    assert_eq!(joined, v);
}

#[test]
fn chunk_map_mut_example_doubles() {
    let mut v = vec![42; 1000];
    let outputs: Vec<i32> = chunks_of_mut(&mut v, 512)
        .into_iter()
        .map(|numbers| {
            for number in numbers.iter_mut() {
                *number *= 2;
            }
            numbers.iter().sum()
        })
        .collect();
    let mut sum = 0;
    for output in outputs {
        sum += output;
    }
    assert_eq!(sum, 1000 * 42 * 2);
    assert_eq!(v[0], 84);
}

#[test]
fn chunks_mut_match_std_chunks_mut() {
    let mut a: Vec<u32> = (0..11).collect();
    let mut b = a.clone();
    let ours: Vec<Vec<u32>> = chunks_of_mut(&mut a, 4).into_iter().map(|c| c.to_vec()).collect();
    let std: Vec<Vec<u32>> = b.chunks_mut(4).map(|c| c.to_vec()).collect();
    assert_eq!(ours, std);
}

#[test]
fn splat_example_two_tasks() {
    // 1000 elements, two threads, at most two tasks: two chunks of 500.
    assert_eq!(splat_chunk_size(1000, 2, Some(2)), 500);
    assert_eq!(chunks_of(&vec![42; 1000], 500).len(), 2);
}

#[test]
fn splat_example_thread_count() {
    // No task bound: the number of threads decides.
    assert_eq!(splat_chunk_size(1000, 2, None), 500);
    assert_eq!(splat_chunk_size(1000, 8, None), 125);
}

#[test]
fn splat_takes_larger_share() {
    // The fewer-tasks bound wins over the per-thread share.
    assert_eq!(splat_chunk_size(1000, 8, Some(2)), 500);
    assert_eq!(splat_chunk_size(1000, 2, Some(8)), 500);
}

#[test]
fn splat_chunk_size_is_at_least_one() {
    assert_eq!(splat_chunk_size(0, 4, None), 1);
    assert_eq!(splat_chunk_size(3, 4, Some(10)), 1);
}

#[test]
fn splat_bound_holds_for_every_length() {
    for len in 0usize..200 {
        for m in 1usize..12 {
            let size = splat_chunk_size(len, m, None);
            assert!(chunks_of(&vec![0u8; len], size).len() <= m);
            for t in 1usize..6 {
                let size = splat_chunk_size(len, t, Some(m));
                let count = chunks_of(&vec![0u8; len], size).len();
                assert!(count <= m);
                assert!(count <= t);
            }
        }
    }
}

#[test]
fn splat_three_items_two_tasks() {
    // Three items, two threads, at most two tasks: chunks of two.
    assert_eq!(splat_chunk_size(3, 2, Some(2)), 2);
    assert_eq!(chunks_of(&[1, 2, 3], 2).len(), 2);
    assert_eq!(splat_chunk_size(3, 2, None), 2);
    let mut v = [1, 2, 3];
    assert_eq!(chunks_of_mut(&mut v, 2).len(), 2);
}

#[test]
fn splat_five_items_four_threads() {
    // Five items over four threads: chunks of two, three tasks.
    let size = splat_chunk_size(5, 4, None);
    assert_eq!(size, 2);
    assert_eq!(chunks_of(&[0u8; 5], size).len(), 3);
}

#[test]
fn chunked_sum_independent_of_split() {
    let v: Vec<i64> = (1..=37).collect();
    let whole: i64 = v.iter().sum();
    for size in 1..40 {
        let sum: i64 = chunks_of(&v, size).iter().map(|c| c.iter().sum::<i64>()).sum();
        assert_eq!(sum, whole);
    }
}
