use swwws::queue::{Queue, Sorting};

fn paths(names: &[&str]) -> Vec<String> {
    names.iter().map(|n| n.to_string()).collect()
}

#[test]
fn test_queue_cycling_ascending() {
    let images =
        vec!["/test/1.jpg".to_string(), "/test/2.jpg".to_string(), "/test/3.jpg".to_string()];

    let mut queue = Queue::new(2, Sorting::Ascending, images).unwrap();

    // First image should be 1.jpg (current)
    assert_eq!(queue.current_image(), Some(&"/test/1.jpg".to_string()));

    // Next should be 2.jpg
    assert_eq!(queue.next(), Some(&"/test/2.jpg".to_string()));

    // Next should be 3.jpg
    assert_eq!(queue.next(), Some(&"/test/3.jpg".to_string()));

    // Next should cycle back to 1.jpg
    assert_eq!(queue.next(), Some(&"/test/1.jpg".to_string()));

    // Continue cycling
    assert_eq!(queue.next(), Some(&"/test/2.jpg".to_string()));
}

#[test]
fn test_queue_cycling_random() {
    let images =
        vec!["/test/a.jpg".to_string(), "/test/b.jpg".to_string(), "/test/c.jpg".to_string()];

    let mut queue = Queue::new(2, Sorting::Random, images.clone()).unwrap();

    let mut seen_images = std::collections::HashSet::new();

    // Go through more than the original number of images to verify cycling
    for _ in 0..10 {
        if let Some(image) = queue.next() {
            seen_images.insert(image.clone());
            // Every image should be one of the original ones
            assert!(images.contains(image), "Image {:?} was not in original list", image);
        }
    }

    // We should have seen all original images at least once due to cycling
    assert_eq!(seen_images.len(), 3);
}

#[test]
fn test_queue_never_exhausted() {
    let images = vec!["/test/single.jpg".to_string()];

    let mut queue = Queue::new(1, Sorting::Ascending, images).unwrap();

    // First image
    assert_eq!(queue.current_image(), Some(&"/test/single.jpg".to_string()));

    // Should cycle indefinitely on the same image
    for _ in 0..5 {
        assert_eq!(queue.next(), Some(&"/test/single.jpg".to_string()));
    }
}

#[test]
fn no_images_no_queue() {
    assert!(Queue::new(3, Sorting::Ascending, Vec::new()).is_none());
    assert!(Queue::new(0, Sorting::Random, Vec::new()).is_none());
}

#[test]
fn ascending_sorts_what_it_is_given() {
    let queue = Queue::new(10, Sorting::Ascending, paths(&["/c", "/a", "/b", "/a0"])).unwrap();
    assert_eq!(queue.get_all_images(), paths(&["/a", "/a0", "/b", "/c"]));
    assert_eq!(queue.current_image(), Some(&"/a".to_string()));
    assert_eq!(queue.get_sorting(), Sorting::Ascending);
}

#[test]
fn descending_sorts_the_other_way() {
    let queue = Queue::new(10, Sorting::Descending, paths(&["/c", "/a", "/b", "/a0"])).unwrap();
    assert_eq!(queue.get_all_images(), paths(&["/c", "/b", "/a0", "/a"]));
    assert_eq!(queue.current_image(), Some(&"/c".to_string()));
}

#[test]
fn order_is_by_code_point() {
    let queue = Queue::new(10, Sorting::Ascending, paths(&["b", "B", "a", "\u{e9}", "Z", ""]))
        .unwrap();
    assert_eq!(queue.get_all_images(), paths(&["", "B", "Z", "a", "b", "\u{e9}"]));
}

#[test]
fn random_keeps_every_image() {
    let names: Vec<String> = (0..50).map(|i| format!("/img/{:02}.png", i)).collect();
    let queue = Queue::new(4, Sorting::Random, names.clone()).unwrap();
    let all = queue.get_all_images();
    let mut sorted = all.clone();
    sorted.sort();
    assert_eq!(sorted, names);
    // fifty images stay in their order with a chance of one in 50!
    assert_ne!(all, names);
}

#[test]
fn size_counts_history_buffer_and_current() {
    let mut queue = Queue::new(2, Sorting::Ascending, paths(&["1", "2", "3", "4", "5"])).unwrap();
    assert_eq!(queue.size(), 3);
    assert_eq!(queue.current_position(), 0);
    assert!(queue.is_full());
    assert_eq!(queue.capacity(), 2);
    queue.next();
    assert_eq!(queue.size(), 4);
    assert_eq!(queue.current_position(), 1);
    queue.next();
    queue.next();
    // history 1 2 3, current 4, buffer 5
    assert_eq!(queue.size(), 5);
    assert!(!queue.is_full());
}

#[test]
fn capacity_zero_still_advances() {
    let mut queue = Queue::new(0, Sorting::Ascending, paths(&["1", "2", "3"])).unwrap();
    assert_eq!(queue.current_image(), Some(&"1".to_string()));
    assert_eq!(queue.next(), Some(&"2".to_string()));
    assert_eq!(queue.next(), Some(&"3".to_string()));
    assert_eq!(queue.next(), Some(&"1".to_string()));
    assert!(queue.is_full());
}

#[test]
fn every_image_comes_back_within_two_rounds() {
    for sorting in [Sorting::Random, Sorting::Ascending, Sorting::Descending] {
        for n in 1..6usize {
            for capacity in 0..4usize {
                let names: Vec<String> = (0..n).map(|i| format!("/{}", i)).collect();
                let mut queue = Queue::new(capacity, sorting, names.clone()).unwrap();
                let mut seen = std::collections::HashSet::new();
                for _ in 0..2 * n {
                    let image = queue.next().expect("a queue never runs dry").clone();
                    seen.insert(image);
                    let mut all = queue.get_all_images();
                    all.sort();
                    assert_eq!(all, names);
                }
                assert_eq!(seen.len(), n);
            }
        }
    }
}

#[test]
fn advance_then_retreat_restores() {
    let mut queue = Queue::new(2, Sorting::Ascending, paths(&["1", "2", "3", "4"])).unwrap();
    queue.next();
    let before = queue.get_all_images();
    let current = queue.current_image().cloned();
    let position = queue.current_position();
    assert_eq!(queue.next(), Some(&"3".to_string()));
    assert_eq!(queue.previous(), Some(&"2".to_string()));
    assert_eq!(queue.current_image().cloned(), current);
    assert_eq!(queue.current_position(), position);
    assert_eq!(queue.get_all_images(), before);
    assert_eq!(queue.size(), 4);
}

#[test]
fn retreat_at_the_start_changes_nothing() {
    let mut queue = Queue::new(2, Sorting::Ascending, paths(&["1", "2", "3"])).unwrap();
    assert_eq!(queue.previous(), None);
    assert_eq!(queue.current_image(), Some(&"1".to_string()));
    assert_eq!(queue.current_position(), 0);
    assert_eq!(queue.get_all_images(), paths(&["1", "2", "3"]));
    assert_eq!(queue.next(), Some(&"2".to_string()));
}

#[test]
fn retreat_keeps_the_buffer_within_its_capacity() {
    let mut queue = Queue::new(1, Sorting::Ascending, paths(&["1", "2", "3", "4"])).unwrap();
    queue.next();
    queue.next();
    // history 1 2, current 3, buffer 4
    assert_eq!(queue.size(), 4);
    assert_eq!(queue.previous(), Some(&"2".to_string()));
    // history 1, current 2, buffer 3, pool 4
    assert_eq!(queue.size(), 3);
    assert_eq!(queue.get_all_images(), paths(&["1", "2", "3", "4"]));
}

#[test]
fn seek_to_every_position() {
    let names = paths(&["a", "b", "c", "d"]);
    for n in 0..4 {
        let mut queue = Queue::new(2, Sorting::Ascending, names.clone()).unwrap();
        assert!(queue.set_position(n));
        assert_eq!(queue.current_position(), n);
        assert_eq!(queue.current_image(), Some(&names[n]));
        assert_eq!(queue.get_all_images(), names);
    }
}

#[test]
fn seek_past_the_end_fails_and_changes_nothing() {
    let names = paths(&["a", "b", "c"]);
    let mut queue = Queue::new(2, Sorting::Ascending, names.clone()).unwrap();
    queue.next();
    assert!(!queue.set_position(3));
    assert!(!queue.set_position(usize::MAX));
    assert_eq!(queue.current_position(), 1);
    assert_eq!(queue.current_image(), Some(&"b".to_string()));
    assert_eq!(queue.get_all_images(), names);
}

#[test]
fn seek_to_the_last_image_then_start_over() {
    let mut queue = Queue::new(2, Sorting::Ascending, paths(&["a", "b", "c"])).unwrap();
    assert!(queue.set_position(2));
    assert_eq!(queue.current_image(), Some(&"c".to_string()));
    assert_eq!(queue.next(), Some(&"a".to_string()));
    assert_eq!(queue.current_position(), 0);
    assert_eq!(queue.next(), Some(&"b".to_string()));
}

#[test]
fn sorting_names() {
    assert_eq!(Sorting::Random.name(), "random");
    assert_eq!(Sorting::Ascending.name(), "ascending");
    assert_eq!(Sorting::Descending.name(), "descending");
}

#[test]
fn a_copy_is_a_queue_of_its_own() {
    let mut queue = Queue::new(2, Sorting::Ascending, paths(&["1", "2", "3", "4"])).unwrap();
    queue.next();
    let mut copy = queue.clone();
    assert_eq!(copy.get_all_images(), queue.get_all_images());
    assert_eq!(copy.current_image(), queue.current_image());
    assert_eq!(copy.current_position(), 1);
    assert_eq!(copy.size(), queue.size());
    assert_eq!(copy.capacity(), 2);
    copy.next();
    assert_eq!(copy.current_image(), Some(&"3".to_string()));
    assert_eq!(queue.current_image(), Some(&"2".to_string()));
}
