use heap_test::heap::Heap;

#[test]
fn hello_world_scenario() {
    let mut heap = Heap::new();
    let hello = heap.add(b"hello");
    let world = heap.add(b"world");
    assert_eq!(heap.read_as_str(hello), b"hello".to_vec());
    assert_eq!(heap.read_as_str(world), b"world".to_vec());
    let joined = heap.strcat(hello, world);
    assert_eq!(heap.read_as_str(joined), b"helloworld".to_vec());
    assert_eq!(heap.strlen(joined), 10);
}

#[test]
fn empty_payload() {
    let mut heap = Heap::new();
    let handle = heap.add(b"");
    assert_eq!(heap.strlen(handle), 0);
    assert_eq!(heap.read_as_str(handle), Vec::<u8>::new());
}

#[test]
fn multibyte_payload_round_trip() {
    // Non-ASCII text: every payload byte must be kept as a raw byte, and
    // the scan must never stop inside a multi-byte encoded character.
    let mut heap = Heap::new();
    let greeting = "\u{3053}\u{3093}\u{3070}\u{3093}\u{306f}\u{ff01}";
    let handle = heap.add(greeting.as_bytes());
    assert_eq!(heap.strlen(handle), greeting.len());
    assert_eq!(heap.read_as_str(handle), greeting.as_bytes().to_vec());
    assert_eq!(
        String::from_utf8(heap.read_as_str(handle)).unwrap(),
        greeting
    );
}

#[test]
fn multibyte_concatenation() {
    let mut heap = Heap::new();
    let hello = "\u{3053}\u{3093}\u{3070}\u{3093}\u{306f}\u{ff01}";
    let sleepy = "\u{7720}\u{3044}\u{3067}\u{3059}\u{306d}\u{30fc}\u{3002}";
    let h1 = heap.add(hello.as_bytes());
    let h2 = heap.add(sleepy.as_bytes());
    let joined = heap.strcat(h1, h2);
    let mut expected = String::from(hello);
    expected.push_str(sleepy);
    assert_eq!(heap.read_as_str(joined), expected.as_bytes().to_vec());
    assert_eq!(heap.strlen(joined), expected.len());
}

#[test]
fn concatenation_of_empty_strings() {
    let mut heap = Heap::new();
    let empty = heap.add(b"");
    let word = heap.add(b"arena");
    let left = heap.strcat(empty, word);
    let right = heap.strcat(word, empty);
    let both = heap.strcat(empty, empty);
    assert_eq!(heap.read_as_str(left), b"arena".to_vec());
    assert_eq!(heap.read_as_str(right), b"arena".to_vec());
    assert_eq!(heap.read_as_str(both), Vec::<u8>::new());
    assert_eq!(heap.strlen(both), 0);
}

#[test]
fn concatenation_terminator_placement() {
    // The combined payload must be followed by exactly one terminator:
    // the scanned length of the result is the sum of the payload lengths,
    // and concatenating the result again still delimits correctly.
    let mut heap = Heap::new();
    let h1 = heap.add(b"abc");
    let h2 = heap.add(b"defg");
    let joined = heap.strcat(h1, h2);
    assert_eq!(heap.strlen(joined), 7);
    let twice = heap.strcat(joined, joined);
    assert_eq!(heap.strlen(twice), 14);
    assert_eq!(heap.read_as_str(twice), b"abcdefgabcdefg".to_vec());
}

#[test]
fn isolation_between_allocations() {
    let mut heap = Heap::new();
    let first = heap.add(b"first");
    let before = heap.read_as_str(first);
    let second = heap.add(b"second");
    assert_eq!(heap.read_as_str(first), before);
    let joined = heap.strcat(first, second);
    assert_eq!(heap.read_as_str(first), b"first".to_vec());
    assert_eq!(heap.read_as_str(second), b"second".to_vec());
    assert_eq!(heap.read_as_str(joined), b"firstsecond".to_vec());
}

#[test]
fn teardown_releases_every_allocation() {
    let mut heap = Heap::new();
    let h1 = heap.add(b"one");
    let h2 = heap.add(b"two");
    let _h3 = heap.strcat(h1, h2);
    assert_eq!(heap.len(), 3);
    assert_eq!(heap.teardown(), 3);
}

#[test]
fn teardown_of_empty_heap() {
    let heap = Heap::new();
    assert_eq!(heap.teardown(), 0);
}

#[test]
fn embedded_terminator_truncates() {
    // The arena does not reject payloads holding a terminator byte; the
    // logical string is silently truncated at the first one.
    let mut heap = Heap::new();
    let handle = heap.add(&[104u8, 0u8, 105u8]);
    assert_eq!(heap.strlen(handle), 1);
    assert_eq!(heap.read_as_str(handle), vec![104u8]);
}

#[test]
fn handles_are_issued_in_allocation_order() {
    let mut heap = Heap::new();
    assert_eq!(heap.add(b"a"), 0);
    assert_eq!(heap.add(b"b"), 1);
    let joined = heap.strcat(0, 1);
    assert_eq!(joined, 2);
    assert_eq!(heap.len(), 3);
}
