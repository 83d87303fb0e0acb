use distmutex::channel::Channel;

#[test]
fn delivers_in_send_order() {
    let mut c: Channel<u32> = Channel::new();
    c.send(10);
    c.send(20);
    c.send(30);
    assert_eq!(c.recv(), 10);
    assert_eq!(c.recv(), 20);
    assert_eq!(c.recv(), 30);
    assert!(c.is_empty());
}

#[test]
fn len_tracks_contents() {
    let mut c: Channel<&str> = Channel::new();
    assert_eq!(c.len(), 0);
    assert!(c.is_empty());
    c.send("a");
    c.send("b");
    assert_eq!(c.len(), 2);
    assert!(!c.is_empty());
    c.recv();
    assert_eq!(c.len(), 1);
}

#[test]
fn read_buffer_observes_pending_items() {
    let mut c: Channel<u32> = Channel::new();
    c.send(1);
    c.send(2);
    c.send(3);
    let collected = c.read_buffer(|q| q.iter().copied().collect::<Vec<u32>>());
    assert_eq!(collected, vec![1, 2, 3]);
    // Observing does not consume.
    assert_eq!(c.len(), 3);
    assert_eq!(c.recv(), 1);
}
