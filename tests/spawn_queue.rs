use sharder::forward::forwarded_frame;
use sharder::spawn_queue::{QueueEvent, SpawnQueue, SPAWN_INTERVAL_MS};

#[test]
fn ticks_launch_the_range_in_order() {
    let mut q = SpawnQueue::new(3, 6);
    assert!(!q.initial_spawns_done());
    assert_eq!(q.handle(QueueEvent::Tick), Some(3));
    assert_eq!(q.handle(QueueEvent::Tick), Some(4));
    assert_eq!(q.handle(QueueEvent::Tick), Some(5));
    assert!(q.initial_spawns_done());
    assert_eq!(q.handle(QueueEvent::Tick), None);
    assert!(SPAWN_INTERVAL_MS > 0);
}

#[test]
fn respawn_relaunches_at_once() {
    let mut q = SpawnQueue::new(0, 4);
    assert_eq!(q.handle(QueueEvent::Tick), Some(0));
    assert_eq!(q.handle(QueueEvent::Tick), Some(1));
    assert_eq!(q.handle(QueueEvent::Respawn(1)), Some(1));
    assert_eq!(q.handle(QueueEvent::Respawn(0)), Some(0));
    // Not launched yet, or outside the range: nothing to relaunch.
    assert_eq!(q.handle(QueueEvent::Respawn(2)), None);
    assert_eq!(q.handle(QueueEvent::Respawn(9)), None);
    assert_eq!(q.handle(QueueEvent::Tick), Some(2));
}

#[test]
fn at_most_one_worker_per_shard() {
    let mut q = SpawnQueue::new(0, 3);
    let events = [
        QueueEvent::Tick,
        QueueEvent::Respawn(0),
        QueueEvent::Respawn(1),
        QueueEvent::Tick,
        QueueEvent::Respawn(0),
        QueueEvent::Tick,
        QueueEvent::Tick,
        QueueEvent::Respawn(2),
    ];
    let mut launches = [0usize; 3];
    let mut requests = [0usize; 3];
    for e in events {
        if let QueueEvent::Respawn(id) = e {
            if (id as usize) < 3 {
                requests[id as usize] += 1;
            }
        }
        if let Some(id) = q.handle(e) {
            launches[id as usize] += 1;
        }
        for id in 0..3 {
            assert!(launches[id] <= 1 + requests[id]);
        }
    }
    assert_eq!(launches, [3, 1, 2]);
}

#[test]
fn empty_range_launches_nothing() {
    let mut q = SpawnQueue::new(5, 5);
    assert!(q.initial_spawns_done());
    assert_eq!(q.handle(QueueEvent::Tick), None);
    let mut r = SpawnQueue::new(7, 2);
    assert_eq!(r.handle(QueueEvent::Tick), None);
    assert_eq!(r.handle(QueueEvent::Respawn(7)), None);
}

#[test]
fn largest_shard_id_is_launched() {
    let mut q = SpawnQueue::new(65534, 65535);
    assert_eq!(q.handle(QueueEvent::Tick), Some(65534));
    assert_eq!(q.handle(QueueEvent::Tick), None);
}

#[test]
fn forwarded_frame_appends_little_endian_id() {
    assert_eq!(forwarded_frame(vec![1, 2, 3], 0x1234), vec![1, 2, 3, 0x34, 0x12]);
    assert_eq!(forwarded_frame(Vec::new(), 65535), vec![0xff, 0xff]);
    assert_eq!(forwarded_frame(vec![7], 0), vec![7, 0, 0]);
}
