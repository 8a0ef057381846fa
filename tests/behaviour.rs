use lumpdevice::command::{DeviceRequest, Output};
use lumpdevice::deadline::Deadline;
use lumpdevice::device::{Device, DeviceBuilder, DeviceHandle, DeviceMetrics, DeviceStatus, LongQueuePolicy};
use lumpdevice::error::ErrorKind;
use lumpdevice::gate::{ProbabilisticGate, RATIO_ONE};
use lumpdevice::lump::{LumpData, LumpId, MAX_EMBEDDED_SIZE, MAX_SIZE};
use lumpdevice::queue::{DeadlineQueue, OverloadDetector};
use lumpdevice::storage::{LumpHeader, Storage};

fn id(n: u128) -> LumpId {
    LumpId::new(n)
}

fn data(bytes: &[u8]) -> LumpData {
    LumpData::new(Vec::from(bytes)).unwrap()
}

fn running_with(builder: DeviceBuilder, storage: Storage) -> Device {
    let mut device = builder.spawn();
    device.start(Ok(storage));
    device
}

fn running() -> Device {
    running_with(DeviceBuilder::new(), Storage::new(512, 1024 * 1024).unwrap())
}

fn run_all(device: &mut Device) -> Vec<(u64, Result<Output, ErrorKind>)> {
    let mut out = Vec::new();
    while device.queue_len() > 0 {
        for r in device.run_once(0) {
            out.push((r.ticket, r.result));
        }
    }
    out
}

#[test]
fn storage_rejects_zero_block_size() {
    assert_eq!(Storage::new(0, 1024).err(), Some(ErrorKind::InvalidInput));
}

#[test]
fn storage_get_head_and_overwrite() {
    let mut s = Storage::new(512, 1 << 20).unwrap();
    assert_eq!(s.put(id(7), data(b"abc")), Ok(true));
    assert_eq!(s.get(id(7)), Some(b"abc".to_vec()));
    assert_eq!(s.head(id(7)), Some(LumpHeader { data_size: 3, embedded: false }));
    assert_eq!(s.put(id(7), LumpData::new_embedded(b"xy".to_vec()).unwrap()), Ok(false));
    assert_eq!(s.get(id(7)), Some(b"xy".to_vec()));
    assert_eq!(s.head(id(7)), Some(LumpHeader { data_size: 2, embedded: true }));
    assert_eq!(s.get(id(8)), None);
    assert_eq!(s.head(id(8)), None);
}

#[test]
fn storage_usage_adds_footer_and_rounds_to_blocks() {
    let mut s = Storage::new(512, 1 << 20).unwrap();
    s.put(id(1), data(&[1; 100])).unwrap();
    assert_eq!(s.usage_range(id(0), id(10)), 512);
    s.put(id(2), data(&[1; 511])).unwrap();
    assert_eq!(s.usage_range(id(0), id(10)), 512 + 1024);
    s.put(id(3), LumpData::new_embedded(vec![1; 100]).unwrap()).unwrap();
    assert_eq!(s.usage_range(id(0), id(10)), 512 + 1024);
    assert_eq!(s.usage_range(id(2), id(3)), 1024);
    assert!(s.delete(id(2)));
    assert_eq!(s.usage_range(id(0), id(10)), 512);
}

#[test]
fn storage_full_is_reported_and_changes_nothing() {
    let mut s = Storage::new(512, 1024).unwrap();
    assert_eq!(s.put(id(1), data(&[0; 600])), Ok(true));
    assert_eq!(s.put(id(2), data(&[0; 10])), Err(ErrorKind::StorageFull));
    assert_eq!(s.list(), vec![id(1)]);
    // Replacing the lump frees its blocks first.
    assert_eq!(s.put(id(1), data(&[0; 1000])), Ok(false));
}

#[test]
fn storage_rejects_data_aligned_for_other_block_size() {
    let mut s = Storage::new(512, 1 << 20).unwrap();
    let d = LumpData::aligned_allocate(10, 4096).unwrap();
    assert_eq!(s.put(id(1), d), Err(ErrorKind::InvalidInput));
    let d = LumpData::aligned_allocate(10, 512).unwrap();
    assert_eq!(s.put(id(1), d), Ok(true));
}

#[test]
fn storage_journal_sync_clears_dirty() {
    let mut s = Storage::new(512, 1 << 20).unwrap();
    assert!(!s.is_dirty());
    assert!(!s.delete(id(1)));
    assert!(!s.is_dirty());
    s.put(id(1), data(b"a")).unwrap();
    assert!(s.is_dirty());
    s.journal_sync();
    assert!(!s.is_dirty());
    assert_eq!(s.delete_range(id(5), id(9)), vec![]);
    assert!(!s.is_dirty());
}

#[test]
fn lump_data_size_limits() {
    assert_eq!(LumpData::new(vec![0; MAX_SIZE + 1]).err(), Some(ErrorKind::InvalidInput));
    assert!(LumpData::new(vec![0; 4]).is_ok());
    assert_eq!(
        LumpData::new_embedded(vec![0; MAX_EMBEDDED_SIZE + 1]).err(),
        Some(ErrorKind::InvalidInput)
    );
    assert_eq!(LumpData::aligned_allocate(MAX_SIZE + 1, 512).err(), Some(ErrorKind::InvalidInput));
    let d = LumpData::aligned_allocate(3, 512).unwrap();
    assert_eq!(d.as_bytes(), &[0, 0, 0]);
    assert_eq!(d.block_size(), Some(512));
}

#[test]
fn allocation_follows_device_status() {
    let device = DeviceBuilder::new().spawn();
    let h = device.handle();
    assert_eq!(h.metrics().status, DeviceStatus::Starting);
    let d = h.allocate_lump_data(5).unwrap();
    assert_eq!(d.block_size(), None);
    assert_eq!(d.as_bytes(), &[0; 5]);

    let device = running();
    let h = device.handle();
    assert_eq!(h.metrics().block_size, Some(512));
    let d = h.allocate_lump_data_with_bytes(b"hello").unwrap();
    assert_eq!(d.as_bytes(), b"hello");
    assert_eq!(d.block_size(), Some(512));
    assert_eq!(h.allocate_lump_data(MAX_SIZE + 1).err(), Some(ErrorKind::InvalidInput));
}

#[test]
fn status_codes() {
    assert_eq!(DeviceStatus::Stopped.code(), 0);
    assert_eq!(DeviceStatus::Starting.code(), 1);
    assert_eq!(DeviceStatus::Running.code(), 2);
}

#[test]
fn default_policy_refuses_everything_when_overloaded() {
    assert_eq!(LongQueuePolicy::default(), LongQueuePolicy::RefuseNewRequests { ratio: RATIO_ONE });
}

#[test]
fn request_builder_sets_modifiers() {
    let r = DeviceRequest::new().deadline(Deadline::Within(5)).prioritized().journal_sync();
    assert_eq!(r.deadline, Deadline::Within(5));
    assert!(r.prioritized && r.journal_sync && !r.wait_for_running);
    let c = r.wait_for_running().list();
    assert!(c.wait_for_running && c.prioritized);
}

#[test]
fn dispatch_follows_deadlines_then_submission_order() {
    let mut device = running();
    let h = device.handle();
    let t0 = device.ticket();
    assert!(device.submit(h.request().put(id(1), data(b"a")), 0).is_none());
    assert!(device.submit(h.request().deadline(Deadline::Within(10)).list(), 0).is_none());
    assert!(device.submit(h.request().deadline(Deadline::Within(3)).list(), 0).is_none());
    assert!(device.submit(h.request().deadline(Deadline::Immediate).list(), 0).is_none());
    assert!(device.submit(h.request().deadline(Deadline::Within(3)).list(), 0).is_none());
    let order: Vec<u64> = run_all(&mut device).iter().map(|(t, _)| t - t0).collect();
    assert_eq!(order, vec![3, 2, 4, 1, 0]);
}

#[test]
fn starting_device_holds_only_waiting_commands() {
    let mut device = DeviceBuilder::new().spawn();
    let h = device.handle();
    let r = device.submit(h.request().list(), 0).unwrap();
    assert_eq!(r.result, Err(ErrorKind::DeviceBusy));
    assert!(device.submit(h.request().wait_until_running(), 0).is_none());
    assert_eq!(device.held_len(), 1);
    device.start(Ok(Storage::new(512, 1 << 20).unwrap()));
    assert_eq!(device.release_held(0), None);
    assert_eq!(run_all(&mut device), vec![(1, Ok(Output::Done))]);
}

#[test]
fn failed_initialisation_terminates_held_commands() {
    let mut device = DeviceBuilder::new().spawn();
    let h = device.handle();
    assert!(device.submit(h.request().wait_for_running().list(), 0).is_none());
    assert!(device.stop(Deadline::Immediate, 0).is_none());
    let replies = device.start(Err(ErrorKind::Other));
    assert_eq!(replies.len(), 2);
    assert!(replies.iter().all(|r| r.result == Err(ErrorKind::DeviceTerminated)));
    assert_eq!(device.poll(), Some(Err(ErrorKind::Other)));
    let r = device.submit(h.request().list(), 0).unwrap();
    assert_eq!(r.result, Err(ErrorKind::DeviceTerminated));
}

#[test]
fn queue_cap_turns_away_all_but_prioritized() {
    let mut device = running_with(
        DeviceBuilder::new().max_queue_len(1),
        Storage::new(512, 1 << 20).unwrap(),
    );
    let h = device.handle();
    assert!(device.submit(h.request().list(), 0).is_none());
    let r = device.submit(h.request().list(), 0).unwrap();
    assert_eq!(r.result, Err(ErrorKind::DeviceBusy));
    assert!(device.submit(h.request().prioritized().list(), 0).is_none());
    assert_eq!(device.queue_len(), 2);
}

#[test]
fn shutdown_flushes_journal_and_terminates_queue() {
    let mut device = running();
    let h = device.handle();
    assert!(device.submit(h.request().put(id(1), LumpData::new_embedded(b"hoge".to_vec()).unwrap()), 0).is_none());
    run_all(&mut device);
    assert!(device.storage().unwrap().is_dirty());
    assert!(device.submit(h.request().list(), 0).is_none());
    assert!(device.stop(Deadline::Immediate, 0).is_none());
    let replies = device.run_once(0);
    assert_eq!(replies.len(), 2);
    assert_eq!(replies[0].result, Ok(Output::Done));
    assert_eq!(replies[1].result, Err(ErrorKind::DeviceTerminated));
    assert_eq!(device.poll(), Some(Ok(())));
    assert!(!device.storage().unwrap().is_dirty());
    assert_eq!(device.storage().unwrap().get(id(1)), Some(b"hoge".to_vec()));
}

#[test]
fn detector_waits_for_duration() {
    let mut d = OverloadDetector::new(2, 5);
    assert!(!d.check_overload(1, 0));
    assert!(!d.check_overload(2, 10));
    assert!(!d.check_overload(3, 14));
    assert!(d.check_overload(2, 15));
    assert!(!d.check_overload(1, 16));
    assert!(!d.check_overload(2, 30));
}

#[test]
fn gate_extremes() {
    let mut g = ProbabilisticGate::new(42);
    for _ in 0..100 {
        assert!(g.fires(RATIO_ONE));
        assert!(!g.fires(0));
    }
    let mut g = ProbabilisticGate::new(7);
    let hits = (0..1000).filter(|_| g.fires(RATIO_ONE / 2)).count();
    assert!(hits > 300 && hits < 700);
}

#[test]
fn deadline_queue_pops_in_order() {
    let mut q: DeadlineQueue<u32> = DeadlineQueue::new();
    q.push(Deadline::Infinity.due(0), 1);
    q.push(Deadline::Within(2).due(5), 2);
    q.push(Deadline::Within(1).due(5), 3);
    q.push(Deadline::Immediate.due(9), 4);
    q.push(Deadline::Within(1).due(5), 5);
    let mut out = Vec::new();
    while let Some(e) = q.pop() {
        out.push(e.item);
    }
    assert_eq!(out, vec![4, 3, 5, 2, 1]);
    assert_eq!(q.len(), 0);
}

#[test]
fn storage_operations_go_through_device() {
    let mut device = running();
    let h = device.handle();
    let mut run = |c| {
        let t = device.ticket();
        assert!(device.submit(c, 0).is_none());
        let r = device.run_once(0);
        assert_eq!(r[0].ticket, t);
        r.into_iter().next().unwrap().result
    };
    assert_eq!(run(h.request().put(id(3), data(b"xyz"))), Ok(Output::Put(true)));
    assert_eq!(run(h.request().get(id(3))), Ok(Output::Get(Some(b"xyz".to_vec()))));
    assert_eq!(
        run(h.request().head(id(3))),
        Ok(Output::Head(Some(LumpHeader { data_size: 3, embedded: false })))
    );
    assert_eq!(run(h.request().journal_sync_now()), Ok(Output::Done));
    assert_eq!(run(h.request().get(id(4))), Ok(Output::Get(None)));
}

#[test]
fn handle_from_published_metrics_allocates_aligned() {
    let metrics = DeviceMetrics { status: DeviceStatus::Running, block_size: Some(4096), queue_len: 3 };
    let h = DeviceHandle::from_metrics(metrics);
    assert_eq!(*h.metrics(), metrics);
    assert_eq!(h.allocate_lump_data(2).unwrap().block_size(), Some(4096));
}

#[test]
fn fresh_device_accepts_first_command_and_stops_cleanly() {
    let mut device = Device::spawn();
    assert_eq!(device.poll(), None);
    assert!(device.stop(Deadline::Immediate, 0).is_none());
    assert_eq!(device.current_status(), DeviceStatus::Starting);
    device.start(Ok(Storage::new(512, 1 << 20).unwrap()));
    assert_eq!(device.release_held(0), None);
    assert_eq!(device.queue_len(), 1);
    let replies = device.run_once(0);
    assert_eq!(replies[0].result, Ok(Output::Done));
    assert_eq!(device.poll(), Some(Ok(())));
    assert_eq!(device.poll(), Some(Ok(())));
    let r = device.stop(Deadline::Immediate, 0).unwrap();
    assert_eq!(r.result, Err(ErrorKind::DeviceTerminated));
    assert_eq!(device.poll(), Some(Ok(())));
}
