use lumpdevice::command::{Command, Output};
use lumpdevice::deadline::Deadline;
use lumpdevice::device::{Device, DeviceBuilder, DeviceStatus, LongQueuePolicy};
use lumpdevice::error::ErrorKind;
use lumpdevice::gate::RATIO_ONE;
use lumpdevice::lump::{LumpData, LumpId};
use lumpdevice::storage::Storage;

fn id(n: u128) -> LumpId {
    LumpId::new(n)
}

fn data(bytes: &[u8]) -> LumpData {
    LumpData::new(Vec::from(bytes)).unwrap()
}

fn embedded_data(bytes: &[u8]) -> LumpData {
    LumpData::new_embedded(Vec::from(bytes)).unwrap()
}

fn storage() -> Storage {
    Storage::new(512, 1024 * 1024).unwrap()
}

/// Starts `device` on a fresh storage and passes its held commands on.
fn start(device: &mut Device) -> Vec<(u64, Result<Output, ErrorKind>)> {
    let mut out = Vec::new();
    device.start(Ok(storage()));
    while device.held_len() > 0 {
        if let Some(r) = device.release_held(0) {
            out.push((r.ticket, r.result));
        }
    }
    out
}

fn running(builder: DeviceBuilder) -> Device {
    let mut device = builder.spawn();
    start(&mut device);
    device
}

/// Submits `cmd` and runs the device until its reply comes.
fn execute(device: &mut Device, cmd: Command) -> Result<Output, ErrorKind> {
    let ticket = device.ticket();
    if let Some(r) = device.submit(cmd, 0) {
        return r.result;
    }
    loop {
        let replies = device.run_once(0);
        assert!(!replies.is_empty(), "no reply for ticket {}", ticket);
        for r in replies {
            if r.ticket == ticket {
                return r.result;
            }
        }
    }
}

/// Runs the device until its queue is empty; returns every reply.
fn drain(device: &mut Device) -> Vec<(u64, Result<Output, ErrorKind>)> {
    let mut out = Vec::new();
    while device.queue_len() > 0 {
        for r in device.run_once(0) {
            out.push((r.ticket, r.result));
        }
    }
    out
}

fn ids(v: &[u128]) -> Output {
    Output::List(v.iter().map(|n| id(*n)).collect())
}

fn put3(device: &mut Device) {
    let h = device.handle();
    execute(device, h.request().put(id(0), data(b"foo"))).unwrap();
    execute(device, h.request().put(id(1), data(b"bar"))).unwrap();
    execute(device, h.request().put(id(2), data(b"baz"))).unwrap();
    assert_eq!(execute(device, h.request().list()), Ok(ids(&[0, 1, 2])));
}

#[test]
fn device_works() {
    let mut device = running(DeviceBuilder::new());
    let h = device.handle();
    put3(&mut device);
    assert_eq!(execute(&mut device, h.request().delete(id(1))), Ok(Output::Delete(true)));
    assert_eq!(execute(&mut device, h.request().delete(id(1))), Ok(Output::Delete(false)));
    assert_eq!(execute(&mut device, h.request().list()), Ok(ids(&[0, 2])));
}

#[test]
fn delete_range_all_data_works() {
    let mut device = running(DeviceBuilder::new());
    let h = device.handle();
    put3(&mut device);
    assert_eq!(
        execute(&mut device, h.request().delete_range(id(0), id(3))),
        Ok(Output::DeleteRange(vec![id(0), id(1), id(2)]))
    );
    assert_eq!(execute(&mut device, h.request().list()), Ok(ids(&[])));
}

#[test]
fn delete_range_no_data_works() {
    let mut device = running(DeviceBuilder::new());
    let h = device.handle();
    put3(&mut device);
    assert_eq!(
        execute(&mut device, h.request().delete_range(id(3), id(9))),
        Ok(Output::DeleteRange(vec![]))
    );
    assert_eq!(execute(&mut device, h.request().list()), Ok(ids(&[0, 1, 2])));
}

#[test]
fn delete_range_partial_data_works() {
    let mut device = running(DeviceBuilder::new());
    let h = device.handle();
    execute(&mut device, h.request().put(id(0), data(b"foo"))).unwrap();
    execute(&mut device, h.request().put(id(1), data(b"bar"))).unwrap();
    execute(&mut device, h.request().put(id(2), data(b"baz"))).unwrap();
    execute(&mut device, h.request().put(id(3), data(b"hoge"))).unwrap();
    assert_eq!(execute(&mut device, h.request().list()), Ok(ids(&[0, 1, 2, 3])));
    assert_eq!(
        execute(&mut device, h.request().delete_range(id(1), id(3))),
        Ok(Output::DeleteRange(vec![id(1), id(2)]))
    );
    assert_eq!(execute(&mut device, h.request().list()), Ok(ids(&[0, 3])));
}

#[test]
fn list_range_works() {
    let mut device = running(DeviceBuilder::new());
    let h = device.handle();
    for i in 2..7u128 {
        execute(&mut device, h.request().put(id(i), data(i.to_string().as_bytes()))).unwrap();
    }
    assert_eq!(execute(&mut device, h.request().list()), Ok(ids(&[2, 3, 4, 5, 6])));
    assert_eq!(execute(&mut device, h.request().list_range(id(0), id(2))), Ok(ids(&[])));
    assert_eq!(execute(&mut device, h.request().list_range(id(1), id(5))), Ok(ids(&[2, 3, 4])));
    assert_eq!(execute(&mut device, h.request().list_range(id(3), id(4))), Ok(ids(&[3])));
    assert_eq!(
        execute(&mut device, h.request().list_range(id(0), id(10000))),
        Ok(ids(&[2, 3, 4, 5, 6]))
    );
}

#[test]
fn usage_range_works() {
    let mut device = running(DeviceBuilder::new());
    let h = device.handle();
    assert_eq!(device.storage().unwrap().block_size(), 512);
    assert_eq!(execute(&mut device, h.request().usage_range(id(0), id(10))), Ok(Output::Usage(0)));
    execute(&mut device, h.request().put(id(0), data(&[0; 510]))).unwrap();
    execute(&mut device, h.request().put(id(1), data(&[0; 511]))).unwrap();
    execute(&mut device, h.request().put(id(12), data(b"baz"))).unwrap();
    assert_eq!(execute(&mut device, h.request().usage_range(id(0), id(0))), Ok(Output::Usage(0)));
    assert_eq!(execute(&mut device, h.request().usage_range(id(0), id(1))), Ok(Output::Usage(512)));
    assert_eq!(execute(&mut device, h.request().usage_range(id(0), id(10))), Ok(Output::Usage(512 * 3)));
    assert_eq!(execute(&mut device, h.request().usage_range(id(0), id(13))), Ok(Output::Usage(512 * 4)));
}

#[test]
fn journal_sync_works() {
    let mut device = running(DeviceBuilder::new());
    let h = device.handle();
    execute(&mut device, h.request().put(id(1234), embedded_data(b"hoge"))).unwrap();
    // The record sits in the journal buffer, not yet in the backing memory.
    assert!(device.storage().unwrap().is_dirty());

    let mut device = running(DeviceBuilder::new());
    let h = device.handle();
    execute(&mut device, h.request().journal_sync().put(id(1234), embedded_data(b"hoge"))).unwrap();
    assert!(!device.storage().unwrap().is_dirty());
}

#[test]
fn device_stop_works() {
    let mut device = Device::spawn();
    start(&mut device);
    assert_eq!(device.stop(Deadline::Immediate, 0), None);
    drain(&mut device);
    assert_eq!(device.poll(), Some(Ok(())));
    assert_eq!(device.current_status(), DeviceStatus::Stopped);
}

fn overload_builder(threshold: usize, policy: LongQueuePolicy) -> DeviceBuilder {
    DeviceBuilder::new()
        .busy_threshold(threshold)
        .max_keep_busy_duration(0)
        .long_queue_policy(policy)
}

#[test]
fn device_long_queue_policy_refuse_request_works() {
    let mut device = overload_builder(0, LongQueuePolicy::RefuseNewRequests { ratio: RATIO_ONE }).spawn();
    let h = device.handle();
    start(&mut device);
    // The first observation starts the measurement and never refuses.
    let result = execute(&mut device, h.request().wait_for_running().put(id(1234), embedded_data(b"hoge")));
    assert_eq!(result, Ok(Output::Put(true)));
    let result = execute(&mut device, h.request().wait_for_running().put(id(1234), embedded_data(b"hoge")));
    assert_eq!(result, Err(ErrorKind::RequestRefused));
    let result = execute(
        &mut device,
        h.request().wait_for_running().prioritized().put(id(1234), embedded_data(b"hoge")),
    );
    assert_eq!(result, Ok(Output::Put(false)));
}

fn five_held_puts(device: &mut Device) -> Vec<(u64, Result<Output, ErrorKind>)> {
    let h = device.handle();
    for _ in 0..5 {
        let r = device.submit(h.request().wait_for_running().put(id(1234), embedded_data(b"hoge")), 0);
        assert!(r.is_none());
    }
    assert_eq!(device.held_len(), 5);
    let mut out = start(device);
    out.extend(drain(device));
    out
}

fn count(out: &[(u64, Result<Output, ErrorKind>)]) -> (usize, Vec<ErrorKind>) {
    let ok = out.iter().filter(|(_, r)| r.is_ok()).count();
    let errs = out.iter().filter_map(|(_, r)| r.as_ref().err().copied()).collect();
    (ok, errs)
}

#[test]
fn device_long_queue_policy_refuse_request_works_2() {
    let mut device = overload_builder(3, LongQueuePolicy::RefuseNewRequests { ratio: RATIO_ONE }).spawn();
    let out = five_held_puts(&mut device);
    let (ok, errs) = count(&out);
    assert_eq!(ok, 4);
    assert_eq!(errs, vec![ErrorKind::RequestRefused]);
}

#[test]
fn device_long_queue_policy_stop_works() {
    let mut device = overload_builder(0, LongQueuePolicy::Stop).spawn();
    let h = device.handle();
    start(&mut device);
    let result = execute(&mut device, h.request().wait_for_running().put(id(1234), embedded_data(b"hoge")));
    assert_eq!(result, Err(ErrorKind::DeviceTerminated));
    assert_eq!(device.poll(), Some(Ok(())));
}

#[test]
fn device_long_queue_policy_drop_works() {
    let mut device = overload_builder(0, LongQueuePolicy::Drop { ratio: RATIO_ONE }).spawn();
    let h = device.handle();
    start(&mut device);
    let result = execute(&mut device, h.request().wait_for_running().put(id(1234), embedded_data(b"hoge")));
    assert_eq!(result, Err(ErrorKind::RequestDropped));
    let result = execute(
        &mut device,
        h.request().wait_for_running().prioritized().put(id(1234), embedded_data(b"hoge")),
    );
    assert_eq!(result, Ok(Output::Put(true)));
}

#[test]
fn device_long_queue_policy_drop_works_2() {
    let mut device = overload_builder(3, LongQueuePolicy::Drop { ratio: RATIO_ONE }).spawn();
    let out = five_held_puts(&mut device);
    let (ok, errs) = count(&out);
    assert_eq!(ok, 3);
    assert_eq!(errs, vec![ErrorKind::RequestDropped, ErrorKind::RequestDropped]);
}
