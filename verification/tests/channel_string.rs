//! Parsing and buffered-string protocol behavior.

use nidaqmx::driver::Driver;
use nidaqmx::parse::unflatten_channel_string;
use nidaqmx::protocol::{protocol_decide, ProtocolStep};
use nidaqmx::status::{DAQ_ERROR_BUFFER_TOO_SMALL, DAQ_WARNING_STRING_TRUNCATED};
use nidaqmx::task::Task;

#[test]
fn test_unflatten_channel_string() {
    let chans = "Dev1/ai0, Dev1/ai1";
    let chans_unflat = unflatten_channel_string(chans);
    assert_eq!(chans_unflat.len(), 2);
    assert_eq!(chans_unflat[0], "Dev1/ai0");
    assert_eq!(chans_unflat[1], "Dev1/ai1");
}

#[test]
fn unflatten_is_idempotent_on_trimmed_input() {
    let first = unflatten_channel_string("Dev1/ai0, Dev1/ai1");
    for entry in &first {
        let again = unflatten_channel_string(entry);
        assert_eq!(again.len(), 1);
        assert_eq!(&again[0], entry);
    }
}

#[test]
fn unflatten_edge_cases() {
    assert_eq!(unflatten_channel_string(""), vec![String::new()]);
    assert_eq!(unflatten_channel_string("  Dev1/ai0\t"), vec!["Dev1/ai0".to_string()]);
    assert_eq!(
        unflatten_channel_string("a,,b"),
        vec!["a".to_string(), String::new(), "b".to_string()]
    );
    assert_eq!(
        unflatten_channel_string(" x , y "),
        vec!["x".to_string(), "y".to_string()]
    );
}

#[test]
fn protocol_decisions_follow_the_state_machine() {
    // probe answered with a required size: fetch exactly that much
    assert_eq!(protocol_decide(0, 9), ProtocolStep::Fetch { size: 9 });
    // fetch answered with success: accept
    assert_eq!(protocol_decide(9, 0), ProtocolStep::Accept);
    // the list grew between probe and fetch: back to the probe
    assert_eq!(
        protocol_decide(9, DAQ_ERROR_BUFFER_TOO_SMALL),
        ProtocolStep::Restart
    );
    assert_eq!(
        protocol_decide(9, DAQ_WARNING_STRING_TRUNCATED),
        ProtocolStep::Restart
    );
    // a hard error fails
    assert_eq!(protocol_decide(0, -1), ProtocolStep::Fail);
    // a warning with a filled buffer is folded into success
    assert_eq!(protocol_decide(9, 1), ProtocolStep::Accept);
}

#[test]
fn protocol_converges_in_two_round_trips() {
    let mut driver = Driver::new();
    let task = Task::new(&mut driver, "protocol_converges").unwrap();
    task.ai_channels
        .add_ai_voltage_chan(&mut driver, "Dev1/ai0", -5_000_000, 5_000_000)
        .unwrap();
    task.ai_channels
        .add_ai_voltage_chan(&mut driver, "Dev1/ai1", -5_000_000, 5_000_000)
        .unwrap();
    // the flattened list is "Dev1/ai0, Dev1/ai1": 18 characters plus the
    // terminator
    let (probe_code, probe_data) = driver.get_task_channels(task.handle, 0);
    assert_eq!(probe_code, 19);
    assert_eq!(probe_data, String::new());
    let (fetch_code, fetch_data) = driver.get_task_channels(task.handle, 19);
    assert_eq!(fetch_code, 0);
    assert_eq!(fetch_data, "Dev1/ai0, Dev1/ai1");
    assert_eq!(fetch_data.len(), 18);
}

#[test]
fn undersized_fetch_reports_too_small() {
    let mut driver = Driver::new();
    let task = Task::new(&mut driver, "undersized_fetch").unwrap();
    task.ai_channels
        .add_ai_voltage_chan(&mut driver, "Dev1/ai0", -5_000_000, 5_000_000)
        .unwrap();
    let (code, data) = driver.get_task_channels(task.handle, 4);
    assert_eq!(code, DAQ_ERROR_BUFFER_TOO_SMALL);
    assert_eq!(data, String::new());
}
