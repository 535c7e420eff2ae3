//! Task and channel lifecycle behavior against the driver model.

use nidaqmx::driver::Driver;
use nidaqmx::status::{
    Error, ErrorKind, DAQ_ERROR_CHAN_ALREADY_IN_TASK, DAQ_ERROR_DUPLICATE_TASK,
    DAQ_ERROR_INVALID_TASK, DAQ_ERROR_PHYSICAL_CHAN_INVALID, ERROR_INDEX_OUT_OF_RANGE,
    ERROR_INVALID_NAME,
};
use nidaqmx::task::Task;

#[test]
fn create_close_task() {
    let mut driver = Driver::new();
    let task_name = "create_close_task";
    {
        let mut task = Task::new(&mut driver, task_name).unwrap();
        let err = match Task::new(&mut driver, task_name) {
            Ok(_) => panic!("duplicate task should error"),
            Err(err) => err,
        };
        assert_eq!(err.code, DAQ_ERROR_DUPLICATE_TASK);
        task.release(&mut driver);
    }
    // the first task is released, so the name can be reused.
    {
        if let Err(_) = Task::new(&mut driver, task_name) {
            panic!("Task name should be available");
        }
    }
}

#[test]
fn create_ai_chan() {
    let mut driver = Driver::new();
    let task_name = "create_ai_chan";
    {
        let task = Task::new(&mut driver, task_name).unwrap();
        task.ai_channels
            .add_ai_voltage_chan(&mut driver, "Dev1/ai0", -5_000_000, 5_000_000)
            .unwrap();
        let err = match task.ai_channels.add_ai_voltage_chan(
            &mut driver,
            "Dev1/ai0",
            -5_000_000,
            5_000_000,
        ) {
            Ok(_) => panic!("duplicate virtual channel name should error"),
            Err(err) => err,
        };
        assert_eq!(err.code, DAQ_ERROR_CHAN_ALREADY_IN_TASK);
        assert_eq!(err.kind(), ErrorKind::DuplicateResource);
    }
}

#[test]
fn ai_channel_names() {
    let mut driver = Driver::new();
    let task_name = "ai_channel_names";
    {
        let task = Task::new(&mut driver, task_name).unwrap();
        task.ai_channels
            .add_ai_voltage_chan(&mut driver, "Dev1/ai0", -5_000_000, 5_000_000)
            .unwrap();
        task.ai_channels
            .add_ai_voltage_chan(&mut driver, "Dev1/ai1", -5_000_000, 5_000_000)
            .unwrap();

        let channel_names = task.ai_channels.channel_names(&driver).unwrap();
        assert_eq!(channel_names.len(), 2);
        assert_eq!(channel_names[0], "Dev1/ai0");
        assert_eq!(channel_names[1], "Dev1/ai1");
    }
}

#[test]
fn ai_channel_indexing() {
    let mut driver = Driver::new();
    let task_name = "ai_channel_indexing";
    {
        let task = Task::new(&mut driver, task_name).unwrap();
        task.ai_channels
            .add_ai_voltage_chan(&mut driver, "Dev1/ai0", -5_000_000, 5_000_000)
            .unwrap();
        task.ai_channels
            .add_ai_voltage_chan(&mut driver, "Dev1/ai1", -5_000_000, 5_000_000)
            .unwrap();

        let ai0 = task.ai_channels.channel_at(&driver, 0).unwrap();
        assert_eq!(ai0.name, "Dev1/ai0");
        let ai1 = task.ai_channels.channel_at(&driver, 1).unwrap();
        assert_eq!(ai1.name, "Dev1/ai1");
    }
}

#[test]
fn ai_invalid_channel_indexing() {
    let mut driver = Driver::new();
    let task_name = "ai_invalid_channel_indexing";
    {
        let task = Task::new(&mut driver, task_name).unwrap();
        task.ai_channels
            .add_ai_voltage_chan(&mut driver, "Dev1/ai0", -5_000_000, 5_000_000)
            .unwrap();
        task.ai_channels
            .add_ai_voltage_chan(&mut driver, "Dev1/ai1", -5_000_000, 5_000_000)
            .unwrap();
        // an index beyond the list is a caller bug: it is refused with the
        // dedicated out-of-range class, never a channel value
        let err = match task.ai_channels.channel_at(&driver, 2) {
            Ok(_) => panic!("out-of-range index should be refused"),
            Err(err) => err,
        };
        assert_eq!(err.code, ERROR_INDEX_OUT_OF_RANGE);
        assert_eq!(err.kind(), ErrorKind::IndexOutOfRange);
    }
}

#[test]
fn task_name_with_embedded_nul_is_refused() {
    let mut driver = Driver::new();
    let err = match Task::new(&mut driver, "bad\0name") {
        Ok(_) => panic!("name with embedded null should error"),
        Err(err) => err,
    };
    assert_eq!(err.code, ERROR_INVALID_NAME);
    assert_eq!(err.kind(), ErrorKind::InvalidArgument);
}

#[test]
fn channel_name_with_embedded_nul_is_refused() {
    let mut driver = Driver::new();
    let task = Task::new(&mut driver, "nul_channel").unwrap();
    let err = match task
        .ai_channels
        .add_ai_voltage_chan(&mut driver, "Dev1\0ai0", -5_000_000, 5_000_000)
    {
        Ok(_) => panic!("channel name with embedded null should error"),
        Err(err) => err,
    };
    assert_eq!(err.code, ERROR_INVALID_NAME);
}

#[test]
fn malformed_physical_channel_is_refused() {
    let mut driver = Driver::new();
    let task = Task::new(&mut driver, "malformed_channel").unwrap();
    for bad in ["", " padded ", "a,b"] {
        let err = match task
            .ai_channels
            .add_ai_voltage_chan(&mut driver, bad, -5_000_000, 5_000_000)
        {
            Ok(_) => panic!("invalid physical channel should error"),
            Err(err) => err,
        };
        assert_eq!(err.code, DAQ_ERROR_PHYSICAL_CHAN_INVALID);
    }
}

#[test]
fn released_handle_is_invalid_for_queries() {
    let mut driver = Driver::new();
    let mut task = Task::new(&mut driver, "stale_handle").unwrap();
    let channels = task.ai_channels;
    task.release(&mut driver);
    let err = match channels.channel_names(&driver) {
        Ok(_) => panic!("query on a released task should error"),
        Err(err) => err,
    };
    assert_eq!(err.code, DAQ_ERROR_INVALID_TASK);
    assert_eq!(err.kind(), ErrorKind::DriverError);
}

#[test]
fn release_is_idempotent_and_frees_the_name() {
    let mut driver = Driver::new();
    let mut task = Task::new(&mut driver, "release_twice").unwrap();
    task.release(&mut driver);
    // the handle now carries the released sentinel: a defensive second call
    // must not reach the driver
    assert_eq!(task.handle, 0);
    task.release(&mut driver);
    // the name was freed exactly once and is available again
    let mut again = Task::new(&mut driver, "release_twice").unwrap();
    again.release(&mut driver);
}

#[test]
fn channel_names_of_empty_task_is_one_empty_entry() {
    // a task with no channels flattens to the empty string, and splitting
    // the empty string yields exactly one empty entry
    let mut driver = Driver::new();
    let task = Task::new(&mut driver, "empty_task").unwrap();
    let names = task.ai_channels.channel_names(&driver).unwrap();
    assert_eq!(names, vec![String::new()]);
}

#[test]
fn channel_names_keep_creation_order() {
    let mut driver = Driver::new();
    let task = Task::new(&mut driver, "ordered_channels").unwrap();
    for name in ["Dev1/ai2", "Dev1/ai0", "Dev1/ai1"] {
        task.ai_channels
            .add_ai_voltage_chan(&mut driver, name, -10_000_000, 10_000_000)
            .unwrap();
    }
    let names = task.ai_channels.channel_names(&driver).unwrap();
    assert_eq!(names, vec!["Dev1/ai2", "Dev1/ai0", "Dev1/ai1"]);
}

#[test]
fn error_kinds_classify_codes() {
    assert_eq!(
        Error::from_code(DAQ_ERROR_DUPLICATE_TASK).kind(),
        ErrorKind::DuplicateResource
    );
    assert_eq!(
        Error::from_code(DAQ_ERROR_CHAN_ALREADY_IN_TASK).kind(),
        ErrorKind::DuplicateResource
    );
    assert_eq!(Error::from_code(ERROR_INVALID_NAME).kind(), ErrorKind::InvalidArgument);
    assert_eq!(
        Error::from_code(ERROR_INDEX_OUT_OF_RANGE).kind(),
        ErrorKind::IndexOutOfRange
    );
    assert_eq!(Error::from_code(-1).kind(), ErrorKind::DriverError);
    let err = Error::from_code(DAQ_ERROR_INVALID_TASK);
    assert_eq!(err.code, DAQ_ERROR_INVALID_TASK);
    assert!(err.description.is_empty());
    assert!(err.extended_info.is_empty());
}
