use std::sync::mpsc::{channel, Sender};
use video_frame_fuse::file::{DataChangeHandler, DataFetcher, DataSource, FileInformation};

struct FixedData(Vec<u8>);

impl DataFetcher for FixedData {
    fn fetch(&self) -> Vec<u8> {
        self.0.clone()
    }
}

struct ExpectingHandler {
    expected: String,
    sender: Sender<()>,
}

impl DataChangeHandler for ExpectingHandler {
    fn on_change(&self, text: &str) -> Result<(), String> {
        assert_eq!(text, self.expected);
        self.sender.send(()).unwrap();
        Ok(())
    }
}

struct RefusingHandler;

impl DataChangeHandler for RefusingHandler {
    fn on_change(&self, text: &str) -> Result<(), String> {
        Err(format!("refused: {}", text))
    }
}

#[test]
fn get_data_when_stored() {
    let data = "DATA".as_bytes().to_vec();

    let file_information = FileInformation {
        name: "".to_string(),
        source: DataSource::Stored(data.clone()),
        listed: false,
        executable: false,
        writable: false,
        on_data_change: None,
    };
    assert_eq!(file_information.get_data(), data);
}

#[test]
fn get_data_when_fetched() {
    let fetcher = Box::new(FixedData("DATA".as_bytes().to_vec()));
    let expected = fetcher.fetch();

    let file_information = FileInformation {
        name: "".to_string(),
        source: DataSource::Generated(fetcher),
        listed: false,
        executable: false,
        writable: false,
        on_data_change: None,
    };
    assert_eq!(file_information.get_data(), expected);
}

#[test]
fn set_data_when_stored() {
    let (sender, receiver) = channel();
    let expected_data = "hello 123";

    let mut file_information = FileInformation {
        name: "".to_string(),
        source: DataSource::Stored(vec![]),
        listed: false,
        executable: false,
        writable: false,
        on_data_change: Some(Box::new(ExpectingHandler {
            expected: expected_data.to_string(),
            sender,
        })),
    };
    file_information
        .set_data(expected_data.as_bytes().to_vec())
        .unwrap();
    receiver.recv().unwrap();

    assert_eq!(
        std::str::from_utf8(file_information.get_data().as_slice()).unwrap(),
        expected_data
    );
}

#[test]
fn set_data_when_fetched() {
    let mut file_information = FileInformation {
        name: "".to_string(),
        source: DataSource::Generated(Box::new(FixedData("DATA".as_bytes().to_vec()))),
        listed: false,
        executable: false,
        writable: false,
        on_data_change: None,
    };
    assert!(file_information
        .set_data("other".as_bytes().to_vec())
        .is_err());
}

#[test]
fn set_data_when_fetched_gives_the_reason_and_keeps_the_producer() {
    let mut file_information =
        FileInformation::new("image", Box::new(FixedData(vec![1, 2, 3])), false, false);
    let outcome = file_information.set_data(vec![9]);
    assert_eq!(
        outcome,
        Err("Cannot set data as it is dynamically generated with a data fetcher".to_string())
    );
    assert_eq!(file_information.get_data(), vec![1, 2, 3]);
}

#[test]
fn set_data_refuses_bytes_that_are_not_text() {
    let mut file_information =
        FileInformation::new_with_data("notes", b"before".to_vec(), true, false, true, None);
    let outcome = file_information.set_data(vec![0xff, 0xfe]);
    assert!(outcome.is_err());
    assert_eq!(file_information.get_data(), b"before".to_vec());
}

#[test]
fn set_data_keeps_the_buffer_when_the_handler_refuses() {
    let mut file_information = FileInformation::new_with_data(
        "config.yml",
        b"before".to_vec(),
        true,
        false,
        true,
        Some(Box::new(RefusingHandler)),
    );
    let outcome = file_information.set_data(b"after".to_vec());
    assert_eq!(outcome, Err("refused: after".to_string()));
    assert_eq!(file_information.get_data(), b"before".to_vec());
}

#[test]
fn set_data_without_handler_replaces_the_buffer() {
    let mut file_information =
        FileInformation::new_with_data("notes", b"before".to_vec(), true, false, true, None);
    assert_eq!(file_information.set_data(b"after".to_vec()), Ok(()));
    assert_eq!(file_information.get_data(), b"after".to_vec());
}

#[test]
fn new_makes_an_entry_that_is_not_writable() {
    let file_information = FileInformation::new("image", Box::new(FixedData(vec![])), true, true);
    assert_eq!(file_information.name, "image");
    assert!(file_information.listed);
    assert!(file_information.executable);
    assert!(!file_information.writable);
    assert!(file_information.on_data_change.is_none());
    assert!(matches!(file_information.source, DataSource::Generated(_)));
}

#[test]
fn new_with_data_keeps_the_flags() {
    let file_information =
        FileInformation::new_with_data("script", vec![7, 8], true, true, false, None);
    assert_eq!(file_information.name, "script");
    assert!(file_information.listed);
    assert!(file_information.executable);
    assert!(!file_information.writable);
    assert_eq!(file_information.get_data(), vec![7, 8]);
}
