//! File entries: the description of one virtual file and the source of its bytes.

use vstd::prelude::*;
use vstd::string::*;
use vstd::utf8::*;

verus! {

/// Produces the bytes of a file each time the file is read.
pub trait DataFetcher {
    /// Whether `data` is something this producer may hand out. Unless a producer says
    /// otherwise, it may hand out anything.
    open spec fn produces(&self, data: Seq<u8>) -> bool {
        true
    }

    fn fetch(&self) -> (data: Vec<u8>)
        ensures
            self.produces(data@),
    ;
}

/// Is told the new text of a file before the file takes it, and may refuse it.
pub trait DataChangeHandler {
    /// Whether `outcome` is an answer this handler may give to `text`. Unless a handler
    /// says otherwise, it may give any answer.
    open spec fn answers(&self, text: Seq<char>, outcome: Result<(), String>) -> bool {
        true
    }

    fn on_change(&self, text: &str) -> (outcome: Result<(), String>)
        ensures
            self.answers(text@, outcome),
    ;
}

/// Where the bytes of a file come from: a buffer that the entry owns, or a producer of type
/// `F` that is asked on every read.
pub enum DataSource<F> {
    Stored(Vec<u8>),
    Generated(F),
}

/// One virtual file: its name, the source of its bytes, whether listings advertise it,
/// whether it is executable and writable, and who is told when it is written to.
pub struct FileInformation {
    pub name: String,
    pub source: DataSource<Box<dyn DataFetcher>>,
    pub listed: bool,
    pub executable: bool,
    pub writable: bool,
    pub on_data_change: Option<Box<dyn DataChangeHandler>>,
}

/// The message with which a write to a generated file is refused.
pub open spec fn generated_data_message() -> Seq<char> {
    "Cannot set data as it is dynamically generated with a data fetcher"@
}

/// The error of `String::from_utf8`.
#[verifier::external_type_specification]
#[verifier::external_body]
pub struct ExFromUtf8Error(std::string::FromUtf8Error);

/// `String::from_utf8` succeeds exactly on well-formed UTF-8, and then yields the text that
/// the bytes encode.
pub assume_specification[ String::from_utf8 ](vec: Vec<u8>) -> (text: Result<
    String,
    std::string::FromUtf8Error,
>)
    ensures
        text is Ok <==> valid_utf8(vec@),
        text matches Ok(s) ==> s@ == decode_utf8(vec@),
;

impl FileInformation {
    /// Whether the bytes come from a producer and not from a buffer.
    pub open spec fn is_generated(&self) -> bool {
        self.source is Generated
    }

    /// The bytes held in the buffer of a buffer-backed entry.
    pub open spec fn stored_data(&self) -> Seq<u8>
        recommends
            !self.is_generated(),
    {
        self.source->Stored_0@
    }

    /// Whether `data` is something a read of this entry may return.
    pub open spec fn may_read(&self, data: Seq<u8>) -> bool {
        match self.source {
            DataSource::Stored(buffer) => data == buffer@,
            DataSource::Generated(fetcher) => fetcher.produces(data),
        }
    }

    /// Whether a request to replace the bytes by `data` may end in `outcome`.
    pub open spec fn may_answer(&self, data: Seq<u8>, outcome: Result<(), String>) -> bool {
        if self.is_generated() {
            outcome matches Err(message) && message@ == generated_data_message()
        } else if !valid_utf8(data) {
            outcome is Err
        } else {
            match self.on_data_change {
                Some(handler) => handler.answers(decode_utf8(data), outcome),
                None => outcome is Ok,
            }
        }
    }

    /// Whether this entry is `before` with its bytes replaced by a buffer that holds `data`.
    pub open spec fn holds_data_of(&self, before: &FileInformation, data: Seq<u8>) -> bool {
        &&& !self.is_generated()
        &&& self.stored_data() == data
        &&& self.name == before.name
        &&& self.listed == before.listed
        &&& self.executable == before.executable
        &&& self.writable == before.writable
        &&& self.on_data_change == before.on_data_change
    }

    /// The entry after its buffer has been replaced by `data`.
    pub open spec fn with_data(self, data: Vec<u8>) -> FileInformation {
        FileInformation { source: DataSource::Stored(data), ..self }
    }

    /// A producer-backed entry. It is not writable and has no change handler.
    pub fn new(name: &str, data_fetcher: Box<dyn DataFetcher>, listed: bool, executable: bool) -> (entry:
        Self)
        ensures
            entry.name@ == name@,
            entry.source matches DataSource::Generated(fetcher) && fetcher == data_fetcher,
            entry.listed == listed,
            entry.executable == executable,
            !entry.writable,
            entry.on_data_change is None,
    {
        let source = DataSource::Generated(data_fetcher);
        FileInformation {
            name: String::from_str(name),
            source,
            listed,
            executable,
            writable: false,
            on_data_change: None,
        }
    }

    /// A buffer-backed entry.
    pub fn new_with_data(
        name: &str,
        data: Vec<u8>,
        listed: bool,
        executable: bool,
        writable: bool,
        on_data_change: Option<Box<dyn DataChangeHandler>>,
    ) -> (entry: Self)
        ensures
            entry.name@ == name@,
            entry.source matches DataSource::Stored(buffer) && buffer == data,
            entry.listed == listed,
            entry.executable == executable,
            entry.writable == writable,
            entry.on_data_change == on_data_change,
    {
        FileInformation {
            name: String::from_str(name),
            source: DataSource::Stored(data),
            listed,
            executable,
            writable,
            on_data_change,
        }
    }

    /// Replaces the buffer by `data`, unless the entry is producer-backed, the bytes are not
    /// text, or the change handler refuses the text. A refused request changes nothing.
    pub fn set_data(&mut self, data: Vec<u8>) -> (outcome: Result<(), String>)
        ensures
            old(self).may_answer(data@, outcome),
            outcome is Err ==> *final(self) == *old(self),
            outcome is Ok ==> *final(self) == old(self).with_data(data),
    {
        if let DataSource::Generated(_) = &self.source {
            return Err(
                String::from_str(
                    "Cannot set data as it is dynamically generated with a data fetcher",
                ),
            );
        }
        let bytes = data.clone();
        assert(bytes@ == data@);
        let parsed = match String::from_utf8(bytes) {
            Ok(x) => x,
            Err(e) => return Err(e.to_string()),
        };
        let outcome = match &self.on_data_change {
            Some(handler) => handler.on_change(parsed.as_str()),
            None => Ok(()),
        };
        if outcome.is_ok() {
            self.source = DataSource::Stored(data);
        }
        outcome
    }

    /// The current bytes: a copy of the buffer, or what the producer returns now.
    pub fn get_data(&self) -> (data: Vec<u8>)
        ensures
            self.may_read(data@),
    {
        match &self.source {
            DataSource::Stored(buffer) => buffer.clone(),
            DataSource::Generated(fetcher) => fetcher.fetch(),
        }
    }
}

} // verus!
