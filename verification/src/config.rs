//! View parameters, and their text form in the configuration file of a view.

use std::collections::BTreeMap;
use vstd::prelude::*;
use vstd::string::*;

verus! {

/// The parameters of the black-and-white view: the level at which a pixel turns white, or
/// none to have the level chosen from the image.
#[derive(Clone, Copy, Debug, PartialEq, Eq, Structural)]
pub struct BlackAndWhiteConfiguration {
    pub threshold: Option<u8>,
}

/// The parameters of a view, by kind of view.
#[derive(Clone, Copy, Debug, PartialEq, Eq, Structural)]
pub enum ConfigurationHolder {
    /// The view has no parameters.
    Empty,
    BlackAndWhite(BlackAndWhiteConfiguration),
}

/// The longest text, in characters, that is read as a configuration.
pub const MAX_CONFIGURATION_LENGTH: usize = 1024;

/// The message with which a longer text is refused.
pub open spec fn too_long_message() -> Seq<char> {
    "The configuration is longer than 1024 characters"@
}

/// The key under which the threshold stands in the text form.
pub open spec fn threshold_key() -> Seq<char> {
    "threshold"@
}

/// The error of the YAML reader and writer.
#[verifier::external_type_specification]
#[verifier::external_body]
pub struct ExYamlError(serde_yaml::Error);

/// The entries that `serde_yaml::from_str` reads from `text` as a mapping from strings to
/// optional small numbers, in the order of their keys; `None` where it does not read one.
pub uninterp spec fn yaml_entries(text: Seq<char>) -> Option<Seq<(Seq<char>, Option<u8>)>>;

/// The text that `serde_yaml::to_string` writes for the mapping with the one entry `key`,
/// `value`; `None` where it writes none.
pub uninterp spec fn yaml_text(key: Seq<char>, value: Option<u8>) -> Option<Seq<char>>;

/// The entries of a mapping as plain values.
pub open spec fn entry_views(entries: Seq<(String, Option<u8>)>) -> Seq<(Seq<char>, Option<u8>)> {
    Seq::new(entries.len(), |k: int| (entries[k].0@, entries[k].1))
}

/// `serde_yaml::from_str`, reading a mapping from strings to optional small numbers. The
/// entries come in the order of their keys, each key once. Only a text of bounded length is
/// handed to the reader, whose work grows with the nesting of the text.
#[verifier::external_body]
fn read_yaml_entries(text: &str) -> (entries: Result<Vec<(String, Option<u8>)>, serde_yaml::Error>)
    requires
        text@.len() <= MAX_CONFIGURATION_LENGTH,
    ensures
        match entries {
            Ok(list) => yaml_entries(text@) == Some(entry_views(list@)),
            Err(_) => yaml_entries(text@) is None,
        },
{
    let map: BTreeMap<String, Option<u8>> = serde_yaml::from_str(text)?;
    Ok(map.into_iter().collect())
}

/// `serde_yaml::to_string`, writing the mapping with the one entry of the threshold key and
/// `value`. Whether it writes a text, and which, depends on the entry alone. What it writes,
/// `serde_yaml::from_str` reads back as that mapping.
#[verifier::external_body]
fn write_yaml_entry(key: &str, value: Option<u8>) -> (text: Result<String, serde_yaml::Error>)
    requires
        key@ == threshold_key(),
    ensures
        match text {
            Ok(written) => yaml_text(key@, value) == Some(written@) && yaml_entries(written@)
                == Some(seq![(key@, value)]),
            Err(_) => yaml_text(key@, value) is None,
        },
{
    let mut map: BTreeMap<&str, Option<u8>> = BTreeMap::new();
    map.insert(key, value);
    serde_yaml::to_string(&map)
}

/// The threshold that a mapping gives: the value of the first entry under the threshold
/// key, or none where no entry has that key.
pub open spec fn threshold_in(entries: Seq<(Seq<char>, Option<u8>)>) -> Option<u8>
    decreases entries.len(),
{
    if entries.len() == 0 {
        None
    } else if entries[0].0 == threshold_key() {
        entries[0].1
    } else {
        threshold_in(entries.drop_first())
    }
}

/// The configuration that a text gives, if the text is not too long and is a mapping from
/// strings to optional small numbers. The threshold is the value under the threshold key, or
/// none where the key is missing. Every value of the mapping has to be a number from 0 to 255
/// or null, under other keys too; where a key stands twice its last value counts; a text
/// that is a sequence or a single value gives no configuration.
pub open spec fn configuration_in(text: Seq<char>) -> Option<BlackAndWhiteConfiguration> {
    if text.len() > MAX_CONFIGURATION_LENGTH {
        None
    } else {
        match yaml_entries(text) {
            Some(entries) => Some(BlackAndWhiteConfiguration { threshold: threshold_in(entries) }),
            None => None,
        }
    }
}

/// The text that is written for a threshold, if one is written and it is short enough to be
/// read again.
pub open spec fn threshold_text(threshold: Option<u8>) -> Option<Seq<char>> {
    match yaml_text(threshold_key(), threshold) {
        Some(text) => if text.len() <= MAX_CONFIGURATION_LENGTH {
            Some(text)
        } else {
            None
        },
        None => None,
    }
}

/// The threshold that the entries of a mapping give.
pub fn find_threshold(entries: &Vec<(String, Option<u8>)>) -> (threshold: Option<u8>)
    ensures
        threshold == threshold_in(entry_views(entries@)),
{
    let key = String::from_str("threshold");
    let ghost views = entry_views(entries@);
    let mut position: usize = 0;
    assert(views.skip(0) =~= views);
    while position < entries.len()
        invariant
            position <= entries.len(),
            views == entry_views(entries@),
            key@ == threshold_key(),
            threshold_in(views) == threshold_in(views.skip(position as int)),
        decreases entries.len() - position,
    {
        proof {
            let rest = views.skip(position as int);
            assert(rest[0] == views[position as int]);
            assert(rest.drop_first() =~= views.skip(position + 1));
        }
        if entries[position].0 == key {
            return entries[position].1;
        }
        position += 1;
    }
    None
}

/// A set of view parameters with a text form.
pub trait Configuration: Sized {
    /// The parameters that `yaml_string` gives, if it gives any.
    spec fn parsed(yaml_string: Seq<char>) -> Option<Self>;

    /// The text form of the parameters, if they have one.
    spec fn text_form(&self) -> Option<Seq<char>>;

    /// Reads the parameters from their text form.
    fn from_yaml(yaml_string: &str) -> (configuration: Result<Self, String>)
        ensures
            match configuration {
                Ok(read) => Self::parsed(yaml_string@) == Some(read),
                Err(_) => Self::parsed(yaml_string@) is None,
            },
    ;

    /// Writes the parameters in their text form, and fails only where they have none.
    /// What is written reads back as the same parameters.
    fn to_yaml(&self) -> (yaml_string: Result<String, String>)
        ensures
            match yaml_string {
                Ok(written) => self.text_form() == Some(written@) && Self::parsed(written@)
                    == Some(*self),
                Err(_) => self.text_form() is None,
            },
    ;
}

impl Configuration for BlackAndWhiteConfiguration {
    open spec fn parsed(yaml_string: Seq<char>) -> Option<Self> {
        configuration_in(yaml_string)
    }

    open spec fn text_form(&self) -> Option<Seq<char>> {
        threshold_text(self.threshold)
    }

    fn from_yaml(yaml_string: &str) -> (configuration: Result<Self, String>)
        ensures
            yaml_string@.len() > MAX_CONFIGURATION_LENGTH ==> (configuration matches Err(message)
                && message@ == too_long_message()),
    {
        if yaml_string.unicode_len() > MAX_CONFIGURATION_LENGTH {
            return Err(String::from_str("The configuration is longer than 1024 characters"));
        }
        match read_yaml_entries(yaml_string) {
            Ok(entries) => Ok(BlackAndWhiteConfiguration { threshold: find_threshold(&entries) }),
            Err(e) => Err(e.to_string()),
        }
    }

    fn to_yaml(&self) -> (yaml_string: Result<String, String>) {
        match write_yaml_entry("threshold", self.threshold) {
            Ok(x) => {
                if x.as_str().unicode_len() > MAX_CONFIGURATION_LENGTH {
                    return Err(
                        String::from_str("The configuration is longer than 1024 characters"),
                    );
                }
                proof {
                    let entries = seq![(threshold_key(), self.threshold)];
                    assert(threshold_in(entries) == self.threshold);
                }
                Ok(x)
            },
            Err(e) => Err(e.to_string()),
        }
    }
}

impl Default for BlackAndWhiteConfiguration {
    fn default() -> (configuration: Self)
        ensures
            configuration.threshold is None,
    {
        BlackAndWhiteConfiguration { threshold: None }
    }
}

} // verus!
