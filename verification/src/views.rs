//! The view factory: the directory of one view of one frame, and the tree of all of them.

use crate::attributes::{create_directory_attributes, directory_attributes_of, FileAttributes};
use crate::config::{BlackAndWhiteConfiguration, Configuration, ConfigurationHolder};
use crate::file::{DataChangeHandler, DataFetcher, FileInformation};
use crate::fs::VideoFileSystem;
use crate::image_type::ImageType;
use crate::manifest::{
    all_plain, is_plain, manifest_bytes, plain_manifest_bytes, DirectoryManifest,
};
use crate::names::{
    frame_directory_name, frame_name, image_file_name, image_name, lemma_image_name_is_plain,
};
use crate::nodes::{
    ChildrenGenerator, DirectoryFuseNode, FileFuseNode, FuseNodeStore, ROOT_INODE_NUMBER,
};
use std::sync::Arc;
use std::sync::RwLock;
use vstd::prelude::*;
use vstd::string::*;
use vstd::utf8::*;

verus! {

/// Renders one frame of a video as an image file for a view.
pub trait ImageDataGenerator {
    /// Whether `image` is something that this generator may return for the request. Unless
    /// a generator says otherwise, it may return anything.
    open spec fn renders(
        &self,
        video_location: Seq<char>,
        frame_number: u64,
        image_type: ImageType,
        configuration: ConfigurationHolder,
        image: Seq<u8>,
    ) -> bool {
        true
    }

    fn generate(
        &self,
        video_location: String,
        frame_number: u64,
        image_type: ImageType,
        configuration: ConfigurationHolder,
    ) -> (image: Vec<u8>)
        ensures
            self.renders(video_location@, frame_number, image_type, configuration, image@),
    ;
}

/// The read-write lock of the standard library.
#[verifier::external_type_specification]
#[verifier::external_body]
#[verifier::reject_recursive_types(T)]
pub struct ExRwLock<T: ?Sized>(RwLock<T>);

/// `Arc::clone` makes another handle to the same value.
#[verifier::external_body]
fn share<T>(handle: &Arc<T>) -> (shared: Arc<T>)
    ensures
        shared == *handle,
{
    Arc::clone(handle)
}

/// `RwLock::new` makes a lock that holds `configuration`.
#[verifier::external_body]
fn new_cell(configuration: ConfigurationHolder) -> (cell: RwLock<ConfigurationHolder>)
{
    RwLock::new(configuration)
}

/// `RwLock::read` gives shared access to what the lock holds, of which a copy is returned.
/// The value is whatever was stored last, by any holder of the lock.
#[verifier::external_body]
fn read_cell(cell: &RwLock<ConfigurationHolder>) -> (configuration: ConfigurationHolder)
{
    *cell.read().unwrap()
}

/// `RwLock::write` gives exclusive access to what the lock holds, which is replaced.
#[verifier::external_body]
fn write_cell(cell: &RwLock<ConfigurationHolder>, configuration: ConfigurationHolder)
{
    *cell.write().unwrap() = configuration;
}

/// The producer of one image file of a view: it renders its frame in its format with the
/// parameters that the view has at the time of the read.
pub struct ImageFetcher {
    pub video_location: String,
    pub frame_number: u64,
    pub image_type: ImageType,
    pub configuration_holder: Arc<RwLock<ConfigurationHolder>>,
    pub image_data_generator: Arc<Box<dyn ImageDataGenerator>>,
}

impl DataFetcher for ImageFetcher {
    open spec fn produces(&self, data: Seq<u8>) -> bool {
        exists|configuration: ConfigurationHolder|
            #![trigger self.image_data_generator.renders(self.video_location@, self.frame_number, self.image_type, configuration, data)]
            self.image_data_generator.renders(
                self.video_location@,
                self.frame_number,
                self.image_type,
                configuration,
                data,
            )
    }

    fn fetch(&self) -> (data: Vec<u8>) {
        let configuration = read_cell(&self.configuration_holder);
        self.image_data_generator.generate(
            self.video_location.clone(),
            self.frame_number,
            self.image_type,
            configuration,
        )
    }
}

/// Reads the parameters of a view from the text of its configuration file.
pub trait ConfigurationParser {
    /// Whether `configuration` is an answer that this parser may give to `text`. Unless a
    /// parser says otherwise, it may give any answer.
    open spec fn parses(&self, text: Seq<char>, configuration: Result<ConfigurationHolder, String>) -> bool {
        true
    }

    fn parse(&self, text: &str) -> (configuration: Result<ConfigurationHolder, String>)
        ensures
            self.parses(text@, configuration),
    ;
}

/// The parser of the black-and-white view.
pub struct BlackAndWhiteParser {}

impl ConfigurationParser for BlackAndWhiteParser {
    open spec fn parses(&self, text: Seq<char>, configuration: Result<ConfigurationHolder, String>) -> bool {
        match BlackAndWhiteConfiguration::parsed(text) {
            Some(read) => configuration == Ok::<ConfigurationHolder, String>(
                ConfigurationHolder::BlackAndWhite(read),
            ),
            None => configuration is Err,
        }
    }

    fn parse(&self, text: &str) -> (configuration: Result<ConfigurationHolder, String>) {
        match BlackAndWhiteConfiguration::from_yaml(text) {
            Ok(x) => Ok(ConfigurationHolder::BlackAndWhite(x)),
            Err(e) => Err(e),
        }
    }
}

/// The message with which a view without parameters refuses a new configuration.
pub open spec fn no_configuration_message() -> Seq<char> {
    "This view has no configuration"@
}

/// The change handler of the configuration file of a view: it parses the new text and, where
/// that succeeds, makes the result the parameters of the view.
pub struct ConfigurationChangeHandler {
    pub configuration_parser: Option<Arc<Box<dyn ConfigurationParser>>>,
    pub configuration_holder: Arc<RwLock<ConfigurationHolder>>,
}

impl DataChangeHandler for ConfigurationChangeHandler {
    open spec fn answers(&self, text: Seq<char>, outcome: Result<(), String>) -> bool {
        match self.configuration_parser {
            Some(parser) => exists|parsed: Result<ConfigurationHolder, String>|
                #![trigger parser.parses(text, parsed)]
                parser.parses(text, parsed) && match parsed {
                    Ok(_) => outcome is Ok,
                    Err(message) => outcome == Err::<(), String>(message),
                },
            None => outcome matches Err(message) && message@ == no_configuration_message(),
        }
    }

    fn on_change(&self, text: &str) -> (outcome: Result<(), String>) {
        match &self.configuration_parser {
            Some(parser) => match parser.parse(text) {
                Ok(configuration) => {
                    write_cell(&self.configuration_holder, configuration);
                    Ok(())
                },
                Err(message) => Err(message),
            },
            None => Err(String::from_str("This view has no configuration")),
        }
    }
}

/// The name of the manifest of a view directory.
pub open spec fn manifest_name() -> Seq<char> {
    "manifest.csv"@
}

/// The name of the helper script of a view directory.
pub open spec fn script_name() -> Seq<char> {
    "initialise.sh"@
}

/// The name of the configuration file of a view directory.
pub open spec fn configuration_name() -> Seq<char> {
    "config.yml"@
}

/// The records of the manifest of the view directory of a frame: one per format, in the
/// order of the formats.
pub open spec fn manifest_records(frame_number: u64) -> Seq<(Seq<char>, Seq<char>)> {
    Seq::new(
        ImageType::all_formats().len(),
        |j: int|
            (
                ImageType::all_formats()[j].extension(),
                image_name(frame_number, ImageType::all_formats()[j]),
            ),
    )
}

/// No field of the manifest of a view directory holds a comma, a double quote, a carriage
/// return or a line feed.
pub proof fn lemma_manifest_records_are_plain(frame_number: u64)
    ensures
        all_plain(manifest_records(frame_number)),
{
    assert forall|k: int| 0 <= k < manifest_records(frame_number).len() implies is_plain(
        (#[trigger] manifest_records(frame_number)[k]).0,
    ) && is_plain(manifest_records(frame_number)[k].1) by {
        lemma_image_name_is_plain(frame_number, ImageType::all_formats()[k]);
    }
}

/// The first content of the configuration file of a view whose default parameters are
/// `configuration`: the text form of the parameters in UTF-8, or nothing where the view has no
/// parameters or the parameters have no text form.
pub open spec fn initial_configuration(configuration: ConfigurationHolder) -> Seq<u8> {
    match configuration {
        ConfigurationHolder::BlackAndWhite(parameters) => match parameters.text_form() {
            Some(text) => encode_utf8(text),
            None => Seq::empty(),
        },
        ConfigurationHolder::Empty => Seq::empty(),
    }
}

/// The text form of the default parameters of a view, as the first content of its
/// configuration file.
pub fn default_configuration_bytes(configuration: ConfigurationHolder) -> (bytes: Vec<u8>)
    ensures
        bytes@ == initial_configuration(configuration),
{
    match configuration {
        ConfigurationHolder::BlackAndWhite(parameters) => match parameters.to_yaml() {
            Ok(text) => text.as_str().as_bytes_vec(),
            Err(_) => Vec::new(),
        },
        ConfigurationHolder::Empty => Vec::new(),
    }
}

/// The generator of the file entries of one view directory.
pub struct FrameViewGenerator {
    pub video_location: String,
    pub frame_number: u64,
    pub image_data_generator: Arc<Box<dyn ImageDataGenerator>>,
    pub configuration_parser: Option<Arc<Box<dyn ConfigurationParser>>>,
    pub default_configuration: ConfigurationHolder,
    pub initialise_script: Vec<u8>,
}

impl FrameViewGenerator {
    /// Whether `entry` is the image file of the view in the format `image_type`: a producer
    /// that is not advertised, and that renders the frame in that format with some
    /// parameters.
    pub open spec fn is_image_entry(&self, entry: FileInformation, image_type: ImageType) -> bool {
        &&& entry.name@ == image_name(self.frame_number, image_type)
        &&& entry.is_generated()
        &&& !entry.listed
        &&& !entry.executable
        &&& !entry.writable
        &&& entry.on_data_change is None
        &&& forall|data: Seq<u8>| #[trigger]
            entry.may_read(data) ==> exists|configuration: ConfigurationHolder|
                #![trigger self.image_data_generator.renders(self.video_location@, self.frame_number, image_type, configuration, data)]
                self.image_data_generator.renders(
                    self.video_location@,
                    self.frame_number,
                    image_type,
                    configuration,
                    data,
                )
    }

    /// Whether `entry` is the manifest of the view: the line `image-type,location`, then for
    /// each format a line with the name of the format, a comma and the name of the image.
    pub open spec fn is_manifest_entry(&self, entry: FileInformation) -> bool {
        &&& entry.name@ == manifest_name()
        &&& !entry.is_generated()
        &&& entry.stored_data() == manifest_bytes(manifest_records(self.frame_number))
        &&& entry.stored_data() == plain_manifest_bytes(manifest_records(self.frame_number))
        &&& entry.listed
        &&& !entry.executable
        &&& !entry.writable
        &&& entry.on_data_change is None
    }

    /// Whether `entry` is the helper script of the view.
    pub open spec fn is_script_entry(&self, entry: FileInformation) -> bool {
        &&& entry.name@ == script_name()
        &&& !entry.is_generated()
        &&& entry.stored_data() == self.initialise_script@
        &&& entry.listed
        &&& entry.executable
        &&& !entry.writable
        &&& entry.on_data_change is None
    }

    /// Whether `entry` is the configuration file of the view: writable, and with a change
    /// handler that answers as the parser of the view does.
    pub open spec fn is_configuration_entry(&self, entry: FileInformation) -> bool {
        &&& entry.name@ == configuration_name()
        &&& !entry.is_generated()
        &&& entry.stored_data() == initial_configuration(self.default_configuration)
        &&& entry.listed
        &&& !entry.executable
        &&& entry.writable
        &&& entry.on_data_change matches Some(handler) && forall|
            text: Seq<char>,
            outcome: Result<(), String>,
        | #[trigger]
            handler.answers(text, outcome) ==> match self.configuration_parser {
                Some(parser) => exists|parsed: Result<ConfigurationHolder, String>|
                    #![trigger parser.parses(text, parsed)]
                    parser.parses(text, parsed) && match parsed {
                        Ok(_) => outcome is Ok,
                        Err(message) => outcome == Err::<(), String>(message),
                    },
                None => outcome matches Err(message) && message@ == no_configuration_message(),
            }
    }

    /// Whether `entries` are the file entries of the view: one image file per format, the
    /// manifest, the helper script and the configuration file, in this order.
    pub open spec fn is_view(&self, entries: Seq<FileInformation>) -> bool {
        let formats = ImageType::all_formats();
        let images = formats.len() as int;
        &&& entries.len() == images + 3
        &&& forall|j: int| 0 <= j < images ==> self.is_image_entry(#[trigger] entries[j], formats[j])
        &&& self.is_manifest_entry(entries[images])
        &&& self.is_script_entry(entries[images + 1])
        &&& self.is_configuration_entry(entries[images + 2])
    }
}

impl ChildrenGenerator for FrameViewGenerator {
    open spec fn generates(&self, inode_number: u64, entries: Seq<FileInformation>) -> bool {
        self.is_view(entries)
    }

    fn generate(&self, inode_number: u64) -> (entries: Vec<FileInformation>) {
        let mut directory_manifest = DirectoryManifest::new();
        let mut file_informations: Vec<FileInformation> = Vec::new();
        let configuration_holder = Arc::new(new_cell(self.default_configuration));
        let formats = ImageType::iter();
        let mut index: usize = 0;
        while index < formats.len()
            invariant
                index <= formats.len(),
                formats@ == ImageType::all_formats(),
                file_informations@.len() == index,
                forall|j: int|
                    0 <= j < index ==> self.is_image_entry(
                        #[trigger] file_informations@[j],
                        formats@[j],
                    ),
                directory_manifest@ == manifest_records(self.frame_number).take(index as int),
            decreases formats.len() - index,
        {
            let image_type = formats[index];
            let file_name = image_file_name(self.frame_number, image_type);
            let fetcher = ImageFetcher {
                video_location: self.video_location.clone(),
                frame_number: self.frame_number,
                image_type,
                configuration_holder: share(&configuration_holder),
                image_data_generator: share(&self.image_data_generator),
            };
            let entry = FileInformation::new(file_name.as_str(), Box::new(fetcher), false, false);
            assert(self.is_image_entry(entry, image_type));
            file_informations.push(entry);
            directory_manifest.add(image_type, file_name.as_str());
            index += 1;
            assert(directory_manifest@ =~= manifest_records(self.frame_number).take(
                index as int,
            ));
        }
        assert(manifest_records(self.frame_number).take(index as int) =~= manifest_records(
            self.frame_number,
        ));
        proof {
            lemma_manifest_records_are_plain(self.frame_number);
        }

        file_informations.push(
            FileInformation::new_with_data(
                "manifest.csv",
                directory_manifest.to_vec(),
                true,
                false,
                false,
                None,
            ),
        );

        file_informations.push(
            FileInformation::new_with_data(
                "initialise.sh",
                self.initialise_script.clone(),
                true,
                true,
                false,
                None,
            ),
        );

        let handler = ConfigurationChangeHandler {
            configuration_parser: match &self.configuration_parser {
                Some(parser) => Some(share(parser)),
                None => None,
            },
            configuration_holder: share(&configuration_holder),
        };
        let config_change_handler: Option<Box<dyn DataChangeHandler>> = Some(Box::new(handler));
        file_informations.push(
            FileInformation::new_with_data(
                "config.yml",
                default_configuration_bytes(self.default_configuration),
                true,
                false,
                true,
                config_change_handler,
            ),
        );

        file_informations
    }
}

/// The directory of one view of one frame. Its file entries are made on the first listing.
pub fn create_frame_view(
    view_name: &str,
    video_location: &str,
    frame_number: u64,
    directory_attributes: FileAttributes,
    image_data_generator: Arc<Box<dyn ImageDataGenerator>>,
    configuration_parser: Option<Arc<Box<dyn ConfigurationParser>>>,
    default_configuration: ConfigurationHolder,
    initialise_script: Vec<u8>,
) -> (directory: DirectoryFuseNode)
    ensures
        directory.name@ == view_name@,
        directory.attributes == directory_attributes,
        is_frame_view(
            directory,
            video_location@,
            frame_number,
            image_data_generator,
            configuration_parser,
            default_configuration,
            initialise_script@,
        ),
{
    let generator = FrameViewGenerator {
        video_location: String::from_str(video_location),
        frame_number,
        image_data_generator,
        configuration_parser,
        default_configuration,
        initialise_script,
    };
    DirectoryFuseNode::new(view_name, directory_attributes, Box::new(generator))
}

/// Whether `directory` is the directory of a view that is still to be materialized, and
/// whose generator makes the file entries of the view with the given description.
pub open spec fn is_frame_view(
    directory: DirectoryFuseNode,
    video_location: Seq<char>,
    frame_number: u64,
    image_data_generator: Arc<Box<dyn ImageDataGenerator>>,
    configuration_parser: Option<Arc<Box<dyn ConfigurationParser>>>,
    default_configuration: ConfigurationHolder,
    initialise_script: Seq<u8>,
) -> bool {
    &&& directory.children().len() == 0
    &&& directory.file_information_generator matches Some(generator) && forall|
        inode_number: u64,
        entries: Seq<FileInformation>,
    | #[trigger]
        generator.generates(inode_number, entries) ==> exists|view: FrameViewGenerator|
            #![trigger view.is_view(entries)]
            {
                &&& view.video_location@ == video_location
                &&& view.frame_number == frame_number
                &&& view.image_data_generator == image_data_generator
                &&& view.configuration_parser == configuration_parser
                &&& view.default_configuration == default_configuration
                &&& view.initialise_script@ == initialise_script
                &&& view.is_view(entries)
            }
}

/// The image and video collaborator: it counts the frames of a video, and decodes, transforms
/// and encodes single frames. Where it cannot produce an image it returns no bytes. Unless a
/// codec says otherwise, it may return anything.
pub trait VideoCodec {
    /// Whether `frames` is a frame count that the codec may report for the video.
    open spec fn counts_frames(&self, video_location: Seq<char>, frames: u64) -> bool {
        true
    }

    /// Whether `image` is something the codec may return as the encoded frame.
    open spec fn encodes(
        &self,
        video_location: Seq<char>,
        frame_number: u64,
        image_format: ImageType,
        image: Seq<u8>,
    ) -> bool {
        true
    }

    /// Whether `image` is something the codec may return as the encoded greyscale frame.
    open spec fn encodes_greyscale(
        &self,
        video_location: Seq<char>,
        frame_number: u64,
        image_format: ImageType,
        image: Seq<u8>,
    ) -> bool {
        true
    }

    /// Whether `image` is something the codec may return as the encoded frame in black and
    /// white at the given threshold.
    open spec fn encodes_black_and_white(
        &self,
        video_location: Seq<char>,
        frame_number: u64,
        threshold_at: Option<u8>,
        image_format: ImageType,
        image: Seq<u8>,
    ) -> bool {
        true
    }

    fn get_number_of_frames(&self, video_location: &str) -> (frames: u64)
        ensures
            self.counts_frames(video_location@, frames),
    ;

    fn get_frame_image(&self, video_location: String, frame_number: u64, image_format: ImageType) -> (image: Vec<u8>)
        ensures
            self.encodes(video_location@, frame_number, image_format, image@),
    ;

    fn get_greyscale_frame_image(
        &self,
        video_location: String,
        frame_number: u64,
        image_format: ImageType,
    ) -> (image: Vec<u8>)
        ensures
            self.encodes_greyscale(video_location@, frame_number, image_format, image@),
    ;

    fn get_black_and_white_frame_image(
        &self,
        video_location: String,
        frame_number: u64,
        threshold_at: Option<u8>,
        image_format: ImageType,
    ) -> (image: Vec<u8>)
        ensures
            self.encodes_black_and_white(
                video_location@,
                frame_number,
                threshold_at,
                image_format,
                image@,
            ),
    ;
}

/// The image producer of the original view: the frame as it is.
pub struct OriginalImages {
    pub codec: Arc<Box<dyn VideoCodec>>,
}

impl ImageDataGenerator for OriginalImages {
    open spec fn renders(
        &self,
        video_location: Seq<char>,
        frame_number: u64,
        image_type: ImageType,
        configuration: ConfigurationHolder,
        image: Seq<u8>,
    ) -> bool {
        self.codec.encodes(video_location, frame_number, image_type, image)
    }

    fn generate(
        &self,
        video_location: String,
        frame_number: u64,
        image_type: ImageType,
        configuration: ConfigurationHolder,
    ) -> (image: Vec<u8>) {
        self.codec.get_frame_image(video_location, frame_number, image_type)
    }
}

/// The image producer of the greyscale view.
pub struct GreyscaleImages {
    pub codec: Arc<Box<dyn VideoCodec>>,
}

impl ImageDataGenerator for GreyscaleImages {
    open spec fn renders(
        &self,
        video_location: Seq<char>,
        frame_number: u64,
        image_type: ImageType,
        configuration: ConfigurationHolder,
        image: Seq<u8>,
    ) -> bool {
        self.codec.encodes_greyscale(video_location, frame_number, image_type, image)
    }

    fn generate(
        &self,
        video_location: String,
        frame_number: u64,
        image_type: ImageType,
        configuration: ConfigurationHolder,
    ) -> (image: Vec<u8>) {
        self.codec.get_greyscale_frame_image(video_location, frame_number, image_type)
    }
}

/// The image producer of the black-and-white view: the frame at the threshold of the
/// parameters. With parameters of another view it produces no bytes.
pub struct BlackAndWhiteImages {
    pub codec: Arc<Box<dyn VideoCodec>>,
}

impl ImageDataGenerator for BlackAndWhiteImages {
    open spec fn renders(
        &self,
        video_location: Seq<char>,
        frame_number: u64,
        image_type: ImageType,
        configuration: ConfigurationHolder,
        image: Seq<u8>,
    ) -> bool {
        match configuration {
            ConfigurationHolder::BlackAndWhite(parameters) => self.codec.encodes_black_and_white(
                video_location,
                frame_number,
                parameters.threshold,
                image_type,
                image,
            ),
            ConfigurationHolder::Empty => image.len() == 0,
        }
    }

    fn generate(
        &self,
        video_location: String,
        frame_number: u64,
        image_type: ImageType,
        configuration: ConfigurationHolder,
    ) -> (image: Vec<u8>) {
        match configuration {
            ConfigurationHolder::BlackAndWhite(x) => self.codec.get_black_and_white_frame_image(
                video_location,
                frame_number,
                x.threshold,
                image_type,
            ),
            ConfigurationHolder::Empty => Vec::new(),
        }
    }
}

/// The name of the original view.
pub open spec fn original_view_name() -> Seq<char> {
    "original"@
}

/// The name of the greyscale view.
pub open spec fn greyscale_view_name() -> Seq<char> {
    "greyscale"@
}

/// The name of the black-and-white view.
pub open spec fn black_and_white_view_name() -> Seq<char> {
    "black-and-white"@
}

/// Whether `directory` is the directory of the original view of a frame, still to be
/// materialized: it generates the file entries of a view without parameters whose images
/// are the frame as the codec encodes it.
pub open spec fn is_original_view(
    directory: DirectoryFuseNode,
    video_location: Seq<char>,
    frame_number: u64,
    inode_number: u64,
    codec: Arc<Box<dyn VideoCodec>>,
    initialise_script: Seq<u8>,
) -> bool {
    &&& directory.name@ == original_view_name()
    &&& directory.attributes == directory_attributes_of(
        inode_number,
        directory.attributes.uid,
        directory.attributes.gid,
    )
    &&& exists|images: Arc<Box<dyn ImageDataGenerator>>|
        {
            &&& #[trigger] is_frame_view(
                directory,
                video_location,
                frame_number,
                images,
                None,
                ConfigurationHolder::Empty,
                initialise_script,
            )
            &&& forall|
                location: Seq<char>,
                frame: u64,
                format: ImageType,
                configuration: ConfigurationHolder,
                image: Seq<u8>,
            | #[trigger]
                images.renders(location, frame, format, configuration, image) == codec.encodes(
                    location,
                    frame,
                    format,
                    image,
                )
        }
}

/// The directory of the original view of a frame: images of the frame as it is, and no
/// parameters.
pub fn create_original_view(
    video_location: &str,
    frame_number: u64,
    inode_number: u64,
    codec: &Arc<Box<dyn VideoCodec>>,
    initialise_script: Vec<u8>,
) -> (directory: DirectoryFuseNode)
    ensures
        is_original_view(
            directory,
            video_location@,
            frame_number,
            inode_number,
            *codec,
            initialise_script@,
        ),
{
    let images: Box<dyn ImageDataGenerator> = Box::new(OriginalImages { codec: share(codec) });
    let shared = Arc::new(images);
    let directory = create_frame_view(
        "original",
        video_location,
        frame_number,
        create_directory_attributes(inode_number),
        shared,
        None,
        ConfigurationHolder::Empty,
        initialise_script,
    );
    assert(is_frame_view(
        directory,
        video_location@,
        frame_number,
        shared,
        None,
        ConfigurationHolder::Empty,
        initialise_script@,
    ));
    directory
}

/// Whether `directory` is the directory of the greyscale view of a frame, still to be
/// materialized: it generates the file entries of a view without parameters whose images
/// are the frame in shades of grey as the codec encodes it.
pub open spec fn is_greyscale_view(
    directory: DirectoryFuseNode,
    video_location: Seq<char>,
    frame_number: u64,
    inode_number: u64,
    codec: Arc<Box<dyn VideoCodec>>,
    initialise_script: Seq<u8>,
) -> bool {
    &&& directory.name@ == greyscale_view_name()
    &&& directory.attributes == directory_attributes_of(
        inode_number,
        directory.attributes.uid,
        directory.attributes.gid,
    )
    &&& exists|images: Arc<Box<dyn ImageDataGenerator>>|
        {
            &&& #[trigger] is_frame_view(
                directory,
                video_location,
                frame_number,
                images,
                None,
                ConfigurationHolder::Empty,
                initialise_script,
            )
            &&& forall|
                location: Seq<char>,
                frame: u64,
                format: ImageType,
                configuration: ConfigurationHolder,
                image: Seq<u8>,
            | #[trigger]
                images.renders(location, frame, format, configuration, image)
                    == codec.encodes_greyscale(location, frame, format, image)
        }
}

/// The directory of the greyscale view of a frame: images of the frame in shades of grey,
/// and no parameters.
pub fn create_greyscale_view(
    video_location: &str,
    frame_number: u64,
    inode_number: u64,
    codec: &Arc<Box<dyn VideoCodec>>,
    initialise_script: Vec<u8>,
) -> (directory: DirectoryFuseNode)
    ensures
        is_greyscale_view(
            directory,
            video_location@,
            frame_number,
            inode_number,
            *codec,
            initialise_script@,
        ),
{
    let images: Box<dyn ImageDataGenerator> = Box::new(GreyscaleImages { codec: share(codec) });
    let shared = Arc::new(images);
    let directory = create_frame_view(
        "greyscale",
        video_location,
        frame_number,
        create_directory_attributes(inode_number),
        shared,
        None,
        ConfigurationHolder::Empty,
        initialise_script,
    );
    assert(is_frame_view(
        directory,
        video_location@,
        frame_number,
        shared,
        None,
        ConfigurationHolder::Empty,
        initialise_script@,
    ));
    directory
}

/// The parameters with which the black-and-white view starts: no fixed threshold.
pub open spec fn default_black_and_white() -> ConfigurationHolder {
    ConfigurationHolder::BlackAndWhite(BlackAndWhiteConfiguration { threshold: None })
}

/// Whether `directory` is the directory of the black-and-white view of a frame, still to be
/// materialized: it generates the file entries of a view that starts without a fixed
/// threshold, whose images are the frame in black and white as the codec encodes it at the
/// threshold of the parameters, and whose configuration file reads a threshold.
pub open spec fn is_black_and_white_view(
    directory: DirectoryFuseNode,
    video_location: Seq<char>,
    frame_number: u64,
    inode_number: u64,
    codec: Arc<Box<dyn VideoCodec>>,
    initialise_script: Seq<u8>,
) -> bool {
    &&& directory.name@ == black_and_white_view_name()
    &&& directory.attributes == directory_attributes_of(
        inode_number,
        directory.attributes.uid,
        directory.attributes.gid,
    )
    &&& exists|images: Arc<Box<dyn ImageDataGenerator>>, parser: Arc<Box<dyn ConfigurationParser>>|
        {
            &&& #[trigger] is_frame_view(
                directory,
                video_location,
                frame_number,
                images,
                Some(parser),
                default_black_and_white(),
                initialise_script,
            )
            &&& forall|
                location: Seq<char>,
                frame: u64,
                format: ImageType,
                configuration: ConfigurationHolder,
                image: Seq<u8>,
            | #[trigger]
                images.renders(location, frame, format, configuration, image) == (
                match configuration {
                    ConfigurationHolder::BlackAndWhite(parameters) => codec.encodes_black_and_white(
                        location,
                        frame,
                        parameters.threshold,
                        format,
                        image,
                    ),
                    ConfigurationHolder::Empty => image.len() == 0,
                })
            &&& forall|text: Seq<char>, configuration: Result<ConfigurationHolder, String>| #[trigger]
                parser.parses(text, configuration) == (
                match BlackAndWhiteConfiguration::parsed(text) {
                    Some(read) => configuration == Ok::<ConfigurationHolder, String>(
                        ConfigurationHolder::BlackAndWhite(read),
                    ),
                    None => configuration is Err,
                })
        }
}

/// The directory of the black-and-white view of a frame: images of the frame in black and
/// white at the threshold of the parameters, which its configuration file sets.
pub fn create_black_and_white_view(
    video_location: &str,
    frame_number: u64,
    inode_number: u64,
    codec: &Arc<Box<dyn VideoCodec>>,
    initialise_script: Vec<u8>,
) -> (directory: DirectoryFuseNode)
    ensures
        is_black_and_white_view(
            directory,
            video_location@,
            frame_number,
            inode_number,
            *codec,
            initialise_script@,
        ),
{
    let images: Box<dyn ImageDataGenerator> = Box::new(BlackAndWhiteImages { codec: share(codec) });
    let shared = Arc::new(images);
    let parser: Box<dyn ConfigurationParser> = Box::new(BlackAndWhiteParser {  });
    let shared_parser = Arc::new(parser);
    let default_configuration = ConfigurationHolder::BlackAndWhite(
        BlackAndWhiteConfiguration::default(),
    );
    let directory = create_frame_view(
        "black-and-white",
        video_location,
        frame_number,
        create_directory_attributes(inode_number),
        shared,
        Some(shared_parser),
        default_configuration,
        initialise_script,
    );
    assert(is_frame_view(
        directory,
        video_location@,
        frame_number,
        shared,
        Some(shared_parser),
        default_black_and_white(),
        initialise_script@,
    ));
    directory
}

/// Builds the directory of one view of a frame.
pub trait ViewBuilder {
    /// Whether `directory` is something this builder may make for the frame. Unless a
    /// builder says otherwise, it may make any directory.
    open spec fn builds(
        &self,
        video_location: Seq<char>,
        frame_number: u64,
        inode_number: u64,
        directory: DirectoryFuseNode,
    ) -> bool {
        true
    }

    /// Builds the directory under the given inode number, without children.
    fn build(&self, video_location: &str, frame_number: u64, inode_number: u64) -> (directory:
        DirectoryFuseNode)
        ensures
            directory.attributes.ino == inode_number,
            directory.children().len() == 0,
            self.builds(video_location@, frame_number, inode_number, directory),
    ;
}

/// The three views that the file system offers of every frame.
#[derive(Clone, Copy, Debug, PartialEq, Eq, Structural)]
pub enum ViewKind {
    Original,
    Greyscale,
    BlackAndWhite,
}

/// The builder of one of the standard views over a codec.
pub struct StandardView {
    pub kind: ViewKind,
    pub codec: Arc<Box<dyn VideoCodec>>,
    pub initialise_script: Vec<u8>,
}

impl ViewKind {
    /// The name of the directory of the view.
    pub open spec fn name(self) -> Seq<char> {
        match self {
            ViewKind::Original => original_view_name(),
            ViewKind::Greyscale => greyscale_view_name(),
            ViewKind::BlackAndWhite => black_and_white_view_name(),
        }
    }
}

/// Whether `directory` is the directory of the standard view `kind` of a frame, still to be
/// materialized.
pub open spec fn is_standard_view(
    kind: ViewKind,
    directory: DirectoryFuseNode,
    video_location: Seq<char>,
    frame_number: u64,
    inode_number: u64,
    codec: Arc<Box<dyn VideoCodec>>,
    initialise_script: Seq<u8>,
) -> bool {
    match kind {
        ViewKind::Original => is_original_view(
            directory,
            video_location,
            frame_number,
            inode_number,
            codec,
            initialise_script,
        ),
        ViewKind::Greyscale => is_greyscale_view(
            directory,
            video_location,
            frame_number,
            inode_number,
            codec,
            initialise_script,
        ),
        ViewKind::BlackAndWhite => is_black_and_white_view(
            directory,
            video_location,
            frame_number,
            inode_number,
            codec,
            initialise_script,
        ),
    }
}

impl ViewBuilder for StandardView {
    open spec fn builds(
        &self,
        video_location: Seq<char>,
        frame_number: u64,
        inode_number: u64,
        directory: DirectoryFuseNode,
    ) -> bool {
        is_standard_view(
            self.kind,
            directory,
            video_location,
            frame_number,
            inode_number,
            self.codec,
            self.initialise_script@,
        )
    }

    fn build(&self, video_location: &str, frame_number: u64, inode_number: u64) -> (directory:
        DirectoryFuseNode) {
        match self.kind {
            ViewKind::Original => create_original_view(
                video_location,
                frame_number,
                inode_number,
                &self.codec,
                self.initialise_script.clone(),
            ),
            ViewKind::Greyscale => create_greyscale_view(
                video_location,
                frame_number,
                inode_number,
                &self.codec,
                self.initialise_script.clone(),
            ),
            ViewKind::BlackAndWhite => create_black_and_white_view(
                video_location,
                frame_number,
                inode_number,
                &self.codec,
                self.initialise_script.clone(),
            ),
        }
    }
}

/// Whether `after` is `before` with the directory of the frame `frame_number` added under
/// the directory `parent`: the frame directory takes the next inode number, and the
/// directories of its views, one per builder and in the order of the builders, take the
/// numbers after it.
pub open spec fn frame_added(
    before: &FuseNodeStore,
    after: &FuseNodeStore,
    video_location: Seq<char>,
    builders: Seq<Box<dyn ViewBuilder>>,
    frame_number: u64,
    parent: u64,
) -> bool {
    let frame_inode = before.current_inode_number + 1;
    let frame = after.directories()[frame_inode as u64];
    &&& after.current_inode_number == frame_inode + builders.len()
    &&& after.files() == before.files()
    &&& after.directories().dom() == before.directories().dom().union(
        Set::new(|i: u64| frame_inode <= i <= frame_inode + builders.len()),
    )
    &&& forall|i: u64|
        before.directories().contains_key(i) && i != parent
            ==> #[trigger] after.directories()[i] == before.directories()[i]
    &&& before.directories()[parent].with_child(after.directories()[parent], frame_inode as u64)
    &&& frame.name@ == frame_name(frame_number)
    &&& !frame.unmaterialized()
    &&& frame.children() == Seq::new(builders.len(), |k: int| (frame_inode + 1 + k) as u64)
    &&& forall|k: int|
        0 <= k < builders.len() ==> (#[trigger] builders[k]).builds(
            video_location,
            frame_number,
            (frame_inode + 1 + k) as u64,
            after.directories()[(frame_inode + 1 + k) as u64],
        )
}

/// Adds the directory of one frame, with the directories of its views, under `parent`.
pub fn insert_frame(
    node_store: &mut FuseNodeStore,
    video_location: &str,
    view_generators: &Vec<Box<dyn ViewBuilder>>,
    frame_number: u64,
    parent: u64,
)
    requires
        old(node_store).wf(),
        old(node_store).numbers_free((1 + view_generators@.len()) as nat),
        old(node_store).directories().contains_key(parent),
    ensures
        final(node_store).wf(),
        old(node_store).inodes_bounded() ==> final(node_store).inodes_bounded(),
        frame_added(
            old(node_store),
            final(node_store),
            video_location@,
            view_generators@,
            frame_number,
            parent,
        ),
{
    let name = frame_directory_name(frame_number);
    proof {
        assert(!old(node_store).contains((old(node_store).current_inode_number + 1 + 0) as u64));
        assert(old(node_store).numbers_free(1));
    }
    let frame_directory_inode_number = node_store.create_and_insert_directory(name.as_str(), parent);
    let ghost framed = *node_store;
    let ghost frame_inode = old(node_store).current_inode_number + 1;
    let mut index: usize = 0;
    proof {
        assert(node_store.directories()[frame_directory_inode_number].children() =~= Seq::new(
            0,
            |k: int| (frame_inode + 1 + k) as u64,
        ));
        assert(node_store.directories().dom() =~= old(node_store).directories().dom().union(
            Set::new(|i: u64| frame_inode <= i <= frame_inode + 0),
        ));
    }
    while index < view_generators.len()
        invariant
            index <= view_generators.len(),
            frame_inode == old(node_store).current_inode_number + 1,
            frame_inode == frame_directory_inode_number,
            frame_inode + view_generators.len() <= u64::MAX,
            old(node_store).wf(),
            old(node_store).numbers_free((1 + view_generators@.len()) as nat),
            old(node_store).directories().contains_key(parent),
            node_store.wf(),
            old(node_store).inodes_bounded() ==> node_store.inodes_bounded(),
            node_store.current_inode_number == frame_inode + index,
            node_store.files() == old(node_store).files(),
            node_store.directories().dom() == old(node_store).directories().dom().union(
                Set::new(|i: u64| frame_inode <= i <= frame_inode + index),
            ),
            forall|i: u64|
                old(node_store).directories().contains_key(i) && i != parent
                    ==> #[trigger] node_store.directories()[i] == old(node_store).directories()[i],
            node_store.directories()[parent] == framed.directories()[parent],
            old(node_store).directories()[parent].with_child(
                framed.directories()[parent],
                frame_inode as u64,
            ),
            node_store.directories()[frame_directory_inode_number].name@ == frame_name(
                frame_number,
            ),
            !node_store.directories()[frame_directory_inode_number].unmaterialized(),
            node_store.directories()[frame_directory_inode_number].attributes.ino
                == frame_directory_inode_number,
            node_store.directories()[frame_directory_inode_number].children() == Seq::new(
                index as nat,
                |k: int| (frame_inode + 1 + k) as u64,
            ),
            forall|k: int|
                0 <= k < index ==> (#[trigger] view_generators@[k]).builds(
                    video_location@,
                    frame_number,
                    (frame_inode + 1 + k) as u64,
                    node_store.directories()[(frame_inode + 1 + k) as u64],
                ),
        decreases view_generators.len() - index,
    {
        let ghost before = *node_store;
        let inode_number = node_store.create_inode_number();
        proof {
            before.lemma_same_children(node_store);
            assert(!old(node_store).contains(
                (old(node_store).current_inode_number + 1 + (index + 1)) as u64,
            ));
            assert(!old(node_store).contains((old(node_store).current_inode_number + 1 + 0) as u64));
            assert(!node_store.contains(inode_number));
        }
        let view_directory = view_generators[index].build(video_location, frame_number, inode_number);
        node_store.insert_directory(view_directory, frame_directory_inode_number);
        proof {
            assert(old(node_store).contains(parent));
            assert(parent != frame_directory_inode_number);
            assert(parent != inode_number);
            assert(node_store.directories().dom() =~= old(node_store).directories().dom().union(
                Set::new(|i: u64| frame_inode <= i <= frame_inode + index + 1),
            ));
            assert(node_store.directories()[frame_directory_inode_number].children() =~= Seq::new(
                (index + 1) as nat,
                |k: int| (frame_inode + 1 + k) as u64,
            ));
            assert forall|i: u64|
                old(node_store).directories().contains_key(i) && i
                    != parent implies #[trigger] node_store.directories()[i] == old(
                node_store,
            ).directories()[i] by {
                assert(old(node_store).contains(i));
                assert(before.directories()[i] == old(node_store).directories()[i]);
            }
            assert forall|k: int| 0 <= k < index + 1 implies (#[trigger] view_generators@[k]).builds(
                video_location@,
                frame_number,
                (frame_inode + 1 + k) as u64,
                node_store.directories()[(frame_inode + 1 + k) as u64],
            ) by {
                if k < index {
                    assert(before.directories()[(frame_inode + 1 + k) as u64]
                        == node_store.directories()[(frame_inode + 1 + k) as u64]);
                }
            }
        }
        index += 1;
    }
}

/// The inode number of the directory `by-frame`.
pub const BY_FRAME_INODE_NUMBER: u64 = 2;

/// The name of the directory that holds the frames.
pub open spec fn by_frame_name() -> Seq<char> {
    "by-frame"@
}

/// The inode number of the directory of the frame `frame_number` in a tree with `views`
/// views per frame. Frame numbers start at 1; every frame takes one number for itself and
/// one for each view.
pub open spec fn frame_inode(frame_number: int, views: int) -> int {
    3 + (frame_number - 1) * (views + 1)
}

/// The number of frame directories of the tree of a video with `number_of_frames` frames:
/// one for every frame but the first, or none where the inode numbers do not suffice for
/// all of them.
pub open spec fn frames_built(number_of_frames: u64, views: int) -> int {
    if number_of_frames >= 1 && frame_inode(number_of_frames as int, views) - 1 <= u64::MAX {
        number_of_frames - 1
    } else {
        0
    }
}

/// Whether the store holds the directory of the frame `frame_number` with its views.
pub open spec fn is_frame(
    store: &FuseNodeStore,
    video_location: Seq<char>,
    builders: Seq<Box<dyn ViewBuilder>>,
    frame_number: int,
) -> bool {
    let views = builders.len() as int;
    let inode_number = frame_inode(frame_number, views);
    let frame = store.directories()[inode_number as u64];
    &&& frame.name@ == frame_name(frame_number as u64)
    &&& !frame.unmaterialized()
    &&& frame.children() == Seq::new(views as nat, |k: int| (inode_number + 1 + k) as u64)
    &&& forall|k: int|
        0 <= k < views ==> (#[trigger] builders[k]).builds(
            video_location,
            frame_number as u64,
            (inode_number + 1 + k) as u64,
            store.directories()[(inode_number + 1 + k) as u64],
        )
}

/// Whether the store holds the tree of a video of which `frames` frame directories have
/// been built: the root, the directory `by-frame` under it, and under that the directories
/// of the frames 1 to `frames` in this order, numbered one after the other.
pub open spec fn is_tree(
    store: &FuseNodeStore,
    video_location: Seq<char>,
    builders: Seq<Box<dyn ViewBuilder>>,
    frames: int,
) -> bool {
    let views = builders.len() as int;
    &&& store.wf()
    &&& store.inodes_bounded()
    &&& store.files() == Map::<u64, FileFuseNode>::empty()
    &&& store.current_inode_number == frame_inode(frames + 1, views) - 1
    &&& store.directories().dom() == Set::new(|i: u64| 1 <= i <= store.current_inode_number)
    &&& store.directories()[ROOT_INODE_NUMBER].children() == seq![BY_FRAME_INODE_NUMBER]
    &&& store.directories()[BY_FRAME_INODE_NUMBER].name@ == by_frame_name()
    &&& !store.directories()[BY_FRAME_INODE_NUMBER].unmaterialized()
    &&& store.directories()[BY_FRAME_INODE_NUMBER].children() == Seq::new(
        frames as nat,
        |j: int| frame_inode(j + 1, views) as u64,
    )
    &&& forall|f: int| 1 <= f <= frames ==> #[trigger] is_frame(store, video_location, builders, f)
}

/// The directory of a frame stands `views + 1` numbers after that of the frame before it, and
/// frames with higher numbers have directories with higher numbers.
pub proof fn lemma_frame_inode(first: int, second: int, views: int)
    requires
        1 <= first <= second,
        0 <= views,
    ensures
        frame_inode(first + 1, views) == frame_inode(first, views) + views + 1,
        first < second ==> frame_inode(first + 1, views) <= frame_inode(second, views),
        frame_inode(first, views) >= 3,
{
    assert((first + 1 - 1) * (views + 1) == (first - 1) * (views + 1) + views + 1)
        by (nonlinear_arith);
    assert((first - 1) * (views + 1) >= 0) by (nonlinear_arith)
        requires
            first >= 1,
            views >= 0,
    ;
    if first < second {
        assert((first + 1 - 1) * (views + 1) <= (second - 1) * (views + 1)) by (nonlinear_arith)
            requires
                first + 1 <= second,
                views >= 0,
        ;
    }
}

/// Whether the inode numbers suffice for the tree of a video with `number_of_frames` frames
/// and `views` views of each.
pub fn has_room(number_of_frames: u64, views: usize) -> (room: bool)
    requires
        number_of_frames >= 1,
    ensures
        room == (frame_inode(number_of_frames as int, views as int) - 1 <= u64::MAX),
{
    let frames: u128 = (number_of_frames - 1) as u128;
    let each: u128 = views as u128 + 1;
    assert(frames * each <= 0xffff_ffff_ffff_ffff * 0x1_0000_0000_0000_0000) by (nonlinear_arith)
        requires
            0 <= frames <= 0xffff_ffff_ffff_ffff,
            0 <= each <= 0x1_0000_0000_0000_0000,
    ;
    let needed: u128 = frames * each + 2;
    needed <= u64::MAX as u128
}

/// The tree of a video with `number_of_frames` frames.
pub fn build_video_nodes(
    video_location: &str,
    view_generators: &Vec<Box<dyn ViewBuilder>>,
    number_of_frames: u64,
) -> (node_store: FuseNodeStore)
    ensures
        is_tree(
            &node_store,
            video_location@,
            view_generators@,
            frames_built(number_of_frames, view_generators@.len() as int),
        ),
{
    let ghost views = view_generators@.len() as int;
    let mut node_store = FuseNodeStore::new();
    let root_directory_inode_number = node_store.get_root_directory().get_inode_number();
    let by_frame_directory_inode_number = node_store.create_and_insert_directory(
        "by-frame",
        root_directory_inode_number,
    );
    proof {
        assert(node_store.directories()[BY_FRAME_INODE_NUMBER].children() =~= Seq::new(
            0,
            |j: int| frame_inode(j + 1, views) as u64,
        ));
        assert(node_store.directories().dom() =~= Set::new(
            |i: u64| 1 <= i <= node_store.current_inode_number,
        ));
        assert(node_store.directories()[ROOT_INODE_NUMBER].children() =~= seq![
            BY_FRAME_INODE_NUMBER,
        ]);
        assert(frame_inode(1, views) == 3) by (nonlinear_arith);
        assert(is_tree(&node_store, video_location@, view_generators@, 0));
    }
    if number_of_frames == 0 || !has_room(number_of_frames, view_generators.len()) {
        return node_store;
    }
    let mut frame_number: u64 = 1;
    while frame_number < number_of_frames
        invariant
            1 <= frame_number <= number_of_frames,
            views == view_generators@.len(),
            by_frame_directory_inode_number == BY_FRAME_INODE_NUMBER,
            frame_inode(number_of_frames as int, views) - 1 <= u64::MAX,
            is_tree(&node_store, video_location@, view_generators@, frame_number - 1),
        decreases number_of_frames - frame_number,
    {
        let ghost before = node_store;
        proof {
            lemma_frame_inode(frame_number as int, number_of_frames as int, views);
        }
        insert_frame(
            &mut node_store,
            video_location,
            view_generators,
            frame_number,
            by_frame_directory_inode_number,
        );
        proof {
            let built = frame_number as int;
            let inode_number = frame_inode(built, views);
            assert(inode_number == before.current_inode_number + 1);
            assert(node_store.directories().dom() =~= Set::new(
                |i: u64| 1 <= i <= node_store.current_inode_number,
            ));
            assert(node_store.directories()[ROOT_INODE_NUMBER]
                == before.directories()[ROOT_INODE_NUMBER]);
            assert(node_store.directories()[BY_FRAME_INODE_NUMBER].children() =~= Seq::new(
                built as nat,
                |j: int| frame_inode(j + 1, views) as u64,
            ));
            assert forall|f: int| 1 <= f <= built implies #[trigger] is_frame(
                &node_store,
                video_location@,
                view_generators@,
                f,
            ) by {
                if f < built {
                    lemma_frame_inode(f, built, views);
                    assert(is_frame(&before, video_location@, view_generators@, f));
                    let earlier = frame_inode(f, views);
                    assert(node_store.directories()[earlier as u64]
                        == before.directories()[earlier as u64]);
                    assert forall|k: int| 0 <= k < views implies (#[trigger] view_generators@[k]).builds(
                        video_location@,
                        f as u64,
                        (earlier + 1 + k) as u64,
                        node_store.directories()[(earlier + 1 + k) as u64],
                    ) by {
                        assert(before.directories().contains_key((earlier + 1 + k) as u64));
                        assert(node_store.directories()[(earlier + 1 + k) as u64]
                            == before.directories()[(earlier + 1 + k) as u64]);
                    }
                }
            }
        }
        frame_number += 1;
    }
    node_store
}

/// The tree of a video, with as many frames as the codec counts in it.
pub fn create_video_nodes(
    video_location: &str,
    view_generators: &Vec<Box<dyn ViewBuilder>>,
    codec: &Arc<Box<dyn VideoCodec>>,
) -> (node_store: FuseNodeStore)
    ensures
        exists|number_of_frames: u64|
            {
                &&& #[trigger] codec.counts_frames(video_location@, number_of_frames)
                &&& is_tree(
                    &node_store,
                    video_location@,
                    view_generators@,
                    frames_built(number_of_frames, view_generators@.len() as int),
                )
            },
{
    let number_of_frames = codec.get_number_of_frames(video_location);
    build_video_nodes(video_location, view_generators, number_of_frames)
}

/// The kinds of the views of every frame, in the order of their directories.
pub open spec fn default_views() -> Seq<ViewKind> {
    seq![ViewKind::Original, ViewKind::Greyscale, ViewKind::BlackAndWhite]
}

/// Whether `builders` build the standard views over `codec`, in their order.
pub open spec fn are_default_views(
    builders: Seq<Box<dyn ViewBuilder>>,
    codec: Arc<Box<dyn VideoCodec>>,
    initialise_script: Seq<u8>,
) -> bool {
    &&& builders.len() == default_views().len()
    &&& forall|
        k: int,
        video_location: Seq<char>,
        frame_number: u64,
        inode_number: u64,
        directory: DirectoryFuseNode,
    |
        0 <= k < builders.len() ==> #[trigger] builders[k].builds(
            video_location,
            frame_number,
            inode_number,
            directory,
        ) == is_standard_view(
            default_views()[k],
            directory,
            video_location,
            frame_number,
            inode_number,
            codec,
            initialise_script,
        )
}

/// The builders of the three standard views: original, greyscale, black-and-white.
pub fn default_view_generators(codec: &Arc<Box<dyn VideoCodec>>, initialise_script: &Vec<u8>) -> (builders: Vec<
    Box<dyn ViewBuilder>,
>)
    ensures
        are_default_views(builders@, *codec, initialise_script@),
{
    let builders: Vec<Box<dyn ViewBuilder>> = vec![
        Box::new(
            StandardView {
                kind: ViewKind::Original,
                codec: share(codec),
                initialise_script: initialise_script.clone(),
            },
        ),
        Box::new(
            StandardView {
                kind: ViewKind::Greyscale,
                codec: share(codec),
                initialise_script: initialise_script.clone(),
            },
        ),
        Box::new(
            StandardView {
                kind: ViewKind::BlackAndWhite,
                codec: share(codec),
                initialise_script: initialise_script.clone(),
            },
        ),
    ];
    proof {
        assert forall|
            k: int,
            video_location: Seq<char>,
            frame_number: u64,
            inode_number: u64,
            directory: DirectoryFuseNode,
        | 0 <= k < builders@.len() implies #[trigger] builders@[k].builds(
            video_location,
            frame_number,
            inode_number,
            directory,
        ) == is_standard_view(
            default_views()[k],
            directory,
            video_location,
            frame_number,
            inode_number,
            *codec,
            initialise_script@,
        ) by {
            if k == 0 {
                assert(default_views()[0] == ViewKind::Original);
            } else if k == 1 {
                assert(default_views()[1] == ViewKind::Greyscale);
            } else {
                assert(default_views()[2] == ViewKind::BlackAndWhite);
            }
        }
    }
    builders
}

/// The tree of a video with the three standard views of every frame.
pub fn create_default_video_nodes(
    video_location: &str,
    codec: &Arc<Box<dyn VideoCodec>>,
    initialise_script: &Vec<u8>,
) -> (node_store: FuseNodeStore)
    ensures
        exists|number_of_frames: u64, builders: Seq<Box<dyn ViewBuilder>>|
            {
                &&& #[trigger] codec.counts_frames(video_location@, number_of_frames)
                &&& are_default_views(builders, *codec, initialise_script@)
                &&& #[trigger] is_tree(
                    &node_store,
                    video_location@,
                    builders,
                    frames_built(number_of_frames, default_views().len() as int),
                )
            },
{
    let view_generators = default_view_generators(codec, initialise_script);
    create_video_nodes(video_location, &view_generators, codec)
}

/// The file system of a video with the three standard views of every frame.
pub fn create_video_filesystem(
    video_location: &str,
    codec: &Arc<Box<dyn VideoCodec>>,
    initialise_script: &Vec<u8>,
) -> (filesystem: VideoFileSystem)
    ensures
        filesystem.wf(),
        exists|number_of_frames: u64, builders: Seq<Box<dyn ViewBuilder>>|
            {
                &&& #[trigger] codec.counts_frames(video_location@, number_of_frames)
                &&& are_default_views(builders, *codec, initialise_script@)
                &&& #[trigger] is_tree(
                    &filesystem.nodes,
                    video_location@,
                    builders,
                    frames_built(number_of_frames, default_views().len() as int),
                )
            },
{
    let nodes = create_default_video_nodes(video_location, codec, initialise_script);
    VideoFileSystem { nodes }
}

} // verus!
