use std::sync::Arc;
use video_frame_fuse::attributes::{create_directory_attributes, FileKind};
use video_frame_fuse::config::{BlackAndWhiteConfiguration, ConfigurationHolder};
use video_frame_fuse::file::{DataSource, FileInformation};
use video_frame_fuse::image_type::ImageType;
use video_frame_fuse::nodes::{DirectoryFuseNode, FuseNode, FuseNodeStore, ROOT_INODE_NUMBER};
use video_frame_fuse::views::{
    build_video_nodes, create_black_and_white_view, create_frame_view, create_greyscale_view,
    create_original_view, create_video_nodes, default_configuration_bytes,
    default_view_generators, has_room, insert_frame, BlackAndWhiteParser, ConfigurationParser,
    ImageDataGenerator, VideoCodec, ViewBuilder, BY_FRAME_INODE_NUMBER,
};

struct EchoGenerator;

impl ImageDataGenerator for EchoGenerator {
    fn generate(
        &self,
        video_location: String,
        frame_number: u64,
        image_type: ImageType,
        configuration: ConfigurationHolder,
    ) -> Vec<u8> {
        format!(
            "{} {} {} {:?}",
            video_location,
            frame_number,
            image_type.to_string(),
            configuration
        )
        .into_bytes()
    }
}

struct FakeCodec {
    frames: u64,
}

impl VideoCodec for FakeCodec {
    fn get_number_of_frames(&self, _video_location: &str) -> u64 {
        self.frames
    }

    fn get_frame_image(&self, _: String, frame_number: u64, _: ImageType) -> Vec<u8> {
        vec![b'o', frame_number as u8]
    }

    fn get_greyscale_frame_image(&self, _: String, frame_number: u64, _: ImageType) -> Vec<u8> {
        vec![b'g', frame_number as u8]
    }

    fn get_black_and_white_frame_image(
        &self,
        _: String,
        frame_number: u64,
        threshold_at: Option<u8>,
        _: ImageType,
    ) -> Vec<u8> {
        vec![b'b', frame_number as u8, threshold_at.unwrap_or(0)]
    }
}

struct PlainBuilder(&'static str);

impl ViewBuilder for PlainBuilder {
    fn build(&self, _: &str, frame_number: u64, inode_number: u64) -> DirectoryFuseNode {
        let mut directory = DirectoryFuseNode::new(
            &format!("{}-{}", self.0, frame_number),
            create_directory_attributes(inode_number),
            Box::new(NoFiles),
        );
        directory.file_information_generator = None;
        directory
    }
}

struct NoFiles;

impl video_frame_fuse::nodes::ChildrenGenerator for NoFiles {
    fn generate(&self, _: u64) -> Vec<FileInformation> {
        vec![]
    }
}

fn codec(frames: u64) -> Arc<Box<dyn VideoCodec>> {
    Arc::new(Box::new(FakeCodec { frames }))
}

fn entries_of(directory: &DirectoryFuseNode) -> Vec<FileInformation> {
    directory
        .file_information_generator
        .as_ref()
        .unwrap()
        .generate(directory.get_inode_number())
}

fn child_names(store: &mut FuseNodeStore, inode_number: u64) -> Vec<String> {
    store
        .get_nodes_in_directory(inode_number)
        .iter()
        .map(|node| match node {
            FuseNode::Directory(x) => x.name.clone(),
            FuseNode::File(x) => x.information.name.clone(),
        })
        .collect()
}

fn child_inodes(store: &mut FuseNodeStore, inode_number: u64) -> Vec<u64> {
    store
        .get_nodes_in_directory(inode_number)
        .iter()
        .map(|node| match node {
            FuseNode::Directory(x) => x.get_inode_number(),
            FuseNode::File(x) => x.get_inode_number(),
        })
        .collect()
}

#[test]
fn a_view_generates_images_manifest_script_and_configuration() {
    let directory = create_frame_view(
        "custom",
        "video.mp4",
        12,
        create_directory_attributes(9),
        Arc::new(Box::new(EchoGenerator)),
        None,
        ConfigurationHolder::Empty,
        b"payload".to_vec(),
    );
    assert_eq!(directory.name, "custom");
    assert_eq!(directory.get_inode_number(), 9);
    assert_eq!(directory.attributes.kind, FileKind::Directory);
    assert!(directory.children_inode_numbers.is_empty());

    let entries = entries_of(&directory);
    let names: Vec<&str> = entries.iter().map(|entry| entry.name.as_str()).collect();
    assert_eq!(
        names,
        vec![
            "frame-12.jpg",
            "frame-12.png",
            "frame-12.bmp",
            "frame-12.webp",
            "manifest.csv",
            "initialise.sh",
            "config.yml"
        ]
    );
    for entry in &entries[..4] {
        assert!(matches!(entry.source, DataSource::Generated(_)));
        assert!(!entry.listed && !entry.executable && !entry.writable);
        assert!(entry.on_data_change.is_none());
    }
    assert_eq!(entries[1].get_data(), b"video.mp4 12 png Empty".to_vec());

    let manifest = &entries[4];
    assert!(manifest.listed && !manifest.executable && !manifest.writable);
    assert_eq!(
        manifest.get_data(),
        b"image-type,location\njpg,frame-12.jpg\npng,frame-12.png\nbmp,frame-12.bmp\nwebp,frame-12.webp\n"
            .to_vec()
    );

    let script = &entries[5];
    assert!(script.listed && script.executable && !script.writable);
    assert_eq!(script.get_data(), b"payload".to_vec());

    let configuration = &entries[6];
    assert!(configuration.listed && !configuration.executable && configuration.writable);
    assert!(configuration.on_data_change.is_some());
    assert_eq!(configuration.get_data(), Vec::<u8>::new());
}

#[test]
fn the_configuration_file_sets_the_parameters_of_the_images() {
    let directory = create_frame_view(
        "custom",
        "v",
        1,
        create_directory_attributes(9),
        Arc::new(Box::new(EchoGenerator)),
        Some(Arc::new(Box::new(BlackAndWhiteParser {}))),
        ConfigurationHolder::BlackAndWhite(BlackAndWhiteConfiguration { threshold: Some(3) }),
        vec![],
    );
    let mut entries = entries_of(&directory);
    assert_eq!(entries[6].get_data(), b"---\nthreshold: 3\n".to_vec());
    assert_eq!(
        entries[0].get_data(),
        b"v 1 jpg BlackAndWhite(BlackAndWhiteConfiguration { threshold: Some(3) })".to_vec()
    );

    assert_eq!(entries[6].set_data(b"threshold: 77".to_vec()), Ok(()));
    assert_eq!(entries[6].get_data(), b"threshold: 77".to_vec());
    assert_eq!(
        entries[3].get_data(),
        b"v 1 webp BlackAndWhite(BlackAndWhiteConfiguration { threshold: Some(77) })".to_vec()
    );

    assert!(entries[6].set_data(b"threshold: x".to_vec()).is_err());
    assert_eq!(entries[6].get_data(), b"threshold: 77".to_vec());
    assert_eq!(
        entries[0].get_data(),
        b"v 1 jpg BlackAndWhite(BlackAndWhiteConfiguration { threshold: Some(77) })".to_vec()
    );
}

#[test]
fn a_view_without_parser_refuses_a_new_configuration() {
    let directory = create_frame_view(
        "custom",
        "v",
        1,
        create_directory_attributes(9),
        Arc::new(Box::new(EchoGenerator)),
        None,
        ConfigurationHolder::Empty,
        vec![],
    );
    let mut entries = entries_of(&directory);
    assert_eq!(
        entries[6].set_data(b"threshold: 1".to_vec()),
        Err("This view has no configuration".to_string())
    );
}

#[test]
fn two_listings_of_a_view_do_not_share_parameters() {
    let directory = create_frame_view(
        "custom",
        "v",
        1,
        create_directory_attributes(9),
        Arc::new(Box::new(EchoGenerator)),
        Some(Arc::new(Box::new(BlackAndWhiteParser {}))),
        ConfigurationHolder::BlackAndWhite(BlackAndWhiteConfiguration { threshold: None }),
        vec![],
    );
    let mut first = entries_of(&directory);
    let second = entries_of(&directory);
    first[6].set_data(b"threshold: 5".to_vec()).unwrap();
    assert_eq!(
        second[0].get_data(),
        b"v 1 jpg BlackAndWhite(BlackAndWhiteConfiguration { threshold: None })".to_vec()
    );
}

#[test]
fn the_standard_views_render_through_the_codec() {
    let codec = codec(5);
    let original = create_original_view("v", 2, 10, &codec, vec![]);
    assert_eq!(original.name, "original");
    assert_eq!(original.get_inode_number(), 10);
    assert_eq!(entries_of(&original)[0].get_data(), vec![b'o', 2]);
    assert_eq!(entries_of(&original)[6].get_data(), Vec::<u8>::new());

    let greyscale = create_greyscale_view("v", 3, 11, &codec, vec![]);
    assert_eq!(greyscale.name, "greyscale");
    assert_eq!(entries_of(&greyscale)[2].get_data(), vec![b'g', 3]);

    let black_and_white = create_black_and_white_view("v", 4, 12, &codec, vec![]);
    assert_eq!(black_and_white.name, "black-and-white");
    let mut entries = entries_of(&black_and_white);
    assert_eq!(entries[0].get_data(), vec![b'b', 4, 0]);
    assert_eq!(entries[6].get_data(), b"---\nthreshold: ~\n".to_vec());
    entries[6].set_data(b"threshold: 9".to_vec()).unwrap();
    assert_eq!(entries[0].get_data(), vec![b'b', 4, 9]);
}

#[test]
fn the_parser_of_the_black_and_white_view_reads_thresholds() {
    let parser = BlackAndWhiteParser {};
    assert_eq!(
        parser.parse("threshold: 255"),
        Ok(ConfigurationHolder::BlackAndWhite(BlackAndWhiteConfiguration {
            threshold: Some(255)
        }))
    );
    assert!(parser.parse("threshold: -1").is_err());
}

#[test]
fn default_configuration_bytes_are_the_text_form() {
    assert_eq!(
        default_configuration_bytes(ConfigurationHolder::Empty),
        Vec::<u8>::new()
    );
    assert_eq!(
        default_configuration_bytes(ConfigurationHolder::BlackAndWhite(
            BlackAndWhiteConfiguration { threshold: Some(1) }
        )),
        b"---\nthreshold: 1\n".to_vec()
    );
}

#[test]
fn the_tree_numbers_frames_and_views_one_after_the_other() {
    let builders: Vec<Box<dyn ViewBuilder>> =
        vec![Box::new(PlainBuilder("a")), Box::new(PlainBuilder("b"))];
    let mut store = build_video_nodes("v", &builders, 4);
    assert_eq!(store.current_inode_number, 2 + 3 * 3);
    assert_eq!(child_inodes(&mut store, ROOT_INODE_NUMBER), vec![2]);
    assert_eq!(child_names(&mut store, ROOT_INODE_NUMBER), vec!["by-frame"]);
    assert_eq!(child_inodes(&mut store, BY_FRAME_INODE_NUMBER), vec![3, 6, 9]);
    assert_eq!(
        child_names(&mut store, BY_FRAME_INODE_NUMBER),
        vec!["frame-1", "frame-2", "frame-3"]
    );
    assert_eq!(child_inodes(&mut store, 6), vec![7, 8]);
    assert_eq!(child_names(&mut store, 6), vec!["a-2", "b-2"]);
    assert!(store.file_nodes.is_empty());
}

#[test]
fn a_video_with_one_frame_or_none_has_no_frame_directories() {
    let builders: Vec<Box<dyn ViewBuilder>> = vec![Box::new(PlainBuilder("a"))];
    for frames in [0, 1] {
        let mut store = build_video_nodes("v", &builders, frames);
        assert_eq!(store.current_inode_number, 2);
        assert!(child_inodes(&mut store, BY_FRAME_INODE_NUMBER).is_empty());
    }
}

#[test]
fn a_video_with_more_frames_than_inode_numbers_has_no_frame_directories() {
    let builders: Vec<Box<dyn ViewBuilder>> = vec![Box::new(PlainBuilder("a"))];
    let mut store = build_video_nodes("v", &builders, u64::MAX);
    assert_eq!(store.current_inode_number, 2);
    assert!(child_inodes(&mut store, BY_FRAME_INODE_NUMBER).is_empty());
}

#[test]
fn has_room_counts_every_frame_and_view() {
    assert!(has_room(1, 3));
    assert!(has_room(10, 3));
    assert!(has_room(u64::MAX - 1, 0));
    assert!(!has_room(u64::MAX, 0));
    assert!(!has_room(u64::MAX, 1));
    assert!(has_room((u64::MAX - 2) / 4 + 1, 3));
    assert!(!has_room((u64::MAX - 2) / 4 + 2, 3));
}

#[test]
fn create_video_nodes_asks_the_codec_for_the_frames() {
    let codec = codec(3);
    let builders = default_view_generators(&codec, &b"s".to_vec());
    assert_eq!(builders.len(), 3);
    let mut store = create_video_nodes("v", &builders, &codec);
    assert_eq!(child_names(&mut store, BY_FRAME_INODE_NUMBER), vec!["frame-1", "frame-2"]);
    assert_eq!(
        child_names(&mut store, 3),
        vec!["original", "greyscale", "black-and-white"]
    );
    assert_eq!(child_inodes(&mut store, 7), vec![8, 9, 10]);
    assert_eq!(
        child_names(&mut store, 10),
        vec![
            "frame-2.jpg",
            "frame-2.png",
            "frame-2.bmp",
            "frame-2.webp",
            "manifest.csv",
            "initialise.sh",
            "config.yml"
        ]
    );
    assert_eq!(child_inodes(&mut store, 10), vec![11, 12, 13, 14, 15, 16, 17]);
}

#[test]
fn insert_frame_adds_one_frame_with_its_views() {
    let builders: Vec<Box<dyn ViewBuilder>> = vec![Box::new(PlainBuilder("a"))];
    let mut store = FuseNodeStore::new();
    insert_frame(&mut store, "v", &builders, 41, ROOT_INODE_NUMBER);
    assert_eq!(child_names(&mut store, ROOT_INODE_NUMBER), vec!["frame-41"]);
    assert_eq!(child_names(&mut store, 2), vec!["a-41"]);
    assert_eq!(store.current_inode_number, 3);
}
