use video_frame_fuse::attributes::{
    create_directory_attributes, create_file_attributes, directory_attributes, file_attributes,
    FileKind,
};
use video_frame_fuse::image_type::ImageType;
use video_frame_fuse::names::{decimal_string, frame_directory_name, image_file_name};

#[test]
fn image_types_are_named_by_their_extension() {
    assert_eq!(ImageType::JPG.to_string(), "jpg");
    assert_eq!(ImageType::PNG.to_string(), "png");
    assert_eq!(ImageType::BMP.to_string(), "bmp");
    assert_eq!(ImageType::WEBP.to_string(), "webp");
}

#[test]
fn image_types_come_in_declaration_order() {
    assert_eq!(
        ImageType::iter(),
        vec![ImageType::JPG, ImageType::PNG, ImageType::BMP, ImageType::WEBP]
    );
}

#[test]
fn numbers_are_written_in_decimal() {
    assert_eq!(decimal_string(0), "0");
    assert_eq!(decimal_string(7), "7");
    assert_eq!(decimal_string(10), "10");
    assert_eq!(decimal_string(1234567890), "1234567890");
    assert_eq!(decimal_string(u64::MAX), "18446744073709551615");
}

#[test]
fn names_of_frames_and_images() {
    assert_eq!(frame_directory_name(1), "frame-1");
    assert_eq!(frame_directory_name(120), "frame-120");
    assert_eq!(image_file_name(3, ImageType::WEBP), "frame-3.webp");
    assert_eq!(image_file_name(10, ImageType::JPG), "frame-10.jpg");
}

#[test]
fn file_permissions_follow_the_flags() {
    assert_eq!(file_attributes(1, 0, false, false, 0, 0).perm, 0o440);
    assert_eq!(file_attributes(1, 0, false, true, 0, 0).perm, 0o660);
    assert_eq!(file_attributes(1, 0, true, false, 0, 0).perm, 0o550);
    assert_eq!(file_attributes(1, 0, true, true, 0, 0).perm, 0o770);
}

#[test]
fn file_attributes_hold_the_given_values() {
    let attributes = file_attributes(9, 123, false, false, 1000, 2000);
    assert_eq!(attributes.ino, 9);
    assert_eq!(attributes.size, 123);
    assert_eq!(attributes.blocks, 1);
    assert_eq!(
        (attributes.atime, attributes.mtime, attributes.ctime, attributes.crtime),
        (0, 0, 0, 0)
    );
    assert_eq!(attributes.kind, FileKind::RegularFile);
    assert_eq!(attributes.nlink, 1);
    assert_eq!((attributes.uid, attributes.gid), (1000, 2000));
    assert_eq!((attributes.rdev, attributes.flags), (0, 0));
}

#[test]
fn directory_attributes_hold_the_given_values() {
    let attributes = directory_attributes(5, 1000, 2000);
    assert_eq!(attributes.ino, 5);
    assert_eq!(attributes.size, 0);
    assert_eq!(attributes.blocks, 0);
    assert_eq!(attributes.kind, FileKind::Directory);
    assert_eq!(attributes.perm, 0o550);
    assert_eq!(attributes.nlink, 1);
    assert_eq!((attributes.uid, attributes.gid), (1000, 2000));
}

#[test]
fn created_attributes_belong_to_the_running_process() {
    let directory = create_directory_attributes(5);
    assert_eq!(directory, directory_attributes(5, users::get_current_uid(), users::get_current_gid()));
    let file = create_file_attributes(6, 10, true, false);
    assert_eq!(
        file,
        file_attributes(6, 10, true, false, users::get_current_uid(), users::get_current_gid())
    );
}
