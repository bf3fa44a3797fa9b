use video_frame_fuse::attributes::{FileAttributes, FileKind};
use video_frame_fuse::file::{DataFetcher, FileInformation};
use video_frame_fuse::nodes::{
    ChildrenGenerator, DirectoryFuseNode, FileFuseNode, FuseNode, FuseNodeStore,
    ROOT_INODE_NUMBER,
};

fn file_attr_1() -> FileAttributes {
    FileAttributes {
        ino: 42,
        size: 0,
        blocks: 0,
        atime: 0,
        mtime: 0,
        ctime: 0,
        crtime: 0,
        kind: FileKind::Directory,
        perm: 0,
        nlink: 0,
        uid: 0,
        gid: 0,
        rdev: 0,
        flags: 0,
    }
}

struct NoChildren;

impl ChildrenGenerator for NoChildren {
    fn generate(&self, _inode_number: u64) -> Vec<FileInformation> {
        vec![]
    }
}

struct FixedData(Vec<u8>);

impl DataFetcher for FixedData {
    fn fetch(&self) -> Vec<u8> {
        self.0.clone()
    }
}

struct TwoFiles;

impl ChildrenGenerator for TwoFiles {
    fn generate(&self, _inode_number: u64) -> Vec<FileInformation> {
        vec![
            FileInformation::new("first", Box::new(FixedData(vec![1])), false, false),
            FileInformation::new_with_data("second", vec![2, 2], true, false, false, None),
        ]
    }
}

fn inode_numbers(nodes: &[FuseNode]) -> Vec<u64> {
    nodes
        .iter()
        .map(|node| match node {
            FuseNode::Directory(x) => x.get_inode_number(),
            FuseNode::File(x) => x.get_inode_number(),
        })
        .collect()
}

#[test]
fn directory_fuse_node() {
    let directory_fuse_node = DirectoryFuseNode::new("test", file_attr_1(), Box::new(NoChildren));
    assert_eq!(directory_fuse_node.get_inode_number(), file_attr_1().ino)
}

#[test]
fn file_fuse_node() {
    let inode_number = 43;
    let data = "testing".as_bytes().to_vec();

    let file_fuse_node = FileFuseNode {
        information: FileInformation::new_with_data(
            "test",
            data.clone(),
            false,
            false,
            false,
            None,
        ),
        directory_inode_number: 0,
        inode_number: inode_number,
    };
    assert_eq!(file_fuse_node.get_inode_number(), inode_number);
    assert_eq!(file_fuse_node.get_data(), data);
    let attributes = file_fuse_node.get_attributes();
    assert_eq!(attributes.ino, inode_number);
    assert_eq!(attributes.kind, FileKind::RegularFile);
    assert_eq!(attributes.size, data.len() as u64);
}

#[test]
fn node_store_get_root_directory() {
    let node_store = FuseNodeStore::new();
    let root_directory = node_store.get_root_directory();

    node_store
        .directory_nodes
        .get(&root_directory.get_inode_number())
        .unwrap();
    assert_eq!(root_directory.get_inode_number(), ROOT_INODE_NUMBER);
    assert_eq!(
        node_store
            .get_directory_node(root_directory.get_inode_number())
            .unwrap()
            .get_inode_number(),
        root_directory.get_inode_number()
    );
}

#[test]
fn node_store_insert_directory() {
    let mut node_store = FuseNodeStore::new();
    let name = "test123";
    let directory = DirectoryFuseNode::new(&name, file_attr_1(), Box::new(NoChildren));
    let inode_number = directory.get_inode_number();

    let root_inode_number = node_store.get_root_directory().get_inode_number();
    node_store.insert_directory(directory, root_inode_number);

    let retrieved_directory = node_store.get_directory_node(inode_number).unwrap();
    assert_eq!(&retrieved_directory.name, name);
    assert_eq!(retrieved_directory.get_inode_number(), inode_number);
}

#[test]
fn node_store_create_and_insert_directory() {
    let mut node_store = FuseNodeStore::new();
    let name = "test123";
    let root_inode_number = node_store.get_root_directory().get_inode_number();
    let inode_number = node_store.create_and_insert_directory(&name, root_inode_number);

    let retrieved_directory = node_store.get_directory_node(inode_number).unwrap();
    assert_eq!(retrieved_directory.name, name);
}

#[test]
fn node_store_create_and_insert_file() {
    let mut node_store = FuseNodeStore::new();
    let data = "data".as_bytes().to_vec();
    let name = "test123";
    let file_information =
        FileInformation::new(&name, Box::new(FixedData(data.clone())), false, false);
    let root_inode_number = node_store.get_root_directory().get_inode_number();
    let inode_number = node_store.create_and_insert_file(file_information, root_inode_number);

    let retrieved_file = node_store.get_file_node(inode_number).unwrap();
    assert_eq!(retrieved_file.get_inode_number(), inode_number);
    assert_eq!(retrieved_file.information.name, name);
    assert_eq!(retrieved_file.get_data(), data);
    assert_eq!(retrieved_file.get_attributes().size as usize, data.len());
}

#[test]
fn node_store_get_file_node_not_exist() {
    let node_store = FuseNodeStore::new();
    assert!(node_store.get_node(12345).is_none());
}

#[test]
fn node_store_get_directory_node_not_exist() {
    let node_store = FuseNodeStore::new();
    assert!(node_store.get_directory_node(12345).is_none());
}

#[test]
fn node_store_get_node_not_exist() {
    let node_store = FuseNodeStore::new();
    assert!(node_store.get_node(12345).is_none());
}

#[test]
fn node_store_get_node_directory() {
    let mut node_store = FuseNodeStore::new();
    let root_inode_number = node_store.get_root_directory().get_inode_number();
    let inode_number = node_store.create_and_insert_directory("", root_inode_number);
    assert!(matches!(
        node_store.get_node(inode_number).unwrap(),
        FuseNode::Directory(_)
    ));
}

#[test]
fn new_store_holds_the_root_without_children() {
    let mut node_store = FuseNodeStore::new();
    assert_eq!(node_store.current_inode_number, 1);
    assert_eq!(node_store.get_root_directory().name, "root");
    assert!(matches!(node_store.get_node(1), Some(FuseNode::Directory(_))));
    assert!(node_store.file_nodes.is_empty());
    assert!(node_store.get_nodes_in_directory(ROOT_INODE_NUMBER).is_empty());
}

#[test]
fn inode_numbers_are_issued_in_increasing_order() {
    let mut node_store = FuseNodeStore::new();
    let first = node_store.create_inode_number();
    let second = node_store.create_inode_number();
    let third = node_store.create_and_insert_directory("a", ROOT_INODE_NUMBER);
    let fourth = node_store.create_and_insert_file(
        FileInformation::new_with_data("b", vec![], true, false, false, None),
        ROOT_INODE_NUMBER,
    );
    assert_eq!(vec![first, second, third, fourth], vec![2, 3, 4, 5]);
}

#[test]
fn children_are_listed_in_insertion_order() {
    let mut node_store = FuseNodeStore::new();
    let parent = node_store.create_and_insert_directory("parent", ROOT_INODE_NUMBER);
    let a = node_store.create_and_insert_directory("a", parent);
    let b = node_store.create_and_insert_file(
        FileInformation::new_with_data("b", vec![], true, false, false, None),
        parent,
    );
    let c = node_store.create_and_insert_directory("c", parent);
    let children = node_store.get_nodes_in_directory(parent);
    assert_eq!(inode_numbers(&children), vec![a, b, c]);
    assert!(matches!(children[0], FuseNode::Directory(_)));
    assert!(matches!(children[1], FuseNode::File(_)));
}

#[test]
fn a_directory_is_materialized_once() {
    let mut node_store = FuseNodeStore::new();
    let mut attributes = file_attr_1();
    attributes.ino = node_store.create_inode_number();
    let directory = DirectoryFuseNode::new("view", attributes, Box::new(TwoFiles));
    let inode_number = directory.get_inode_number();
    assert!(directory.file_information_generator.is_some());
    node_store.insert_directory(directory, ROOT_INODE_NUMBER);

    let first = inode_numbers(&node_store.get_nodes_in_directory(inode_number));
    assert_eq!(first, vec![inode_number + 1, inode_number + 2]);
    assert!(node_store
        .get_directory_node(inode_number)
        .unwrap()
        .file_information_generator
        .is_none());
    let second = inode_numbers(&node_store.get_nodes_in_directory(inode_number));
    assert_eq!(second, first);
    assert_eq!(node_store.current_inode_number, inode_number + 2);

    let file = node_store.get_file_node(inode_number + 1).unwrap();
    assert_eq!(file.directory_inode_number, inode_number);
    assert_eq!(file.information.name, "first");
}

#[test]
fn every_listed_child_resolves() {
    let mut node_store = FuseNodeStore::new();
    let parent = node_store.create_and_insert_directory("parent", ROOT_INODE_NUMBER);
    let mut attributes = file_attr_1();
    attributes.ino = node_store.create_inode_number();
    let view = attributes.ino;
    node_store.insert_directory(
        DirectoryFuseNode::new("view", attributes, Box::new(TwoFiles)),
        parent,
    );
    let under_root = inode_numbers(&node_store.get_nodes_in_directory(ROOT_INODE_NUMBER));
    assert_eq!(under_root, vec![parent]);
    let under_parent = inode_numbers(&node_store.get_nodes_in_directory(parent));
    assert_eq!(under_parent, vec![view]);
    for inode_number in inode_numbers(&node_store.get_nodes_in_directory(view)) {
        let file = node_store.get_file_node(inode_number).unwrap();
        assert_eq!(file.directory_inode_number, view);
        assert!(node_store.get_node(inode_number).is_some());
    }
}

#[test]
fn lookup_node_finds_the_first_child_with_the_name() {
    let mut node_store = FuseNodeStore::new();
    let parent = node_store.create_and_insert_directory("parent", ROOT_INODE_NUMBER);
    let first = node_store.create_and_insert_file(
        FileInformation::new_with_data("same", vec![1], true, false, false, None),
        parent,
    );
    node_store.create_and_insert_file(
        FileInformation::new_with_data("same", vec![2], true, false, false, None),
        parent,
    );
    match node_store.lookup_node("same", parent) {
        Some(FuseNode::File(x)) => assert_eq!(x.get_inode_number(), first),
        _ => panic!("expected the first file"),
    }
    assert!(node_store.lookup_node("other", parent).is_none());
    assert!(matches!(
        node_store.lookup_node("parent", ROOT_INODE_NUMBER),
        Some(FuseNode::Directory(_))
    ));
}

#[test]
fn lookup_node_materializes_the_directory() {
    let mut node_store = FuseNodeStore::new();
    let mut attributes = file_attr_1();
    attributes.ino = node_store.create_inode_number();
    let view = attributes.ino;
    node_store.insert_directory(
        DirectoryFuseNode::new("view", attributes, Box::new(TwoFiles)),
        ROOT_INODE_NUMBER,
    );
    match node_store.lookup_node("second", view) {
        Some(FuseNode::File(x)) => assert_eq!(x.get_data(), vec![2, 2]),
        _ => panic!("expected a file"),
    }
}

#[test]
fn get_file_node_mut_changes_the_stored_node() {
    let mut node_store = FuseNodeStore::new();
    let inode_number = node_store.create_and_insert_file(
        FileInformation::new_with_data("a", vec![], false, false, false, None),
        ROOT_INODE_NUMBER,
    );
    node_store
        .get_file_node_mut(inode_number)
        .unwrap()
        .information
        .listed = true;
    assert!(node_store.get_file_node(inode_number).unwrap().information.listed);
    assert!(node_store.get_file_node_mut(12345).is_none());
}

#[test]
fn materialize_adds_the_entries_in_order() {
    let mut node_store = FuseNodeStore::new();
    let parent = node_store.create_and_insert_directory("parent", ROOT_INODE_NUMBER);
    node_store.materialize(
        parent,
        vec![
            FileInformation::new_with_data("x", vec![], true, false, false, None),
            FileInformation::new_with_data("y", vec![], true, false, false, None),
        ],
    );
    let children = node_store.list_nodes(parent);
    assert_eq!(inode_numbers(&children), vec![parent + 1, parent + 2]);
    assert_eq!(node_store.get_file_node(parent + 2).unwrap().information.name, "y");
}

#[test]
fn materialize_adds_nothing_when_the_numbers_do_not_suffice() {
    let mut node_store = FuseNodeStore::new();
    let parent = node_store.create_and_insert_directory("parent", ROOT_INODE_NUMBER);
    node_store.current_inode_number = u64::MAX - 1;
    node_store.materialize(
        parent,
        vec![
            FileInformation::new_with_data("x", vec![], true, false, false, None),
            FileInformation::new_with_data("y", vec![], true, false, false, None),
        ],
    );
    assert!(node_store.list_nodes(parent).is_empty());
    assert_eq!(node_store.current_inode_number, u64::MAX - 1);
}

struct OneFile;

impl ChildrenGenerator for OneFile {
    fn generate(&self, _inode_number: u64) -> Vec<FileInformation> {
        vec![FileInformation::new_with_data("a", vec![1], true, false, false, None)]
    }
}

#[test]
fn a_directory_numbered_above_the_counter_can_be_listed() {
    let mut node_store = FuseNodeStore::new();
    node_store.insert_directory(
        DirectoryFuseNode::new("d", file_attr_1(), Box::new(OneFile)),
        ROOT_INODE_NUMBER,
    );
    assert_eq!(inode_numbers(&node_store.get_nodes_in_directory(42)), vec![2]);
    let again = node_store.get_nodes_in_directory(42);
    assert_eq!(again.len(), 1);
    match again[0] {
        FuseNode::File(file) => {
            assert_eq!(file.get_inode_number(), 2);
            assert_eq!(file.information.name, "a");
        }
        FuseNode::Directory(_) => panic!("expected a file"),
    }
    assert_eq!(node_store.create_inode_number(), 3);
}

#[test]
fn materialize_adds_nothing_when_a_number_is_taken() {
    let mut node_store = FuseNodeStore::new();
    let mut attributes = file_attr_1();
    attributes.ino = 3;
    node_store.insert_directory(
        DirectoryFuseNode::new("taken", attributes, Box::new(NoChildren)),
        ROOT_INODE_NUMBER,
    );
    assert!(node_store.has_free_numbers(1));
    assert!(!node_store.has_free_numbers(2));
    node_store.materialize(
        ROOT_INODE_NUMBER,
        vec![
            FileInformation::new_with_data("x", vec![], true, false, false, None),
            FileInformation::new_with_data("y", vec![], true, false, false, None),
        ],
    );
    assert_eq!(inode_numbers(&node_store.list_nodes(ROOT_INODE_NUMBER)), vec![3]);
    assert_eq!(node_store.current_inode_number, 1);
    assert!(node_store.file_nodes.is_empty());
}

#[test]
fn has_free_numbers_counts_up_to_the_last_number() {
    let mut node_store = FuseNodeStore::new();
    assert!(node_store.has_free_numbers(0));
    assert!(node_store.has_free_numbers(5));
    node_store.current_inode_number = u64::MAX - 2;
    assert!(node_store.has_free_numbers(2));
    assert!(!node_store.has_free_numbers(3));
}
