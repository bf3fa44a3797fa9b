//! The node store: directories and files addressed by inode number.

use crate::attributes::{create_directory_attributes, create_file_attributes, file_attributes_of, FileAttributes};
use crate::file::FileInformation;
use std::collections::HashMap;
use vstd::prelude::*;
use vstd::std_specs::hash::*;
use vstd::string::*;

verus! {

broadcast use group_hash_axioms;

/// The inode number of the root directory.
pub const ROOT_INODE_NUMBER: u64 = 1;

/// Produces the file entries of a directory the first time the directory is listed.
pub trait ChildrenGenerator {
    /// Whether `entries` is something this generator may produce for the directory
    /// `inode_number`. Unless a generator says otherwise, it may produce anything.
    open spec fn generates(&self, inode_number: u64, entries: Seq<FileInformation>) -> bool {
        true
    }

    fn generate(&self, inode_number: u64) -> (entries: Vec<FileInformation>)
        ensures
            self.generates(inode_number, entries@),
    ;
}

/// A directory. While `file_information_generator` is present the file entries of the
/// directory have not been made yet.
pub struct DirectoryFuseNode {
    pub attributes: FileAttributes,
    pub name: String,
    pub file_information_generator: Option<Box<dyn ChildrenGenerator>>,
    pub children_inode_numbers: Vec<u64>,
}

/// A file entry with its inode number and the inode number of its directory.
pub struct FileFuseNode {
    pub information: FileInformation,
    pub directory_inode_number: u64,
    pub inode_number: u64,
}

/// A node of either kind, as the store hands it out.
#[derive(Clone, Copy)]
pub enum FuseNode<'a> {
    Directory(&'a DirectoryFuseNode),
    File(&'a FileFuseNode),
}

impl<'a> FuseNode<'a> {
    /// The name under which the node stands in its directory.
    pub open spec fn name(self) -> Seq<char> {
        match self {
            FuseNode::Directory(directory) => directory.name@,
            FuseNode::File(file) => file.information.name@,
        }
    }

    /// The inode number of the node.
    pub open spec fn inode_number(self) -> u64 {
        match self {
            FuseNode::Directory(directory) => directory.attributes.ino,
            FuseNode::File(file) => file.inode_number,
        }
    }
}

impl DirectoryFuseNode {
    /// The inode numbers of the children, in the order in which they were added.
    pub open spec fn children(&self) -> Seq<u64> {
        self.children_inode_numbers@
    }

    /// Whether the file entries of the directory are still to be made.
    pub open spec fn unmaterialized(&self) -> bool {
        self.file_information_generator is Some
    }

    /// The directory with one more child at the end of its list.
    pub open spec fn with_child(self, directory: DirectoryFuseNode, inode_number: u64) -> bool {
        &&& directory.attributes == self.attributes
        &&& directory.name == self.name
        &&& directory.file_information_generator == self.file_information_generator
        &&& directory.children() == self.children().push(inode_number)
    }

    /// A directory without children whose file entries `children_generator` makes on the
    /// first listing.
    pub fn new(name: &str, attributes: FileAttributes, children_generator: Box<dyn ChildrenGenerator>) -> (directory:
        Self)
        ensures
            directory.attributes == attributes,
            directory.name@ == name@,
            directory.file_information_generator == Some(children_generator),
            directory.children() =~= Seq::<u64>::empty(),
    {
        let generator = Some(children_generator);
        let directory = DirectoryFuseNode {
            attributes,
            name: String::from_str(name),
            file_information_generator: generator,
            children_inode_numbers: Vec::new(),
        };
        directory
    }

    pub fn get_inode_number(&self) -> (inode_number: u64)
        ensures
            inode_number == self.attributes.ino,
    {
        self.attributes.ino
    }
}

impl FileFuseNode {
    pub fn get_inode_number(&self) -> (inode_number: u64)
        ensures
            inode_number == self.inode_number,
    {
        self.inode_number
    }

    pub fn get_data(&self) -> (data: Vec<u8>)
        ensures
            self.information.may_read(data@),
    {
        self.information.get_data()
    }

    /// The attribute record for a read that returned `data_length` bytes.
    pub open spec fn attributes_for(&self, data_length: nat, uid: u32, gid: u32) -> FileAttributes {
        file_attributes_of(
            self.inode_number,
            data_length as u64,
            self.information.executable,
            self.information.writable,
            uid,
            gid,
        )
    }

    /// Whether `attributes` is a record that the file may report now: its size is the length
    /// of some bytes that a read may return.
    pub open spec fn may_report(&self, attributes: FileAttributes) -> bool {
        exists|data: Seq<u8>|
            #![trigger self.information.may_read(data)]
            self.information.may_read(data) && attributes == self.attributes_for(
                data.len(),
                attributes.uid,
                attributes.gid,
            )
    }

    /// The attributes of the file, with the size of what a read returns now.
    pub fn get_attributes(&self) -> (attributes: FileAttributes)
        ensures
            self.may_report(attributes),
    {
        let data = self.get_data();
        create_file_attributes(
            self.get_inode_number(),
            data.len() as u64,
            self.information.executable,
            self.information.writable,
        )
    }
}

/// `HashMap::get_mut` returns a mutable reference to the value under the key, or `None` where
/// the map has no such key. The map is otherwise untouched: after the borrow it holds under the
/// key what the reference then holds.
#[verifier::external_body]
fn file_entry_mut(files: &mut HashMap<u64, FileFuseNode>, inode_number: u64) -> (node: Option<
    &mut FileFuseNode,
>)
    ensures
        match node {
            Some(file) => {
                &&& old(files)@.contains_key(inode_number)
                &&& *file == old(files)@[inode_number]
                &&& final(files)@ == old(files)@.insert(inode_number, *final(file))
            },
            None => {
                &&& !old(files)@.contains_key(inode_number)
                &&& final(files)@ == old(files)@
            },
        },
{
    files.get_mut(&inode_number)
}

/// The nodes of one mounted file system, and the counter that numbers them.
pub struct FuseNodeStore {
    pub file_nodes: HashMap<u64, FileFuseNode>,
    pub directory_nodes: HashMap<u64, DirectoryFuseNode>,
    pub current_inode_number: u64,
}

impl FuseNodeStore {
    /// The file nodes by inode number.
    pub open spec fn files(&self) -> Map<u64, FileFuseNode> {
        self.file_nodes@
    }

    /// The directory nodes by inode number.
    pub open spec fn directories(&self) -> Map<u64, DirectoryFuseNode> {
        self.directory_nodes@
    }

    /// Whether `inode_number` names a node of the store.
    pub open spec fn contains(&self, inode_number: u64) -> bool {
        self.files().contains_key(inode_number) || self.directories().contains_key(inode_number)
    }

    /// The node that `inode_number` names. A number that names a file yields the file.
    pub open spec fn node(&self, inode_number: u64) -> Option<FuseNode<'_>> {
        if self.files().contains_key(inode_number) {
            Some(FuseNode::File(&self.files()[inode_number]))
        } else if self.directories().contains_key(inode_number) {
            Some(FuseNode::Directory(&self.directories()[inode_number]))
        } else {
            None
        }
    }

    /// The store is well formed: the root exists, every node is filed under its own inode
    /// number, no number names both a file and a directory, every child of a directory is a
    /// node of the store, and a file that a directory lists has that directory as its parent.
    pub open spec fn wf(&self) -> bool {
        &&& self.directories().contains_key(ROOT_INODE_NUMBER)
        &&& forall|i: u64| #[trigger]
            self.directories().contains_key(i) ==> self.directories()[i].attributes.ino == i
        &&& forall|i: u64| #[trigger]
            self.files().contains_key(i) ==> self.files()[i].inode_number == i
        &&& forall|i: u64|
            !(#[trigger] self.files().contains_key(i) && self.directories().contains_key(i))
        &&& forall|d: u64, k: int|
            self.directories().contains_key(d) && 0 <= k < self.directories()[d].children().len()
                ==> self.contains(#[trigger] self.directories()[d].children()[k])
        &&& forall|d: u64, k: int|
            self.directories().contains_key(d) && 0 <= k < self.directories()[d].children().len()
                && self.files().contains_key(#[trigger] self.directories()[d].children()[k])
                ==> self.files()[self.directories()[d].children()[k]].directory_inode_number == d
    }

    /// No node has an inode number above the counter, so the next number is fresh.
    pub open spec fn inodes_bounded(&self) -> bool {
        forall|i: u64| #[trigger] self.contains(i) ==> i <= self.current_inode_number
    }

    /// The `count` inode numbers after the counter exist and name no node yet, so they can be
    /// issued to new nodes.
    pub open spec fn numbers_free(&self, count: nat) -> bool {
        &&& self.current_inode_number + count <= u64::MAX
        &&& forall|j: int|
            0 <= j < count ==> !self.contains(#[trigger] ((self.current_inode_number + 1 + j) as u64))
    }

    /// A store that holds the root directory and nothing else. The root has no children yet.
    pub fn new() -> (store: Self)
        ensures
            store.wf(),
            store.inodes_bounded(),
            store.current_inode_number == ROOT_INODE_NUMBER,
            store.files() == Map::<u64, FileFuseNode>::empty(),
            store.directories().dom() == set![ROOT_INODE_NUMBER],
            store.directories()[ROOT_INODE_NUMBER].children() == Seq::<u64>::empty(),
            store.directories()[ROOT_INODE_NUMBER].name@ == "root"@,
            !store.directories()[ROOT_INODE_NUMBER].unmaterialized(),
            store.directories()[ROOT_INODE_NUMBER].attributes
                == crate::attributes::directory_attributes_of(
                ROOT_INODE_NUMBER,
                store.directories()[ROOT_INODE_NUMBER].attributes.uid,
                store.directories()[ROOT_INODE_NUMBER].attributes.gid,
            ),
    {
        let root = DirectoryFuseNode {
            attributes: create_directory_attributes(ROOT_INODE_NUMBER),
            name: String::from_str("root"),
            file_information_generator: None,
            children_inode_numbers: Vec::new(),
        };
        let mut directory_nodes: HashMap<u64, DirectoryFuseNode> = HashMap::new();
        directory_nodes.insert(ROOT_INODE_NUMBER, root);
        let fuse_node_store = FuseNodeStore {
            file_nodes: HashMap::new(),
            directory_nodes,
            current_inode_number: ROOT_INODE_NUMBER,
        };
        proof {
            assert(fuse_node_store.directories().dom() =~= set![ROOT_INODE_NUMBER]);
            assert(fuse_node_store.directories()[ROOT_INODE_NUMBER].children() =~= Seq::<
                u64,
            >::empty());
        }
        fuse_node_store
    }

    pub fn get_root_directory(&self) -> (root: &DirectoryFuseNode)
        requires
            self.wf(),
        ensures
            *root == self.directories()[ROOT_INODE_NUMBER],
            root.attributes.ino == ROOT_INODE_NUMBER,
    {
        self.get_directory_node(ROOT_INODE_NUMBER).unwrap()
    }

    /// Whether the store after `insert_directory(directory, parent)` is `after`.
    pub open spec fn directory_inserted(
        &self,
        after: &FuseNodeStore,
        directory: DirectoryFuseNode,
        parent_directory_inode_number: u64,
    ) -> bool {
        let inode_number = directory.attributes.ino;
        let inserted = self.directories().insert(inode_number, directory);
        &&& after.files() == self.files()
        &&& after.current_inode_number == self.current_inode_number
        &&& after.directories().dom() == inserted.dom()
        &&& forall|i: u64|
            inserted.contains_key(i) && i != parent_directory_inode_number
                ==> #[trigger] after.directories()[i] == inserted[i]
        &&& inserted[parent_directory_inode_number].with_child(
            after.directories()[parent_directory_inode_number],
            inode_number,
        )
    }

    /// Files `directory` under its inode number and appends that number to the children of
    /// the parent, which is a directory of the store. The directory is new to the store and
    /// has no children yet.
    pub fn insert_directory(&mut self, directory: DirectoryFuseNode, parent_directory_inode_number: u64)
        requires
            old(self).wf(),
            old(self).directories().contains_key(parent_directory_inode_number),
            !old(self).contains(directory.attributes.ino),
            directory.children().len() == 0,
        ensures
            final(self).wf(),
            old(self).directory_inserted(final(self), directory, parent_directory_inode_number),
            old(self).inodes_bounded() && directory.attributes.ino <= old(self).current_inode_number
                ==> final(self).inodes_bounded(),
    {
        let inode_number = directory.get_inode_number();
        self.directory_nodes.insert(inode_number, directory);
        let mut parent_directory = self.directory_nodes.remove(
            &parent_directory_inode_number,
        ).unwrap();
        parent_directory.children_inode_numbers.push(inode_number);
        self.directory_nodes.insert(parent_directory_inode_number, parent_directory);
        proof {
            let inserted = old(self).directories().insert(inode_number, directory);
            assert(self.directories().dom() =~= inserted.dom());
            old(self).lemma_child_added(self, parent_directory_inode_number, inode_number);
        }
    }

    /// A store stays well formed when one new node is filed and listed last under an
    /// existing directory.
    pub proof fn lemma_child_added(&self, after: &FuseNodeStore, parent: u64, child: u64)
        requires
            self.wf(),
            self.directories().contains_key(parent),
            !self.contains(child),
            after.contains(child),
            after.files().contains_key(child) ==> {
                &&& after.files()[child].inode_number == child
                &&& after.files()[child].directory_inode_number == parent
                &&& after.directories().dom() == self.directories().dom()
                &&& after.files().dom() == self.files().dom().insert(child)
            },
            after.directories().contains_key(child) ==> {
                &&& after.directories()[child].attributes.ino == child
                &&& after.directories()[child].children().len() == 0
                &&& after.directories().dom() == self.directories().dom().insert(child)
                &&& after.files().dom() == self.files().dom()
            },
            forall|i: u64| #[trigger]
                self.files().contains_key(i) ==> after.files()[i] == self.files()[i],
            forall|i: u64|
                self.directories().contains_key(i) && i != parent
                    ==> #[trigger] after.directories()[i] == self.directories()[i],
            self.directories()[parent].with_child(after.directories()[parent], child),
        ensures
            after.wf(),
            self.inodes_bounded() && child <= after.current_inode_number
                && self.current_inode_number <= after.current_inode_number
                ==> after.inodes_bounded(),
    {
        assert(after.directories().contains_key(parent));
        assert forall|i: u64| #[trigger]
            after.directories().contains_key(i) implies after.directories()[i].attributes.ino
            == i by {
            if i != child && i != parent {
                assert(self.directories().contains_key(i));
            }
        }
        assert forall|i: u64| #[trigger] after.files().contains_key(i) implies after.files()[i].inode_number
            == i by {
            if i != child {
                assert(self.files().contains_key(i));
            }
        }
        assert forall|i: u64|
            !(#[trigger] after.files().contains_key(i) && after.directories().contains_key(
                i,
            )) by {
            if i != child {
                assert(!(self.files().contains_key(i) && self.directories().contains_key(i)));
            }
        }
        assert forall|d: u64, k: int|
            after.directories().contains_key(d) && 0 <= k < after.directories()[d].children().len() implies {
            let c = #[trigger] after.directories()[d].children()[k];
            &&& after.contains(c)
            &&& after.files().contains_key(c) ==> after.files()[c].directory_inode_number == d
        } by {
            let c = after.directories()[d].children()[k];
            if d == parent {
                if k < self.directories()[d].children().len() {
                    assert(c == self.directories()[d].children()[k]);
                    assert(self.contains(c));
                }
            } else if d != child {
                assert(self.directories().contains_key(d));
                assert(c == self.directories()[d].children()[k]);
                assert(self.contains(c));
            }
        }
        if self.inodes_bounded() && child <= after.current_inode_number
            && self.current_inode_number <= after.current_inode_number {
            assert forall|i: u64| #[trigger] after.contains(i) implies i
                <= after.current_inode_number by {
                if i != child {
                    assert(self.contains(i));
                }
            }
        }
    }

    /// Whether the store after `create_and_insert_file(information, directory)` is `after`.
    pub open spec fn file_inserted(
        &self,
        after: &FuseNodeStore,
        information: FileInformation,
        directory_inode_number: u64,
    ) -> bool {
        let inode_number = (self.current_inode_number + 1) as u64;
        &&& after.current_inode_number == inode_number
        &&& after.files() == self.files().insert(
            inode_number,
            FileFuseNode { information, directory_inode_number, inode_number },
        )
        &&& after.directories().dom() == self.directories().dom()
        &&& forall|i: u64|
            self.directories().contains_key(i) && i != directory_inode_number
                ==> #[trigger] after.directories()[i] == self.directories()[i]
        &&& self.directories()[directory_inode_number].with_child(
            after.directories()[directory_inode_number],
            inode_number,
        )
    }

    /// Numbers a new directory without children and without generator, and files it under
    /// `parent_directory_inode_number`.
    pub fn create_and_insert_directory(&mut self, name: &str, parent_directory_inode_number: u64) -> (inode_number:
        u64)
        requires
            old(self).wf(),
            old(self).numbers_free(1),
            old(self).directories().contains_key(parent_directory_inode_number),
        ensures
            inode_number == old(self).current_inode_number + 1,
            final(self).current_inode_number == inode_number,
            final(self).wf(),
            old(self).inodes_bounded() ==> final(self).inodes_bounded(),
            final(self).files() == old(self).files(),
            final(self).directories().dom() == old(self).directories().dom().insert(inode_number),
            forall|i: u64|
                old(self).directories().contains_key(i) && i != parent_directory_inode_number
                    ==> #[trigger] final(self).directories()[i] == old(self).directories()[i],
            old(self).directories()[parent_directory_inode_number].with_child(
                final(self).directories()[parent_directory_inode_number],
                inode_number,
            ),
            final(self).directories()[inode_number].name@ == name@,
            final(self).directories()[inode_number].children().len() == 0,
            !final(self).directories()[inode_number].unmaterialized(),
            final(self).directories()[inode_number].attributes == crate::attributes::directory_attributes_of(
                inode_number,
                final(self).directories()[inode_number].attributes.uid,
                final(self).directories()[inode_number].attributes.gid,
            ),
    {
        let inode_number = self.create_inode_number();
        let node = DirectoryFuseNode {
            attributes: create_directory_attributes(inode_number),
            name: String::from_str(name),
            file_information_generator: None,
            children_inode_numbers: Vec::new(),
        };
        proof {
            assert(!old(self).contains((old(self).current_inode_number + 1 + 0) as u64));
            assert(self.wf());
            if old(self).inodes_bounded() {
                assert forall|i: u64| #[trigger] self.contains(i) implies i
                    <= self.current_inode_number by {
                    assert(old(self).contains(i));
                }
            }
        }
        self.insert_directory(node, parent_directory_inode_number);
        inode_number
    }

    /// Numbers a new file node for `file_information` and lists it last in the directory
    /// `directory_inode_number`.
    pub fn create_and_insert_file(&mut self, file_information: FileInformation, directory_inode_number: u64) -> (inode_number:
        u64)
        requires
            old(self).wf(),
            old(self).numbers_free(1),
            old(self).directories().contains_key(directory_inode_number),
        ensures
            inode_number == old(self).current_inode_number + 1,
            old(self).file_inserted(final(self), file_information, directory_inode_number),
            final(self).wf(),
            old(self).inodes_bounded() ==> final(self).inodes_bounded(),
    {
        let inode_number = self.create_inode_number();
        let file_node = FileFuseNode {
            information: file_information,
            directory_inode_number,
            inode_number,
        };
        proof {
            assert(!old(self).contains((old(self).current_inode_number + 1 + 0) as u64));
        }
        self.file_nodes.insert(inode_number, file_node);
        let mut directory = self.directory_nodes.remove(&directory_inode_number).unwrap();
        directory.children_inode_numbers.push(inode_number);
        self.directory_nodes.insert(directory_inode_number, directory);
        proof {
            assert(self.directories().dom() =~= old(self).directories().dom());
            assert(self.files().dom() =~= old(self).files().dom().insert(inode_number));
            old(self).lemma_child_added(self, directory_inode_number, inode_number);
        }
        inode_number
    }

    /// The nodes that the children of the directory `directory_inode_number` name, in the
    /// order of its list.
    pub open spec fn children_nodes(&self, directory_inode_number: u64) -> Seq<FuseNode<'_>> {
        let children = self.directories()[directory_inode_number].children();
        Seq::new(children.len(), |k: int| self.node(children[k]).unwrap())
    }

    /// Whether adding the file entries `entries` to the directory `directory_inode_number`
    /// leads from this store to `after`: entry `j` gets the `j`-th number after the counter,
    /// and the numbers are appended to the children in that order.
    pub open spec fn files_added(
        &self,
        after: &FuseNodeStore,
        directory_inode_number: u64,
        entries: Seq<FileInformation>,
    ) -> bool {
        let first = self.current_inode_number + 1;
        &&& after.current_inode_number == self.current_inode_number + entries.len()
        &&& after.files().dom() == self.files().dom().union(
            Set::new(|i: u64| first <= i < first + entries.len()),
        )
        &&& forall|i: u64| #[trigger]
            self.files().contains_key(i) ==> after.files()[i] == self.files()[i]
        &&& forall|j: int|
            0 <= j < entries.len() ==> #[trigger] after.files()[(first + j) as u64] == (
            FileFuseNode {
                information: entries[j],
                directory_inode_number,
                inode_number: (first + j) as u64,
            })
        &&& after.directories().dom() == self.directories().dom()
        &&& forall|i: u64|
            self.directories().contains_key(i) && i != directory_inode_number
                ==> #[trigger] after.directories()[i] == self.directories()[i]
        &&& after.directories()[directory_inode_number].attributes
            == self.directories()[directory_inode_number].attributes
        &&& after.directories()[directory_inode_number].name
            == self.directories()[directory_inode_number].name
        &&& after.directories()[directory_inode_number].children()
            == self.directories()[directory_inode_number].children() + Seq::new(
            entries.len(),
            |j: int| (first + j) as u64,
        )
    }

    /// Adds one file node per entry of `file_informations` to a directory, in order.
    pub fn insert_files(&mut self, file_informations: Vec<FileInformation>, directory_inode_number: u64)
        requires
            old(self).wf(),
            old(self).numbers_free(file_informations@.len()),
            old(self).directories().contains_key(directory_inode_number),
        ensures
            final(self).wf(),
            old(self).inodes_bounded() ==> final(self).inodes_bounded(),
            old(self).files_added(final(self), directory_inode_number, file_informations@),
            final(self).directories()[directory_inode_number].file_information_generator == old(
                self,
            ).directories()[directory_inode_number].file_information_generator,
    {
        let ghost entries = file_informations@;
        let ghost first = self.current_inode_number + 1;
        let mut remaining = file_informations;
        let mut done: usize = 0;
        let total = remaining.len();
        proof {
            assert(self.directories()[directory_inode_number].children() =~= old(
                self,
            ).directories()[directory_inode_number].children() + Seq::new(
                0,
                |j: int| (first + j) as u64,
            ));
            assert(self.files().dom() =~= old(self).files().dom().union(
                Set::new(|i: u64| first <= i < first + 0),
            ));
        }
        while done < total
            invariant
                done <= total == entries.len(),
                remaining@ == entries.skip(done as int),
                first == old(self).current_inode_number + 1,
                first + entries.len() <= u64::MAX + 1,
                old(self).numbers_free(entries.len()),
                self.wf(),
                old(self).inodes_bounded() ==> self.inodes_bounded(),
                self.directories().contains_key(directory_inode_number),
                old(self).files_added(self, directory_inode_number, entries.take(done as int)),
                self.directories()[directory_inode_number].file_information_generator == old(
                    self,
                ).directories()[directory_inode_number].file_information_generator,
            decreases total - done,
        {
            let ghost before = *self;
            let file_information = remaining.remove(0);
            assert(file_information == entries[done as int]);
            proof {
                let next_number = (old(self).current_inode_number + 1 + done) as u64;
                assert(!old(self).contains(next_number));
                assert(!self.contains(next_number));
                assert(self.numbers_free(1));
            }
            self.create_and_insert_file(file_information, directory_inode_number);
            proof {
                let taken = entries.take(done as int);
                let next = entries.take(done + 1);
                assert(next =~= taken.push(file_information));
                assert(remaining@ =~= entries.skip(done + 1));
                let inode_number = (first + done) as u64;
                assert(self.files().dom() =~= old(self).files().dom().union(
                    Set::new(|i: u64| first <= i < first + next.len()),
                ));
                assert(self.directories()[directory_inode_number].children() =~= old(
                    self,
                ).directories()[directory_inode_number].children() + Seq::new(
                    next.len(),
                    |j: int| (first + j) as u64,
                ));
                assert forall|i: u64| #[trigger] old(self).files().contains_key(i) implies self.files()[i]
                    == old(self).files()[i] by {
                    assert(old(self).contains(i));
                    assert(!old(self).contains((old(self).current_inode_number + 1 + done) as u64));
                    assert(before.files().contains_key(i));
                }
                assert forall|j: int| 0 <= j < next.len() implies #[trigger] self.files()[(first
                    + j) as u64] == (FileFuseNode {
                    information: next[j],
                    directory_inode_number,
                    inode_number: (first + j) as u64,
                }) by {
                    if j < done {
                        assert(before.files()[(first + j) as u64] == (FileFuseNode {
                            information: taken[j],
                            directory_inode_number,
                            inode_number: (first + j) as u64,
                        }));
                    }
                }
                assert forall|i: u64|
                    old(self).directories().contains_key(i) && i
                        != directory_inode_number implies #[trigger] self.directories()[i] == old(
                    self,
                ).directories()[i] by {
                    assert(before.directories()[i] == old(self).directories()[i]);
                }
            }
            done += 1;
        }
        proof {
            assert(entries.take(done as int) =~= entries);
        }
    }

    /// The nodes of the children of a directory, in the order of its list.
    pub fn list_nodes(&self, directory_inode_number: u64) -> (children: Vec<FuseNode<'_>>)
        requires
            self.wf(),
            self.directories().contains_key(directory_inode_number),
        ensures
            children@ == self.children_nodes(directory_inode_number),
    {
        let directory = self.get_directory_node(directory_inode_number).unwrap();
        let mut children: Vec<FuseNode<'_>> = Vec::new();
        let mut position: usize = 0;
        while position < directory.children_inode_numbers.len()
            invariant
                self.wf(),
                self.directories().contains_key(directory_inode_number),
                *directory == self.directories()[directory_inode_number],
                position <= directory.children().len(),
                children@.len() == position,
                forall|k: int|
                    0 <= k < position ==> #[trigger] children@[k] == self.node(
                        directory.children()[k],
                    ).unwrap(),
            decreases directory.children().len() - position,
        {
            let child_inode_number = directory.children_inode_numbers[position];
            assert(self.contains(directory.children()[position as int]));
            let child_node = self.get_node(child_inode_number).unwrap();
            children.push(child_node);
            position += 1;
        }
        assert(children@ =~= self.children_nodes(directory_inode_number));
        children
    }

    /// The file entries that are added when a generator has produced `entries`: all of them,
    /// or none where the numbers after the counter do not suffice for them or are taken.
    pub open spec fn admitted(&self, entries: Seq<FileInformation>) -> Seq<FileInformation> {
        if self.numbers_free(entries.len()) {
            entries
        } else {
            Seq::empty()
        }
    }

    /// Whether the `count` inode numbers after the counter can be issued to new nodes.
    pub fn has_free_numbers(&self, count: usize) -> (free: bool)
        ensures
            free == self.numbers_free(count as nat),
    {
        if count as u64 > u64::MAX - self.current_inode_number {
            return false;
        }
        let mut checked: usize = 0;
        while checked < count
            invariant
                checked <= count,
                self.current_inode_number + count <= u64::MAX,
                forall|j: int|
                    0 <= j < checked ==> !self.contains(
                        #[trigger] ((self.current_inode_number + 1 + j) as u64),
                    ),
            decreases count - checked,
        {
            let inode_number = self.current_inode_number + 1 + checked as u64;
            if self.get_node(inode_number).is_some() {
                assert(self.contains((self.current_inode_number + 1 + checked) as u64));
                return false;
            }
            checked += 1;
        }
        true
    }

    /// Whether the first listing of the directory `directory_inode_number`, in which its
    /// generator produced `entries`, leads from this store to `after`.
    pub open spec fn materialized_with(
        &self,
        after: &FuseNodeStore,
        directory_inode_number: u64,
        entries: Seq<FileInformation>,
    ) -> bool {
        &&& self.files_added(after, directory_inode_number, self.admitted(entries))
        &&& !after.directories()[directory_inode_number].unmaterialized()
    }

    /// Whether listing the directory `directory_inode_number` leads from this store to
    /// `after`. A directory without generator is left as it is. Otherwise the generator is
    /// consumed, and what it produced for the directory is added.
    pub open spec fn materialized(&self, after: &FuseNodeStore, directory_inode_number: u64) -> bool {
        match self.directories()[directory_inode_number].file_information_generator {
            None => {
                &&& after.files() == self.files()
                &&& after.directories() == self.directories()
                &&& after.current_inode_number == self.current_inode_number
            },
            Some(generator) => exists|entries: Seq<FileInformation>|
                #![trigger generator.generates(directory_inode_number, entries)]
                generator.generates(directory_inode_number, entries) && self.materialized_with(
                    after,
                    directory_inode_number,
                    entries,
                ),
        }
    }

    /// Adds the file entries that a directory's generator produced, and marks the directory
    /// as materialized. Where the numbers after the counter do not suffice for all the
    /// entries, or one of them already names a node, none is added.
    pub fn materialize(&mut self, directory_inode_number: u64, entries: Vec<FileInformation>)
        requires
            old(self).wf(),
            old(self).directories().contains_key(directory_inode_number),
        ensures
            final(self).wf(),
            old(self).inodes_bounded() ==> final(self).inodes_bounded(),
            old(self).materialized_with(final(self), directory_inode_number, entries@),
    {
        let mut directory = self.directory_nodes.remove(&directory_inode_number).unwrap();
        directory.file_information_generator = None;
        self.directory_nodes.insert(directory_inode_number, directory);
        proof {
            assert(self.directories().dom() =~= old(self).directories().dom());
            old(self).lemma_same_children(self);
        }
        let ghost emptied = *self;
        proof {
            assert forall|i: u64| emptied.contains(i) == old(self).contains(i) by {}
            assert(emptied.numbers_free(entries@.len()) == old(self).numbers_free(entries@.len()));
        }
        if self.has_free_numbers(entries.len()) {
            self.insert_files(entries, directory_inode_number);
            proof {
                assert forall|i: u64|
                    old(self).directories().contains_key(i) && i
                        != directory_inode_number implies #[trigger] self.directories()[i] == old(
                    self,
                ).directories()[i] by {
                    assert(emptied.directories()[i] == old(self).directories()[i]);
                }
            }
        } else {
            proof {
                let first = old(self).current_inode_number + 1;
                assert(self.files().dom() =~= old(self).files().dom().union(
                    Set::new(|i: u64| first <= i < first + 0),
                ));
                assert(self.directories()[directory_inode_number].children() =~= old(
                    self,
                ).directories()[directory_inode_number].children() + Seq::new(
                    0,
                    |j: int| (first + j) as u64,
                ));
            }
        }
    }

    /// A store stays well formed when its nodes keep their numbers, parents and children.
    pub proof fn lemma_same_children(&self, after: &FuseNodeStore)
        requires
            self.wf(),
            after.files() == self.files(),
            after.directories().dom() == self.directories().dom(),
            forall|i: u64| #[trigger]
                self.directories().contains_key(i) ==> {
                    &&& after.directories()[i].attributes == self.directories()[i].attributes
                    &&& after.directories()[i].children() == self.directories()[i].children()
                },
        ensures
            after.wf(),
            self.inodes_bounded() && self.current_inode_number <= after.current_inode_number
                ==> after.inodes_bounded(),
    {
        assert forall|i: u64| #[trigger]
            after.directories().contains_key(i) implies after.directories()[i].attributes.ino
            == i by {
            assert(self.directories().contains_key(i));
        }
        assert forall|d: u64, k: int|
            after.directories().contains_key(d) && 0 <= k < after.directories()[d].children().len() implies {
            let c = #[trigger] after.directories()[d].children()[k];
            &&& after.contains(c)
            &&& after.files().contains_key(c) ==> after.files()[c].directory_inode_number == d
        } by {
            assert(self.directories().contains_key(d));
            let c = self.directories()[d].children()[k];
            assert(self.contains(c));
        }
        if self.inodes_bounded() && self.current_inode_number <= after.current_inode_number {
            assert forall|i: u64| #[trigger] after.contains(i) implies i
                <= after.current_inode_number by {
                assert(self.contains(i));
            }
        }
    }

    /// The children of a directory. On the first listing of a directory with a generator the
    /// generator is run and consumed, and its file entries are added before the children are
    /// resolved.
    pub fn get_nodes_in_directory(&mut self, directory_inode_number: u64) -> (children: Vec<FuseNode<'_>>)
        requires
            old(self).wf(),
            old(self).directories().contains_key(directory_inode_number),
        ensures
            final(self).wf(),
            old(self).inodes_bounded() ==> final(self).inodes_bounded(),
            old(self).materialized(final(self), directory_inode_number),
            !final(self).directories()[directory_inode_number].unmaterialized(),
            children@ == final(self).children_nodes(directory_inode_number),
    {
        self.materialize_directory(directory_inode_number);
        self.list_nodes(directory_inode_number)
    }

    /// Runs and consumes the generator of a directory, if it still has one, and adds the
    /// file entries that it produced.
    pub fn materialize_directory(&mut self, directory_inode_number: u64)
        requires
            old(self).wf(),
            old(self).directories().contains_key(directory_inode_number),
        ensures
            final(self).wf(),
            old(self).inodes_bounded() ==> final(self).inodes_bounded(),
            final(self).directories().contains_key(directory_inode_number),
            old(self).materialized(final(self), directory_inode_number),
            !final(self).directories()[directory_inode_number].unmaterialized(),
    {
        let directory = self.directory_nodes.get(&directory_inode_number).unwrap();
        let generated = match &directory.file_information_generator {
            Some(generator) => Some(generator.generate(directory.get_inode_number())),
            None => None,
        };
        if let Some(entries) = generated {
            self.materialize(directory_inode_number, entries);
        }
    }

    /// The node that a lookup of `name` among `nodes` finds: the first one with that name.
    pub open spec fn first_named(nodes: Seq<FuseNode<'_>>, name: Seq<char>) -> Option<FuseNode<'_>>
        decreases nodes.len(),
    {
        if nodes.len() == 0 {
            None
        } else if nodes[0].name() == name {
            Some(nodes[0])
        } else {
            Self::first_named(nodes.drop_first(), name)
        }
    }

    /// What `first_named` finds is the first node with the name, and it finds nothing only
    /// where no node has the name.
    pub proof fn lemma_first_named(nodes: Seq<FuseNode<'_>>, name: Seq<char>)
        ensures
            match Self::first_named(nodes, name) {
                None => forall|k: int| 0 <= k < nodes.len() ==> (#[trigger] nodes[k]).name() != name,
                Some(node) => exists|k: int|
                    {
                        &&& 0 <= k < nodes.len()
                        &&& #[trigger] nodes[k] == node
                        &&& node.name() == name
                        &&& forall|j: int| 0 <= j < k ==> (#[trigger] nodes[j]).name() != name
                    },
            },
        decreases nodes.len(),
    {
        if nodes.len() == 0 {
        } else if nodes[0].name() == name {
            assert(nodes[0] == nodes[0]);
        } else {
            let rest = nodes.drop_first();
            Self::lemma_first_named(rest, name);
            match Self::first_named(rest, name) {
                None => {
                    assert forall|k: int| 0 <= k < nodes.len() implies (#[trigger] nodes[k]).name()
                        != name by {
                        if k > 0 {
                            assert(nodes[k] == rest[k - 1]);
                        }
                    }
                },
                Some(node) => {
                    let k = choose|k: int|
                        {
                            &&& 0 <= k < rest.len()
                            &&& #[trigger] rest[k] == node
                            &&& node.name() == name
                            &&& forall|j: int| 0 <= j < k ==> (#[trigger] rest[j]).name() != name
                        };
                    assert(nodes[k + 1] == node);
                    assert forall|j: int| 0 <= j < k + 1 implies (#[trigger] nodes[j]).name()
                        != name by {
                        if j > 0 {
                            assert(nodes[j] == rest[j - 1]);
                        }
                    }
                },
            }
        }
    }

    /// The node that a lookup finds in a directory is a child of that directory and stands
    /// in the store under its own inode number.
    pub proof fn lemma_found_is_child(&self, directory_inode_number: u64, name: Seq<char>)
        requires
            self.wf(),
            self.directories().contains_key(directory_inode_number),
        ensures
            Self::first_named(self.children_nodes(directory_inode_number), name) matches Some(
                node,
            ) ==> {
                &&& node.name() == name
                &&& self.node(node.inode_number()) == Some(node)
                &&& self.directories()[directory_inode_number].children().contains(
                    node.inode_number(),
                )
            },
    {
        let nodes = self.children_nodes(directory_inode_number);
        let children = self.directories()[directory_inode_number].children();
        Self::lemma_first_named(nodes, name);
        if let Some(node) = Self::first_named(nodes, name) {
            let k = choose|k: int|
                {
                    &&& 0 <= k < nodes.len()
                    &&& #[trigger] nodes[k] == node
                    &&& node.name() == name
                    &&& forall|j: int| 0 <= j < k ==> (#[trigger] nodes[j]).name() != name
                };
            assert(self.contains(children[k]));
            assert(node == self.node(children[k]).unwrap());
            assert(node.inode_number() == children[k]);
        }
    }

    /// Finds the child of a directory by name, after the directory has been materialized.
    /// Of several children with the name the first in the list is found.
    #[verifier::loop_isolation(false)]
    pub fn lookup_node(&mut self, name: &str, directory_inode_number: u64) -> (node: Option<FuseNode<'_>>)
        requires
            old(self).wf(),
            old(self).directories().contains_key(directory_inode_number),
        ensures
            final(self).wf(),
            old(self).inodes_bounded() ==> final(self).inodes_bounded(),
            old(self).materialized(final(self), directory_inode_number),
            !final(self).directories()[directory_inode_number].unmaterialized(),
            node == Self::first_named(final(self).children_nodes(directory_inode_number), name@),
    {
        let wanted = String::from_str(name);
        let children = self.get_nodes_in_directory(directory_inode_number);
        let ghost nodes = children@;
        let mut position: usize = 0;
        assert(nodes.skip(0) =~= nodes);
        while position < children.len()
            invariant
                position <= children.len(),
                Self::first_named(nodes, name@) == Self::first_named(
                    nodes.skip(position as int),
                    name@,
                ),
            decreases children.len() - position,
        {
            let child_node = children[position];
            let found = match child_node {
                FuseNode::Directory(x) => x.name == wanted,
                FuseNode::File(x) => x.information.name == wanted,
            };
            proof {
                let rest = nodes.skip(position as int);
                assert(rest[0] == child_node);
                assert(rest.drop_first() =~= nodes.skip(position + 1));
            }
            if found {
                return Some(child_node);
            }
            position += 1;
        }
        None
    }

    /// Mutable access to a file node. What the caller leaves in the node is what the store
    /// then holds under `inode_number`.
    pub fn get_file_node_mut(&mut self, inode_number: u64) -> (node: Option<&mut FileFuseNode>)
        ensures
            final(self).directories() == old(self).directories(),
            final(self).current_inode_number == old(self).current_inode_number,
            match node {
                Some(file) => {
                    &&& old(self).files().contains_key(inode_number)
                    &&& *file == old(self).files()[inode_number]
                    &&& final(self).files() == old(self).files().insert(inode_number, *final(file))
                },
                None => {
                    &&& !old(self).files().contains_key(inode_number)
                    &&& final(self).files() == old(self).files()
                },
            },
    {
        file_entry_mut(&mut self.file_nodes, inode_number)
    }

    /// A store stays well formed when its files change but keep their numbers and parents.
    pub proof fn lemma_same_links(&self, after: &FuseNodeStore)
        requires
            self.wf(),
            after.directories() == self.directories(),
            after.current_inode_number == self.current_inode_number,
            after.files().dom() == self.files().dom(),
            forall|i: u64| #[trigger]
                self.files().contains_key(i) ==> {
                    &&& after.files()[i].inode_number == self.files()[i].inode_number
                    &&& after.files()[i].directory_inode_number
                        == self.files()[i].directory_inode_number
                },
        ensures
            after.wf(),
            self.inodes_bounded() ==> after.inodes_bounded(),
    {
        assert forall|i: u64| #[trigger] after.files().contains_key(i) implies after.files()[i].inode_number
            == i by {
            assert(self.files().contains_key(i));
        }
        assert forall|i: u64|
            !(#[trigger] after.files().contains_key(i) && after.directories().contains_key(
                i,
            )) by {
            assert(!(self.files().contains_key(i) && self.directories().contains_key(i)));
        }
        assert forall|d: u64, k: int|
            after.directories().contains_key(d) && 0 <= k < after.directories()[d].children().len() implies {
            let c = #[trigger] after.directories()[d].children()[k];
            &&& after.contains(c)
            &&& after.files().contains_key(c) ==> after.files()[c].directory_inode_number == d
        } by {
            let c = self.directories()[d].children()[k];
            assert(self.contains(c));
            if self.files().contains_key(c) {
                assert(self.files()[c].directory_inode_number == d);
            }
        }
        if self.inodes_bounded() {
            assert forall|i: u64| #[trigger] after.contains(i) implies i
                <= after.current_inode_number by {
                assert(self.contains(i));
            }
        }
    }

    /// Advances the counter and returns its new value.
    pub fn create_inode_number(&mut self) -> (inode_number: u64)
        requires
            old(self).current_inode_number < u64::MAX,
        ensures
            allocated(old(self).current_inode_number, final(self).current_inode_number, inode_number),
            inode_number > old(self).current_inode_number,
            final(self).files() == old(self).files(),
            final(self).directories() == old(self).directories(),
    {
        self.current_inode_number += 1;
        self.current_inode_number
    }

    pub fn get_file_node(&self, inode_number: u64) -> (node: Option<&FileFuseNode>)
        ensures
            node is Some <==> self.files().contains_key(inode_number),
            node matches Some(file) ==> *file == self.files()[inode_number],
    {
        self.file_nodes.get(&inode_number)
    }

    pub fn get_directory_node(&self, inode_number: u64) -> (node: Option<&DirectoryFuseNode>)
        ensures
            node is Some <==> self.directories().contains_key(inode_number),
            node matches Some(directory) ==> *directory == self.directories()[inode_number],
    {
        self.directory_nodes.get(&inode_number)
    }

    /// The node that `inode_number` names, if any; a file before a directory.
    pub fn get_node(&self, inode_number: u64) -> (node: Option<FuseNode<'_>>)
        ensures
            node == self.node(inode_number),
    {
        match self.get_file_node(inode_number) {
            Some(x) => Some(FuseNode::File(x)),
            None => match self.get_directory_node(inode_number) {
                Some(x) => Some(FuseNode::Directory(x)),
                None => None,
            },
        }
    }
}

/// Whether `path` leads from the root down through the store: it starts at the root, and
/// each further inode number stands in the list of children of the directory before it.
pub open spec fn is_path(store: &FuseNodeStore, path: Seq<u64>) -> bool {
    &&& path.len() >= 1
    &&& path[0] == ROOT_INODE_NUMBER
    &&& forall|k: int|
        1 <= k < path.len() ==> {
            &&& store.directories().contains_key(#[trigger] path[k - 1])
            &&& store.directories()[path[k - 1]].children().contains(path[k])
        }
}

/// Every inode number that is reached from the root by listing children names a node, and
/// a file that is reached has as its parent the directory through which it was reached: the
/// way back from a node through its parents ends at the root.
pub proof fn lemma_reachable_nodes_resolve(store: &FuseNodeStore, path: Seq<u64>)
    requires
        store.wf(),
        is_path(store, path),
    ensures
        forall|k: int| 0 <= k < path.len() ==> (#[trigger] store.node(path[k])) is Some,
        forall|k: int|
            1 <= k < path.len() && store.files().contains_key(#[trigger] path[k])
                ==> store.files()[path[k]].directory_inode_number == path[k - 1],
{
    assert forall|k: int| 0 <= k < path.len() implies (#[trigger] store.node(path[k])) is Some by {
        if k >= 1 {
            let parent = path[k - 1];
            let children = store.directories()[parent].children();
            let position = choose|position: int|
                0 <= position < children.len() && children[position] == path[k];
            assert(store.contains(children[position]));
        }
    }
    assert forall|k: int|
        1 <= k < path.len() && store.files().contains_key(
            #[trigger] path[k],
        ) implies store.files()[path[k]].directory_inode_number == path[k - 1] by {
        let parent = path[k - 1];
        let children = store.directories()[parent].children();
        let position = choose|position: int|
            0 <= position < children.len() && children[position] == path[k];
        assert(store.files().contains_key(children[position]));
    }
}

/// Whether one call of `create_inode_number` leads from the counter `before` to the counter
/// `after` and returns `inode_number`.
pub open spec fn allocated(before: u64, after: u64, inode_number: u64) -> bool {
    &&& inode_number == before + 1
    &&& after == inode_number
}

/// Inode numbers are issued in strictly increasing order: of two numbers, the one that is
/// issued later is the greater, however many are issued between them.
pub proof fn lemma_inode_numbers_increase(counters: Seq<u64>, numbers: Seq<u64>, first: int, second: int)
    requires
        counters.len() == numbers.len() + 1,
        forall|k: int|
            0 <= k < numbers.len() ==> allocated(
                #[trigger] counters[k],
                counters[k + 1],
                numbers[k],
            ),
        0 <= first < second < numbers.len(),
    ensures
        numbers[first] < numbers[second],
    decreases second - first,
{
    assert(allocated(counters[second], counters[second + 1], numbers[second]));
    assert(allocated(counters[second - 1], counters[second], numbers[second - 1]));
    if first < second - 1 {
        lemma_inode_numbers_increase(counters, numbers, first, second - 1);
    }
}

/// A directory that has been listed once is materialized, and listing it again changes
/// nothing: the store stays as it is, and the children come out as the same sequence.
pub proof fn lemma_listing_is_stable(
    before: &FuseNodeStore,
    listed: &FuseNodeStore,
    again: &FuseNodeStore,
    directory_inode_number: u64,
)
    requires
        before.wf(),
        before.directories().contains_key(directory_inode_number),
        before.materialized(listed, directory_inode_number),
        listed.materialized(again, directory_inode_number),
    ensures
        !listed.directories()[directory_inode_number].unmaterialized(),
        again.files() == listed.files(),
        again.directories() == listed.directories(),
        again.current_inode_number == listed.current_inode_number,
        again.directories()[directory_inode_number].children()
            == listed.directories()[directory_inode_number].children(),
        again.children_nodes(directory_inode_number) == listed.children_nodes(
            directory_inode_number,
        ),
{
}

} // verus!
