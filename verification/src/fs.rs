//! The request handler: the operations that the kernel asks of the file system, on plain values.

use crate::attributes::{FileAttributes, FileKind};
use crate::nodes::{FileFuseNode, FuseNode, FuseNodeStore};
use vstd::prelude::*;
use vstd::slice::slice_to_vec;
use vstd::string::*;

verus! {

/// How long, in seconds, the kernel may keep an answer.
pub const TTL_SECONDS: u64 = 1;

/// Why a request is refused.
#[derive(Clone, Copy, Debug, PartialEq, Eq, Structural)]
pub enum FsError {
    /// No node has the inode number or the name.
    NotFound,
    /// The file does not take the data that was written to it.
    PermissionDenied,
    /// The request makes no sense for the node.
    Internal,
}

/// The answer to a lookup.
#[derive(Clone, Copy, Debug, PartialEq, Eq, Structural)]
pub struct EntryReply {
    pub ttl: u64,
    pub attributes: FileAttributes,
    pub generation: u64,
}

/// One line of a directory listing. `offset` is the position of the line that follows it.
#[derive(Debug, PartialEq, Eq)]
pub struct DirectoryEntry {
    pub ino: u64,
    pub offset: u64,
    pub kind: FileKind,
    pub name: String,
}

impl View for DirectoryEntry {
    type V = (u64, int, FileKind, Seq<char>);

    open spec fn view(&self) -> Self::V {
        (self.ino, self.offset as int, self.kind, self.name@)
    }
}

/// Whether a listing advertises the node: every directory, and the files that are listed.
pub open spec fn is_visible(node: FuseNode<'_>) -> bool {
    match node {
        FuseNode::Directory(_) => true,
        FuseNode::File(file) => file.information.listed,
    }
}

/// The inode number, kind and name with which a listing advertises the node.
pub open spec fn listing_line(node: FuseNode<'_>) -> (u64, FileKind, Seq<char>) {
    match node {
        FuseNode::Directory(directory) => (
            directory.attributes.ino,
            directory.attributes.kind,
            directory.name@,
        ),
        FuseNode::File(file) => (file.inode_number, FileKind::RegularFile, file.information.name@),
    }
}

/// The lines of the visible nodes among `nodes`, in their order.
pub open spec fn visible_lines(nodes: Seq<FuseNode<'_>>) -> Seq<(u64, FileKind, Seq<char>)>
    decreases nodes.len(),
{
    if nodes.len() == 0 {
        Seq::empty()
    } else if is_visible(nodes.last()) {
        visible_lines(nodes.drop_last()).push(listing_line(nodes.last()))
    } else {
        visible_lines(nodes.drop_last())
    }
}

/// The full listing of the directory `ino` with the children `nodes`: the directory itself
/// under the names `.` and `..`, then the visible children.
pub open spec fn listing(ino: u64, nodes: Seq<FuseNode<'_>>) -> Seq<(u64, FileKind, Seq<char>)> {
    seq![(ino, FileKind::Directory, "."@), (ino, FileKind::Directory, ".."@)] + visible_lines(
        nodes,
    )
}

/// The lines of `lines` from position `offset` on, each with the position of its successor.
pub open spec fn emitted(lines: Seq<(u64, FileKind, Seq<char>)>, offset: int) -> Seq<
    (u64, int, FileKind, Seq<char>),
> {
    Seq::new(
        if lines.len() >= offset {
            (lines.len() - offset) as nat
        } else {
            0
        },
        |k: int| (lines[offset + k].0, offset + k + 1, lines[offset + k].1, lines[offset + k].2),
    )
}

/// The views of the entries of a listing.
pub open spec fn entry_views(entries: Seq<DirectoryEntry>) -> Seq<(u64, int, FileKind, Seq<char>)> {
    Seq::new(entries.len(), |k: int| entries[k]@)
}

/// The lines of a listing as plain values.
pub open spec fn line_views(lines: Seq<(u64, FileKind, String)>) -> Seq<(u64, FileKind, Seq<char>)> {
    Seq::new(lines.len(), |k: int| (lines[k].0, lines[k].1, lines[k].2@))
}

/// The lines of a listing from position `offset` on, each with the position of its successor.
pub fn emit_lines(lines: &Vec<(u64, FileKind, String)>, offset: i64) -> (entries: Vec<DirectoryEntry>)
    requires
        offset >= 0,
    ensures
        entry_views(entries@) == emitted(line_views(lines@), offset as int),
{
    let mut entries: Vec<DirectoryEntry> = Vec::new();
    let total = lines.len();
    if offset as u64 >= total as u64 {
        assert(entry_views(entries@) =~= emitted(line_views(lines@), offset as int));
        return entries;
    }
    let start = offset as usize;
    let mut position = start;
    while position < total
        invariant
            start == offset,
            start <= position <= total == lines.len(),
            entries@.len() == position - start,
            forall|k: int|
                0 <= k < entries@.len() ==> (#[trigger] entries@[k])@ == (
                    lines@[start + k].0,
                    start + k + 1,
                    lines@[start + k].1,
                    lines@[start + k].2@,
                ),
        decreases total - position,
    {
        let line = &lines[position];
        entries.push(
            DirectoryEntry {
                ino: line.0,
                offset: (position + 1) as u64,
                kind: line.1,
                name: line.2.clone(),
            },
        );
        position += 1;
    }
    assert(entry_views(entries@) =~= emitted(line_views(lines@), offset as int));
    entries
}

/// The file system over a node store.
pub struct VideoFileSystem {
    pub nodes: FuseNodeStore,
}

/// The bytes that a read at `offset` of at most `size` bytes returns from `data`.
pub open spec fn read_window(data: Seq<u8>, offset: int, size: int) -> Seq<u8> {
    let start = if offset <= data.len() {
        offset
    } else {
        data.len() as int
    };
    let end = if offset + size <= data.len() {
        offset + size
    } else {
        data.len() as int
    };
    data.subrange(start, end)
}

/// The part of `data` that a read at `offset` of at most `size` bytes returns.
pub fn read_slice(data: &Vec<u8>, offset: i64, size: u32) -> (window: Vec<u8>)
    requires
        offset >= 0,
    ensures
        window@ == read_window(data@, offset as int, size as int),
{
    let length = data.len();
    let start = if offset as u64 <= length as u64 {
        offset as usize
    } else {
        length
    };
    let end = if size as usize <= length - start {
        start + size as usize
    } else {
        length
    };
    let mut window: Vec<u8> = Vec::new();
    let mut position = start;
    while position < end
        invariant
            start <= position <= end <= length == data.len(),
            window@ == data@.subrange(start as int, position as int),
        decreases end - position,
    {
        window.push(data[position]);
        position += 1;
        assert(window@ =~= data@.subrange(start as int, position as int));
    }
    assert(window@ =~= read_window(data@, offset as int, size as int));
    window
}

/// The content of a file after `data` has been written at `offset` over `current`: the
/// incoming bytes alone at offset 0, else the current bytes, extended by zero bytes up to the
/// end of the written range, with the incoming bytes laid over that range.
pub open spec fn written_content(current: Seq<u8>, offset: int, data: Seq<u8>) -> Seq<u8> {
    if offset == 0 {
        data
    } else {
        let end = offset + data.len();
        let length = if current.len() >= end {
            current.len() as int
        } else {
            end
        };
        Seq::new(
            length as nat,
            |i: int|
                if offset <= i < end {
                    data[i - offset]
                } else if i < current.len() {
                    current[i]
                } else {
                    0u8
                },
        )
    }
}

/// Lays `data` over `current` at a non-zero `offset`, after extending `current` by zero bytes
/// where it is too short.
pub fn splice_data(current: Vec<u8>, offset: usize, data: &[u8]) -> (content: Vec<u8>)
    requires
        offset > 0,
        offset + data.len() <= usize::MAX,
    ensures
        content@ == written_content(current@, offset as int, data@),
{
    let end_position: usize = offset + data.len();
    let mut content = current;
    let length = if content.len() >= end_position {
        content.len()
    } else {
        end_position
    };
    content.resize(length, 0);
    let mut position: usize = 0;
    while position < data.len()
        invariant
            position <= data.len(),
            end_position == offset + data.len(),
            content@.len() == length,
            end_position <= length,
            length == if current@.len() >= end_position {
                current@.len() as int
            } else {
                end_position as int
            },
            forall|i: int|
                0 <= i < length ==> #[trigger] content@[i] == if offset <= i < offset + position {
                    data@[i - offset]
                } else if i < current@.len() {
                    current@[i]
                } else {
                    0u8
                },
        decreases data.len() - position,
    {
        content.set(offset + position, data[position]);
        position += 1;
    }
    assert(content@ =~= written_content(current@, offset as int, data@));
    content
}

impl FileFuseNode {
    /// The node once it is advertised in listings of its directory.
    pub open spec fn listed(self) -> FileFuseNode {
        FileFuseNode {
            information: crate::file::FileInformation { listed: true, ..self.information },
            ..self
        }
    }
}

impl VideoFileSystem {
    /// The node store is well formed.
    pub open spec fn wf(&self) -> bool {
        self.nodes.wf()
    }

    /// Whether the store `after` differs from this file system's store only in that the file
    /// `inode_number` is `file`.
    pub open spec fn file_replaced(&self, after: &VideoFileSystem, inode_number: u64, file: FileFuseNode) -> bool {
        &&& after.nodes.files() == self.nodes.files().insert(inode_number, file)
        &&& after.nodes.directories() == self.nodes.directories()
        &&& after.nodes.current_inode_number == self.nodes.current_inode_number
    }

    /// Whether this file system and `after` hold the same nodes.
    pub open spec fn unchanged(&self, after: &VideoFileSystem) -> bool {
        &&& after.nodes.files() == self.nodes.files()
        &&& after.nodes.directories() == self.nodes.directories()
        &&& after.nodes.current_inode_number == self.nodes.current_inode_number
    }

    /// What an attribute query may answer for `inode_number`: the cached record of a
    /// directory, a freshly computed record of a file, or that there is no such node.
    pub open spec fn may_answer_getattr(&self, inode_number: u64, reply: Result<FileAttributes, FsError>) -> bool {
        match self.nodes.node(inode_number) {
            Some(FuseNode::Directory(directory)) => reply == Ok::<FileAttributes, FsError>(
                directory.attributes,
            ),
            Some(FuseNode::File(file)) => reply matches Ok(attributes) && file.may_report(
                attributes,
            ),
            None => reply == Err::<FileAttributes, FsError>(FsError::NotFound),
        }
    }

    /// The attributes of a node.
    pub fn getattr(&self, inode_number: u64) -> (reply: Result<FileAttributes, FsError>)
        ensures
            self.may_answer_getattr(inode_number, reply),
    {
        match self.nodes.get_node(inode_number) {
            Some(fuse_node) => {
                let attributes = match fuse_node {
                    FuseNode::Directory(x) => x.attributes,
                    FuseNode::File(x) => x.get_attributes(),
                };
                Ok(attributes)
            },
            None => Err(FsError::NotFound),
        }
    }

    /// Accepts a change of attributes of a file without honouring any of the fields, and
    /// answers with the current attributes of the file. Only files take the request.
    pub fn setattr(
        &self,
        inode_number: u64,
        _mode: Option<u32>,
        _uid: Option<u32>,
        _gid: Option<u32>,
        _size: Option<u64>,
        _atime: Option<u64>,
        _mtime: Option<u64>,
        _fh: Option<u64>,
        _crtime: Option<u64>,
        _chgtime: Option<u64>,
        _bkuptime: Option<u64>,
        _flags: Option<u32>,
    ) -> (reply: Result<FileAttributes, FsError>)
        ensures
            self.nodes.files().contains_key(inode_number) ==> (reply matches Ok(attributes)
                && self.nodes.files()[inode_number].may_report(attributes)),
            !self.nodes.files().contains_key(inode_number) ==> reply == Err::<
                FileAttributes,
                FsError,
            >(FsError::Internal),
    {
        match self.nodes.get_file_node(inode_number) {
            None => Err(FsError::Internal),
            Some(node) => Ok(node.get_attributes()),
        }
    }

    /// Reads at most `size` bytes at `offset` of what the file produces now, and advertises
    /// the file in listings of its directory from then on.
    pub fn read(&mut self, ino: u64, offset: i64, size: u32) -> (reply: Result<Vec<u8>, FsError>)
        requires
            old(self).wf(),
            offset >= 0,
        ensures
            final(self).wf(),
            !old(self).nodes.files().contains_key(ino) ==> (reply matches Err(error) && error
                == FsError::NotFound && old(self).unchanged(final(self))),
            old(self).nodes.files().contains_key(ino) ==> {
                &&& (reply matches Ok(window) && exists|data: Seq<u8>|
                    #![trigger old(self).nodes.files()[ino].information.may_read(data)]
                    old(self).nodes.files()[ino].information.may_read(data) && window@
                        == read_window(data, offset as int, size as int))
                &&& old(self).file_replaced(final(self), ino, old(self).nodes.files()[ino].listed())
            },
    {
        if self.nodes.get_file_node(ino).is_none() {
            return Err(FsError::NotFound);
        }
        let node = self.nodes.get_file_node_mut(ino).unwrap();
        let data = node.get_data();
        let window = read_slice(&data, offset, size);
        node.information.listed = true;
        proof {
            assert(self.nodes.files().dom() =~= old(self).nodes.files().dom());
            old(self).nodes.lemma_same_links(&self.nodes);
        }
        Ok(window)
    }

    /// Whether a write of `data` at `offset` to the file `inode_number` may lead from this
    /// file system to `after` with the answer `reply`. A file that is not writable refuses
    /// the write. A writable file takes the composed content if its entry accepts it, and
    /// the answer is then the number of incoming bytes. A refusal changes nothing.
    pub open spec fn may_answer_write(
        &self,
        after: &VideoFileSystem,
        inode_number: u64,
        offset: int,
        data: Seq<u8>,
        reply: Result<u32, FsError>,
    ) -> bool {
        if !self.nodes.files().contains_key(inode_number) {
            reply == Err::<u32, FsError>(FsError::Internal) && self.unchanged(after)
        } else if !self.nodes.files()[inode_number].information.writable {
            reply == Err::<u32, FsError>(FsError::PermissionDenied) && self.unchanged(after)
        } else {
            let file = self.nodes.files()[inode_number];
            exists|current: Seq<u8>, outcome: Result<(), String>|
                #![trigger file.information.may_answer(written_content(current, offset, data), outcome)]
                {
                    let content = written_content(current, offset, data);
                    &&& offset != 0 ==> file.information.may_read(current)
                    &&& file.information.may_answer(content, outcome)
                    &&& match outcome {
                        Ok(_) => {
                            &&& reply == Ok::<u32, FsError>(data.len() as u32)
                            &&& self.file_replaced(after, inode_number, after.nodes.files()[inode_number])
                            &&& after.nodes.files()[inode_number].inode_number == file.inode_number
                            &&& after.nodes.files()[inode_number].directory_inode_number
                                == file.directory_inode_number
                            &&& after.nodes.files()[inode_number].information.holds_data_of(
                                &file.information,
                                content,
                            )
                        },
                        Err(_) => reply == Err::<u32, FsError>(FsError::PermissionDenied)
                            && self.unchanged(after),
                    }
                }
        }
    }

    /// Writes `data` at `offset` to a file. Only a writable file takes a write.
    pub fn write(&mut self, inode_number: u64, offset: i64, data: &[u8]) -> (reply: Result<u32, FsError>)
        requires
            old(self).wf(),
            offset >= 0,
            offset + data.len() <= usize::MAX,
            data.len() <= u32::MAX,
        ensures
            final(self).wf(),
            old(self).may_answer_write(final(self), inode_number, offset as int, data@, reply),
    {
        match self.nodes.get_file_node(inode_number) {
            None => {
                return Err(FsError::Internal);
            },
            Some(file_node) => {
                if !file_node.information.writable {
                    return Err(FsError::PermissionDenied);
                }
            },
        }
        let ghost file = self.nodes.files()[inode_number];
        let node = self.nodes.get_file_node_mut(inode_number).unwrap();
        let ghost current;
        let data_as_vec = if offset == 0 {
            proof {
                current = Seq::<u8>::empty();
            }
            slice_to_vec(data)
        } else {
            let current_data = node.information.get_data();
            proof {
                current = current_data@;
            }
            splice_data(current_data, offset as usize, data)
        };
        let ghost content = written_content(current, offset as int, data@);
        assert(data_as_vec@ == content);
        let write_result = node.information.set_data(data_as_vec);
        let reply = if write_result.is_err() {
            Err(FsError::PermissionDenied)
        } else {
            Ok(data.len() as u32)
        };
        proof {
            assert(file.information.may_answer(content, write_result));
            assert(self.nodes.files().dom() =~= old(self).nodes.files().dom());
            old(self).nodes.lemma_same_links(&self.nodes);
            if write_result is Err {
                assert(self.nodes.files() =~= old(self).nodes.files());
            }
        }
        reply
    }

    /// Whether a lookup of `name` in a directory whose children are `children` may lead
    /// from the file system `self` to `after` with the answer `reply`. The first child with
    /// the name is found. A file that is found is advertised in listings from then on.
    pub open spec fn may_answer_lookup(
        &self,
        after: &VideoFileSystem,
        children: Seq<FuseNode<'_>>,
        name: Seq<char>,
        reply: Result<EntryReply, FsError>,
    ) -> bool {
        match FuseNodeStore::first_named(children, name) {
            None => reply == Err::<EntryReply, FsError>(FsError::NotFound) && self.unchanged(
                after,
            ),
            Some(FuseNode::Directory(directory)) => reply == Ok::<EntryReply, FsError>(
                EntryReply { ttl: TTL_SECONDS, attributes: directory.attributes, generation: 0 },
            ) && self.unchanged(after),
            Some(FuseNode::File(file)) => {
                &&& reply matches Ok(entry)
                &&& entry.ttl == TTL_SECONDS
                &&& entry.generation == 0
                &&& file.may_report(entry.attributes)
                &&& self.file_replaced(after, file.inode_number, file.listed())
            },
        }
    }

    /// Finds a child of the directory `parent` by name, after the directory has been
    /// materialized.
    pub fn lookup(&mut self, parent: u64, name: &str) -> (reply: Result<EntryReply, FsError>)
        requires
            old(self).wf(),
        ensures
            final(self).wf(),
            !old(self).nodes.directories().contains_key(parent) ==> (reply matches Err(error)
                && error == FsError::NotFound && old(self).unchanged(final(self))),
            old(self).nodes.directories().contains_key(parent) ==> exists|
                listed: VideoFileSystem,
            |
                #![trigger old(self).nodes.materialized(&listed.nodes, parent)]
                {
                    &&& listed.wf()
                    &&& old(self).nodes.materialized(&listed.nodes, parent)
                    &&& listed.may_answer_lookup(
                        final(self),
                        listed.nodes.children_nodes(parent),
                        name@,
                        reply,
                    )
                },
    {
        if self.nodes.get_directory_node(parent).is_none() {
            return Err(FsError::NotFound);
        }
        self.nodes.materialize_directory(parent);
        let ghost listed = *self;
        let found = match self.nodes.lookup_node(name, parent) {
            Some(FuseNode::Directory(x)) => Some((x.attributes, false)),
            Some(FuseNode::File(file_node)) => Some(
                (file_node.get_attributes(), !file_node.information.listed),
            ),
            None => None,
        };
        proof {
            assert(self.nodes.files() == listed.nodes.files());
            assert(self.nodes.directories() == listed.nodes.directories());
            assert(self.nodes.children_nodes(parent) == listed.nodes.children_nodes(parent));
            listed.nodes.lemma_found_is_child(parent, name@);
        }
        let ghost node = FuseNodeStore::first_named(listed.nodes.children_nodes(parent), name@);
        let reply = match found {
            Some((attributes, requires_listing)) => {
                if requires_listing {
                    let inode_number = attributes.ino;
                    let file_node = self.nodes.get_file_node_mut(inode_number).unwrap();
                    file_node.information.listed = true;
                    proof {
                        assert(self.nodes.files().dom() =~= listed.nodes.files().dom());
                        listed.nodes.lemma_same_links(&self.nodes);
                    }
                }
                Ok(EntryReply { ttl: TTL_SECONDS, attributes, generation: 0 })
            },
            None => Err(FsError::NotFound),
        };
        proof {
            match node {
                None => {},
                Some(FuseNode::Directory(directory)) => {},
                Some(FuseNode::File(file)) => {
                    assert(listed.nodes.files().contains_key(file.inode_number));
                    assert(listed.nodes.files()[file.inode_number] == *file);
                    assert(self.nodes.files() =~= listed.nodes.files().insert(
                        file.inode_number,
                        file.listed(),
                    ));
                },
            }
            assert(listed.may_answer_lookup(
                self,
                listed.nodes.children_nodes(parent),
                name@,
                reply,
            ));
        }
        reply
    }

    /// Lists a directory from position `offset` on, after materializing it. The listing
    /// names the directory itself as `.` and as `..`, then its children in their order,
    /// files only where they are listed.
    #[verifier::loop_isolation(false)]
    pub fn readdir(&mut self, ino: u64, offset: i64) -> (reply: Result<Vec<DirectoryEntry>, FsError>)
        requires
            old(self).wf(),
            offset >= 0,
        ensures
            final(self).wf(),
            !old(self).nodes.directories().contains_key(ino) ==> (reply matches Err(error) && error
                == FsError::NotFound && old(self).unchanged(final(self))),
            old(self).nodes.directories().contains_key(ino) ==> {
                &&& old(self).nodes.materialized(&final(self).nodes, ino)
                &&& !final(self).nodes.directories()[ino].unmaterialized()
                &&& reply matches Ok(entries)
                &&& entry_views(entries@) == emitted(
                    listing(ino, final(self).nodes.children_nodes(ino)),
                    offset as int,
                )
            },
    {
        if self.nodes.get_directory_node(ino).is_none() {
            return Err(FsError::NotFound);
        }
        let children = self.nodes.get_nodes_in_directory(ino);
        let ghost nodes = children@;
        let mut lines: Vec<(u64, FileKind, String)> = Vec::new();
        lines.push((ino, FileKind::Directory, String::from_str(".")));
        lines.push((ino, FileKind::Directory, String::from_str("..")));
        proof {
            assert(nodes.take(0) =~= Seq::<FuseNode<'_>>::empty());
            assert(line_views(lines@) =~= listing(ino, nodes.take(0)));
        }
        let mut index: usize = 0;
        while index < children.len()
            invariant
                index <= children.len(),
                line_views(lines@) == listing(ino, nodes.take(index as int)),
            decreases children.len() - index,
        {
            let fuse_node = children[index];
            let ghost before = line_views(lines@);
            match fuse_node {
                FuseNode::Directory(x) => {
                    lines.push((x.attributes.ino, x.attributes.kind, x.name.clone()));
                },
                FuseNode::File(x) => {
                    if x.information.listed {
                        lines.push(
                            (x.get_inode_number(), FileKind::RegularFile, x.information.name.clone()),
                        );
                    }
                },
            }
            proof {
                let next = nodes.take(index + 1);
                assert(next.drop_last() =~= nodes.take(index as int));
                assert(next.last() == fuse_node);
                assert(line_views(lines@) =~= if is_visible(fuse_node) {
                    before.push(listing_line(fuse_node))
                } else {
                    before
                });
                assert(line_views(lines@) =~= listing(ino, next));
            }
            index += 1;
        }
        assert(nodes.take(index as int) =~= nodes);
        Ok(emit_lines(&lines, offset))
    }
}

/// The lines of the visible nodes are exactly the lines of the nodes that are visible.
pub proof fn lemma_visible_lines(nodes: Seq<FuseNode<'_>>, line: (u64, FileKind, Seq<char>))
    ensures
        visible_lines(nodes).contains(line) <==> exists|k: int|
            0 <= k < nodes.len() && is_visible(#[trigger] nodes[k]) && listing_line(nodes[k])
                == line,
    decreases nodes.len(),
{
    if nodes.len() == 0 {
        assert(!visible_lines(nodes).contains(line));
    } else {
        let rest = nodes.drop_last();
        let last = nodes.last();
        lemma_visible_lines(rest, line);
        let lines = visible_lines(nodes);
        if visible_lines(nodes).contains(line) {
            let position = choose|position: int|
                0 <= position < lines.len() && lines[position] == line;
            if is_visible(last) && position == lines.len() - 1 {
                assert(is_visible(nodes[nodes.len() - 1]) && listing_line(nodes[nodes.len() - 1])
                    == line);
            } else {
                assert(visible_lines(rest)[position] == line);
                assert(visible_lines(rest).contains(line));
                let k = choose|k: int|
                    0 <= k < rest.len() && is_visible(#[trigger] rest[k]) && listing_line(rest[k])
                        == line;
                assert(nodes[k] == rest[k]);
            }
        }
        if exists|k: int|
            0 <= k < nodes.len() && is_visible(#[trigger] nodes[k]) && listing_line(nodes[k])
                == line {
            let k = choose|k: int|
                0 <= k < nodes.len() && is_visible(#[trigger] nodes[k]) && listing_line(nodes[k])
                    == line;
            if k == nodes.len() - 1 {
                assert(lines[lines.len() - 1] == line);
            } else {
                assert(rest[k] == nodes[k]);
                assert(visible_lines(rest).contains(line));
                let position = choose|position: int|
                    0 <= position < visible_lines(rest).len() && visible_lines(rest)[position]
                        == line;
                assert(lines[position] == line);
            }
        }
    }
}

/// Once a file has been read it is advertised: the listing of its directory then holds the
/// line of the file, and beside it exactly the lines that it held before. So after reads of
/// several files of a directory the listing holds the lines of all of them beside those
/// that it held at first.
pub proof fn lemma_read_file_is_listed(
    before: &VideoFileSystem,
    after: &VideoFileSystem,
    directory: u64,
    ino: u64,
    line: (u64, FileKind, Seq<char>),
)
    requires
        before.wf(),
        before.nodes.directories().contains_key(directory),
        before.nodes.files().contains_key(ino),
        before.nodes.directories()[directory].children().contains(ino),
        before.file_replaced(after, ino, before.nodes.files()[ino].listed()),
    ensures
        visible_lines(after.nodes.children_nodes(directory)).contains(line) <==> visible_lines(
            before.nodes.children_nodes(directory),
        ).contains(line) || line == (
            ino,
            FileKind::RegularFile,
            before.nodes.files()[ino].information.name@,
        ),
{
    let children = before.nodes.directories()[directory].children();
    let old_nodes = before.nodes.children_nodes(directory);
    let new_nodes = after.nodes.children_nodes(directory);
    let file = before.nodes.files()[ino];
    let file_line = (ino, FileKind::RegularFile, file.information.name@);
    lemma_visible_lines(old_nodes, line);
    lemma_visible_lines(new_nodes, line);
    assert forall|k: int| 0 <= k < children.len() implies {
        &&& children[k] == ino ==> is_visible(#[trigger] new_nodes[k]) && listing_line(new_nodes[k])
            == file_line
        &&& children[k] == ino && is_visible(old_nodes[k]) ==> listing_line(old_nodes[k])
            == file_line
        &&& children[k] != ino ==> new_nodes[k] == old_nodes[k]
    } by {
        assert(before.nodes.contains(children[k]));
    }
    if visible_lines(new_nodes).contains(line) {
        let k = choose|k: int|
            0 <= k < new_nodes.len() && is_visible(#[trigger] new_nodes[k]) && listing_line(
                new_nodes[k],
            ) == line;
        if children[k] != ino {
            assert(is_visible(old_nodes[k]) && listing_line(old_nodes[k]) == line);
        }
    }
    if visible_lines(old_nodes).contains(line) {
        let k = choose|k: int|
            0 <= k < old_nodes.len() && is_visible(#[trigger] old_nodes[k]) && listing_line(
                old_nodes[k],
            ) == line;
        assert(is_visible(new_nodes[k]) && listing_line(new_nodes[k]) == line);
    }
    if line == file_line {
        let k = choose|k: int| 0 <= k < children.len() && children[k] == ino;
        assert(is_visible(new_nodes[k]) && listing_line(new_nodes[k]) == line);
    }
}

} // verus!
