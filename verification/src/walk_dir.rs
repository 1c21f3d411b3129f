//! A depth-first pre-order walk over a directory and its descendants.
//!
//! Each step pops one entry; for a directory it pushes the children in
//! reverse index order, so entries come out in the same order as
//! `get_dir_file(dir, 0), get_dir_file(dir, 1), ...`.
use crate::archive_reader::ArchiveReader;
use crate::archive_reader::DirectoryEntry;
use crate::archive_reader::tables_closed;
use crate::archive_reader::HeaderModel;
use crate::error::Error;
use crate::file_entry::FileEntry;
use vstd::prelude::*;

verus! {

/// A stack frame of the walk: an entry and the path components leading to
/// it, as mathematical values.
pub ghost struct WalkFrame {
    /// The entry itself.
    pub file_entry: FileEntry,
    /// The names on the path from the walk's root down to the entry; the
    /// root's own name is not included.
    pub path: Seq<Seq<char>>,
}

/// The mathematical view of the walk stack.
pub open spec fn stack_model(s: Seq<(FileEntry, Vec<String>)>) -> Seq<WalkFrame> {
    Seq::new(s.len(), |i: int| WalkFrame { file_entry: s[i].0, path: s[i].1.deep_view() })
}

/// The frames for the children of `d` at indexes `k` down to `0`, each
/// child's path extending `path` by its name, in the order the walk pushes
/// them; or the first error a child at one of those indexes fails with.
pub open spec fn spec_expand_children(
    h: HeaderModel,
    d: DirectoryEntry,
    path: Seq<Seq<char>>,
    k: int,
) -> Result<Seq<WalkFrame>, Error>
    decreases k + 1,
{
    if k < 0 {
        Ok(Seq::<WalkFrame>::empty())
    } else {
        let key = d.file_head_position + 64 * k;
        if !(key <= u64::MAX && h.files.contains_key(key as u64)) {
            Err(Error::InvalidDirectoryFileIndex)
        } else {
            let child = h.files[key as u64];
            if !h.names.contains_key(child.name_position) {
                Err(Error::InvalidFileNamePosition)
            } else {
                match spec_expand_children(h, d, path, k - 1) {
                    Err(e) => Err(e),
                    Ok(rest) => Ok(
                        seq![
                            WalkFrame {
                                file_entry: child,
                                path: path.push(h.names[child.name_position]),
                            },
                        ] + rest,
                    ),
                }
            }
        }
    }
}

/// What one walk step pushes for the popped entry `f` whose path is `path`:
/// nothing for a plain file, the children frames for a directory, or the
/// error the expansion fails with.
pub open spec fn spec_walk_expand(h: HeaderModel, f: FileEntry, path: Seq<Seq<char>>) -> Result<
    Seq<WalkFrame>,
    Error,
> {
    if !f.spec_is_dir() {
        Ok(Seq::<WalkFrame>::empty())
    } else if !h.dirs.contains_key(f.data_position) {
        Err(Error::InvalidDirectoryPosition)
    } else {
        let d = h.dirs[f.data_position];
        if d.num_files > usize::MAX {
            Err(Error::InvalidFilePosition)
        } else {
            spec_expand_children(h, d, path, d.num_files - 1)
        }
    }
}

/// `r` with `prefix` prepended to its frames when it carries any.
spec fn with_prefix(prefix: Seq<WalkFrame>, r: Result<Seq<WalkFrame>, Error>) -> Result<
    Seq<WalkFrame>,
    Error,
> {
    match r {
        Ok(rest) => Ok(prefix + rest),
        Err(e) => Err(e),
    }
}

/// Clone a list of path components.
#[verifier::loop_isolation(false)]
fn clone_paths(v: &Vec<String>) -> (r: Vec<String>)
    ensures
        r@ == v@,
{
    let mut r: Vec<String> = Vec::new();
    let mut i: usize = 0;
    while i < v.len()
        invariant
            0 <= i <= v@.len(),
            r@ =~= v@.take(i as int),
        decreases v@.len() - i,
    {
        r.push(v[i].clone());
        proof {
            assert(v@.take(i + 1 as int) =~= v@.take(i as int).push(v@[i as int]));
        }
        i += 1;
    }
    proof {
        assert(v@.take(v@.len() as int) =~= v@);
    }
    r
}

/// A file or dir entry yielded by the walk.
#[derive(Debug)]
pub struct WalkDirEntry {
    /// The entry; for a directory this is the entry that carries the
    /// directory's own name.
    pub file_entry: FileEntry,
    /// The names on the path from the walk's root down to the entry.
    pub path_components: Vec<String>,
}

impl WalkDirEntry {
    /// Get the file.
    ///
    /// Note that this may be the file data for a dir.
    pub fn file(&self) -> (r: &FileEntry)
        ensures
            *r == self.file_entry,
    {
        &self.file_entry
    }

    /// Get the path components.
    pub fn path_components(&self) -> (r: &Vec<String>)
        ensures
            *r == self.path_components,
    {
        &self.path_components
    }
}

/// An iterator over a dir and its descendants.
pub struct WalkDirIter {
    /// The pending entries, most recently pushed last; the next step pops
    /// the last frame.
    pub stack: Vec<(FileEntry, Vec<String>)>,
}

impl WalkDirIter {
    /// Start a walk at the given entry, with an empty path.
    pub fn new(file_entry: FileEntry) -> (r: WalkDirIter)
        ensures
            stack_model(r.stack@) == seq![
                WalkFrame { file_entry, path: Seq::<Seq<char>>::empty() },
            ],
    {
        let mut stack: Vec<(FileEntry, Vec<String>)> = Vec::new();
        let path: Vec<String> = Vec::new();
        proof {
            assert(path.deep_view() =~= Seq::<Seq<char>>::empty());
        }
        stack.push((file_entry, path));
        proof {
            assert(stack_model(stack@) =~= seq![
                WalkFrame { file_entry, path: Seq::<Seq<char>>::empty() },
            ]);
        }
        WalkDirIter { stack }
    }

    /// Pop the next entry of the walk; for a directory, push its children
    /// in reverse index order first, so that they come out in
    /// `get_dir_file` order.
    #[verifier::loop_isolation(false)]
    #[verifier::rlimit(60)]
    pub fn next(&mut self, archive: &ArchiveReader) -> (r: Option<Result<WalkDirEntry, Error>>)
        ensures
            old(self).stack@.len() == 0 ==> (r is None && final(self).stack@ == old(self).stack@),
            old(self).stack@.len() > 0 ==> {
                let top = old(self).stack@.last();
                let rest = old(self).stack@.drop_last();
                &&& !top.0.spec_is_dir() ==> ((r matches Some(res) && (res matches Ok(entry)
                    && entry.file_entry == top.0 && entry.path_components == top.1)) && stack_model(
                    final(self).stack@,
                ) == stack_model(rest))
                &&& top.0.spec_is_dir() && archive.header_data is None ==> r == Some(
                    Err::<WalkDirEntry, Error>(Error::HeaderNotRead),
                )
                &&& top.0.spec_is_dir() ==> (archive.header_data matches Some(h)
                    ==> match spec_walk_expand(h@, top.0, top.1.deep_view()) {
                    Ok(frames) => (r matches Some(res) && (res matches Ok(entry)
                        && entry.file_entry == top.0 && entry.path_components == top.1))
                        && stack_model(final(self).stack@) == stack_model(rest) + frames,
                    Err(e) => r == Some(Err::<WalkDirEntry, Error>(e)),
                })
            },
    {
        let top = match self.stack.pop() {
            Some(v) => v,
            None => {
                return None;
            },
        };
        let (file_entry, path_components) = top;
        let ghost rest0: Seq<(FileEntry, Vec<String>)> = self.stack@;
        let ghost path0: Seq<Seq<char>> = path_components.deep_view();
        if file_entry.is_dir() {
            let dir_entry: DirectoryEntry = match archive.get_dir_from_file(&file_entry) {
                Ok(d) => *d,
                Err(e) => {
                    return Some(Err(e));
                },
            };
            let ghost h: HeaderModel = archive.header_data.unwrap()@;
            if dir_entry.num_files > usize::MAX as u64 {
                return Some(Err(Error::InvalidFilePosition));
            }
            let n: usize = dir_entry.num_files as usize;
            let mut k: usize = n;
            proof {
                assert(stack_model(self.stack@).skip(rest0.len() as int)
                    =~= Seq::<WalkFrame>::empty());
                assert(spec_expand_children(h, dir_entry, path0, n - 1) == with_prefix(
                    stack_model(self.stack@).skip(rest0.len() as int),
                    spec_expand_children(h, dir_entry, path0, k - 1),
                ));
            }
            while k > 0
                invariant
                    0 <= k <= n,
                    self.stack@.len() == rest0.len() + (n - k),
                    self.stack@.take(rest0.len() as int) =~= rest0,
                    spec_expand_children(h, dir_entry, path0, n - 1) == with_prefix(
                        stack_model(self.stack@).skip(rest0.len() as int),
                        spec_expand_children(h, dir_entry, path0, k - 1),
                    ),
                decreases k,
            {
                k -= 1;
                let ghost stack_before: Seq<(FileEntry, Vec<String>)> = self.stack@;
                let child: &FileEntry = match archive.get_dir_file(&dir_entry, k) {
                    Ok(Some(f)) => f,
                    Ok(None) => {
                        return Some(Err(Error::InvalidFilePosition));
                    },
                    Err(e) => {
                        return Some(Err(e));
                    },
                };
                let file_name: &String = match archive.get_file_name(child) {
                    Ok(nm) => nm,
                    Err(e) => {
                        return Some(Err(e));
                    },
                };
                let mut path = clone_paths(&path_components);
                path.push(file_name.clone());
                let child_copy: FileEntry = *child;
                self.stack.push((child_copy, path));
                proof {
                    let frame = WalkFrame {
                        file_entry: child_copy,
                        path: path0.push(h.names[child_copy.name_position]),
                    };
                    assert(path.deep_view() =~= path0.push(h.names[child_copy.name_position]));
                    assert(stack_model(self.stack@).skip(rest0.len() as int) =~= stack_model(
                        stack_before,
                    ).skip(rest0.len() as int).push(frame));
                    assert(self.stack@.take(rest0.len() as int) =~= rest0);
                    // pushing the frame onto the stack is the same as
                    // prepending it to whatever the remaining indexes add
                    assert forall|rem: Seq<WalkFrame>|
                        true implies stack_model(stack_before).skip(rest0.len() as int) + (seq![
                        frame,
                    ] + rem) =~= stack_model(self.stack@).skip(rest0.len() as int) + rem by {}
                }
            }
            proof {
                assert(spec_expand_children(h, dir_entry, path0, -1)
                    == Ok::<Seq<WalkFrame>, Error>(Seq::<WalkFrame>::empty()));
                assert(stack_model(self.stack@).skip(rest0.len() as int) + Seq::<
                    WalkFrame,
                >::empty() =~= stack_model(self.stack@).skip(rest0.len() as int));
                assert(stack_model(self.stack@) =~= stack_model(rest0) + stack_model(
                    self.stack@,
                ).skip(rest0.len() as int));
            }
        } else {
            proof {
                assert(stack_model(self.stack@) =~= stack_model(rest0));
            }
        }
        Some(Ok(WalkDirEntry { file_entry, path_components }))
    }
}

impl ArchiveReader {
    /// Walk over the given dir: a pre-order traversal starting at the
    /// directory's own file entry.
    pub fn walk_dir(&self, dir: &DirectoryEntry) -> (r: Result<WalkDirIter, Error>)
        ensures
            self.header_data is None ==> r == Err::<WalkDirIter, Error>(Error::HeaderNotRead),
            self.header_data matches Some(h) ==> {
                &&& h@.files.contains_key(dir.directory_position) ==> (r matches Ok(it)
                    && stack_model(it.stack@) == seq![
                    WalkFrame {
                        file_entry: h@.files[dir.directory_position],
                        path: Seq::<Seq<char>>::empty(),
                    },
                ])
                &&& !h@.files.contains_key(dir.directory_position) ==> r == Err::<
                    WalkDirIter,
                    Error,
                >(Error::InvalidFilePosition)
            },
    {
        let file_entry: FileEntry = match self.get_file_from_dir(dir) {
            Ok(f) => *f,
            Err(e) => {
                return Err(e);
            },
        };
        Ok(WalkDirIter::new(file_entry))
    }
}

/// Law: when the parsed tables are closed under cross-references, every
/// lookup the walk makes succeeds: expanding any directory of the table
/// yields its child frames, never an error.
pub proof fn lemma_closed_expand_ok(
    h: HeaderModel,
    off: u64,
    path: Seq<Seq<char>>,
    k: int,
)
    requires
        tables_closed(h),
        h.dirs.contains_key(off),
        k < h.dirs[off].num_files,
    ensures
        spec_expand_children(h, h.dirs[off], path, k) is Ok,
    decreases k + 1,
{
    let d = h.dirs[off];
    if k >= 0 {
        assert(d.file_head_position + 64 * k <= u64::MAX && h.files.contains_key(
            (d.file_head_position + 64 * k) as u64,
        ));
        lemma_closed_expand_ok(h, off, path, k - 1);
    }
}

/// Law: when the parsed tables are closed under cross-references, a walk
/// step on any directory-typed file entry of the file table succeeds,
/// provided its child count is addressable.
pub proof fn lemma_closed_walk_step_ok(h: HeaderModel, off: u64, path: Seq<Seq<char>>)
    requires
        tables_closed(h),
        h.files.contains_key(off),
        h.files[off].spec_is_dir() ==> h.dirs[h.files[off].data_position].num_files <= usize::MAX,
    ensures
        spec_walk_expand(h, h.files[off], path) is Ok,
{
    let f = h.files[off];
    if f.spec_is_dir() {
        assert(h.dirs.contains_key(f.data_position));
        let d = h.dirs[f.data_position];
        lemma_closed_expand_ok(h, f.data_position, path, d.num_files - 1);
    }
}

/// Law: the frames a directory expansion yields are exactly its children
/// in reverse index order: frame `i` holds the child at index `k - i`, with
/// the child's path extending the directory's by the child's own name. The
/// walk pops from the end, so the children come out in `get_dir_file`
/// order, index 0 first.
pub proof fn lemma_expand_children_order(
    h: HeaderModel,
    d: DirectoryEntry,
    path: Seq<Seq<char>>,
    k: int,
)
    requires
        spec_expand_children(h, d, path, k) is Ok,
    ensures
        ({
            let frames = spec_expand_children(h, d, path, k).unwrap();
            &&& frames.len() == if k < 0 {
                0
            } else {
                k + 1
            }
            &&& forall|i: int|
                0 <= i < frames.len() ==> {
                    let key = d.file_head_position + 64 * (k - i);
                    &&& (#[trigger] frames[i]).file_entry == h.files[key as u64]
                    &&& frames[i].path == path.push(
                        h.names[h.files[key as u64].name_position],
                    )
                }
        }),
    decreases k + 1,
{
    if k >= 0 {
        lemma_expand_children_order(h, d, path, k - 1);
    }
}

} // verus!
