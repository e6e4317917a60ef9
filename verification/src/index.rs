//! The index decoder: parses the decompressed payload of the distinguished
//! index bundle into three tables, each prefixed by its own record count.

use vstd::prelude::*;
use vstd::slice::slice_to_vec;
use vstd::utf8::decode_utf8;
use vstd::utf8::valid_utf8;

use crate::error::BundleDataErr;
use crate::raw::read_u32;
use crate::raw::read_u64;
use crate::raw::spec_u32_at;
use crate::raw::spec_u64_at;

verus! {

/// One entry per physical bundle file: its name (length-prefixed UTF-8) and
/// the size of its decompressed payload.
#[derive(Debug)]
pub struct IndexBundleInfo {
    pub name: String,
    pub uncompressed_size: u32,
}

/// One entry per indexed file: an opaque path hash and the byte range the
/// file occupies inside the decompressed payload of bundle `bundle_index`.
#[derive(Debug, Clone, Copy, PartialEq, Eq, Structural)]
pub struct IndexFileInfo {
    pub hash: u64,
    pub bundle_index: u32,
    pub offset: u32,
    pub size: u32,
}

/// One entry per path record of the secondary path-resolution scheme.
#[derive(Debug, Clone, Copy, PartialEq, Eq, Structural)]
pub struct IndexPathInfo {
    pub hash: u64,
    pub payload_offset: u32,
    pub payload_size: u32,
    pub payload_rec_size: u32,
}

/// The decoded index: three ordered tables read back-to-back from one buffer.
#[derive(Debug)]
pub struct IndexBundle {
    pub bundle_infos: Vec<IndexBundleInfo>,
    pub bundle_files: Vec<IndexFileInfo>,
    pub bundle_paths: Vec<IndexPathInfo>,
}

/// Mathematical image of an `IndexBundleInfo`: its name as characters.
pub ghost struct IndexBundleInfoModel {
    pub name: Seq<char>,
    pub uncompressed_size: u32,
}

impl View for IndexBundleInfo {
    type V = IndexBundleInfoModel;

    open spec fn view(&self) -> IndexBundleInfoModel {
        IndexBundleInfoModel { name: self.name@, uncompressed_size: self.uncompressed_size }
    }
}

/// Mathematical image of a whole decoded index.
pub ghost struct IndexModel {
    pub infos: Seq<IndexBundleInfoModel>,
    pub files: Seq<IndexFileInfo>,
    pub paths: Seq<IndexPathInfo>,
}

/// One bundle-info record at byte offset `off`: a `u32` name length, that
/// many bytes of UTF-8 name, then a `u32` size. Yields the record and the
/// offset just past it, or nothing if the bytes run out or the name is not
/// valid UTF-8.
pub open spec fn spec_parse_info(raw: Seq<u8>, off: int) -> Option<(IndexBundleInfoModel, int)> {
    if off + 4 > raw.len() {
        None
    } else {
        let name_len = spec_u32_at(raw, off) as int;
        if off + 8 + name_len > raw.len() {
            None
        } else {
            let name_bytes = raw.subrange(off + 4, off + 4 + name_len);
            if valid_utf8(name_bytes) {
                Some(
                    (
                        IndexBundleInfoModel {
                            name: decode_utf8(name_bytes),
                            uncompressed_size: spec_u32_at(raw, off + 4 + name_len),
                        },
                        off + 8 + name_len,
                    ),
                )
            } else {
                None
            }
        }
    }
}

/// `n` consecutive bundle-info records starting at `off`.
pub open spec fn spec_parse_infos(raw: Seq<u8>, off: int, n: nat) -> Option<
    (Seq<IndexBundleInfoModel>, int),
>
    decreases n,
{
    if n == 0 {
        Some((Seq::empty(), off))
    } else {
        match spec_parse_info(raw, off) {
            None => None,
            Some((rec, off2)) => match spec_parse_infos(raw, off2, (n - 1) as nat) {
                None => None,
                Some((rest, end)) => Some((seq![rec] + rest, end)),
            },
        }
    }
}

/// One fixed-width file record at byte offset `off`: `u64` hash, then three
/// `u32` fields, twenty bytes in all.
pub open spec fn spec_parse_file(raw: Seq<u8>, off: int) -> Option<(IndexFileInfo, int)> {
    if off + 20 > raw.len() {
        None
    } else {
        Some(
            (
                IndexFileInfo {
                    hash: spec_u64_at(raw, off),
                    bundle_index: spec_u32_at(raw, off + 8),
                    offset: spec_u32_at(raw, off + 12),
                    size: spec_u32_at(raw, off + 16),
                },
                off + 20,
            ),
        )
    }
}

/// `n` consecutive file records starting at `off`.
pub open spec fn spec_parse_files(raw: Seq<u8>, off: int, n: nat) -> Option<
    (Seq<IndexFileInfo>, int),
>
    decreases n,
{
    if n == 0 {
        Some((Seq::empty(), off))
    } else {
        match spec_parse_file(raw, off) {
            None => None,
            Some((rec, off2)) => match spec_parse_files(raw, off2, (n - 1) as nat) {
                None => None,
                Some((rest, end)) => Some((seq![rec] + rest, end)),
            },
        }
    }
}

/// One fixed-width path record at byte offset `off`: `u64` hash, then three
/// `u32` fields, twenty bytes in all.
pub open spec fn spec_parse_path(raw: Seq<u8>, off: int) -> Option<(IndexPathInfo, int)> {
    if off + 20 > raw.len() {
        None
    } else {
        Some(
            (
                IndexPathInfo {
                    hash: spec_u64_at(raw, off),
                    payload_offset: spec_u32_at(raw, off + 8),
                    payload_size: spec_u32_at(raw, off + 12),
                    payload_rec_size: spec_u32_at(raw, off + 16),
                },
                off + 20,
            ),
        )
    }
}

/// `n` consecutive path records starting at `off`.
pub open spec fn spec_parse_paths(raw: Seq<u8>, off: int, n: nat) -> Option<
    (Seq<IndexPathInfo>, int),
>
    decreases n,
{
    if n == 0 {
        Some((Seq::empty(), off))
    } else {
        match spec_parse_path(raw, off) {
            None => None,
            Some((rec, off2)) => match spec_parse_paths(raw, off2, (n - 1) as nat) {
                None => None,
                Some((rest, end)) => Some((seq![rec] + rest, end)),
            },
        }
    }
}

/// The whole index: a count-prefixed bundle-info table, then a
/// count-prefixed file table, then a count-prefixed path table. Trailing
/// bytes after the last table are ignored.
pub open spec fn spec_parse_index(raw: Seq<u8>) -> Option<IndexModel> {
    if 4 > raw.len() {
        None
    } else {
        match spec_parse_infos(raw, 4, spec_u32_at(raw, 0) as nat) {
            None => None,
            Some((infos, off1)) => {
                if off1 + 4 > raw.len() {
                    None
                } else {
                    match spec_parse_files(raw, off1 + 4, spec_u32_at(raw, off1) as nat) {
                        None => None,
                        Some((files, off2)) => {
                            if off2 + 4 > raw.len() {
                                None
                            } else {
                                match spec_parse_paths(
                                    raw,
                                    off2 + 4,
                                    spec_u32_at(raw, off2) as nat,
                                ) {
                                    None => None,
                                    Some((paths, _end)) => Some(
                                        IndexModel { infos, files, paths },
                                    ),
                                }
                            }
                        },
                    }
                }
            },
        }
    }
}

/// The cross-reference invariant of a decoded index: every file record points
/// at an existing entry of the bundle-info table.
pub open spec fn index_consistent(m: IndexModel) -> bool {
    forall|i: int| 0 <= i < m.files.len() ==> (#[trigger] m.files[i]).bundle_index < m.infos.len()
}

/// Exactly the buffers a decode accepts: the three tables parse, and the
/// file records cross-reference the bundle-info table consistently.
pub open spec fn spec_index_ok(raw: Seq<u8>) -> bool {
    match spec_parse_index(raw) {
        None => false,
        Some(m) => index_consistent(m),
    }
}

/// Relies on std's `String::from_utf8`: it succeeds exactly on valid UTF-8
/// input, and the string it returns holds the characters those bytes encode.
#[verifier::external_body]
fn bytes_to_string(bytes: Vec<u8>) -> (r: Option<String>)
    ensures
        r is Some <==> valid_utf8(bytes@),
        r matches Some(s) ==> s@ == decode_utf8(bytes@),
{
    String::from_utf8(bytes).ok()
}

/// Holds while a table loop runs: parsing the `k` records that remain from
/// the current offset, appended to what is already accumulated, gives the
/// same outcome as parsing all `n` records from the table's start.
pub open spec fn infos_compose(
    raw: Seq<u8>,
    start: int,
    n: nat,
    acc: Seq<IndexBundleInfoModel>,
    off: int,
    k: nat,
) -> bool {
    match spec_parse_infos(raw, off, k) {
        None => spec_parse_infos(raw, start, n) is None,
        Some((rest, end)) => spec_parse_infos(raw, start, n) == Some::<
            (Seq<IndexBundleInfoModel>, int),
        >((acc + rest, end)),
    }
}

/// The file-table analogue of `infos_compose`.
pub open spec fn files_compose(
    raw: Seq<u8>,
    start: int,
    n: nat,
    acc: Seq<IndexFileInfo>,
    off: int,
    k: nat,
) -> bool {
    match spec_parse_files(raw, off, k) {
        None => spec_parse_files(raw, start, n) is None,
        Some((rest, end)) => spec_parse_files(raw, start, n) == Some::<
            (Seq<IndexFileInfo>, int),
        >((acc + rest, end)),
    }
}

/// The path-table analogue of `infos_compose`.
pub open spec fn paths_compose(
    raw: Seq<u8>,
    start: int,
    n: nat,
    acc: Seq<IndexPathInfo>,
    off: int,
    k: nat,
) -> bool {
    match spec_parse_paths(raw, off, k) {
        None => spec_parse_paths(raw, start, n) is None,
        Some((rest, end)) => spec_parse_paths(raw, start, n) == Some::<
            (Seq<IndexPathInfo>, int),
        >((acc + rest, end)),
    }
}

impl IndexBundle {
    /// The bundle-info table as mathematical records.
    pub open spec fn infos_model(&self) -> Seq<IndexBundleInfoModel> {
        self.bundle_infos@.map_values(|b: IndexBundleInfo| b@)
    }

    /// Decodes an index from the concatenated plaintext of the index bundle,
    /// in one left-to-right scan. Succeeds exactly on buffers whose three
    /// tables parse and whose file records all point at existing bundle-info
    /// entries; every malformed read is `DataCorrupted`, never a panic, and
    /// no partially decoded index is ever returned.
    pub fn decode(raw_data: &[u8]) -> (r: Result<IndexBundle, BundleDataErr>)
        ensures
            r is Ok <==> spec_index_ok(raw_data@),
            r matches Ok(ib) ==> spec_parse_index(raw_data@) matches Some(m) && ib.infos_model()
                == m.infos && ib.bundle_files@ == m.files && ib.bundle_paths@ == m.paths,
            r matches Ok(ib) ==> forall|i: int|
                0 <= i < ib.bundle_files@.len() ==> (#[trigger] ib.bundle_files@[i]).bundle_index
                    < ib.bundle_infos@.len(),
            r matches Err(e) ==> e == BundleDataErr::DataCorrupted,
    {
        let raw_len: usize = raw_data.len();
        let index_count = read_u32(raw_data, 0)?;
        let n1: usize = index_count as usize;
        let mut offset: usize = 4;
        let mut infos: Vec<IndexBundleInfo> = Vec::new();
        let mut i: usize = 0;
        while i < n1
            invariant
                i <= n1,
                infos@.len() == i,
                raw_len == raw_data@.len(),
                raw_len >= 4,
                n1 == spec_u32_at(raw_data@, 0),
                4 <= offset <= raw_len,
                infos_compose(
                    raw_data@,
                    4,
                    n1 as nat,
                    infos@.map_values(|b: IndexBundleInfo| b@),
                    offset as int,
                    (n1 - i) as nat,
                ),
            decreases n1 - i,
        {
            let ghost off0 = offset as int;
            let ghost acc0 = infos@.map_values(|b: IndexBundleInfo| b@);
            let name_len_v = read_u32(raw_data, offset)?;
            let name_len: usize = name_len_v as usize;
            let after: usize = offset + 4;
            if name_len > raw_len - after {
                return Err(BundleDataErr::DataCorrupted);
            }
            let name_end: usize = after + name_len;
            if raw_len - name_end < 4 {
                return Err(BundleDataErr::DataCorrupted);
            }
            let name_bytes = slice_to_vec(&raw_data[after..name_end]);
            let name = match bytes_to_string(name_bytes) {
                Some(s) => s,
                None => {
                    return Err(BundleDataErr::DataCorrupted);
                },
            };
            let ghost name_chars = name@;
            let uncompressed_size = read_u32(raw_data, name_end)?;
            let next_off: usize = name_end + 4;
            infos.push(IndexBundleInfo { name, uncompressed_size });
            proof {
                let m = IndexBundleInfoModel {
                    name: name_chars,
                    uncompressed_size: uncompressed_size,
                };
                assert(spec_parse_info(raw_data@, off0) == Some::<(IndexBundleInfoModel, int)>(
                    (m, next_off as int),
                ));
                assert(infos@.map_values(|b: IndexBundleInfo| b@) =~= acc0.push(m));
                let k = (n1 - i) as nat;
                match spec_parse_infos(raw_data@, next_off as int, (k - 1) as nat) {
                    None => {
                        assert(spec_parse_infos(raw_data@, off0, k) is None);
                    },
                    Some((rest, end)) => {
                        assert(spec_parse_infos(raw_data@, off0, k) == Some::<
                            (Seq<IndexBundleInfoModel>, int),
                        >((seq![m] + rest, end)));
                        assert(acc0 + (seq![m] + rest) =~= acc0.push(m) + rest);
                    },
                }
            }
            offset = next_off;
            i = i + 1;
        }
        proof {
            assert(infos@.map_values(|b: IndexBundleInfo| b@) + Seq::<
                IndexBundleInfoModel,
            >::empty() =~= infos@.map_values(|b: IndexBundleInfo| b@));
        }
        let ghost infos_model = infos@.map_values(|b: IndexBundleInfo| b@);
        let ghost off1 = offset as int;

        let file_count = read_u32(raw_data, offset)?;
        let n2: usize = file_count as usize;
        let files_start: usize = offset + 4;
        offset = files_start;
        let mut files: Vec<IndexFileInfo> = Vec::new();
        let mut j: usize = 0;
        while j < n2
            invariant
                j <= n2,
                files@.len() == j,
                raw_len == raw_data@.len(),
                raw_len >= 4,
                n1 == spec_u32_at(raw_data@, 0),
                spec_parse_infos(raw_data@, 4, n1 as nat) == Some::<
                    (Seq<IndexBundleInfoModel>, int),
                >((infos_model, off1)),
                off1 + 4 <= raw_len,
                n2 == spec_u32_at(raw_data@, off1),
                files_start == off1 + 4,
                files_start <= offset <= raw_len,
                files_compose(
                    raw_data@,
                    files_start as int,
                    n2 as nat,
                    files@,
                    offset as int,
                    (n2 - j) as nat,
                ),
            decreases n2 - j,
        {
            let ghost off0 = offset as int;
            let ghost acc0 = files@;
            let hash = read_u64(raw_data, offset)?;
            let bundle_index = read_u32(raw_data, offset + 8)?;
            let file_offset = read_u32(raw_data, offset + 12)?;
            let size = read_u32(raw_data, offset + 16)?;
            let next_off: usize = offset + 20;
            let rec = IndexFileInfo { hash, bundle_index, offset: file_offset, size };
            files.push(rec);
            proof {
                assert(spec_parse_file(raw_data@, off0) == Some::<(IndexFileInfo, int)>(
                    (rec, next_off as int),
                ));
                let k = (n2 - j) as nat;
                match spec_parse_files(raw_data@, next_off as int, (k - 1) as nat) {
                    None => {
                        assert(spec_parse_files(raw_data@, off0, k) is None);
                    },
                    Some((rest, end)) => {
                        assert(spec_parse_files(raw_data@, off0, k) == Some::<
                            (Seq<IndexFileInfo>, int),
                        >((seq![rec] + rest, end)));
                        assert(acc0 + (seq![rec] + rest) =~= acc0.push(rec) + rest);
                    },
                }
            }
            offset = next_off;
            j = j + 1;
        }
        proof {
            assert(files@ + Seq::<IndexFileInfo>::empty() =~= files@);
        }
        let ghost files_model = files@;
        let ghost off2 = offset as int;

        let path_count = read_u32(raw_data, offset)?;
        let n3: usize = path_count as usize;
        let paths_start: usize = offset + 4;
        offset = paths_start;
        let mut paths: Vec<IndexPathInfo> = Vec::new();
        let mut p: usize = 0;
        while p < n3
            invariant
                p <= n3,
                paths@.len() == p,
                raw_len == raw_data@.len(),
                raw_len >= 4,
                n1 == spec_u32_at(raw_data@, 0),
                spec_parse_infos(raw_data@, 4, n1 as nat) == Some::<
                    (Seq<IndexBundleInfoModel>, int),
                >((infos_model, off1)),
                off1 + 4 <= raw_len,
                n2 == spec_u32_at(raw_data@, off1),
                spec_parse_files(raw_data@, off1 + 4, n2 as nat) == Some::<
                    (Seq<IndexFileInfo>, int),
                >((files_model, off2)),
                off2 + 4 <= raw_len,
                n3 == spec_u32_at(raw_data@, off2),
                paths_start == off2 + 4,
                paths_start <= offset <= raw_len,
                paths_compose(
                    raw_data@,
                    paths_start as int,
                    n3 as nat,
                    paths@,
                    offset as int,
                    (n3 - p) as nat,
                ),
            decreases n3 - p,
        {
            let ghost off0 = offset as int;
            let ghost acc0 = paths@;
            let hash = read_u64(raw_data, offset)?;
            let payload_offset = read_u32(raw_data, offset + 8)?;
            let payload_size = read_u32(raw_data, offset + 12)?;
            let payload_rec_size = read_u32(raw_data, offset + 16)?;
            let next_off: usize = offset + 20;
            let rec = IndexPathInfo { hash, payload_offset, payload_size, payload_rec_size };
            paths.push(rec);
            proof {
                assert(spec_parse_path(raw_data@, off0) == Some::<(IndexPathInfo, int)>(
                    (rec, next_off as int),
                ));
                let k = (n3 - p) as nat;
                match spec_parse_paths(raw_data@, next_off as int, (k - 1) as nat) {
                    None => {
                        assert(spec_parse_paths(raw_data@, off0, k) is None);
                    },
                    Some((rest, end)) => {
                        assert(spec_parse_paths(raw_data@, off0, k) == Some::<
                            (Seq<IndexPathInfo>, int),
                        >((seq![rec] + rest, end)));
                        assert(acc0 + (seq![rec] + rest) =~= acc0.push(rec) + rest);
                    },
                }
            }
            offset = next_off;
            p = p + 1;
        }
        proof {
            assert(paths@ + Seq::<IndexPathInfo>::empty() =~= paths@);
        }
        let ghost model = IndexModel { infos: infos_model, files: files_model, paths: paths@ };
        proof {
            assert(spec_parse_index(raw_data@) == Some::<IndexModel>(model));
        }

        let n_infos: usize = infos.len();
        let mut c: usize = 0;
        while c < files.len()
            invariant
                c <= files@.len(),
                n_infos == infos@.len(),
                spec_parse_index(raw_data@) == Some::<IndexModel>(model),
                model.files == files@,
                model.infos.len() == infos@.len(),
                forall|t: int|
                    0 <= t < c ==> (#[trigger] files@[t]).bundle_index < infos@.len(),
            decreases files@.len() - c,
        {
            if files[c].bundle_index as usize >= n_infos {
                return Err(BundleDataErr::DataCorrupted);
            }
            c = c + 1;
        }

        Ok(IndexBundle { bundle_infos: infos, bundle_files: files, bundle_paths: paths })
    }
}

} // verus!
