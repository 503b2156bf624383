//! Disk usage reader: parses the mounts source into filesystem entries and
//! sizes each mountpoint through the filesystem statistics call.

use vstd::prelude::*;

use crate::text::{
    spec_split_keep, spec_tokens, split_keep, split_tokens, has_prefix, SepClass,
};

verus! {

/// One mounted filesystem with its sizes in bytes.
pub struct FsData {
    pub filesystem: String,
    pub mountpoint: String,
    pub total: u64,
    pub available: u64,
}

/// The mathematical value of an `FsData`.
pub struct FsDataV {
    pub filesystem: Seq<char>,
    pub mountpoint: Seq<char>,
    pub total: u64,
    pub available: u64,
}

impl View for FsData {
    type V = FsDataV;

    open spec fn view(&self) -> FsDataV {
        FsDataV {
            filesystem: self.filesystem@,
            mountpoint: self.mountpoint@,
            total: self.total,
            available: self.available,
        }
    }
}

impl DeepView for FsData {
    type V = FsDataV;

    open spec fn deep_view(&self) -> FsDataV {
        self.view()
    }
}

/// One line of the mounts source: the filesystem and where it is mounted.
pub struct MountEntry {
    pub filesystem: String,
    pub mountpoint: String,
}

/// The mathematical value of a `MountEntry`.
pub struct MountEntryV {
    pub filesystem: Seq<char>,
    pub mountpoint: Seq<char>,
}

impl View for MountEntry {
    type V = MountEntryV;

    open spec fn view(&self) -> MountEntryV {
        MountEntryV { filesystem: self.filesystem@, mountpoint: self.mountpoint@ }
    }
}

impl DeepView for MountEntry {
    type V = MountEntryV;

    open spec fn deep_view(&self) -> MountEntryV {
        self.view()
    }
}

pub open spec fn spec_has_prefix(s: Seq<char>, p: Seq<char>) -> bool {
    s.len() >= p.len() && s.take(p.len() as int) == p
}

/// Whether a mountpoint lies under one of the virtual or volatile trees
/// the reader leaves out.
pub open spec fn is_excluded_mount(mount: Seq<char>) -> bool {
    spec_has_prefix(mount, "/proc"@) || spec_has_prefix(mount, "/sys"@) || spec_has_prefix(
        mount,
        "/run"@,
    ) || spec_has_prefix(mount, "/dev"@) || spec_has_prefix(mount, "/tmp"@) || spec_has_prefix(
        mount,
        "/var"@,
    )
}

/// The mount entries of the source, in order: lines with a filesystem and
/// a mountpoint field, the excluded trees left out.
pub open spec fn spec_mount_entries(lines: Seq<Seq<char>>) -> Seq<MountEntryV>
    decreases lines.len(),
{
    if lines.len() == 0 {
        Seq::empty()
    } else {
        let rest = spec_mount_entries(lines.drop_last());
        let t = spec_tokens(lines.last(), SepClass::Whitespace);
        if t.len() < 2 || is_excluded_mount(t[1]) {
            rest
        } else {
            rest.push(MountEntryV { filesystem: t[0], mountpoint: t[1] })
        }
    }
}

/// What the whole mounts source denotes.
pub open spec fn spec_mounts(text: Seq<char>) -> Seq<MountEntryV> {
    spec_mount_entries(spec_split_keep(text, SepClass::Line))
}

fn is_excluded_mount_exec(mount: &str) -> (r: bool)
    ensures
        r == is_excluded_mount(mount@),
{
    has_prefix(mount, "/proc") || has_prefix(mount, "/sys") || has_prefix(mount, "/run")
        || has_prefix(mount, "/dev") || has_prefix(mount, "/tmp") || has_prefix(mount, "/var")
}

/// Parses the mounts source into its entries.
pub fn parse_mounts(text: &str) -> (r: Vec<MountEntry>)
    ensures
        r.deep_view() == spec_mounts(text@),
{
    let lines = split_keep(text, SepClass::Line);
    let ghost dv = spec_split_keep(text@, SepClass::Line);
    proof {
        assert(lines@.len() == dv.len());
        assert(forall|i: int| 0 <= i < lines@.len() ==> (#[trigger] lines@[i])@ == dv[i]);
    }
    let mut out: Vec<MountEntry> = Vec::new();
    let n = lines.len();
    let mut i: usize = 0;
    proof {
        assert(dv.take(0) =~= Seq::<Seq<char>>::empty());
        assert(out.deep_view() =~= spec_mount_entries(dv.take(0)));
    }
    while i < n
        invariant
            i <= n,
            n == lines@.len(),
            dv == spec_split_keep(text@, SepClass::Line),
            lines@.len() == dv.len(),
            forall|j: int| 0 <= j < lines@.len() ==> (#[trigger] lines@[j])@ == dv[j],
            out.deep_view() == spec_mount_entries(dv.take(i as int)),
        decreases n - i,
    {
        proof {
            assert(dv.take(i + 1).drop_last() =~= dv.take(i as int));
            assert(dv.take(i + 1).last() == dv[i as int]);
        }
        let mut t = split_tokens(lines[i].as_str(), SepClass::Whitespace);
        let ghost tv = spec_tokens(dv[i as int], SepClass::Whitespace);
        proof {
            assert(t@.len() == tv.len());
            assert(forall|j: int| 0 <= j < t@.len() ==> (#[trigger] t@[j])@ == tv[j]);
        }
        if t.len() >= 2 {
            if !is_excluded_mount_exec(t[1].as_str()) {
                let mountpoint = t.remove(1);
                let filesystem = t.remove(0);
                let ghost before = out.deep_view();
                out.push(MountEntry { filesystem, mountpoint });
                proof {
                    assert(out.deep_view() =~= before.push(
                        MountEntryV { filesystem: tv[0], mountpoint: tv[1] },
                    ));
                }
            }
        }
        i = i + 1;
    }
    proof {
        assert(dv.take(n as int) =~= dv);
    }
    out
}

/// The sizes one mount entry yields from the probe's block size and block
/// counts; `None` when a product does not fit in bytes.
pub open spec fn spec_fs_data(
    entry: MountEntryV,
    block_size: u64,
    blocks: u64,
    available_blocks: u64,
) -> Option<FsDataV> {
    if block_size * blocks > u64::MAX || block_size * available_blocks > u64::MAX {
        None
    } else {
        Some(
            FsDataV {
                filesystem: entry.filesystem,
                mountpoint: entry.mountpoint,
                total: (block_size * blocks) as u64,
                available: (block_size * available_blocks) as u64,
            },
        )
    }
}

/// Builds the sized record of one mount entry from probe results.
pub fn fs_data_from_stat(entry: MountEntry, block_size: u64, blocks: u64, available_blocks:
    u64) -> (r: Option<FsData>)
    ensures
        (match spec_fs_data(entry@, block_size, blocks, available_blocks) {
            None => r is None,
            Some(v) => r matches Some(f) && f@ == v,
        }),
{
    let total = match block_size.checked_mul(blocks) {
        None => {
            return None;
        },
        Some(v) => v,
    };
    let available = match block_size.checked_mul(available_blocks) {
        None => {
            return None;
        },
        Some(v) => v,
    };
    Some(
        FsData {
            filesystem: entry.filesystem,
            mountpoint: entry.mountpoint,
            total,
            available,
        },
    )
}

/// Relies on nix::sys::statvfs::statvfs: the fragment size and the block
/// counts of the filesystem at `path`. What it reports depends on the
/// machine's filesystems, so nothing more is stated.
#[verifier::external_body]
fn statvfs_counts(path: &str) -> (r: Option<(u64, u64, u64)>) {
    match nix::sys::statvfs::statvfs(path) {
        Ok(s) => Some((s.block_size() as u64, s.blocks() as u64, s.blocks_available() as u64)),
        Err(_) => None,
    }
}

/// The rows one round yields from the parsed entries under one probe
/// outcome per entry, in file order: an entry whose probe failed, or
/// whose sizes do not fit, yields no row, and every other entry yields
/// exactly the sized record of its outcome.
pub open spec fn spec_disk_rows(
    entries: Seq<MountEntryV>,
    probes: Seq<Option<(u64, u64, u64)>>,
) -> Seq<FsDataV>
    recommends
        probes.len() == entries.len(),
    decreases entries.len(),
{
    if entries.len() == 0 {
        Seq::empty()
    } else {
        let rest = spec_disk_rows(entries.drop_last(), probes.drop_last());
        match probes[entries.len() - 1] {
            None => rest,
            Some(p) => match spec_fs_data(entries.last(), p.0, p.1, p.2) {
                None => rest,
                Some(row) => rest.push(row),
            },
        }
    }
}

/// Whether `rows` is exactly what the parsed entries yield under some
/// per-entry probe outcomes.
pub open spec fn disk_rows_from_probes(rows: Seq<FsDataV>, entries: Seq<MountEntryV>) -> bool {
    exists|probes: Seq<Option<(u64, u64, u64)>>|
        probes.len() == entries.len() && rows == #[trigger] spec_disk_rows(entries, probes)
}

proof fn lemma_disk_rows_len(entries: Seq<MountEntryV>, probes: Seq<Option<(u64, u64, u64)>>)
    ensures
        spec_disk_rows(entries, probes).len() <= entries.len(),
    decreases entries.len(),
{
    if entries.len() > 0 {
        lemma_disk_rows_len(entries.drop_last(), probes.drop_last());
    }
}

/// The mounted filesystems with their sizes.
pub struct DiskData {
    pub filesystems: Vec<FsData>,
}

impl DiskData {
    /// Reads the mounts source text and probes each kept mountpoint. The
    /// probes' outcomes depend on the machine, but whatever came back, the
    /// reported table is exactly what the parsed entries yield under those
    /// outcomes, in file order: an entry whose probe failed, or whose
    /// sizes do not fit, is dropped alone, and every other kept mounts
    /// line yields exactly one row.
    pub fn get(mounts: &str) -> (r: DiskData)
        ensures
            r.filesystems.deep_view().len() <= spec_mounts(mounts@).len(),
            disk_rows_from_probes(r.filesystems.deep_view(), spec_mounts(mounts@)),
    {
        let entries = parse_mounts(mounts);
        let ghost ev = spec_mounts(mounts@);
        let mut filesystems: Vec<FsData> = Vec::new();
        let ghost mut probes: Seq<Option<(u64, u64, u64)>> = Seq::empty();
        let n = entries.len();
        let mut i: usize = 0;
        proof {
            assert(filesystems.deep_view() =~= spec_disk_rows(ev.take(0), probes));
        }
        while i < n
            invariant
                i <= n,
                n == entries@.len(),
                ev == spec_mounts(mounts@),
                entries.deep_view() == ev,
                ev.len() == n,
                probes.len() == i,
                filesystems.deep_view() == spec_disk_rows(ev.take(i as int), probes),
            decreases n - i,
        {
            let entry = MountEntry {
                filesystem: entries[i].filesystem.clone(),
                mountpoint: entries[i].mountpoint.clone(),
            };
            proof {
                assert(entry@ == entries.deep_view()[i as int]);
            }
            let ghost probes_before = probes;
            let ghost rows_before = filesystems.deep_view();
            match statvfs_counts(entry.mountpoint.as_str()) {
                None => {
                    proof {
                        probes = probes.push(None);
                    }
                },
                Some(stat) => {
                    let (block_size, blocks, available_blocks) = stat;
                    proof {
                        probes = probes.push(Some((block_size, blocks, available_blocks)));
                    }
                    match fs_data_from_stat(entry, block_size, blocks, available_blocks) {
                        None => {
                        },
                        Some(f) => {
                            filesystems.push(f);
                            proof {
                                assert(filesystems.deep_view() =~= rows_before.push(f@));
                            }
                        },
                    }
                },
            }
            proof {
                assert(ev.take(i + 1).drop_last() =~= ev.take(i as int));
                assert(ev.take(i + 1).last() == ev[i as int]);
                assert(probes.drop_last() =~= probes_before);
                assert(filesystems.deep_view() =~= spec_disk_rows(ev.take(i + 1), probes));
            }
            i = i + 1;
        }
        proof {
            assert(ev.take(n as int) =~= ev);
            lemma_disk_rows_len(ev, probes);
            assert(probes.len() == ev.len() && filesystems.deep_view() == spec_disk_rows(
                ev,
                probes,
            ));
        }
        DiskData { filesystems }
    }
}

} // verus!
