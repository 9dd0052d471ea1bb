//! What keeps an adapter from being flashed: disks behind it that are in use.

use crate::text::{
    before, before_ends_at_first, chars_of, cut_before, has_prefix, holds, is_digit, is_white,
    labelled, line_list, lines, one_word, same_chars, same_text, split_words, starts_with,
    string_from_utf8, string_from_utf8_lossy, string_of, strings, texts, trim, trimmed,
    trimmed_start, trim_start, utf8_lossy, white_space_parts_words, words,
};
use vstd::prelude::*;
use vstd::utf8::{decode_utf8, valid_utf8};

verus! {

/// Errors of the checks.
#[derive(Debug)]
pub enum SafetyError {
    /// A file cannot be read.
    Io(String),
    /// A tool cannot be run.
    ToolExecution { tool: String, reason: String },
}

impl SafetyError {
    /// The error in words.
    pub open spec fn spec_text(&self) -> Seq<char> {
        match self {
            SafetyError::Io(e) => "io: "@ + e@,
            SafetyError::ToolExecution { tool, reason } => "failed to execute "@ + tool@ + ": "@
                + reason@,
        }
    }

    /// The error in words.
    pub fn text(&self) -> (r: String)
        ensures
            r@ == self.spec_text(),
    {
        match self {
            SafetyError::Io(e) => labelled("io: ", e.as_str()),
            SafetyError::ToolExecution { tool, reason } => {
                let mut t = labelled("failed to execute ", tool.as_str());
                t.append(": ");
                t.append(reason.as_str());
                t
            },
        }
    }
}

/// A use of a disk.
#[derive(Debug)]
pub enum SafetyConcern {
    /// It holds a mounted file system.
    MountedFilesystem { device: String, mountpoint: String, fstype: String },
    /// It belongs to a volume group.
    LvmPhysicalVolume { device: String, vg_name: String },
    /// It belongs to a disk array.
    MdraidMember { device: String, array_name: String },
    /// It belongs to a storage pool.
    ZfsVdev { device: String, pool_name: String },
}

/// What a use of a disk stands for.
#[verifier::ext_equal]
pub enum ConcernModel {
    Mounted { device: Seq<char>, mountpoint: Seq<char>, fstype: Seq<char> },
    Lvm { device: Seq<char>, vg_name: Seq<char> },
    Mdraid { device: Seq<char>, array_name: Seq<char> },
    Zfs { device: Seq<char>, pool_name: Seq<char> },
}

impl View for SafetyConcern {
    type V = ConcernModel;

    open spec fn view(&self) -> ConcernModel {
        match self {
            SafetyConcern::MountedFilesystem { device, mountpoint, fstype } => {
                ConcernModel::Mounted { device: device@, mountpoint: mountpoint@, fstype: fstype@ }
            },
            SafetyConcern::LvmPhysicalVolume { device, vg_name } => {
                ConcernModel::Lvm { device: device@, vg_name: vg_name@ }
            },
            SafetyConcern::MdraidMember { device, array_name } => {
                ConcernModel::Mdraid { device: device@, array_name: array_name@ }
            },
            SafetyConcern::ZfsVdev { device, pool_name } => {
                ConcernModel::Zfs { device: device@, pool_name: pool_name@ }
            },
        }
    }
}

impl ConcernModel {
    /// What is the matter, and what to do.
    pub open spec fn message(self) -> Seq<char> {
        match self {
            ConcernModel::Mounted { device, mountpoint, fstype } => "Block device "@ + device
                + " ("@ + fstype + ") is mounted at "@ + mountpoint
                + ".\nFlashing would corrupt the filesystem in active use.\n  Fix: umount "@
                + mountpoint
                + " before re-running flash, OR move the data off this card."@,
            ConcernModel::Lvm { device, vg_name } => "Block device "@ + device
                + " is an LVM physical volume in volume group '"@ + vg_name
                + "'.\nFlashing would brick the VG.\n  Fix: 'vgchange -an "@ + vg_name
                + "' or 'pvmove' off this disk before flashing."@,
            ConcernModel::Mdraid { device, array_name } => "Block device "@ + device
                + " is a member of active mdraid array '"@ + array_name
                + "'.\nFlashing would corrupt the RAID array beyond recovery.\n  Fix: 'mdadm --stop /dev/"@
                + array_name + "' before flashing."@,
            ConcernModel::Zfs { device, pool_name } => "Block device "@ + device
                + " is part of active ZFS pool '"@ + pool_name
                + "'.\nFlashing would corrupt the ZFS vdev.\n  Fix: 'zpool export "@ + pool_name
                + "' before flashing."@,
        }
    }
}

impl SafetyConcern {
    /// What is the matter, and what to do.
    pub fn human(&self) -> (r: String)
        ensures
            r@ == self@.message(),
    {
        let mut t = "Block device ".to_owned();
        match self {
            SafetyConcern::MountedFilesystem { device, mountpoint, fstype } => {
                t.append(device.as_str());
                t.append(" (");
                t.append(fstype.as_str());
                t.append(") is mounted at ");
                t.append(mountpoint.as_str());
                t.append(".\nFlashing would corrupt the filesystem in active use.\n  Fix: umount ");
                t.append(mountpoint.as_str());
                t.append(" before re-running flash, OR move the data off this card.");
            },
            SafetyConcern::LvmPhysicalVolume { device, vg_name } => {
                t.append(device.as_str());
                t.append(" is an LVM physical volume in volume group '");
                t.append(vg_name.as_str());
                t.append("'.\nFlashing would brick the VG.\n  Fix: 'vgchange -an ");
                t.append(vg_name.as_str());
                t.append("' or 'pvmove' off this disk before flashing.");
            },
            SafetyConcern::MdraidMember { device, array_name } => {
                t.append(device.as_str());
                t.append(" is a member of active mdraid array '");
                t.append(array_name.as_str());
                t.append("'.\nFlashing would corrupt the RAID array beyond recovery.\n  Fix: 'mdadm --stop /dev/");
                t.append(array_name.as_str());
                t.append("' before flashing.");
            },
            SafetyConcern::ZfsVdev { device, pool_name } => {
                t.append(device.as_str());
                t.append(" is part of active ZFS pool '");
                t.append(pool_name.as_str());
                t.append("'.\nFlashing would corrupt the ZFS vdev.\n  Fix: 'zpool export ");
                t.append(pool_name.as_str());
                t.append("' before flashing.");
            },
        }
        t
    }
}

impl Clone for SafetyConcern {
    fn clone(&self) -> (r: Self)
        ensures
            r@ == self@,
    {
        match self {
            SafetyConcern::MountedFilesystem { device, mountpoint, fstype } => {
                SafetyConcern::MountedFilesystem {
                    device: device.clone(),
                    mountpoint: mountpoint.clone(),
                    fstype: fstype.clone(),
                }
            },
            SafetyConcern::LvmPhysicalVolume { device, vg_name } => {
                SafetyConcern::LvmPhysicalVolume { device: device.clone(), vg_name: vg_name.clone() }
            },
            SafetyConcern::MdraidMember { device, array_name } => {
                SafetyConcern::MdraidMember {
                    device: device.clone(),
                    array_name: array_name.clone(),
                }
            },
            SafetyConcern::ZfsVdev { device, pool_name } => {
                SafetyConcern::ZfsVdev { device: device.clone(), pool_name: pool_name.clone() }
            },
        }
    }
}

/// What uses of disks stand for.
pub open spec fn concern_models(v: Seq<SafetyConcern>) -> Seq<ConcernModel> {
    v.map_values(|c: SafetyConcern| c@)
}

// ---------------------------------------------------------------- devices

/// Whether the name is that of a disk.
pub open spec fn disk_name(s: Seq<char>) -> bool {
    has_prefix(s, "sd"@) || has_prefix(s, "nvme"@) || has_prefix(s, "vd"@)
}

fn is_disk(s: &[char]) -> (r: bool)
    ensures
        r == disk_name(s@),
{
    starts_with(s, "sd") || starts_with(s, "nvme") || starts_with(s, "vd")
}

/// The paths of those names that are disks, each once, in the order in which they come
/// first.
pub open spec fn disk_paths(names: Seq<Seq<char>>) -> Seq<Seq<char>>
    decreases names.len(),
{
    if names.len() == 0 {
        Seq::empty()
    } else {
        let rest = disk_paths(names.drop_last());
        let path = "/dev/"@ + names.last();
        if disk_name(names.last()) && !rest.contains(path) {
            rest.push(path)
        } else {
            rest
        }
    }
}

fn listed(v: &Vec<String>, s: &str) -> (r: bool)
    ensures
        r == strings(v@).contains(s@),
{
    let mut i: usize = 0;
    while i < v.len()
        invariant
            i <= v@.len(),
            forall|k: int| 0 <= k < i ==> strings(v@)[k] != s@,
        decreases v@.len() - i,
    {
        if same_text(v[i].as_str(), s) {
            assert(strings(v@)[i as int] == s@);
            return true;
        }
        i += 1;
    }
    false
}

/// The disks behind an adapter, by the names that the kernel lists under its targets.
pub fn devices_attached_to_card(names: &Vec<String>) -> (r: Vec<String>)
    ensures
        strings(r@) == disk_paths(strings(names@)),
{
    let mut out: Vec<String> = Vec::new();
    let mut i: usize = 0;
    let ghost all = strings(names@);
    assert(strings(out@) =~= disk_paths(all.take(0)));
    while i < names.len()
        invariant
            i <= names@.len(),
            all == strings(names@),
            strings(out@) == disk_paths(all.take(i as int)),
        decreases names@.len() - i,
    {
        let ghost u = all.take(i + 1);
        assert(u.drop_last() =~= all.take(i as int));
        let cs = chars_of(names[i].as_str());
        assert(u.last() == cs@);
        let ghost known = out@;
        if is_disk(cs.as_slice()) {
            let path = labelled("/dev/", names[i].as_str());
            if !listed(&out, path.as_str()) {
                out.push(path);
                assert(strings(out@) =~= strings(known).push(path@));
            }
        }
        i += 1;
    }
    assert(all.take(i as int) =~= all);
    out
}

/// Whether all characters are digits.
pub open spec fn all_digits(s: Seq<char>) -> bool {
    forall|k: int| 0 <= k < s.len() ==> is_digit(#[trigger] s[k])
}

/// Whether a device is the disk `target` or one of its partitions.
pub open spec fn belongs(device: Seq<char>, target: Seq<char>) -> bool {
    device == target || (has_prefix(device, target) && device.len() > target.len() && all_digits(
        device.skip(target.len() as int),
    ))
}

fn chars_belong(device: &[char], target: &[char]) -> (r: bool)
    ensures
        r == belongs(device@, target@),
{
    if same_chars(device, target) {
        return true;
    }
    if device.len() <= target.len() {
        return false;
    }
    let n: usize = target.len();
    let head = &device[0..n];
    assert(head@ =~= device@.take(n as int));
    if !same_chars(head, target) {
        return false;
    }
    let ghost rest = device@.skip(n as int);
    let mut i: usize = n;
    while i < device.len()
        invariant
            n == target@.len(),
            n <= i <= device@.len(),
            rest == device@.skip(n as int),
            forall|k: int| 0 <= k < i - n ==> is_digit(#[trigger] rest[k]),
        decreases device@.len() - i,
    {
        assert(rest[i - n] == device@[i as int]);
        if !('0' <= device[i] && device[i] <= '9') {
            return false;
        }
        i += 1;
    }
    true
}

/// Whether a mounted device is the disk `target` or one of its partitions.
pub fn is_mounted_device(mount_dev: &str, target: &str) -> (r: bool)
    ensures
        r == belongs(mount_dev@, target@),
{
    chars_belong(chars_of(mount_dev).as_slice(), chars_of(target).as_slice())
}

/// Whether a device belongs to one of the disks.
pub open spec fn belongs_to_any(device: Seq<char>, disks: Seq<Seq<char>>) -> bool {
    exists|k: int| 0 <= k < disks.len() && belongs(device, #[trigger] disks[k])
}

fn belongs_any(device: &[char], disks: &Vec<String>) -> (r: bool)
    ensures
        r == belongs_to_any(device@, strings(disks@)),
{
    let mut i: usize = 0;
    let ghost all = strings(disks@);
    while i < disks.len()
        invariant
            i <= disks@.len(),
            all == strings(disks@),
            forall|k: int| 0 <= k < i ==> !belongs(device@, #[trigger] all[k]),
        decreases disks@.len() - i,
    {
        if chars_belong(device, chars_of(disks[i].as_str()).as_slice()) {
            assert(belongs(device@, all[i as int]));
            return true;
        }
        assert(all[i as int] == disks@[i as int]@);
        i += 1;
    }
    false
}

/// A concern once for each of the disks that a device belongs to.
pub open spec fn once_per_disk(c: ConcernModel, device: Seq<char>, disks: Seq<Seq<char>>) -> Seq<
    ConcernModel,
>
    decreases disks.len(),
{
    if disks.len() == 0 {
        Seq::empty()
    } else {
        let rest = once_per_disk(c, device, disks.drop_last());
        if belongs(device, disks.last()) {
            rest.push(c)
        } else {
            rest
        }
    }
}

fn push_per_disk(out: &mut Vec<SafetyConcern>, c: &SafetyConcern, device: &[char], disks: &Vec<String>)
    ensures
        concern_models(final(out)@) == concern_models(old(out)@) + once_per_disk(
            c@,
            device@,
            strings(disks@),
        ),
{
    let ghost all = strings(disks@);
    let mut i: usize = 0;
    assert(concern_models(out@) =~= concern_models(old(out)@) + once_per_disk(
        c@,
        device@,
        all.take(0),
    ));
    while i < disks.len()
        invariant
            i <= disks@.len(),
            all == strings(disks@),
            concern_models(out@) == concern_models(old(out)@) + once_per_disk(
                c@,
                device@,
                all.take(i as int),
            ),
        decreases disks@.len() - i,
    {
        let ghost u = all.take(i + 1);
        assert(u.drop_last() =~= all.take(i as int));
        assert(u.last() == disks@[i as int]@);
        let ghost known = out@;
        if chars_belong(device, chars_of(disks[i].as_str()).as_slice()) {
            out.push(c.clone());
            assert(concern_models(out@) =~= concern_models(known).push(c@));
        }
        assert(concern_models(out@) =~= concern_models(old(out)@) + once_per_disk(c@, device@, u));
        i += 1;
    }
    assert(all.take(i as int) =~= all);
}

// ----------------------------------------------------------------- mounts

/// The concern of one line of the list of mounts.
pub open spec fn mount_concern(line: Seq<char>, disks: Seq<Seq<char>>) -> Option<ConcernModel> {
    let w = words(line);
    if w.len() >= 3 && belongs_to_any(w[0], disks) {
        Some(ConcernModel::Mounted { device: w[0], mountpoint: w[1], fstype: w[2] })
    } else {
        None
    }
}

/// The concerns of the lines of the list of mounts.
pub open spec fn mount_concerns(v: Seq<Seq<char>>, disks: Seq<Seq<char>>) -> Seq<ConcernModel>
    decreases v.len(),
{
    if v.len() == 0 {
        Seq::empty()
    } else {
        let rest = mount_concerns(v.drop_last(), disks);
        match mount_concern(v.last(), disks) {
            Some(c) => rest.push(c),
            None => rest,
        }
    }
}

/// What reading a file gave.
#[derive(Debug)]
pub enum TextSource {
    /// It cannot be opened.
    Missing,
    /// Its text.
    Text(String),
    /// It cannot be read to its end.
    Broken(String),
}

/// Finds mounted file systems on the disks, by the list of mounts. Each line gives a
/// device, where it is mounted, and the type of its file system.
pub fn check_mounted(devices: &Vec<String>, mounts: &TextSource) -> (r: Result<
    Vec<SafetyConcern>,
    SafetyError,
>)
    ensures
        match mounts {
            TextSource::Missing => r is Ok && r->Ok_0@.len() == 0,
            TextSource::Text(t) => r is Ok && concern_models(r->Ok_0@) == mount_concerns(
                lines(t@),
                strings(devices@),
            ),
            TextSource::Broken(e) => r is Err && r->Err_0 is Io && r->Err_0->Io_0@ == e@,
        },
{
    let mut out: Vec<SafetyConcern> = Vec::new();
    let text = match mounts {
        TextSource::Missing => return Ok(out),
        TextSource::Broken(e) => return Err(SafetyError::Io(e.clone())),
        TextSource::Text(t) => t,
    };
    let list = line_list(chars_of(text.as_str()).as_slice());
    let ghost all = lines(text@);
    let mut i: usize = 0;
    assert(concern_models(out@) =~= mount_concerns(all.take(0), strings(devices@)));
    while i < list.len()
        invariant
            i <= list@.len(),
            texts(list@) == all,
            concern_models(out@) == mount_concerns(all.take(i as int), strings(devices@)),
        decreases list@.len() - i,
    {
        let ghost u = all.take(i + 1);
        assert(u.drop_last() =~= all.take(i as int));
        assert(u.last() == list@[i as int]@);
        let w = split_words(list[i].as_slice());
        assert(texts(w@).len() == w@.len());
        let ghost known = out@;
        if w.len() >= 3 {
            assert(texts(w@)[0] == w@[0]@ && texts(w@)[1] == w@[1]@ && texts(w@)[2] == w@[2]@);
            if belongs_any(w[0].as_slice(), devices) {
                let c = SafetyConcern::MountedFilesystem {
                    device: string_of(w[0].as_slice()),
                    mountpoint: string_of(w[1].as_slice()),
                    fstype: string_of(w[2].as_slice()),
                };
                out.push(c);
                assert(concern_models(out@) =~= concern_models(known).push(c@));
            }
        }
        i += 1;
    }
    assert(all.take(i as int) =~= all);
    Ok(out)
}

/// A mount of one of the disks is found: where a line of the list of mounts names a
/// device of one, there is a concern.
pub proof fn mount_is_found(v: Seq<Seq<char>>, disks: Seq<Seq<char>>, i: int)
    requires
        0 <= i < v.len(),
        words(v[i]).len() >= 3,
        belongs_to_any(words(v[i])[0], disks),
    ensures
        mount_concerns(v, disks).len() > 0,
    decreases v.len(),
{
    if i < v.len() - 1 {
        assert(v.drop_last()[i] == v[i]);
        mount_is_found(v.drop_last(), disks, i);
    }
}

// ---------------------------------------------------------------- volumes

/// The concern of one line of the list of physical volumes.
pub open spec fn volume_concern(line: Seq<char>, disks: Seq<Seq<char>>) -> Option<ConcernModel> {
    let w = words(line);
    if w.len() >= 2 && w[0] != "PV"@ && belongs_to_any(w[0], disks) {
        Some(ConcernModel::Lvm { device: w[0], vg_name: w[1] })
    } else {
        None
    }
}

/// The concerns of the lines of the list of physical volumes.
pub open spec fn volume_concerns(v: Seq<Seq<char>>, disks: Seq<Seq<char>>) -> Seq<ConcernModel>
    decreases v.len(),
{
    if v.len() == 0 {
        Seq::empty()
    } else {
        let rest = volume_concerns(v.drop_last(), disks);
        match volume_concern(v.last(), disks) {
            Some(c) => rest.push(c),
            None => rest,
        }
    }
}

/// Finds physical volumes on the disks, by the list that `pvs` prints. Each line gives a
/// device and its volume group; the line of headings is passed over.
pub fn parse_pvs(devices: &Vec<String>, report: &str) -> (r: Vec<SafetyConcern>)
    ensures
        concern_models(r@) == volume_concerns(lines(report@), strings(devices@)),
{
    let mut out: Vec<SafetyConcern> = Vec::new();
    let list = line_list(chars_of(report).as_slice());
    let ghost all = lines(report@);
    let mut i: usize = 0;
    let heading = chars_of("PV");
    assert(concern_models(out@) =~= volume_concerns(all.take(0), strings(devices@)));
    while i < list.len()
        invariant
            i <= list@.len(),
            texts(list@) == all,
            heading@ == "PV"@,
            concern_models(out@) == volume_concerns(all.take(i as int), strings(devices@)),
        decreases list@.len() - i,
    {
        let ghost u = all.take(i + 1);
        assert(u.drop_last() =~= all.take(i as int));
        assert(u.last() == list@[i as int]@);
        let w = split_words(list[i].as_slice());
        assert(texts(w@).len() == w@.len());
        let ghost known = out@;
        if w.len() >= 2 {
            assert(texts(w@)[0] == w@[0]@ && texts(w@)[1] == w@[1]@);
            if !same_chars(w[0].as_slice(), heading.as_slice()) && belongs_any(
                w[0].as_slice(),
                devices,
            ) {
                let c = SafetyConcern::LvmPhysicalVolume {
                    device: string_of(w[0].as_slice()),
                    vg_name: string_of(w[1].as_slice()),
                };
                out.push(c);
                assert(concern_models(out@) =~= concern_models(known).push(c@));
            }
        }
        i += 1;
    }
    assert(all.take(i as int) =~= all);
    out
}

/// A physical volume on one of the disks is found: where a line of the list of physical
/// volumes names a device of one and its group, there is a concern.
pub proof fn volume_is_found(v: Seq<Seq<char>>, disks: Seq<Seq<char>>, i: int)
    requires
        0 <= i < v.len(),
        words(v[i]).len() >= 2,
        words(v[i])[0] != "PV"@,
        belongs_to_any(words(v[i])[0], disks),
    ensures
        volume_concerns(v, disks).len() > 0,
    decreases v.len(),
{
    if i < v.len() - 1 {
        assert(v.drop_last()[i] == v[i]);
        volume_is_found(v.drop_last(), disks, i);
    }
}

/// What running a tool gave.
#[derive(Debug)]
pub enum ToolOutcome {
    /// It ran: whether it succeeded, and what it printed.
    Ran { success: bool, stdout: Vec<u8> },
    /// It cannot be run.
    Failed(SafetyError),
}

/// The error of a tool that cannot be run.
pub fn run_tool(tool: &str, found: bool, reason: &str) -> (r: SafetyError)
    ensures
        r is ToolExecution,
        r->tool@ == tool@,
        r->reason@ == (if found {
            reason@
        } else {
            "command not found"@
        }),
{
    SafetyError::ToolExecution {
        tool: tool.to_owned(),
        reason: if found { reason.to_owned() } else { "command not found".to_owned() },
    }
}

/// Finds physical volumes on the disks. Where `pvs` cannot be run or fails, there are
/// none.
pub fn check_lvm(devices: &Vec<String>, pvs: &ToolOutcome) -> (r: Vec<SafetyConcern>)
    ensures
        concern_models(r@) == (match pvs {
            ToolOutcome::Ran { success: true, stdout } => volume_concerns(
                lines(utf8_lossy(stdout@)),
                strings(devices@),
            ),
            _ => Seq::empty(),
        }),
{
    if let ToolOutcome::Ran { success: true, stdout } = pvs {
        let report = string_from_utf8_lossy(stdout.as_slice());
        return parse_pvs(devices, report.as_str());
    }
    let none: Vec<SafetyConcern> = Vec::new();
    assert(concern_models(none@) =~= Seq::empty());
    none
}

// ----------------------------------------------------------------- arrays

/// Whether a line of the list of arrays starts an array.
pub open spec fn array_line(line: Seq<char>) -> bool {
    has_prefix(line, "md"@) && line.contains(':')
}

/// `s` without any number of closing brackets at its end.
pub open spec fn without_brackets(s: Seq<char>) -> Seq<char>
    decreases s.len(),
{
    if s.len() > 0 && s.last() == ']' {
        without_brackets(s.drop_last())
    } else {
        s
    }
}

fn strip_brackets(s: &[char]) -> (r: &[char])
    ensures
        r@ == without_brackets(s@),
{
    let mut n: usize = s.len();
    assert(s@.take(n as int) =~= s@);
    while n > 0 && s[n - 1] == ']'
        invariant
            n <= s@.len(),
            without_brackets(s@) == without_brackets(s@.take(n as int)),
        decreases n,
    {
        assert(s@.take(n as int).drop_last() =~= s@.take(n - 1));
        n -= 1;
    }
    assert(s@.subrange(0, n as int) =~= s@.take(n as int));
    &s[0..n]
}

/// The device that a word names in a line of the list of arrays: the role of a member
/// stands behind it in square brackets.
pub open spec fn member_device(word: Seq<char>) -> Seq<char> {
    "/dev/"@ + before(without_brackets(word), '[')
}

/// Whether a word names a member. In a line that follows that of an array, only with
/// its role.
pub open spec fn names_member(word: Seq<char>, first: bool) -> bool {
    disk_name(word) && (first || word.contains('['))
}

/// The concerns of the words of a line on an array.
pub open spec fn member_concerns(
    w: Seq<Seq<char>>,
    first: bool,
    array: Seq<char>,
    disks: Seq<Seq<char>>,
) -> Seq<ConcernModel>
    decreases w.len(),
{
    if w.len() == 0 {
        Seq::empty()
    } else {
        let rest = member_concerns(w.drop_last(), first, array, disks);
        if names_member(w.last(), first) {
            let device = member_device(w.last());
            rest + once_per_disk(
                ConcernModel::Mdraid { device, array_name: array },
                device,
                disks,
            )
        } else {
            rest
        }
    }
}

/// The array that the last of the lines belongs to, and the concerns of all lines.
pub open spec fn array_concerns(v: Seq<Seq<char>>, disks: Seq<Seq<char>>) -> (
    Option<Seq<char>>,
    Seq<ConcernModel>,
)
    decreases v.len(),
{
    if v.len() == 0 {
        (None, Seq::empty())
    } else {
        let (array, rest) = array_concerns(v.drop_last(), disks);
        if array_line(v.last()) {
            let name = trim(before(v.last(), ':'));
            (Some(name), rest + member_concerns(words(v.last()), true, name, disks))
        } else {
            match array {
                Some(name) => (
                    array,
                    rest + member_concerns(words(v.last()), false, name, disks),
                ),
                None => (None, rest),
            }
        }
    }
}

fn push_members(
    out: &mut Vec<SafetyConcern>,
    line: &[char],
    first: bool,
    array: &str,
    devices: &Vec<String>,
)
    ensures
        concern_models(final(out)@) == concern_models(old(out)@) + member_concerns(
            words(line@),
            first,
            array@,
            strings(devices@),
        ),
{
    let w = split_words(line);
    let ghost all = words(line@);
    let ghost disks = strings(devices@);
    let mut i: usize = 0;
    assert(concern_models(out@) =~= concern_models(old(out)@) + member_concerns(
        all.take(0),
        first,
        array@,
        disks,
    ));
    while i < w.len()
        invariant
            i <= w@.len(),
            texts(w@) == all,
            disks == strings(devices@),
            concern_models(out@) == concern_models(old(out)@) + member_concerns(
                all.take(i as int),
                first,
                array@,
                disks,
            ),
        decreases w@.len() - i,
    {
        let ghost u = all.take(i + 1);
        assert(u.drop_last() =~= all.take(i as int));
        assert(u.last() == w@[i as int]@);
        let word = w[i].as_slice();
        if is_disk(word) && (first || holds(word, '[')) {
            let name = string_of(cut_before(strip_brackets(word), '['));
            let device = labelled("/dev/", name.as_str());
            let cs = chars_of(device.as_str());
            let c = SafetyConcern::MdraidMember { device, array_name: array.to_owned() };
            push_per_disk(out, &c, cs.as_slice(), devices);
        }
        assert(concern_models(out@) =~= concern_models(old(out)@) + member_concerns(
            u,
            first,
            array@,
            disks,
        ));
        i += 1;
    }
    assert(all.take(i as int) =~= all);
}

/// Finds members of arrays on the disks, by the list of arrays. A line such as
/// `md0 : active raid1 sdb1[0] sdc1[1]` starts an array; lines that follow may name more
/// members. Without the list there are none.
pub fn check_mdraid(devices: &Vec<String>, mdstat: &Option<String>) -> (r: Vec<SafetyConcern>)
    ensures
        concern_models(r@) == (match mdstat {
            Some(t) => array_concerns(lines(t@), strings(devices@)).1,
            None => Seq::empty(),
        }),
{
    let mut out: Vec<SafetyConcern> = Vec::new();
    assert(concern_models(out@) =~= Seq::empty());
    let text = match mdstat {
        Some(t) => t,
        None => return out,
    };
    let list = line_list(chars_of(text.as_str()).as_slice());
    let ghost all = lines(text@);
    let ghost disks = strings(devices@);
    let mut array: Option<String> = None;
    let mut i: usize = 0;
    assert(all.take(0).len() == 0);
    while i < list.len()
        invariant
            i <= list@.len(),
            texts(list@) == all,
            disks == strings(devices@),
            array_concerns(all.take(i as int), disks).0 == (match array {
                Some(a) => Some(a@),
                None => None,
            }),
            array_concerns(all.take(i as int), disks).1 == concern_models(out@),
        decreases list@.len() - i,
    {
        let ghost u = all.take(i + 1);
        assert(u.drop_last() =~= all.take(i as int));
        assert(u.last() == list@[i as int]@);
        let line = list[i].as_slice();
        if starts_with(line, "md") && holds(line, ':') {
            let name = string_of(trimmed(cut_before(line, ':')));
            push_members(&mut out, line, true, name.as_str(), devices);
            array = Some(name);
        } else if let Some(name) = &array {
            push_members(&mut out, line, false, name.as_str(), devices);
        }
        i += 1;
    }
    assert(all.take(i as int) =~= all);
    out
}

proof fn once_is_found(c: ConcernModel, device: Seq<char>, disks: Seq<Seq<char>>)
    requires
        belongs_to_any(device, disks),
    ensures
        once_per_disk(c, device, disks).len() > 0,
    decreases disks.len(),
{
    let k = choose|k: int| 0 <= k < disks.len() && belongs(device, #[trigger] disks[k]);
    if k < disks.len() - 1 {
        assert(disks.drop_last()[k] == disks[k]);
        once_is_found(c, device, disks.drop_last());
    }
}

proof fn member_in_line_is_found(
    w: Seq<Seq<char>>,
    first: bool,
    array: Seq<char>,
    disks: Seq<Seq<char>>,
    j: int,
)
    requires
        0 <= j < w.len(),
        names_member(w[j], first),
        belongs_to_any(member_device(w[j]), disks),
    ensures
        member_concerns(w, first, array, disks).len() > 0,
    decreases w.len(),
{
    if j < w.len() - 1 {
        assert(w.drop_last()[j] == w[j]);
        member_in_line_is_found(w.drop_last(), first, array, disks, j);
    } else {
        let device = member_device(w.last());
        once_is_found(ConcernModel::Mdraid { device, array_name: array }, device, disks);
    }
}

/// A member of an array on one of the disks is found: where a line that starts an array
/// names a device of one, there is a concern.
pub proof fn member_is_found(v: Seq<Seq<char>>, disks: Seq<Seq<char>>, i: int, j: int)
    requires
        0 <= i < v.len(),
        array_line(v[i]),
        0 <= j < words(v[i]).len(),
        disk_name(words(v[i])[j]),
        belongs_to_any(member_device(words(v[i])[j]), disks),
    ensures
        array_concerns(v, disks).1.len() > 0,
    decreases v.len(),
{
    if i < v.len() - 1 {
        assert(v.drop_last()[i] == v[i]);
        member_is_found(v.drop_last(), disks, i, j);
    } else {
        member_in_line_is_found(words(v.last()), true, trim(before(v.last(), ':')), disks, j);
    }
}

/// The text of one line of a file, where it is one; a line of other bytes is passed over.
pub open spec fn line_text(line: Seq<u8>) -> Seq<char> {
    if valid_utf8(line) {
        decode_utf8(line).push('\n')
    } else {
        Seq::empty()
    }
}

/// The text of the lines that have ended, and the bytes of the line that has not.
pub open spec fn split_text(b: Seq<u8>) -> (Seq<char>, Seq<u8>)
    decreases b.len(),
{
    if b.len() == 0 {
        (Seq::empty(), Seq::empty())
    } else {
        let (text, line) = split_text(b.drop_last());
        if b.last() == 10 {
            (text + line_text(line), Seq::empty())
        } else {
            (text, line.push(b.last()))
        }
    }
}

/// The lines of a file that are text.
pub open spec fn readable(b: Seq<u8>) -> Seq<char> {
    let (text, line) = split_text(b);
    if line.len() > 0 {
        text + line_text(line)
    } else {
        text
    }
}

fn push_line(out: &mut String, line: &[u8])
    ensures
        final(out)@ == old(out)@ + line_text(line@),
{
    if let Some(t) = string_from_utf8(line) {
        out.append(t.as_str());
        out.push('\n');
    }
    assert(out@ =~= old(out)@ + line_text(line@));
}

/// Reads the lines of a file that are text, such as the list of arrays.
pub fn readable_lines(b: &[u8]) -> (r: String)
    ensures
        r@ == readable(b@),
{
    let mut out = String::new();
    let mut line: Vec<u8> = Vec::new();
    let mut i: usize = 0;
    assert(out@ =~= split_text(b@.take(0)).0);
    assert(line@ =~= split_text(b@.take(0)).1);
    while i < b.len()
        invariant
            i <= b@.len(),
            split_text(b@.take(i as int)) == (out@, line@),
        decreases b@.len() - i,
    {
        let ghost u = b@.take(i + 1);
        assert(u.drop_last() =~= b@.take(i as int));
        assert(u.last() == b@[i as int]);
        if b[i] == 10 {
            push_line(&mut out, line.as_slice());
            line = Vec::new();
            assert(line@ =~= split_text(u).1);
        } else {
            line.push(b[i]);
        }
        i += 1;
    }
    assert(b@.take(i as int) =~= b@);
    if line.len() > 0 {
        push_line(&mut out, line.as_slice());
    }
    out
}

// ------------------------------------------------------------------ pools

/// The concerns of the words of a line on a pool.
pub open spec fn vdev_concerns(w: Seq<Seq<char>>, pool: Seq<char>, disks: Seq<Seq<char>>) -> Seq<
    ConcernModel,
>
    decreases w.len(),
{
    if w.len() == 0 {
        Seq::empty()
    } else {
        let rest = vdev_concerns(w.drop_last(), pool, disks);
        if has_prefix(w.last(), "/dev/"@) {
            rest + once_per_disk(
                ConcernModel::Zfs { device: w.last(), pool_name: pool },
                w.last(),
                disks,
            )
        } else {
            rest
        }
    }
}

/// The pool that the last of the lines belongs to, and the concerns of all lines.
pub open spec fn pool_concerns(v: Seq<Seq<char>>, disks: Seq<Seq<char>>) -> (
    Option<Seq<char>>,
    Seq<ConcernModel>,
)
    decreases v.len(),
{
    if v.len() == 0 {
        (None, Seq::empty())
    } else {
        let (pool, rest) = pool_concerns(v.drop_last(), disks);
        if has_prefix(v.last(), "pool:"@) {
            (Some(trim(before(v.last().skip("pool:"@.len() as int), ':'))), rest)
        } else {
            match pool {
                Some(name) => if has_prefix(trim_start(v.last()), "/dev/"@) {
                    (pool, rest + vdev_concerns(words(v.last()), name, disks))
                } else {
                    (pool, rest)
                },
                None => (None, rest),
            }
        }
    }
}

fn push_vdevs(out: &mut Vec<SafetyConcern>, line: &[char], pool: &str, devices: &Vec<String>)
    ensures
        concern_models(final(out)@) == concern_models(old(out)@) + vdev_concerns(
            words(line@),
            pool@,
            strings(devices@),
        ),
{
    let w = split_words(line);
    let ghost all = words(line@);
    let ghost disks = strings(devices@);
    let mut i: usize = 0;
    assert(concern_models(out@) =~= concern_models(old(out)@) + vdev_concerns(
        all.take(0),
        pool@,
        disks,
    ));
    while i < w.len()
        invariant
            i <= w@.len(),
            texts(w@) == all,
            disks == strings(devices@),
            concern_models(out@) == concern_models(old(out)@) + vdev_concerns(
                all.take(i as int),
                pool@,
                disks,
            ),
        decreases w@.len() - i,
    {
        let ghost u = all.take(i + 1);
        assert(u.drop_last() =~= all.take(i as int));
        assert(u.last() == w@[i as int]@);
        let word = w[i].as_slice();
        if starts_with(word, "/dev/") {
            let c = SafetyConcern::ZfsVdev {
                device: string_of(word),
                pool_name: pool.to_owned(),
            };
            push_per_disk(out, &c, word, devices);
        }
        assert(concern_models(out@) =~= concern_models(old(out)@) + vdev_concerns(u, pool@, disks));
        i += 1;
    }
    assert(all.take(i as int) =~= all);
}

/// Finds members of pools on the disks, by the report on pools. A line such as
/// `pool: storage` starts a pool; lines that follow and start with the path of a device
/// name its members.
pub fn parse_zpool(devices: &Vec<String>, report: &str) -> (r: Vec<SafetyConcern>)
    ensures
        concern_models(r@) == pool_concerns(lines(report@), strings(devices@)).1,
{
    let mut out: Vec<SafetyConcern> = Vec::new();
    assert(concern_models(out@) =~= Seq::empty());
    let list = line_list(chars_of(report).as_slice());
    let ghost all = lines(report@);
    let ghost disks = strings(devices@);
    let mut pool: Option<String> = None;
    let mut i: usize = 0;
    assert(all.take(0).len() == 0);
    proof {
        reveal_strlit("pool:");
    }
    while i < list.len()
        invariant
            i <= list@.len(),
            texts(list@) == all,
            disks == strings(devices@),
            "pool:"@.len() == 5,
            pool_concerns(all.take(i as int), disks).0 == (match pool {
                Some(a) => Some(a@),
                None => None,
            }),
            pool_concerns(all.take(i as int), disks).1 == concern_models(out@),
        decreases list@.len() - i,
    {
        let ghost u = all.take(i + 1);
        assert(u.drop_last() =~= all.take(i as int));
        assert(u.last() == list@[i as int]@);
        let line = list[i].as_slice();
        if starts_with(line, "pool:") {
            let len: usize = line.len();
            let rest = &line[5..len];
            assert(rest@ =~= line@.skip(5));
            pool = Some(string_of(trimmed(cut_before(rest, ':'))));
        } else if let Some(name) = &pool {
            if starts_with(trimmed_start(line), "/dev/") {
                push_vdevs(&mut out, line, name.as_str(), devices);
            }
        }
        i += 1;
    }
    assert(all.take(i as int) =~= all);
    out
}

/// Finds members of pools on the disks. Where `zpool` cannot be run or fails, there are
/// none.
pub fn check_zfs(devices: &Vec<String>, zpool: &ToolOutcome) -> (r: Vec<SafetyConcern>)
    ensures
        concern_models(r@) == (match zpool {
            ToolOutcome::Ran { success: true, stdout } => pool_concerns(
                lines(utf8_lossy(stdout@)),
                strings(devices@),
            ).1,
            _ => Seq::empty(),
        }),
{
    if let ToolOutcome::Ran { success: true, stdout } = zpool {
        let report = string_from_utf8_lossy(stdout.as_slice());
        return parse_zpool(devices, report.as_str());
    }
    let none: Vec<SafetyConcern> = Vec::new();
    assert(concern_models(none@) =~= Seq::empty());
    none
}

proof fn pool_stays_open(v: Seq<Seq<char>>, disks: Seq<Seq<char>>, h: int)
    requires
        0 <= h < v.len(),
        has_prefix(v[h], "pool:"@),
    ensures
        pool_concerns(v, disks).0 is Some,
    decreases v.len(),
{
    if h < v.len() - 1 {
        assert(v.drop_last()[h] == v[h]);
        pool_stays_open(v.drop_last(), disks, h);
    }
}

proof fn vdev_in_line_is_found(
    w: Seq<Seq<char>>,
    pool: Seq<char>,
    disks: Seq<Seq<char>>,
    j: int,
)
    requires
        0 <= j < w.len(),
        has_prefix(w[j], "/dev/"@),
        belongs_to_any(w[j], disks),
    ensures
        vdev_concerns(w, pool, disks).len() > 0,
    decreases w.len(),
{
    if j < w.len() - 1 {
        assert(w.drop_last()[j] == w[j]);
        vdev_in_line_is_found(w.drop_last(), pool, disks, j);
    } else {
        once_is_found(ConcernModel::Zfs { device: w.last(), pool_name: pool }, w.last(), disks);
    }
}

/// A member of a pool on one of the disks is found: where a line below the name of a pool
/// starts with the path of a device, and one of its paths is a device of a disk, there is a
/// concern.
pub proof fn vdev_is_found(v: Seq<Seq<char>>, disks: Seq<Seq<char>>, h: int, i: int, j: int)
    requires
        0 <= h < i < v.len(),
        has_prefix(v[h], "pool:"@),
        !has_prefix(v[i], "pool:"@),
        has_prefix(trim_start(v[i]), "/dev/"@),
        0 <= j < words(v[i]).len(),
        has_prefix(words(v[i])[j], "/dev/"@),
        belongs_to_any(words(v[i])[j], disks),
    ensures
        pool_concerns(v, disks).1.len() > 0,
    decreases v.len(),
{
    let shorter = v.drop_last();
    assert(shorter[h] == v[h]);
    if i < v.len() - 1 {
        assert(shorter[i] == v[i]);
        vdev_is_found(shorter, disks, h, i, j);
    } else {
        pool_stays_open(shorter, disks, h);
        let pool = pool_concerns(shorter, disks).0->0;
        vdev_in_line_is_found(words(v.last()), pool, disks, j);
    }
}

// -------------------------------------------------------------------- all

/// What the machine says about its disks.
#[derive(Debug)]
pub struct SystemState {
    /// The list of mounts.
    pub mounts: TextSource,
    /// What `pvs` printed.
    pub pvs: ToolOutcome,
    /// The list of arrays.
    pub mdstat: Option<String>,
    /// What `zpool` printed.
    pub zpool: ToolOutcome,
}

/// The concerns that the checks find, one check after the other.
pub open spec fn all_concerns(s: SystemState, disks: Seq<Seq<char>>) -> Seq<ConcernModel> {
    let mounts = match s.mounts {
        TextSource::Text(t) => mount_concerns(lines(t@), disks),
        _ => Seq::empty(),
    };
    let volumes = match s.pvs {
        ToolOutcome::Ran { success: true, stdout } => volume_concerns(
            lines(utf8_lossy(stdout@)),
            disks,
        ),
        _ => Seq::empty(),
    };
    let arrays = match s.mdstat {
        Some(t) => array_concerns(lines(t@), disks).1,
        None => Seq::empty(),
    };
    let pools = match s.zpool {
        ToolOutcome::Ran { success: true, stdout } => pool_concerns(
            lines(utf8_lossy(stdout@)),
            disks,
        ).1,
        _ => Seq::empty(),
    };
    mounts + volumes + arrays + pools
}

/// Runs all checks on the disks. Only a list of mounts that breaks off is an error.
pub fn check_all(devices: &Vec<String>, state: &SystemState) -> (r: Result<
    Vec<SafetyConcern>,
    SafetyError,
>)
    ensures
        match state.mounts {
            TextSource::Broken(e) => r is Err && r->Err_0 is Io && r->Err_0->Io_0@ == e@,
            _ => r is Ok && concern_models(r->Ok_0@) == all_concerns(*state, strings(devices@)),
        },
{
    let mut out = match check_mounted(devices, &state.mounts) {
        Ok(v) => v,
        Err(e) => return Err(e),
    };
    let ghost a = concern_models(out@);
    let mut volumes = check_lvm(devices, &state.pvs);
    let mut arrays = check_mdraid(devices, &state.mdstat);
    let mut pools = check_zfs(devices, &state.zpool);
    let ghost (b, c, d) = (
        concern_models(volumes@),
        concern_models(arrays@),
        concern_models(pools@),
    );
    if let TextSource::Missing = state.mounts {
        assert(a =~= Seq::empty());
    }
    out.append(&mut volumes);
    assert(concern_models(out@) =~= a + b);
    out.append(&mut arrays);
    assert(concern_models(out@) =~= a + b + c);
    out.append(&mut pools);
    assert(concern_models(out@) =~= a + b + c + d);
    Ok(out)
}

proof fn no_disks_no_members(w: Seq<Seq<char>>, first: bool, array: Seq<char>)
    ensures
        member_concerns(w, first, array, Seq::empty()).len() == 0,
    decreases w.len(),
{
    if w.len() > 0 {
        no_disks_no_members(w.drop_last(), first, array);
    }
}

proof fn no_disks_no_vdevs(w: Seq<Seq<char>>, pool: Seq<char>)
    ensures
        vdev_concerns(w, pool, Seq::empty()).len() == 0,
    decreases w.len(),
{
    if w.len() > 0 {
        no_disks_no_vdevs(w.drop_last(), pool);
    }
}

proof fn no_disks_no_lines(v: Seq<Seq<char>>)
    ensures
        mount_concerns(v, Seq::empty()).len() == 0,
        volume_concerns(v, Seq::empty()).len() == 0,
        array_concerns(v, Seq::empty()).1.len() == 0,
        pool_concerns(v, Seq::empty()).1.len() == 0,
    decreases v.len(),
{
    if v.len() > 0 {
        no_disks_no_lines(v.drop_last());
        let none = Seq::<Seq<char>>::empty();
        let (array, _) = array_concerns(v.drop_last(), none);
        let (pool, _) = pool_concerns(v.drop_last(), none);
        let w = words(v.last());
        no_disks_no_members(w, true, trim(before(v.last(), ':')));
        if let Some(name) = array {
            no_disks_no_members(w, false, name);
        }
        if let Some(name) = pool {
            no_disks_no_vdevs(w, name);
        }
    }
}

/// Without disks there are no concerns, whatever the machine says.
pub proof fn no_disks_no_concerns(s: SystemState)
    ensures
        all_concerns(s, Seq::empty()) == Seq::<ConcernModel>::empty(),
{
    if let TextSource::Text(t) = s.mounts {
        no_disks_no_lines(lines(t@));
    }
    if let ToolOutcome::Ran { success, stdout } = s.pvs {
        no_disks_no_lines(lines(utf8_lossy(stdout@)));
    }
    if let Some(t) = s.mdstat {
        no_disks_no_lines(lines(t@));
    }
    if let ToolOutcome::Ran { success, stdout } = s.zpool {
        no_disks_no_lines(lines(utf8_lossy(stdout@)));
    }
    assert(all_concerns(s, Seq::empty()) =~= Seq::<ConcernModel>::empty());
}

/// The messages of some concerns, with an empty line between each two.
pub open spec fn joined_messages(v: Seq<ConcernModel>) -> Seq<char>
    decreases v.len(),
{
    if v.len() == 0 {
        Seq::empty()
    } else if v.len() == 1 {
        v[0].message()
    } else {
        joined_messages(v.drop_last()) + "\n\n"@ + v.last().message()
    }
}

/// The messages of some concerns, with an empty line between each two.
pub fn concern_text(v: &Vec<SafetyConcern>) -> (r: String)
    ensures
        r@ == joined_messages(concern_models(v@)),
{
    let mut t = String::new();
    let ghost all = concern_models(v@);
    let mut i: usize = 0;
    assert(t@ =~= joined_messages(all.take(0)));
    while i < v.len()
        invariant
            i <= v@.len(),
            all == concern_models(v@),
            t@ == joined_messages(all.take(i as int)),
        decreases v@.len() - i,
    {
        let ghost u = all.take(i + 1);
        assert(u.drop_last() =~= all.take(i as int));
        assert(u.last() == v@[i as int]@);
        if i > 0 {
            t.append("\n\n");
        }
        t.append(v[i].human().as_str());
        assert(t@ =~= joined_messages(u));
        i += 1;
    }
    assert(all.take(i as int) =~= all);
    t
}

// ------------------------------------------------------------------- laws

/// Whether a name starts as the kernel names disks: with `sd`, `vd` or `nvme`.
pub open spec fn named_as_disk(s: Seq<char>) -> bool {
    ||| s.len() >= 2 && s[0] == 's' && s[1] == 'd'
    ||| s.len() >= 2 && s[0] == 'v' && s[1] == 'd'
    ||| s.len() >= 4 && s[0] == 'n' && s[1] == 'v' && s[2] == 'm' && s[3] == 'e'
}

proof fn disk_names_are_exact(s: Seq<char>)
    ensures
        disk_name(s) == named_as_disk(s),
{
    reveal_strlit("sd");
    reveal_strlit("nvme");
    reveal_strlit("vd");
    if s.len() >= 2 {
        let t = s.take(2);
        assert(t[0] == s[0] && t[1] == s[1]);
        if s[0] == 's' && s[1] == 'd' {
            assert(t =~= "sd"@);
        }
        if s[0] == 'v' && s[1] == 'd' {
            assert(t =~= "vd"@);
        }
    }
    if s.len() >= 4 {
        let t = s.take(4);
        assert(t[0] == s[0] && t[1] == s[1] && t[2] == s[2] && t[3] == s[3]);
        if s[0] == 'n' && s[1] == 'v' && s[2] == 'm' && s[3] == 'e' {
            assert(t =~= "nvme"@);
        }
    }
}

/// The disks behind an adapter are listed once each: a path is listed exactly where it is that
/// of a listed name that starts with `sd`, `vd` or `nvme`.
pub proof fn disks_are_listed_once(names: Seq<Seq<char>>, path: Seq<char>)
    ensures
        disk_paths(names).no_duplicates(),
        disk_paths(names).contains(path) <==> exists|i: int|
            0 <= i < names.len() && named_as_disk(#[trigger] names[i]) && path == "/dev/"@
                + names[i],
    decreases names.len(),
{
    if names.len() > 0 {
        let rest = names.drop_last();
        let last = "/dev/"@ + names.last();
        disks_are_listed_once(rest, path);
        disks_are_listed_once(rest, last);
        disk_names_are_exact(names.last());
        let old_list = disk_paths(rest);
        let new_list = disk_paths(names);
        if exists|i: int|
            0 <= i < rest.len() && named_as_disk(#[trigger] rest[i]) && path == "/dev/"@ + rest[i] {
            let i = choose|i: int|
                0 <= i < rest.len() && named_as_disk(#[trigger] rest[i]) && path == "/dev/"@
                    + rest[i];
            assert(names[i] == rest[i]);
        }
        if exists|i: int|
            0 <= i < names.len() && named_as_disk(#[trigger] names[i]) && path == "/dev/"@
                + names[i] {
            let i = choose|i: int|
                0 <= i < names.len() && named_as_disk(#[trigger] names[i]) && path == "/dev/"@
                    + names[i];
            if i < rest.len() {
                assert(rest[i] == names[i]);
            }
        }
        if old_list.contains(path) {
            let k = choose|k: int| 0 <= k < old_list.len() && old_list[k] == path;
            assert(new_list[k] == path);
        }
        if new_list != old_list {
            assert(new_list == old_list.push(last));
            assert(new_list[old_list.len() as int] == last);
            if new_list.contains(path) && path != last {
                let k = choose|k: int| 0 <= k < new_list.len() && new_list[k] == path;
                assert(old_list[k] == path);
            }
            assert(names[names.len() - 1] == names.last());
        }
        if named_as_disk(names.last()) && path == last {
            assert(names[names.len() - 1] == names.last());
        }
    }
}

/// A device is a disk or one of its partitions exactly where its name is the name of the disk
/// with digits, or nothing, behind it.
pub proof fn partitions_have_numbers(device: Seq<char>, target: Seq<char>)
    ensures
        belongs(device, target) <==> {
            &&& target.len() <= device.len()
            &&& forall|k: int| 0 <= k < target.len() ==> #[trigger] device[k] == target[k]
            &&& forall|k: int|
                target.len() <= k < device.len() ==> '0' <= #[trigger] device[k] <= '9'
        },
{
    let n = target.len() as int;
    if n <= device.len() {
        let head = device.take(n);
        let rest = device.skip(n);
        if forall|k: int| 0 <= k < n ==> #[trigger] device[k] == target[k] {
            assert(head =~= target);
            if device.len() == n {
                assert(device =~= target);
            }
        }
        if head == target {
            assert forall|k: int| 0 <= k < n implies #[trigger] device[k] == target[k] by {
                assert(head[k] == device[k]);
            }
        }
        if all_digits(rest) {
            assert forall|k: int| n <= k < device.len() implies '0' <= #[trigger] device[k]
                <= '9' by {
                assert(is_digit(rest[k - n]));
            }
        }
        if forall|k: int| n <= k < device.len() ==> '0' <= #[trigger] device[k] <= '9' {
            assert forall|k: int| 0 <= k < rest.len() implies is_digit(#[trigger] rest[k]) by {
                assert(rest[k] == device[n + k]);
            }
        }
    }
}

/// Whether a text is one word.
pub open spec fn is_word(s: Seq<char>) -> bool {
    s.len() > 0 && forall|i: int| 0 <= i < s.len() ==> !is_white(#[trigger] s[i])
}

proof fn first_word(w: Seq<char>, rest: Seq<char>)
    requires
        is_word(w),
    ensures
        words(w.push(' ') + rest) == seq![w] + words(rest),
{
    white_space_parts_words(w, ' ', rest);
    one_word(w);
}

proof fn mount_in_list(v: Seq<Seq<char>>, disks: Seq<Seq<char>>, i: int, c: ConcernModel)
    requires
        0 <= i < v.len(),
        mount_concern(v[i], disks) == Some(c),
    ensures
        mount_concerns(v, disks).contains(c),
    decreases v.len(),
{
    let u = v.drop_last();
    let r = mount_concerns(v, disks);
    if i < u.len() {
        assert(u[i] == v[i]);
        mount_in_list(u, disks, i, c);
        let o = mount_concerns(u, disks);
        let k = choose|k: int| 0 <= k < o.len() && o[k] == c;
        assert(r[k] == c);
    } else {
        assert(r[r.len() - 1] == c);
    }
}

/// A mount is reported as it stands in its line: the device is the first word, the place the
/// second and the type the third.
pub proof fn mount_is_reported(
    v: Seq<Seq<char>>,
    disks: Seq<Seq<char>>,
    i: int,
    k: int,
    device: Seq<char>,
    mountpoint: Seq<char>,
    fstype: Seq<char>,
    rest: Seq<char>,
)
    requires
        0 <= i < v.len(),
        is_word(device) && is_word(mountpoint) && is_word(fstype),
        v[i] == device.push(' ') + (mountpoint.push(' ') + (fstype.push(' ') + rest)),
        0 <= k < disks.len(),
        belongs(device, disks[k]),
    ensures
        mount_concerns(v, disks).contains(ConcernModel::Mounted { device, mountpoint, fstype }),
{
    first_word(device, mountpoint.push(' ') + (fstype.push(' ') + rest));
    first_word(mountpoint, fstype.push(' ') + rest);
    first_word(fstype, rest);
    let w = words(v[i]);
    assert(w[0] == device && w[1] == mountpoint && w[2] == fstype);
    mount_in_list(v, disks, i, ConcernModel::Mounted { device, mountpoint, fstype });
}

proof fn volume_in_list(v: Seq<Seq<char>>, disks: Seq<Seq<char>>, i: int, c: ConcernModel)
    requires
        0 <= i < v.len(),
        volume_concern(v[i], disks) == Some(c),
    ensures
        volume_concerns(v, disks).contains(c),
    decreases v.len(),
{
    let u = v.drop_last();
    let r = volume_concerns(v, disks);
    if i < u.len() {
        assert(u[i] == v[i]);
        volume_in_list(u, disks, i, c);
        let o = volume_concerns(u, disks);
        let k = choose|k: int| 0 <= k < o.len() && o[k] == c;
        assert(r[k] == c);
    } else {
        assert(r[r.len() - 1] == c);
    }
}

/// A physical volume is reported as it stands in its line: the device is the first word and
/// the group the second.
pub proof fn volume_is_reported(
    v: Seq<Seq<char>>,
    disks: Seq<Seq<char>>,
    i: int,
    k: int,
    device: Seq<char>,
    vg_name: Seq<char>,
    rest: Seq<char>,
)
    requires
        0 <= i < v.len(),
        is_word(device) && is_word(vg_name),
        device[0] == '/',
        v[i] == device.push(' ') + (vg_name.push(' ') + rest),
        0 <= k < disks.len(),
        belongs(device, disks[k]),
    ensures
        volume_concerns(v, disks).contains(ConcernModel::Lvm { device, vg_name }),
{
    first_word(device, vg_name.push(' ') + rest);
    first_word(vg_name, rest);
    let w = words(v[i]);
    assert(w[0] == device && w[1] == vg_name);
    reveal_strlit("PV");
    assert("PV"@[0] == 'P');
    volume_in_list(v, disks, i, ConcernModel::Lvm { device, vg_name });
}

/// Only devices of the disks are reported as mounted or as physical volumes, each by its own
/// kind.
pub proof fn only_these_disks_are_reported(v: Seq<Seq<char>>, disks: Seq<Seq<char>>, j: int)
    ensures
        0 <= j < mount_concerns(v, disks).len() ==> (mount_concerns(v, disks)[j] matches
            ConcernModel::Mounted { device, mountpoint, fstype } && exists|k: int|
            0 <= k < disks.len() && belongs(device, #[trigger] disks[k])),
        0 <= j < volume_concerns(v, disks).len() ==> (volume_concerns(v, disks)[j] matches
            ConcernModel::Lvm { device, vg_name } && exists|k: int|
            0 <= k < disks.len() && belongs(device, #[trigger] disks[k])),
        mount_concerns(v, disks).len() <= v.len(),
        volume_concerns(v, disks).len() <= v.len(),
    decreases v.len(),
{
    if v.len() > 0 {
        let u = v.drop_last();
        only_these_disks_are_reported(u, disks, j);
        if 0 <= j < mount_concerns(u, disks).len() {
            assert(mount_concerns(v, disks)[j] == mount_concerns(u, disks)[j]);
        }
        if 0 <= j < volume_concerns(u, disks).len() {
            assert(volume_concerns(v, disks)[j] == volume_concerns(u, disks)[j]);
        }
    }
}

proof fn brackets_are_cut(s: Seq<char>, n: int) -> (k: int)
    requires
        0 <= n < s.len(),
        s[n] == '[',
    ensures
        n < k <= s.len(),
        without_brackets(s) == s.take(k),
    decreases s.len(),
{
    if s.last() == ']' {
        let t = s.drop_last();
        assert(t[n] == s[n]);
        let k = brackets_are_cut(t, n);
        assert(t.take(k) =~= s.take(k));
        k
    } else {
        assert(s.take(s.len() as int) =~= s);
        s.len() as int
    }
}

/// The device of a member is what stands before its role: whatever follows the first opening
/// bracket is no part of it.
pub proof fn role_is_no_part_of_device(name: Seq<char>, tail: Seq<char>)
    requires
        forall|i: int| 0 <= i < name.len() ==> #[trigger] name[i] != '[',
    ensures
        member_device(name.push('[') + tail) == "/dev/"@ + name,
{
    let s = name.push('[') + tail;
    let n = name.len() as int;
    assert(s[n] == '[');
    let k = brackets_are_cut(s, n);
    let t = s.take(k);
    assert forall|i: int| 0 <= i < n implies t[i] != '[' by {
        assert(t[i] == name[i]);
    }
    assert(t[n] == '[');
    before_ends_at_first(t, '[', n);
    assert(t.take(n) =~= name);
}

proof fn once_is_listed(c: ConcernModel, device: Seq<char>, disks: Seq<Seq<char>>, k: int)
    requires
        0 <= k < disks.len(),
        belongs(device, disks[k]),
    ensures
        once_per_disk(c, device, disks).contains(c),
    decreases disks.len(),
{
    let u = disks.drop_last();
    let r = once_per_disk(c, device, disks);
    if k < u.len() {
        assert(u[k] == disks[k]);
        once_is_listed(c, device, u, k);
        let o = once_per_disk(c, device, u);
        let j = choose|j: int| 0 <= j < o.len() && o[j] == c;
        assert(r[j] == c);
    } else {
        assert(r[r.len() - 1] == c);
    }
}

proof fn in_sum(a: Seq<ConcernModel>, b: Seq<ConcernModel>, c: ConcernModel)
    requires
        a.contains(c) || b.contains(c),
    ensures
        (a + b).contains(c),
{
    if a.contains(c) {
        let k = choose|k: int| 0 <= k < a.len() && a[k] == c;
        assert((a + b)[k] == c);
    } else {
        let k = choose|k: int| 0 <= k < b.len() && b[k] == c;
        assert((a + b)[a.len() + k] == c);
    }
}

proof fn member_in_line(
    w: Seq<Seq<char>>,
    first: bool,
    array: Seq<char>,
    disks: Seq<Seq<char>>,
    j: int,
    k: int,
)
    requires
        0 <= j < w.len(),
        names_member(w[j], first),
        0 <= k < disks.len(),
        belongs(member_device(w[j]), disks[k]),
    ensures
        member_concerns(w, first, array, disks).contains(
            ConcernModel::Mdraid { device: member_device(w[j]), array_name: array },
        ),
    decreases w.len(),
{
    let u = w.drop_last();
    let c = ConcernModel::Mdraid { device: member_device(w[j]), array_name: array };
    let rest = member_concerns(u, first, array, disks);
    let device = member_device(w.last());
    let more = once_per_disk(
        ConcernModel::Mdraid { device, array_name: array },
        device,
        disks,
    );
    if j < u.len() {
        assert(u[j] == w[j]);
        member_in_line(u, first, array, disks, j, k);
    } else {
        once_is_listed(c, device, disks, k);
    }
    if names_member(w.last(), first) {
        in_sum(rest, more, c);
    }
}

/// Whether a line starts an array: it begins with `md` and holds a colon.
pub open spec fn starts_array(line: Seq<char>) -> bool {
    line.len() >= 2 && line[0] == 'm' && line[1] == 'd' && exists|i: int|
        0 <= i < line.len() && #[trigger] line[i] == ':'
}

proof fn array_lines_are_exact(line: Seq<char>)
    ensures
        array_line(line) == starts_array(line),
{
    reveal_strlit("md");
    if line.len() >= 2 {
        let t = line.take(2);
        assert(t[0] == line[0] && t[1] == line[1]);
        if line[0] == 'm' && line[1] == 'd' {
            assert(t =~= "md"@);
        }
    }
}

proof fn array_stays(v: Seq<Seq<char>>, disks: Seq<Seq<char>>, h: int, name: Seq<char>)
    requires
        0 <= h < v.len(),
        starts_array(v[h]),
        trim(before(v[h], ':')) == name,
        forall|k: int| h < k < v.len() ==> !starts_array(#[trigger] v[k]),
    ensures
        array_concerns(v, disks).0 == Some(name),
    decreases v.len(),
{
    let u = v.drop_last();
    array_lines_are_exact(v.last());
    if h < u.len() {
        assert(u[h] == v[h]);
        assert forall|k: int| h < k < u.len() implies !starts_array(#[trigger] u[k]) by {
            assert(u[k] == v[k]);
        }
        array_stays(u, disks, h, name);
        assert(!starts_array(v[v.len() - 1]));
    }
}

proof fn array_concern_stays(v: Seq<Seq<char>>, disks: Seq<Seq<char>>, n: int, c: ConcernModel)
    requires
        0 <= n <= v.len(),
        array_concerns(v.take(n), disks).1.contains(c),
    ensures
        array_concerns(v, disks).1.contains(c),
    decreases v.len() - n,
{
    if n < v.len() {
        let u = v.take(n + 1);
        assert(u.drop_last() =~= v.take(n));
        let (array, rest) = array_concerns(v.take(n), disks);
        if array_line(u.last()) {
            in_sum(
                rest,
                member_concerns(words(u.last()), true, trim(before(u.last(), ':')), disks),
                c,
            );
        } else if let Some(name) = array {
            in_sum(rest, member_concerns(words(u.last()), false, name, disks), c);
        }
        array_concern_stays(v, disks, n + 1, c);
    } else {
        assert(v.take(n) =~= v);
    }
}

/// A member of an array is reported with its array: the array is named, before the first
/// colon, by the last line that starts one, and the member by a word of that line or of a line
/// below it, in front of its role.
pub proof fn member_is_reported(
    v: Seq<Seq<char>>,
    disks: Seq<Seq<char>>,
    h: int,
    i: int,
    j: int,
    k: int,
    array: Seq<char>,
    after: Seq<char>,
    name: Seq<char>,
    role: Seq<char>,
)
    requires
        0 <= h <= i < v.len(),
        v[h] == array.push(':') + after,
        array.len() >= 2 && array[0] == 'm' && array[1] == 'd',
        forall|l: int| 0 <= l < array.len() ==> #[trigger] array[l] != ':',
        forall|l: int| h < l <= i ==> !starts_array(#[trigger] v[l]),
        0 <= j < words(v[i]).len(),
        words(v[i])[j] == name.push('[') + role,
        named_as_disk(name),
        forall|l: int| 0 <= l < name.len() ==> #[trigger] name[l] != '[',
        0 <= k < disks.len(),
        belongs("/dev/"@ + name, disks[k]),
    ensures
        array_concerns(v, disks).1.contains(
            ConcernModel::Mdraid { device: "/dev/"@ + name, array_name: trim(array) },
        ),
{
    let word = words(v[i])[j];
    role_is_no_part_of_device(name, role);
    let n = array.len() as int;
    assert(v[h][n] == ':');
    assert(v[h][0] == array[0] && v[h][1] == array[1]);
    assert(starts_array(v[h]));
    assert forall|l: int| 0 <= l < n implies v[h][l] != ':' by {
        assert(v[h][l] == array[l]);
    }
    before_ends_at_first(v[h], ':', n);
    assert(v[h].take(n) =~= array);
    assert(word[name.len() as int] == '[');
    assert(word.contains('['));
    assert(named_as_disk(word)) by {
        assert(forall|l: int| 0 <= l < name.len() ==> word[l] == name[l]);
    }
    disk_names_are_exact(word);
    array_lines_are_exact(v[i]);
    let c = ConcernModel::Mdraid { device: "/dev/"@ + name, array_name: trim(array) };
    let u = v.take(i + 1);
    let p = v.take(i);
    assert(u.drop_last() =~= p);
    assert(u.last() == v[i]);
    let (open, rest) = array_concerns(p, disks);
    member_in_line(words(v[i]), h == i, trim(array), disks, j, k);
    if h < i {
        assert(p[h] == v[h]);
        assert forall|l: int| h < l < p.len() implies !starts_array(#[trigger] p[l]) by {
            assert(p[l] == v[l]);
        }
        array_stays(p, disks, h, trim(array));
        assert(!starts_array(v[i]));
    }
    in_sum(rest, member_concerns(words(v[i]), h == i, trim(array), disks), c);
    array_concern_stays(v, disks, i + 1, c);
}

proof fn vdev_in_line(
    w: Seq<Seq<char>>,
    pool: Seq<char>,
    disks: Seq<Seq<char>>,
    j: int,
    k: int,
)
    requires
        0 <= j < w.len(),
        has_prefix(w[j], "/dev/"@),
        0 <= k < disks.len(),
        belongs(w[j], disks[k]),
    ensures
        vdev_concerns(w, pool, disks).contains(
            ConcernModel::Zfs { device: w[j], pool_name: pool },
        ),
    decreases w.len(),
{
    let u = w.drop_last();
    let c = ConcernModel::Zfs { device: w[j], pool_name: pool };
    let rest = vdev_concerns(u, pool, disks);
    let more = once_per_disk(
        ConcernModel::Zfs { device: w.last(), pool_name: pool },
        w.last(),
        disks,
    );
    if j < u.len() {
        assert(u[j] == w[j]);
        vdev_in_line(u, pool, disks, j, k);
    } else {
        once_is_listed(c, w.last(), disks, k);
    }
    if has_prefix(w.last(), "/dev/"@) {
        in_sum(rest, more, c);
    }
}

/// Whether a line names a pool: it begins with `pool:`.
pub open spec fn starts_pool(line: Seq<char>) -> bool {
    line.len() >= 5 && line[0] == 'p' && line[1] == 'o' && line[2] == 'o' && line[3] == 'l'
        && line[4] == ':'
}

/// Whether a text begins with `/dev/`.
pub open spec fn is_path(s: Seq<char>) -> bool {
    s.len() >= 5 && s[0] == '/' && s[1] == 'd' && s[2] == 'e' && s[3] == 'v' && s[4] == '/'
}

proof fn marks_are_exact(s: Seq<char>)
    ensures
        has_prefix(s, "pool:"@) == starts_pool(s),
        has_prefix(s, "/dev/"@) == is_path(s),
        "pool:"@.len() == 5,
{
    reveal_strlit("pool:");
    reveal_strlit("/dev/");
    if s.len() >= 5 {
        let t = s.take(5);
        assert(t[0] == s[0] && t[1] == s[1] && t[2] == s[2] && t[3] == s[3] && t[4] == s[4]);
        if starts_pool(s) {
            assert(t =~= "pool:"@);
        }
        if is_path(s) {
            assert(t =~= "/dev/"@);
        }
    }
}

proof fn pool_stays(v: Seq<Seq<char>>, disks: Seq<Seq<char>>, h: int, name: Seq<char>)
    requires
        0 <= h < v.len(),
        starts_pool(v[h]),
        trim(before(v[h].skip(5), ':')) == name,
        forall|k: int| h < k < v.len() ==> !starts_pool(#[trigger] v[k]),
    ensures
        pool_concerns(v, disks).0 == Some(name),
    decreases v.len(),
{
    let u = v.drop_last();
    marks_are_exact(v.last());
    if h < u.len() {
        assert(u[h] == v[h]);
        assert forall|k: int| h < k < u.len() implies !starts_pool(#[trigger] u[k]) by {
            assert(u[k] == v[k]);
        }
        pool_stays(u, disks, h, name);
        assert(!starts_pool(v[v.len() - 1]));
    }
}

proof fn pool_concern_stays(v: Seq<Seq<char>>, disks: Seq<Seq<char>>, n: int, c: ConcernModel)
    requires
        0 <= n <= v.len(),
        pool_concerns(v.take(n), disks).1.contains(c),
    ensures
        pool_concerns(v, disks).1.contains(c),
    decreases v.len() - n,
{
    if n < v.len() {
        let u = v.take(n + 1);
        assert(u.drop_last() =~= v.take(n));
        let (pool, rest) = pool_concerns(v.take(n), disks);
        if let Some(name) = pool {
            in_sum(rest, vdev_concerns(words(u.last()), name, disks), c);
        }
        pool_concern_stays(v, disks, n + 1, c);
    } else {
        assert(v.take(n) =~= v);
    }
}

proof fn white_has_no_words(a: Seq<char>)
    requires
        forall|i: int| 0 <= i < a.len() ==> is_white(#[trigger] a[i]),
    ensures
        words(a) == Seq::<Seq<char>>::empty(),
    decreases a.len(),
{
    if a.len() > 0 {
        let t = a.drop_last();
        assert forall|i: int| 0 <= i < t.len() implies is_white(#[trigger] t[i]) by {
            assert(t[i] == a[i]);
        }
        white_has_no_words(t);
        assert(is_white(a[a.len() - 1]));
    }
}

proof fn indented(a: Seq<char>, s: Seq<char>)
    requires
        forall|i: int| 0 <= i < a.len() ==> is_white(#[trigger] a[i]),
        s.len() > 0,
        !is_white(s[0]),
    ensures
        trim_start(a + s) == s,
        words(a + s) == words(s),
    decreases a.len(),
{
    if a.len() > 0 {
        let t = a.skip(1);
        assert forall|i: int| 0 <= i < t.len() implies is_white(#[trigger] t[i]) by {
            assert(t[i] == a[i + 1]);
        }
        indented(t, s);
        assert((a + s)[0] == a[0]);
        assert((a + s).skip(1) =~= t + s);
        let b = a.drop_last();
        assert forall|i: int| 0 <= i < b.len() implies is_white(#[trigger] b[i]) by {
            assert(b[i] == a[i]);
        }
        white_has_no_words(b);
        assert(is_white(a[a.len() - 1]));
        white_space_parts_words(b, a.last(), s);
        assert(b.push(a.last()) =~= a);
        assert(words(b) + words(s) =~= words(s));
    } else {
        assert(a + s =~= s);
    }
}

/// A member of a pool is reported with its pool: the pool is named by the last line before it
/// that begins with `pool:`, and the member by the path that a line begins with, white space
/// aside.
pub proof fn vdev_is_reported(
    v: Seq<Seq<char>>,
    disks: Seq<Seq<char>>,
    h: int,
    i: int,
    k: int,
    pool: Seq<char>,
    indent: Seq<char>,
    device: Seq<char>,
    rest: Seq<char>,
)
    requires
        0 <= h < i < v.len(),
        v[h] == seq!['p', 'o', 'o', 'l', ':'] + pool,
        forall|l: int| 0 <= l < pool.len() ==> #[trigger] pool[l] != ':',
        forall|l: int| h < l <= i ==> !starts_pool(#[trigger] v[l]),
        v[i] == indent + (device.push(' ') + rest),
        forall|l: int| 0 <= l < indent.len() ==> is_white(#[trigger] indent[l]),
        is_word(device) && is_path(device),
        0 <= k < disks.len(),
        belongs(device, disks[k]),
    ensures
        pool_concerns(v, disks).1.contains(ConcernModel::Zfs { device, pool_name: trim(pool) }),
{
    let s = device.push(' ') + rest;
    assert(s[0] == device[0]);
    assert(!is_white(device[0]));
    indented(indent, s);
    first_word(device, rest);
    let w = words(v[i]);
    assert(w[0] == device);
    assert(is_path(s)) by {
        assert(forall|l: int| 0 <= l < device.len() ==> s[l] == device[l]);
    }
    marks_are_exact(s);
    marks_are_exact(device);
    marks_are_exact(v[i]);
    assert(!starts_pool(v[i]));
    assert(v[h].skip(5) =~= pool);
    assert(starts_pool(v[h]));
    before_ends_at_first(pool, ':', pool.len() as int);
    assert(pool.take(pool.len() as int) =~= pool);
    let c = ConcernModel::Zfs { device, pool_name: trim(pool) };
    let u = v.take(i + 1);
    let p = v.take(i);
    assert(u.drop_last() =~= p);
    assert(u.last() == v[i]);
    assert(p[h] == v[h]);
    assert forall|l: int| h < l < p.len() implies !starts_pool(#[trigger] p[l]) by {
        assert(p[l] == v[l]);
    }
    pool_stays(p, disks, h, trim(pool));
    vdev_in_line(w, trim(pool), disks, 0, k);
    in_sum(pool_concerns(p, disks).1, vdev_concerns(w, trim(pool), disks), c);
    pool_concern_stays(v, disks, i + 1, c);
}

/// What any of the four sources tells of is a concern: the mounts, the physical volumes, the
/// arrays and the pools. A tool that failed, or a list that is missing, tells of nothing.
pub proof fn every_source_counts(s: SystemState, disks: Seq<Seq<char>>, c: ConcernModel)
    ensures
        s.mounts matches TextSource::Text(t) ==> (mount_concerns(lines(t@), disks).contains(c)
            ==> all_concerns(s, disks).contains(c)),
        s.pvs matches ToolOutcome::Ran { success: true, stdout } ==> (volume_concerns(
            lines(utf8_lossy(stdout@)),
            disks,
        ).contains(c) ==> all_concerns(s, disks).contains(c)),
        s.mdstat matches Some(t) ==> (array_concerns(lines(t@), disks).1.contains(c)
            ==> all_concerns(s, disks).contains(c)),
        s.zpool matches ToolOutcome::Ran { success: true, stdout } ==> (pool_concerns(
            lines(utf8_lossy(stdout@)),
            disks,
        ).1.contains(c) ==> all_concerns(s, disks).contains(c)),
        s.mounts is Missing && s.mdstat is None && (s.pvs is Failed || (
        s.pvs matches ToolOutcome::Ran { success: false, stdout })) && (s.zpool is Failed || (
        s.zpool matches ToolOutcome::Ran { success: false, stdout })) ==> all_concerns(
            s,
            disks,
        ).len() == 0,
{
    let mounts = match s.mounts {
        TextSource::Text(t) => mount_concerns(lines(t@), disks),
        _ => Seq::empty(),
    };
    let volumes = match s.pvs {
        ToolOutcome::Ran { success: true, stdout } => volume_concerns(
            lines(utf8_lossy(stdout@)),
            disks,
        ),
        _ => Seq::empty(),
    };
    let arrays = match s.mdstat {
        Some(t) => array_concerns(lines(t@), disks).1,
        None => Seq::empty(),
    };
    let pools = match s.zpool {
        ToolOutcome::Ran { success: true, stdout } => pool_concerns(
            lines(utf8_lossy(stdout@)),
            disks,
        ).1,
        _ => Seq::empty(),
    };
    if mounts.contains(c) || volumes.contains(c) {
        in_sum(mounts, volumes, c);
    }
    if (mounts + volumes).contains(c) || arrays.contains(c) {
        in_sum(mounts + volumes, arrays, c);
    }
    if (mounts + volumes + arrays).contains(c) || pools.contains(c) {
        in_sum(mounts + volumes + arrays, pools, c);
    }
}

proof fn open_line(line: Seq<u8>)
    requires
        forall|i: int| 0 <= i < line.len() ==> #[trigger] line[i] != 10,
    ensures
        split_text(line) == (Seq::<char>::empty(), line),
    decreases line.len(),
{
    if line.len() > 0 {
        let t = line.drop_last();
        assert forall|i: int| 0 <= i < t.len() implies #[trigger] t[i] != 10 by {
            assert(t[i] == line[i]);
        }
        open_line(t);
        assert(line[line.len() - 1] != 10);
        assert(t.push(line.last()) =~= line);
    } else {
        assert(line =~= Seq::empty());
    }
}

proof fn text_goes_on(line: Seq<u8>, rest: Seq<u8>)
    requires
        forall|i: int| 0 <= i < line.len() ==> #[trigger] line[i] != 10,
    ensures
        split_text(line.push(10) + rest) == (
            line_text(line) + split_text(rest).0,
            split_text(rest).1,
        ),
    decreases rest.len(),
{
    let s = line.push(10) + rest;
    if rest.len() == 0 {
        assert(s =~= line.push(10));
        assert(s.drop_last() =~= line);
        open_line(line);
        assert(Seq::<char>::empty() + line_text(line) =~= line_text(line) + split_text(rest).0);
    } else {
        let r = rest.drop_last();
        assert(s.drop_last() =~= line.push(10) + r);
        assert(s.last() == rest.last());
        text_goes_on(line, r);
        assert(split_text(s).0 =~= line_text(line) + split_text(rest).0);
    }
}

/// A line of a file is read where it is text and passed over where it is not, and neither
/// touches the lines behind it.
pub proof fn lines_are_read_one_by_one(line: Seq<u8>, rest: Seq<u8>)
    requires
        forall|i: int| 0 <= i < line.len() ==> #[trigger] line[i] != 10,
    ensures
        valid_utf8(line) ==> readable(line.push(10) + rest) == decode_utf8(line).push('\n')
            + readable(rest),
        !valid_utf8(line) ==> readable(line.push(10) + rest) == readable(rest),
        line.len() > 0 && valid_utf8(line) ==> readable(line) == decode_utf8(line).push('\n'),
        line.len() == 0 || !valid_utf8(line) ==> readable(line) == Seq::<char>::empty(),
{
    text_goes_on(line, rest);
    open_line(line);
    assert(readable(line.push(10) + rest) =~= line_text(line) + readable(rest));
}

/// The messages of concerns follow each other with an empty line between each two.
pub proof fn messages_are_joined(u: Seq<ConcernModel>, c: ConcernModel)
    ensures
        joined_messages(seq![c]) == c.message(),
        u.len() > 0 ==> joined_messages(u.push(c)) == joined_messages(u) + seq!['\n', '\n']
            + c.message(),
{
    reveal_strlit("\n\n");
    assert("\n\n"@ =~= seq!['\n', '\n']);
    assert(u.push(c).drop_last() =~= u);
}

proof fn once_is_of_disks(c: ConcernModel, device: Seq<char>, disks: Seq<Seq<char>>, j: int)
    requires
        0 <= j < once_per_disk(c, device, disks).len(),
    ensures
        once_per_disk(c, device, disks)[j] == c,
        belongs_to_any(device, disks),
    decreases disks.len(),
{
    let u = disks.drop_last();
    if j < once_per_disk(c, device, u).len() {
        once_is_of_disks(c, device, u, j);
        let k = choose|k: int| 0 <= k < u.len() && belongs(device, #[trigger] u[k]);
        assert(disks[k] == u[k]);
    } else {
        assert(belongs(device, disks[disks.len() - 1]));
    }
}

proof fn members_are_of_disks(
    w: Seq<Seq<char>>,
    first: bool,
    array: Seq<char>,
    disks: Seq<Seq<char>>,
    j: int,
)
    requires
        0 <= j < member_concerns(w, first, array, disks).len(),
    ensures
        member_concerns(w, first, array, disks)[j] matches ConcernModel::Mdraid {
            device,
            array_name,
        } && array_name == array && belongs_to_any(device, disks),
    decreases w.len(),
{
    let u = w.drop_last();
    let o = member_concerns(u, first, array, disks);
    if j < o.len() {
        members_are_of_disks(u, first, array, disks, j);
    } else {
        let device = member_device(w.last());
        once_is_of_disks(
            ConcernModel::Mdraid { device, array_name: array },
            device,
            disks,
            j - o.len(),
        );
    }
}

/// Only members on the disks are reported as members of arrays.
pub proof fn only_members_on_disks_are_reported(v: Seq<Seq<char>>, disks: Seq<Seq<char>>, j: int)
    requires
        0 <= j < array_concerns(v, disks).1.len(),
    ensures
        array_concerns(v, disks).1[j] matches ConcernModel::Mdraid { device, array_name } && exists|
            k: int,
        |
            0 <= k < disks.len() && belongs(device, #[trigger] disks[k]),
    decreases v.len(),
{
    let u = v.drop_last();
    let (array, o) = array_concerns(u, disks);
    if j < o.len() {
        only_members_on_disks_are_reported(u, disks, j);
    } else if array_line(v.last()) {
        members_are_of_disks(
            words(v.last()),
            true,
            trim(before(v.last(), ':')),
            disks,
            j - o.len(),
        );
    } else if let Some(name) = array {
        members_are_of_disks(words(v.last()), false, name, disks, j - o.len());
    }
}

proof fn vdevs_are_of_disks(w: Seq<Seq<char>>, pool: Seq<char>, disks: Seq<Seq<char>>, j: int)
    requires
        0 <= j < vdev_concerns(w, pool, disks).len(),
    ensures
        vdev_concerns(w, pool, disks)[j] matches ConcernModel::Zfs { device, pool_name }
            && pool_name == pool && belongs_to_any(device, disks),
    decreases w.len(),
{
    let u = w.drop_last();
    let o = vdev_concerns(u, pool, disks);
    if j < o.len() {
        vdevs_are_of_disks(u, pool, disks, j);
    } else {
        once_is_of_disks(
            ConcernModel::Zfs { device: w.last(), pool_name: pool },
            w.last(),
            disks,
            j - o.len(),
        );
    }
}

/// Only members on the disks are reported as members of pools.
pub proof fn only_vdevs_on_disks_are_reported(v: Seq<Seq<char>>, disks: Seq<Seq<char>>, j: int)
    requires
        0 <= j < pool_concerns(v, disks).1.len(),
    ensures
        pool_concerns(v, disks).1[j] matches ConcernModel::Zfs { device, pool_name } && exists|
            k: int,
        |
            0 <= k < disks.len() && belongs(device, #[trigger] disks[k]),
    decreases v.len(),
{
    let u = v.drop_last();
    let (pool, o) = pool_concerns(u, disks);
    if j < o.len() {
        only_vdevs_on_disks_are_reported(u, disks, j);
    } else if let Some(name) = pool {
        vdevs_are_of_disks(words(v.last()), name, disks, j - o.len());
    }
}

} // verus!
