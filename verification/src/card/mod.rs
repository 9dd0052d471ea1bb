//! Adapters: what they are, how they are found and what is reported of them.

use crate::text::{chars_of, hex_pad, push_hex_pad, same_text, trimmed};
use crate::text::{hex_pad_is_plain, hexadecimal_round_trip, number_result, read_number, trim};
use crate::text::trimming_line_feed;
use vstd::prelude::*;

pub mod mpt;

pub use mpt::MptCard;

verus! {

/// The family of a controller chip.
#[derive(Debug, Clone, Copy, PartialEq, Eq, Structural)]
pub enum ChipFamily {
    Sas2008,
    Sas2208,
    Sas3008,
    Unknown,
}

/// What an adapter is; settled when it is found.
#[derive(Debug)]
pub struct CardIdentity {
    /// The bus address.
    pub bdf: String,
    /// The PCI vendor.
    pub vendor_id: u16,
    /// The PCI device.
    pub device_id: u16,
    /// The vendor of the board.
    pub subsystem_vid: Option<u16>,
    /// The number of the board.
    pub subsystem_did: Option<u16>,
    /// The family of the chip.
    pub chip_family: ChipFamily,
    /// What the adapter is sold as.
    pub friendly_name: Option<String>,
}

impl Clone for CardIdentity {
    fn clone(&self) -> (r: Self)
        ensures
            r == *self,
    {
        CardIdentity {
            bdf: self.bdf.clone(),
            vendor_id: self.vendor_id,
            device_id: self.device_id,
            subsystem_vid: self.subsystem_vid,
            subsystem_did: self.subsystem_did,
            chip_family: self.chip_family,
            friendly_name: copy_text(&self.friendly_name),
        }
    }
}

pub(crate) fn copy_text(t: &Option<String>) -> (r: Option<String>)
    ensures
        r == *t,
{
    match t {
        Some(s) => Some(s.clone()),
        None => None,
    }
}

/// Errors of adapters.
#[derive(Debug)]
pub enum CardError {
    /// There is no adapter.
    NoCardsFound,
    /// The adapter is of no known family.
    UnsupportedCard(u16, u16),
    /// The bus could not be searched.
    PciEnumeration(String),
    /// A file could not be read or written.
    Io(String),
    /// A message could not be sent, or was answered with a failure.
    Transport(String),
    /// The adapter cannot do this.
    NotImplemented(&'static str),
}

/// What an error of an adapter stands for.
pub enum CardFailure {
    NoCardsFound,
    UnsupportedCard(u16, u16),
    PciEnumeration(Seq<char>),
    Io(Seq<char>),
    Transport(Seq<char>),
    NotImplemented(Seq<char>),
}

impl View for CardError {
    type V = CardFailure;

    open spec fn view(&self) -> CardFailure {
        match self {
            CardError::NoCardsFound => CardFailure::NoCardsFound,
            CardError::UnsupportedCard(v, d) => CardFailure::UnsupportedCard(*v, *d),
            CardError::PciEnumeration(e) => CardFailure::PciEnumeration(e@),
            CardError::Io(e) => CardFailure::Io(e@),
            CardError::Transport(e) => CardFailure::Transport(e@),
            CardError::NotImplemented(e) => CardFailure::NotImplemented(e@),
        }
    }
}

impl CardFailure {
    /// The error in words.
    pub open spec fn text(self) -> Seq<char> {
        match self {
            CardFailure::NoCardsFound => "no cards found on PCI bus"@,
            CardFailure::UnsupportedCard(v, d) => "unsupported card: VID:DID "@ + hex_pad(
                v as nat,
                4,
                false,
            ) + ":"@ + hex_pad(d as nat, 4, false),
            CardFailure::PciEnumeration(e) => "pci enumeration: "@ + e,
            CardFailure::Io(e) => "io: "@ + e,
            CardFailure::Transport(e) => "transport: "@ + e,
            CardFailure::NotImplemented(e) => "not yet implemented: "@ + e,
        }
    }
}

impl CardError {
    /// The error in words.
    pub fn text(&self) -> (r: String)
        ensures
            r@ == self@.text(),
    {
        match self {
            CardError::NoCardsFound => "no cards found on PCI bus".to_owned(),
            CardError::UnsupportedCard(v, d) => {
                let mut t = "unsupported card: VID:DID ".to_owned();
                push_hex_pad(&mut t, *v as u64, 4, false);
                t.append(":");
                push_hex_pad(&mut t, *d as u64, 4, false);
                t
            },
            CardError::PciEnumeration(e) => {
                let mut t = "pci enumeration: ".to_owned();
                t.append(e.as_str());
                t
            },
            CardError::Io(e) => {
                let mut t = "io: ".to_owned();
                t.append(e.as_str());
                t
            },
            CardError::Transport(e) => {
                let mut t = "transport: ".to_owned();
                t.append(e.as_str());
                t
            },
            CardError::NotImplemented(e) => {
                let mut t = "not yet implemented: ".to_owned();
                t.append(*e);
                t
            },
        }
    }
}

/// What was found out about an adapter.
#[derive(Debug)]
pub struct DetectReport {
    /// The bus address.
    pub bdf: String,
    /// The family of the chip.
    pub chip_family: ChipFamily,
}

/// One file of a backup.
#[derive(Debug)]
pub struct BackupArtifact {
    /// The name of the file.
    pub path: String,
    /// Which image it holds.
    pub image_type: String,
    /// The SHA-256 digest of its bytes, in hexadecimal.
    pub sha256: String,
    /// How many bytes it has.
    pub size: u64,
}

/// What an entry of a manifest stands for.
pub struct ArtifactModel {
    pub path: Seq<char>,
    pub image_type: Seq<char>,
    pub sha256: Seq<char>,
    pub size: u64,
}

impl View for BackupArtifact {
    type V = ArtifactModel;

    open spec fn view(&self) -> ArtifactModel {
        ArtifactModel {
            path: self.path@,
            image_type: self.image_type@,
            sha256: self.sha256@,
            size: self.size,
        }
    }
}

impl Clone for BackupArtifact {
    fn clone(&self) -> (r: Self)
        ensures
            r == *self,
    {
        BackupArtifact {
            path: self.path.clone(),
            image_type: self.image_type.clone(),
            sha256: self.sha256.clone(),
            size: self.size,
        }
    }
}

/// What a list of entries stands for.
pub open spec fn artifact_models(v: Seq<BackupArtifact>) -> Seq<ArtifactModel> {
    v.map_values(|a: BackupArtifact| a@)
}

/// Where a backup comes from.
#[derive(Debug)]
pub struct SourceCardInfo {
    /// The PCI vendor.
    pub pci_vid: u16,
    /// The PCI device.
    pub pci_did: u16,
    /// The vendor of the board.
    pub subsystem_vid: Option<u16>,
    /// The number of the board.
    pub subsystem_did: Option<u16>,
    /// What the adapter is sold as.
    pub friendly_name: Option<String>,
}

/// The list of the files of a backup.
#[derive(Debug)]
pub struct BackupManifest {
    /// When it was made.
    pub timestamp: String,
    /// The address of the adapter on its own network.
    pub sas_wwn: Option<String>,
    /// The files.
    pub artifacts: Vec<BackupArtifact>,
    /// The adapter.
    pub source_card: Option<SourceCardInfo>,
}

/// What came of a backup.
#[derive(Debug)]
pub struct BackupReport {
    /// When it was made.
    pub timestamp: String,
    /// How many files it has.
    pub artifacts_count: usize,
    /// The files.
    pub artifacts: Vec<BackupArtifact>,
}

/// What came of a restore.
#[derive(Debug)]
pub struct RestoreReport {
    /// When it was made.
    pub timestamp: String,
    /// How many regions were written.
    pub regions_written: usize,
    /// The regions.
    pub regions: Vec<String>,
}

/// A device on the bus.
#[derive(Debug)]
pub struct PciDevice {
    /// The bus address.
    pub bdf: String,
    /// The PCI vendor.
    pub vendor_id: u16,
    /// The PCI device.
    pub device_id: u16,
    /// The vendor of the board.
    pub subsystem_vendor_id: u16,
    /// The number of the board.
    pub subsystem_device_id: u16,
}

/// The address that stands for the simulated adapter. No device on a bus can have it.
pub const MOCK_BDF: &'static str = "-1:-1:-1:-1";

/// Whether an address stands for the simulated adapter.
pub fn is_mock_bdf(bdf: &str) -> (r: bool)
    ensures
        r == (bdf@ == MOCK_BDF@),
{
    same_text(bdf, MOCK_BDF)
}

/// The family of the chip with these PCI numbers.
pub open spec fn family_of(vid: u16, did: u16) -> ChipFamily {
    if vid != 0x1000 {
        ChipFamily::Unknown
    } else if did == 0x0072 || did == 0x0073 {
        ChipFamily::Sas2008
    } else if did == 0x0084 {
        ChipFamily::Sas2208
    } else if did == 0x00C0 {
        ChipFamily::Sas3008
    } else {
        ChipFamily::Unknown
    }
}

/// The family of the chip with these PCI numbers.
pub fn chip_family_from_pci(vid: u16, did: u16) -> (r: ChipFamily)
    ensures
        r == family_of(vid, did),
{
    match (vid, did) {
        (0x1000, 0x0072) => ChipFamily::Sas2008,
        (0x1000, 0x0073) => ChipFamily::Sas2008,
        (0x1000, 0x0084) => ChipFamily::Sas2208,
        (0x1000, 0x00C0) => ChipFamily::Sas3008,
        _ => ChipFamily::Unknown,
    }
}

/// The adapters among `tries` that could be opened, in order.
pub open spec fn opened<C>(tries: Seq<Result<C, CardError>>) -> Seq<C>
    decreases tries.len(),
{
    if tries.len() == 0 {
        Seq::empty()
    } else {
        match tries.last() {
            Ok(c) => opened(tries.drop_last()).push(c),
            Err(_) => opened(tries.drop_last()),
        }
    }
}

/// Collects the adapters that could be opened; what could not is passed over.
pub fn discover<C>(tries: Vec<Result<C, CardError>>) -> (r: Result<Vec<C>, CardError>)
    ensures
        if opened(tries@).len() == 0 {
            r matches Err(e) && e is NoCardsFound
        } else {
            r matches Ok(v) && v@ == opened(tries@)
        },
{
    let ghost all = tries@;
    let mut cards: Vec<C> = Vec::new();
    assert(all.take(0).len() == 0);
    for t in it: tries
        invariant
            it.seq() == all,
            it.index() <= all.len(),
            cards@ == opened(all.take(it.index() as int)),
    {
        let ghost u = all.take(it.index() + 1);
        assert(u.drop_last() =~= all.take(it.index() as int));
        assert(u.last() == t);
        match t {
            Ok(c) => {
                cards.push(c);
            },
            Err(_) => {},
        }
    }
    assert(all.take(all.len() as int) =~= all);
    if cards.len() == 0 {
        Err(CardError::NoCardsFound)
    } else {
        Ok(cards)
    }
}

/// The text behind a result.
pub open spec fn text_result(r: Result<String, String>) -> Result<Seq<char>, Seq<char>> {
    match r {
        Ok(s) => Ok(s@),
        Err(e) => Err(e@),
    }
}

/// `s` without any number of `0x` in front.
pub open spec fn without_0x(s: Seq<char>) -> Seq<char>
    decreases s.len(),
{
    if s.len() >= 2 && s[0] == '0' && s[1] == 'x' {
        without_0x(s.skip(2))
    } else {
        s
    }
}

/// The file that holds one of the numbers of the device at `bdf`.
pub open spec fn id_path(bdf: Seq<char>, leaf: Seq<char>) -> Seq<char> {
    "/sys/bus/pci/devices/"@ + bdf + "/"@ + leaf
}

/// The number in the file at `path`, given what reading it gave.
pub open spec fn pci_id(path: Seq<char>, read: Result<Seq<char>, Seq<char>>) -> Result<
    u16,
    CardFailure,
> {
    match read {
        Err(e) => Err(CardFailure::PciEnumeration("read "@ + path + ": "@ + e)),
        Ok(raw) => match number_result(without_0x(trim(raw)), 16, 0xFFFF) {
            Ok(v) => Ok(v as u16),
            Err(f) => Err(CardFailure::PciEnumeration("parse "@ + path + ": "@ + f.spec_text())),
        },
    }
}

fn skip_0x(s: &[char]) -> (r: &[char])
    ensures
        r@ == without_0x(s@),
{
    let mut i: usize = 0;
    let len: usize = s.len();
    assert(s@.skip(0) =~= s@);
    while len - i >= 2 && s[i] == '0' && s[i + 1] == 'x'
        invariant
            len == s@.len(),
            i <= len,
            without_0x(s@) == without_0x(s@.skip(i as int)),
        decreases len - i,
    {
        let ghost t = s@.skip(i as int);
        assert(t[0] == s@[i as int] && t[1] == s@[i + 1]);
        assert(t.skip(2) =~= s@.skip(i + 2));
        i += 2;
    }
    let ghost t = s@.skip(i as int);
    assert(t.len() >= 2 ==> t[0] == s@[i as int] && t[1] == s@[i + 1]);
    assert(s@.subrange(i as int, s@.len() as int) =~= s@.skip(i as int));
    &s[i..s.len()]
}

/// Reads a number of a device out of the text of its file.
pub fn parse_pci_id(bdf: &str, leaf: &str, read: Result<String, String>) -> (r: Result<
    u16,
    CardError,
>)
    ensures
        match pci_id(id_path(bdf@, leaf@), text_result(read)) {
            Ok(v) => r == Ok::<u16, CardError>(v),
            Err(f) => r matches Err(e) && e@ == f,
        },
{
    let mut path = "/sys/bus/pci/devices/".to_owned();
    path.append(bdf);
    path.append("/");
    path.append(leaf);
    match read {
        Err(e) => {
            let mut t = "read ".to_owned();
            t.append(path.as_str());
            t.append(": ");
            t.append(e.as_str());
            Err(CardError::PciEnumeration(t))
        },
        Ok(raw) => {
            let chars = chars_of(raw.as_str());
            match read_number(skip_0x(trimmed(chars.as_slice())), 16, 0xFFFF) {
                Ok(v) => {
                    proof {
                        scanned_bound(
                            crate::text::without_plus(without_0x(trim(raw@))),
                            16,
                            0xFFFF,
                        );
                    }
                    Ok(v as u16)
                },
                Err(f) => {
                    let mut t = "parse ".to_owned();
                    t.append(path.as_str());
                    t.append(": ");
                    t.append(f.text());
                    Err(CardError::PciEnumeration(t))
                },
            }
        },
    }
}

proof fn scanned_bound(s: Seq<char>, radix: nat, max: nat)
    ensures
        crate::text::scanned(s, radix, max) matches Ok(v) ==> v <= max,
{
}

/// The PCI numbers of the device at `bdf`, given what reading its two files gave.
pub open spec fn pci_ids(
    bdf: Seq<char>,
    vendor: Result<Seq<char>, Seq<char>>,
    device: Result<Seq<char>, Seq<char>>,
) -> Result<(u16, u16), CardFailure> {
    match pci_id(id_path(bdf, "vendor"@), vendor) {
        Err(f) => Err(f),
        Ok(vid) => match pci_id(id_path(bdf, "device"@), device) {
            Err(f) => Err(f),
            Ok(did) => Ok((vid, did)),
        },
    }
}

/// Reads the PCI numbers of a device.
pub fn read_pci_ids(
    bdf: &str,
    vendor: Result<String, String>,
    device: Result<String, String>,
) -> (r: Result<(u16, u16), CardError>)
    ensures
        match pci_ids(bdf@, text_result(vendor), text_result(device)) {
            Ok(ids) => r == Ok::<(u16, u16), CardError>(ids),
            Err(f) => r matches Err(e) && e@ == f,
        },
{
    let vid: u16 = match parse_pci_id(bdf, "vendor", vendor) {
        Ok(v) => v,
        Err(e) => {
            return Err(e);
        },
    };
    match parse_pci_id(bdf, "device", device) {
        Ok(did) => Ok((vid, did)),
        Err(e) => Err(e),
    }
}

/// Decides which family the device at `bdf` belongs to, given what reading its
/// two files gave. A device of no known family is refused by its numbers.
pub fn discover_one(
    bdf: &str,
    vendor: Result<String, String>,
    device: Result<String, String>,
) -> (r: Result<ChipFamily, CardError>)
    ensures
        match pci_ids(bdf@, text_result(vendor), text_result(device)) {
            Ok((vid, did)) => if family_of(vid, did) is Unknown {
                r matches Err(e) && e@ == CardFailure::UnsupportedCard(vid, did)
            } else {
                r == Ok::<ChipFamily, CardError>(family_of(vid, did))
            },
            Err(f) => r matches Err(e) && e@ == f,
        },
{
    let (vid, did): (u16, u16) = match read_pci_ids(bdf, vendor, device) {
        Ok(ids) => ids,
        Err(e) => {
            return Err(e);
        },
    };
    match chip_family_from_pci(vid, did) {
        ChipFamily::Unknown => Err(CardError::UnsupportedCard(vid, did)),
        family => Ok(family),
    }
}

// ---------------------------------------------------------------- the laws

/// The family of a chip goes by the vendor 0x1000 and the number of the device; a device of
/// another vendor, or with another number, belongs to none.
pub proof fn family_goes_by_numbers(vid: u16, did: u16)
    ensures
        family_of(vid, did) is Sas2008 <==> vid == 0x1000 && 0x72 <= did <= 0x73,
        family_of(vid, did) is Sas2208 <==> vid == 0x1000 && did == 0x84,
        family_of(vid, did) is Sas3008 <==> vid == 0x1000 && did == 0xC0,
        family_of(vid, did) is Unknown <==> vid != 0x1000 || (did != 0x72 && did != 0x73 && did
            != 0x84 && did != 0xC0),
{
}

/// Adapters that could be opened are kept in order, and nothing else is: the tries of one bus
/// and then of another give the adapters of the one and then of the other.
pub proof fn opened_keeps_order<C>(a: Seq<Result<C, CardError>>, b: Seq<Result<C, CardError>>)
    ensures
        opened(a + b) == opened(a) + opened(b),
        forall|c: C| #[trigger] opened(seq![Ok::<C, CardError>(c)]) == seq![c],
        forall|e: CardError| #[trigger]
            opened(seq![Err::<C, CardError>(e)]) == Seq::<C>::empty(),
    decreases b.len(),
{
    assert forall|c: C| #[trigger] opened(seq![Ok::<C, CardError>(c)]) == seq![c] by {
        let s = seq![Ok::<C, CardError>(c)];
        assert(s.drop_last() =~= Seq::empty());
        assert(opened(s.drop_last()) =~= Seq::empty());
        assert(opened(s) =~= seq![c]);
    }
    assert forall|e: CardError| #[trigger]
        opened(seq![Err::<C, CardError>(e)]) == Seq::<C>::empty() by {
        let s = seq![Err::<C, CardError>(e)];
        assert(s.drop_last() =~= Seq::empty());
        assert(opened(s.drop_last()) =~= Seq::empty());
        assert(opened(s) == opened(s.drop_last()));
    }
    if b.len() == 0 {
        assert(a + b =~= a);
        assert(opened(a) + opened(b) =~= opened(a));
    } else {
        opened_keeps_order(a, b.drop_last());
        assert((a + b).drop_last() =~= a + b.drop_last());
        assert(opened(a + b) =~= opened(a) + opened(b));
    }
}

/// The number of a device is read from the text that the system has for it: `0x`, the number
/// in hexadecimal with at least four digits, and a line feed.
pub proof fn device_number_is_read(path: Seq<char>, v: u16)
    ensures
        pci_id(path, Ok(seq!['0', 'x'] + hex_pad(v as nat, 4, false) + seq!['\n'])) == Ok::<
            u16,
            CardFailure,
        >(v),
{
    let h = hex_pad(v as nat, 4, false);
    let s = seq!['0', 'x'] + h;
    let raw = s + seq!['\n'];
    hexadecimal_round_trip(v as nat, 4, false, 0xFFFF);
    hex_pad_is_plain(v as nat, 4, false);
    assert(s.last() == h.last());
    trimming_line_feed(s);
    assert(s.skip(2) =~= h);
    assert(h[1] != 'x');
    assert(without_0x(h) == h);
    assert(without_0x(s) == h);
}

/// Vendor and device are read from their own files: from the texts of two numbers come those
/// two numbers, in that order.
pub proof fn device_numbers_are_not_mixed_up(bdf: Seq<char>, vid: u16, did: u16)
    ensures
        pci_ids(
            bdf,
            Ok(seq!['0', 'x'] + hex_pad(vid as nat, 4, false) + seq!['\n']),
            Ok(seq!['0', 'x'] + hex_pad(did as nat, 4, false) + seq!['\n']),
        ) == Ok::<(u16, u16), CardFailure>((vid, did)),
{
    device_number_is_read(id_path(bdf, "vendor"@), vid);
    device_number_is_read(id_path(bdf, "device"@), did);
}

} // verus!
