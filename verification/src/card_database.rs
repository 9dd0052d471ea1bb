//! The database of adapters that are known by their PCI numbers.

use crate::text::{chars_of, same_text};
use vstd::prelude::*;

verus! {

/// Errors of the database.
#[derive(Debug)]
pub enum CardDatabaseError {
    /// The text of the database is malformed.
    ParseToml(String),
    /// The file of the database cannot be read.
    Io(String),
}

impl CardDatabaseError {
    /// The error in words.
    pub open spec fn spec_text(&self) -> Seq<char> {
        match self {
            CardDatabaseError::ParseToml(e) => "Parse TOML error: "@ + e@,
            CardDatabaseError::Io(e) => "IO error: "@ + e@,
        }
    }

    /// The error in words.
    pub fn text(&self) -> (r: String)
        ensures
            r@ == self.spec_text(),
    {
        match self {
            CardDatabaseError::ParseToml(e) => {
                let mut t = "Parse TOML error: ".to_owned();
                t.append(e.as_str());
                t
            },
            CardDatabaseError::Io(e) => {
                let mut t = "IO error: ".to_owned();
                t.append(e.as_str());
                t
            },
        }
    }
}

/// The family of a controller chip. Only the first is supported; the others are
/// recorded so that they can be refused by name.
#[derive(Debug, Clone, Copy, PartialEq, Eq, Structural)]
pub enum ChipFamily {
    Sas2008,
    Sas2108,
    Sas2208,
    Sas2308,
    Sas3008,
    Unknown,
}

/// The kind of firmware that an adapter is sold with.
#[derive(Debug, Clone, Copy, PartialEq, Eq, Structural)]
pub enum Personality {
    IT,
    IR,
    IMR,
    IE,
}

/// What is peculiar about an adapter.
#[derive(Debug, Clone, PartialEq, Eq)]
pub enum Quirk {
    /// A check against tampering that survives a normal erase.
    DellTamperCheck,
    /// Another wiring byte in the boot record.
    FujitsuA21Wiring,
    /// Firmware in a composite format.
    ImrComposite,
    /// A lock by the management controller.
    DellH310MiniMonoIdracLock,
    /// A smaller flash.
    DellH200TapeAdapterSmallerFlash,
    /// A key that this version does not know.
    Unknown(String),
}

/// What a quirk stands for.
pub enum QuirkModel {
    DellTamperCheck,
    FujitsuA21Wiring,
    ImrComposite,
    DellH310MiniMonoIdracLock,
    DellH200TapeAdapterSmallerFlash,
    Unknown(Seq<char>),
}

impl View for Quirk {
    type V = QuirkModel;

    open spec fn view(&self) -> QuirkModel {
        match self {
            Quirk::DellTamperCheck => QuirkModel::DellTamperCheck,
            Quirk::FujitsuA21Wiring => QuirkModel::FujitsuA21Wiring,
            Quirk::ImrComposite => QuirkModel::ImrComposite,
            Quirk::DellH310MiniMonoIdracLock => QuirkModel::DellH310MiniMonoIdracLock,
            Quirk::DellH200TapeAdapterSmallerFlash => QuirkModel::DellH200TapeAdapterSmallerFlash,
            Quirk::Unknown(s) => QuirkModel::Unknown(s@),
        }
    }
}

/// The quirk with the given key.
pub open spec fn quirk_of(key: Seq<char>) -> QuirkModel {
    if key == "dell-tamper-check"@ {
        QuirkModel::DellTamperCheck
    } else if key == "fujitsu-a21-wiring"@ {
        QuirkModel::FujitsuA21Wiring
    } else if key == "imr-composite"@ {
        QuirkModel::ImrComposite
    } else if key == "dell-h310-mini-mono-idrac-lock"@ {
        QuirkModel::DellH310MiniMonoIdracLock
    } else if key == "dell-h200-tape-adapter-smaller-flash"@ {
        QuirkModel::DellH200TapeAdapterSmallerFlash
    } else {
        QuirkModel::Unknown(key)
    }
}

impl Quirk {
    /// The quirk with the given key; a key that is not known is kept.
    pub fn from_key(key: &str) -> (r: Self)
        ensures
            r@ == quirk_of(key@),
    {
        if same_text(key, "dell-tamper-check") {
            Quirk::DellTamperCheck
        } else if same_text(key, "fujitsu-a21-wiring") {
            Quirk::FujitsuA21Wiring
        } else if same_text(key, "imr-composite") {
            Quirk::ImrComposite
        } else if same_text(key, "dell-h310-mini-mono-idrac-lock") {
            Quirk::DellH310MiniMonoIdracLock
        } else if same_text(key, "dell-h200-tape-adapter-smaller-flash") {
            Quirk::DellH200TapeAdapterSmallerFlash
        } else {
            Quirk::Unknown(key.to_owned())
        }
    }
}

/// An adapter.
#[derive(Debug)]
pub struct CardInfo {
    /// The key of the entry.
    pub slug: String,
    /// What it is sold as.
    pub display: String,
    /// The PCI vendor.
    pub vid: u16,
    /// The PCI device.
    pub did: u16,
    /// The vendor of the board.
    pub subsys_vid: u16,
    /// The number of the board.
    pub subsys_pid: u16,
    /// The family of its chip.
    pub chip_family: ChipFamily,
    /// The firmware it is sold with.
    pub default_personality: Personality,
    /// The prefix of its network addresses.
    pub sas_oui: u32,
    /// The interface byte of its boot record.
    pub interface_byte: u8,
    /// The firmware it is delivered with.
    pub factory_firmware: Option<String>,
    /// The firmware that runs on it.
    pub compatible_firmware: Vec<String>,
    /// What is peculiar about it.
    pub quirks: Vec<Quirk>,
    /// Its form.
    pub form_factor: Option<String>,
    /// How the entry was confirmed.
    pub confirmed_via: Option<String>,
    /// Anything else.
    pub notes: Option<String>,
}

/// An entry of the database as it is written, under a key of its own.
#[derive(Debug)]
pub struct CardEntry {
    pub display: String,
    pub vid: u16,
    pub did: u16,
    pub subsys_vid: u16,
    pub subsys_pid: u16,
    pub chip_family: ChipFamily,
    pub default_personality: Personality,
    pub sas_oui: u32,
    pub interface_byte: u8,
    pub factory_firmware: Option<String>,
    pub compatible_firmware: Vec<String>,
    pub quirks: Vec<String>,
    pub form_factor: Option<String>,
    pub confirmed_via: Option<String>,
    pub notes: Option<String>,
}

/// Whether `c` is the adapter that the entry `e` describes under the key `slug`.
pub open spec fn describes(slug: Seq<char>, e: CardEntry, c: CardInfo) -> bool {
    &&& c.slug@ == slug
    &&& c.display == e.display
    &&& c.vid == e.vid
    &&& c.did == e.did
    &&& c.subsys_vid == e.subsys_vid
    &&& c.subsys_pid == e.subsys_pid
    &&& c.chip_family == e.chip_family
    &&& c.default_personality == e.default_personality
    &&& c.sas_oui == e.sas_oui
    &&& c.interface_byte == e.interface_byte
    &&& c.factory_firmware == e.factory_firmware
    &&& c.compatible_firmware == e.compatible_firmware
    &&& c.quirks@.len() == e.quirks@.len()
    &&& forall|i: int|
        0 <= i < c.quirks@.len() ==> (#[trigger] c.quirks@[i])@ == quirk_of(e.quirks@[i]@)
    &&& c.form_factor == e.form_factor
    &&& c.confirmed_via == e.confirmed_via
    &&& c.notes == e.notes
}

impl CardEntry {
    /// The adapter that the entry describes.
    pub fn into_card_info(self, slug: String) -> (r: CardInfo)
        ensures
            describes(slug@, self, r),
    {
        let mut quirks: Vec<Quirk> = Vec::new();
        let mut i: usize = 0;
        while i < self.quirks.len()
            invariant
                i <= self.quirks@.len(),
                quirks@.len() == i,
                forall|k: int|
                    0 <= k < i ==> (#[trigger] quirks@[k])@ == quirk_of(self.quirks@[k]@),
            decreases self.quirks@.len() - i,
        {
            quirks.push(Quirk::from_key(self.quirks[i].as_str()));
            i += 1;
        }
        CardInfo {
            slug,
            display: self.display,
            vid: self.vid,
            did: self.did,
            subsys_vid: self.subsys_vid,
            subsys_pid: self.subsys_pid,
            chip_family: self.chip_family,
            default_personality: self.default_personality,
            sas_oui: self.sas_oui,
            interface_byte: self.interface_byte,
            factory_firmware: self.factory_firmware,
            compatible_firmware: self.compatible_firmware,
            quirks,
            form_factor: self.form_factor,
            confirmed_via: self.confirmed_via,
            notes: self.notes,
        }
    }
}

/// Whether `a` comes before `b` in the order of characters, or is `b`.
pub open spec fn text_le(a: Seq<char>, b: Seq<char>) -> bool
    decreases a.len(),
{
    if a.len() == 0 {
        true
    } else if b.len() == 0 {
        false
    } else if a[0] != b[0] {
        a[0] < b[0]
    } else {
        text_le(a.skip(1), b.skip(1))
    }
}

proof fn text_le_total(a: Seq<char>, b: Seq<char>)
    ensures
        text_le(a, b) || text_le(b, a),
    decreases a.len(),
{
    if a.len() > 0 && b.len() > 0 && a[0] == b[0] {
        text_le_total(a.skip(1), b.skip(1));
    }
}

proof fn text_le_transitive(a: Seq<char>, b: Seq<char>, c: Seq<char>)
    requires
        text_le(a, b),
        text_le(b, c),
    ensures
        text_le(a, c),
    decreases a.len(),
{
    if a.len() > 0 && b.len() > 0 && c.len() > 0 && a[0] == b[0] && b[0] == c[0] {
        text_le_transitive(a.skip(1), b.skip(1), c.skip(1));
    }
}

fn text_before(a: &str, b: &str) -> (r: bool)
    ensures
        r == text_le(a@, b@),
{
    let x = chars_of(a);
    let y = chars_of(b);
    let mut i: usize = 0;
    assert(x@.skip(0) =~= x@ && y@.skip(0) =~= y@);
    while i < x.len() && i < y.len() && x[i] == y[i]
        invariant
            i <= x@.len(),
            i <= y@.len(),
            text_le(x@, y@) == text_le(x@.skip(i as int), y@.skip(i as int)),
        decreases x@.len() - i,
    {
        let ghost u = x@.skip(i as int);
        let ghost w = y@.skip(i as int);
        assert(u[0] == x@[i as int] && w[0] == y@[i as int]);
        assert(u.skip(1) =~= x@.skip(i + 1) && w.skip(1) =~= y@.skip(i + 1));
        i += 1;
    }
    let ghost u = x@.skip(i as int);
    let ghost w = y@.skip(i as int);
    assert(i < x@.len() ==> u[0] == x@[i as int]);
    assert(i < y@.len() ==> w[0] == y@[i as int]);
    if i == x.len() {
        true
    } else if i == y.len() {
        false
    } else {
        x[i] < y[i]
    }
}

/// Whether the adapters stand in the order of their keys.
pub open spec fn in_order(v: Seq<CardInfo>) -> bool {
    forall|i: int, j: int|
        0 <= i < j < v.len() ==> text_le((#[trigger] v[i]).slug@, (#[trigger] v[j]).slug@)
}

proof fn inserted_multiset(v: Seq<CardInfo>, at: int, c: CardInfo)
    requires
        0 <= at <= v.len(),
    ensures
        v.insert(at, c).to_multiset() == v.to_multiset().insert(c),
{
    let w = v.insert(at, c);
    assert(w.remove(at) =~= v);
    assert(w[at] == c);
    vstd::seq_lib::to_multiset_remove(w, at);
    w.to_multiset_ensures();
    assert(w.contains(c));
    assert(w.to_multiset() =~= w.to_multiset().remove(c).insert(c));
}

fn insert_in_order(v: &mut Vec<CardInfo>, c: CardInfo)
    requires
        in_order(old(v)@),
    ensures
        in_order(final(v)@),
        final(v)@.to_multiset() == old(v)@.to_multiset().insert(c),
{
    let ghost before = v@;
    let mut at: usize = v.len();
    while at > 0 && !text_before(v[at - 1].slug.as_str(), c.slug.as_str())
        invariant
            at <= v@.len(),
            v@ == before,
            in_order(before),
            forall|k: int|
                at <= k < before.len() ==> text_le(c.slug@, (#[trigger] before[k]).slug@),
        decreases at,
    {
        proof {
            text_le_total(before[at - 1].slug@, c.slug@);
        }
        at -= 1;
    }
    proof {
        assert forall|k: int| 0 <= k < at implies text_le((#[trigger] before[k]).slug@, c.slug@) by {
            if k < at - 1 {
                text_le_transitive(before[k].slug@, before[at - 1].slug@, c.slug@);
            }
        }
        inserted_multiset(before, at as int, c);
    }
    v.insert(at, c);
    proof {
        let w = v@;
        assert forall|i: int, j: int| 0 <= i < j < w.len() implies text_le(
            (#[trigger] w[i]).slug@,
            (#[trigger] w[j]).slug@,
        ) by {
            let pi = if i < at { i } else { i - 1 };
            let pj = if j < at { j } else { j - 1 };
            if i != at {
                assert(w[i] == before[pi]);
            }
            if j != at {
                assert(w[j] == before[pj]);
            }
        }
    }
}

/// Puts adapters in the order of their keys.
pub fn sort_by_slug(cards: Vec<CardInfo>) -> (r: Vec<CardInfo>)
    ensures
        in_order(r@),
        r@.to_multiset() == cards@.to_multiset(),
{
    let ghost all = cards@;
    let mut out: Vec<CardInfo> = Vec::new();
    assert(all.take(0) =~= Seq::empty());
    for c in it: cards
        invariant
            it.seq() == all,
            it.index() <= all.len(),
            in_order(out@),
            out@.to_multiset() == all.take(it.index() as int).to_multiset(),
    {
        let ghost n = it.index() as int;
        proof {
            assert(all.take(n + 1) =~= all.take(n).push(c));
            vstd::seq_lib::to_multiset_build(all.take(n), c);
        }
        insert_in_order(&mut out, c);
    }
    assert(all.take(all.len() as int) =~= all);
    out
}

/// Whether adapters are those of some entries, in the order of the entries.
pub open spec fn made_of(u: Seq<CardInfo>, v: Seq<(String, CardEntry)>) -> bool {
    u.len() == v.len() && forall|i: int|
        0 <= i < u.len() ==> describes(v[i].0@, v[i].1, #[trigger] u[i])
}

/// Whether a database holds the adapters of some entries, in the order of their keys.
pub open spec fn holds_entries(c: Seq<CardInfo>, v: Seq<(String, CardEntry)>) -> bool {
    in_order(c) && exists|u: Seq<CardInfo>| #[trigger]
        made_of(u, v) && c.to_multiset() == u.to_multiset()
}

/// Makes a database of entries that were read, or says that they cannot be read.
pub fn parse_database(entries: Result<Vec<(String, CardEntry)>, String>) -> (r: Result<
    Vec<CardInfo>,
    CardDatabaseError,
>)
    ensures
        match entries {
            Ok(v) => r matches Ok(c) && holds_entries(c@, v@),
            Err(e) => r == Err::<Vec<CardInfo>, CardDatabaseError>(CardDatabaseError::ParseToml(e)),
        },
{
    let list = match entries {
        Ok(v) => v,
        Err(e) => return Err(CardDatabaseError::ParseToml(e)),
    };
    let ghost all = list@;
    let mut cards: Vec<CardInfo> = Vec::new();
    for entry in it: list
        invariant
            it.seq() == all,
            it.index() <= all.len(),
            cards@.len() == it.index(),
            forall|i: int|
                0 <= i < cards@.len() ==> describes(all[i].0@, all[i].1, #[trigger] cards@[i]),
    {
        let (slug, e) = entry;
        cards.push(e.into_card_info(slug));
    }
    assert(made_of(cards@, all));
    Ok(sort_by_slug(cards))
}

/// A database of the user.
#[derive(Debug)]
pub enum UserDatabase {
    /// There is none.
    Absent,
    /// Its text.
    Text(String),
    /// It cannot be read.
    Unreadable(String),
}

/// The text of the database to use: that of the user, where there is one, and else that
/// which comes with the program.
pub fn load_with_fallback(user: UserDatabase, own: String) -> (r: Result<String, CardDatabaseError>)
    ensures
        r == (match user {
            UserDatabase::Absent => Ok::<String, CardDatabaseError>(own),
            UserDatabase::Text(t) => Ok(t),
            UserDatabase::Unreadable(e) => Err(CardDatabaseError::Io(e)),
        }),
{
    match user {
        UserDatabase::Absent => Ok(own),
        UserDatabase::Text(t) => Ok(t),
        UserDatabase::Unreadable(e) => Err(CardDatabaseError::Io(e)),
    }
}

/// Whether an adapter has these PCI numbers.
pub open spec fn has_ids(c: CardInfo, vid: u16, did: u16, subsys_vid: u16, subsys_pid: u16) -> bool {
    c.vid == vid && c.did == did && c.subsys_vid == subsys_vid && c.subsys_pid == subsys_pid
}

/// The first adapter that has these PCI numbers.
pub open spec fn identified(
    cards: Seq<CardInfo>,
    vid: u16,
    did: u16,
    subsys_vid: u16,
    subsys_pid: u16,
) -> Option<CardInfo>
    decreases cards.len(),
{
    if cards.len() == 0 {
        None
    } else if has_ids(cards[0], vid, did, subsys_vid, subsys_pid) {
        Some(cards[0])
    } else {
        identified(cards.skip(1), vid, did, subsys_vid, subsys_pid)
    }
}

/// Looks up an adapter by its PCI numbers: the first that has them.
pub fn identify_card(
    cards: &[CardInfo],
    vid: u16,
    did: u16,
    subsys_vid: u16,
    subsys_pid: u16,
) -> (r: Option<&CardInfo>)
    ensures
        match identified(cards@, vid, did, subsys_vid, subsys_pid) {
            Some(c) => r == Some(&c),
            None => r is None,
        },
{
    let mut i: usize = 0;
    assert(cards@.skip(0) =~= cards@);
    while i < cards.len()
        invariant
            i <= cards@.len(),
            identified(cards@, vid, did, subsys_vid, subsys_pid) == identified(
                cards@.skip(i as int),
                vid,
                did,
                subsys_vid,
                subsys_pid,
            ),
        decreases cards@.len() - i,
    {
        assert(cards@.skip(i as int)[0] == cards@[i as int]);
        assert(cards@.skip(i as int).skip(1) =~= cards@.skip(i + 1));
        let c = &cards[i];
        if c.vid == vid && c.did == did && c.subsys_vid == subsys_vid && c.subsys_pid == subsys_pid {
            return Some(c);
        }
        i += 1;
    }
    None
}

/// An adapter that was found has the PCI numbers that were looked for; where none was
/// found, none has them.
pub proof fn lookup_is_exact(
    cards: Seq<CardInfo>,
    vid: u16,
    did: u16,
    subsys_vid: u16,
    subsys_pid: u16,
)
    ensures
        match identified(cards, vid, did, subsys_vid, subsys_pid) {
            Some(c) => cards.contains(c) && has_ids(c, vid, did, subsys_vid, subsys_pid),
            None => forall|i: int|
                0 <= i < cards.len() ==> !has_ids(
                    #[trigger] cards[i],
                    vid,
                    did,
                    subsys_vid,
                    subsys_pid,
                ),
        },
    decreases cards.len(),
{
    if cards.len() > 0 {
        let rest = cards.skip(1);
        lookup_is_exact(rest, vid, did, subsys_vid, subsys_pid);
        if has_ids(cards[0], vid, did, subsys_vid, subsys_pid) {
            assert(cards.contains(cards[0]));
        } else {
            match identified(rest, vid, did, subsys_vid, subsys_pid) {
                Some(c) => {
                    let j = choose|j: int| 0 <= j < rest.len() && rest[j] == c;
                    assert(cards[j + 1] == c);
                },
                None => {
                    assert forall|i: int| 0 <= i < cards.len() implies !has_ids(
                        #[trigger] cards[i],
                        vid,
                        did,
                        subsys_vid,
                        subsys_pid,
                    ) by {
                        if i > 0 {
                            assert(rest[i - 1] == cards[i]);
                        }
                    }
                },
            }
        }
    }
}

// ---------------------------------------------------------------- the laws

/// The adapter that is looked up is the first of the list that has all four numbers, each in
/// its own place.
pub proof fn lookup_takes_the_first(
    cards: Seq<CardInfo>,
    vid: u16,
    did: u16,
    subsys_vid: u16,
    subsys_pid: u16,
    k: int,
)
    requires
        0 <= k < cards.len(),
        cards[k].vid == vid && cards[k].did == did && cards[k].subsys_vid == subsys_vid
            && cards[k].subsys_pid == subsys_pid,
        forall|j: int|
            0 <= j < k ==> (#[trigger] cards[j]).vid != vid || cards[j].did != did
                || cards[j].subsys_vid != subsys_vid || cards[j].subsys_pid != subsys_pid,
    ensures
        identified(cards, vid, did, subsys_vid, subsys_pid) == Some(cards[k]),
    decreases k,
{
    if k > 0 {
        assert(cards[0].vid != vid || cards[0].did != did || cards[0].subsys_vid != subsys_vid
            || cards[0].subsys_pid != subsys_pid);
        let rest = cards.skip(1);
        assert(rest[k - 1] == cards[k]);
        assert forall|j: int| 0 <= j < k - 1 implies (#[trigger] rest[j]).vid != vid || rest[j].did
            != did || rest[j].subsys_vid != subsys_vid || rest[j].subsys_pid != subsys_pid by {
            assert(rest[j] == cards[j + 1]);
        }
        lookup_takes_the_first(rest, vid, did, subsys_vid, subsys_pid, k - 1);
    }
}

/// An adapter that differs in one of its four numbers from those looked for is never taken.
pub proof fn lookup_is_strict(
    cards: Seq<CardInfo>,
    vid: u16,
    did: u16,
    subsys_vid: u16,
    subsys_pid: u16,
)
    ensures
        identified(cards, vid, did, subsys_vid, subsys_pid) matches Some(c) ==> c.vid == vid
            && c.did == did && c.subsys_vid == subsys_vid && c.subsys_pid == subsys_pid,
{
    lookup_is_exact(cards, vid, did, subsys_vid, subsys_pid);
}

/// Keys are ordered by the first character in which they differ, and a key comes before every
/// longer one that starts with it.
pub proof fn keys_are_ordered(a: Seq<char>, x: char, b: Seq<char>, y: char, c: Seq<char>)
    requires
        x < y,
    ensures
        text_le(a + seq![x] + b, a + seq![y] + c),
        !text_le(a + seq![y] + c, a + seq![x] + b),
        text_le(a, a + b),
        b.len() > 0 ==> !text_le(a + b, a),
    decreases a.len(),
{
    let l = a + seq![x] + b;
    let r = a + seq![y] + c;
    if a.len() == 0 {
        assert(l[0] == x && r[0] == y);
    } else {
        keys_are_ordered(a.skip(1), x, b, y, c);
        assert(l.skip(1) =~= a.skip(1) + seq![x] + b);
        assert(r.skip(1) =~= a.skip(1) + seq![y] + c);
        assert(l[0] == a[0] && r[0] == a[0]);
        assert((a + b).skip(1) =~= a.skip(1) + b);
        assert((a + b)[0] == a[0]);
    }
}

/// An entry gives its numbers to the adapter that it describes, each in its own place.
pub proof fn entry_keeps_its_numbers(slug: Seq<char>, e: CardEntry, c: CardInfo)
    requires
        describes(slug, e, c),
    ensures
        c.slug@ == slug,
        c.display@ == e.display@,
        (c.vid, c.did, c.subsys_vid, c.subsys_pid) == (e.vid, e.did, e.subsys_vid, e.subsys_pid),
        c.interface_byte == e.interface_byte,
        c.default_personality == e.default_personality,
        c.chip_family == e.chip_family,
        c.quirks@.len() == e.quirks@.len(),
{
}

/// A key that is not known is kept as it is; a known one never is.
pub proof fn unknown_quirk_is_kept(key: Seq<char>)
    ensures
        quirk_of(key) matches QuirkModel::Unknown(k) ==> k == key,
        quirk_of(key) is Unknown <==> key != "dell-tamper-check"@ && key != "fujitsu-a21-wiring"@
            && key != "imr-composite"@ && key != "dell-h310-mini-mono-idrac-lock"@ && key
            != "dell-h200-tape-adapter-smaller-flash"@,
        quirk_of(key) is DellTamperCheck <==> key == "dell-tamper-check"@,
{
}

/// A database holds every entry that was read, each as it describes its adapter, and nothing
/// else: there are as many adapters as entries, and each entry has its adapter.
pub proof fn every_entry_is_held(c: Seq<CardInfo>, v: Seq<(String, CardEntry)>, i: int)
    requires
        holds_entries(c, v),
        0 <= i < v.len(),
    ensures
        c.len() == v.len(),
        exists|j: int|
            0 <= j < c.len() && (#[trigger] c[j]).slug@ == v[i].0@ && c[j].vid == v[i].1.vid
                && c[j].did == v[i].1.did && c[j].subsys_vid == v[i].1.subsys_vid
                && c[j].subsys_pid == v[i].1.subsys_pid,
{
    let u = choose|u: Seq<CardInfo>| #[trigger]
        made_of(u, v) && c.to_multiset() == u.to_multiset();
    c.to_multiset_ensures();
    u.to_multiset_ensures();
    assert(describes(v[i].0@, v[i].1, u[i]));
    assert(u.contains(u[i]));
    assert(c.to_multiset().count(u[i]) > 0);
    assert(c.contains(u[i]));
    let j = choose|j: int| 0 <= j < c.len() && c[j] == u[i];
    assert(c[j].slug@ == v[i].0@);
}

/// The adapters of a database stand in the order of their keys, from the first to the last.
pub proof fn adapters_are_ordered(c: Seq<CardInfo>, v: Seq<(String, CardEntry)>, i: int, j: int)
    requires
        holds_entries(c, v),
        0 <= i < j < c.len(),
    ensures
        text_le(c[i].slug@, c[j].slug@),
{
}

} // verus!
