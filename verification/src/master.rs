//! The master directory: which room and bed a device code stands for,
//! which notification files go with it, and which kind of panel is
//! attached. The directory is configuration; the bridge only reads it.

use vstd::prelude::*;
use vstd::string::StringExecFns;
use crate::text::{
    eq_ignore_ascii_case, optional_text, same_ignoring_ascii_case, texts, to_chars, to_text, trim,
    trimmed,
};

verus! {

/// Measurement below which a signal is discarded on an AIPHONE panel.
pub const AIPHONE_THRESHOLD: i32 = 150;

/// Measurement below which a signal is discarded on any other panel.
pub const DEFAULT_THRESHOLD: i32 = 70;

/// The part of the configuration that names the kind of panel. Older
/// configurations name it under `master` or `type`.
#[derive(Clone, Debug, PartialEq, Eq)]
pub struct MasterSettings {
    pub master_type: Option<String>,
    pub master: Option<String>,
    pub kind: Option<String>,
}

/// The mathematical content of `MasterSettings`.
pub struct MasterSettingsView {
    pub master_type: Option<Seq<char>>,
    pub master: Option<Seq<char>>,
    pub kind: Option<Seq<char>>,
}

impl View for MasterSettings {
    type V = MasterSettingsView;

    open spec fn view(&self) -> MasterSettingsView {
        MasterSettingsView {
            master_type: optional_text(self.master_type),
            master: optional_text(self.master),
            kind: optional_text(self.kind),
        }
    }
}

/// The panel kind as the settings spell it: the first of `master_type`,
/// `master` and `kind` that is there, and `Commax` when none is.
pub open spec fn declared_type(settings: MasterSettingsView) -> Seq<char> {
    match settings.master_type {
        Some(t) => t,
        None => match settings.master {
            Some(t) => t,
            None => match settings.kind {
                Some(t) => t,
                None => "Commax"@,
            },
        },
    }
}

/// The panel kind of the settings, without blanks around it.
pub open spec fn master_type_of(settings: MasterSettingsView) -> Seq<char> {
    trimmed(declared_type(settings))
}

/// Reads the panel kind from the settings.
pub fn read_master_type(settings: &MasterSettings) -> (master_type: String)
    ensures
        master_type@ == master_type_of(settings@),
{
    let declared: &str = match &settings.master_type {
        Some(t) => t.as_str(),
        None => match &settings.master {
            Some(t) => t.as_str(),
            None => match &settings.kind {
                Some(t) => t.as_str(),
                None => "Commax",
            },
        },
    };
    let chars = to_chars(declared);
    to_text(trim(chars.as_slice()))
}

/// The least measurement that counts as a call on a panel of the given
/// kind: 150 on an AIPHONE, whatever the case of the letters, else 70.
pub open spec fn threshold_for(master_type: Seq<char>) -> int {
    if same_ignoring_ascii_case(master_type, "AIPHONE"@) {
        AIPHONE_THRESHOLD as int
    } else {
        DEFAULT_THRESHOLD as int
    }
}

/// The threshold of a panel of the given kind.
pub fn threshold(master_type: &str) -> (t: i32)
    ensures
        t == threshold_for(master_type@),
{
    let given = to_chars(master_type);
    let aiphone = to_chars("AIPHONE");
    if eq_ignore_ascii_case(given.as_slice(), aiphone.as_slice()) {
        AIPHONE_THRESHOLD
    } else {
        DEFAULT_THRESHOLD
    }
}

/// One line of the directory: a device code, where the device is, and the
/// notification file slots in their order, filled or not.
#[derive(Clone, Debug, PartialEq, Eq)]
pub struct MasterEntry {
    pub char_code: String,
    pub room_name: String,
    pub bed_name: String,
    pub files: Vec<String>,
}

/// The mathematical content of a `MasterEntry`.
pub struct MasterEntryView {
    pub char_code: Seq<char>,
    pub room_name: Seq<char>,
    pub bed_name: Seq<char>,
    pub files: Seq<Seq<char>>,
}

impl View for MasterEntry {
    type V = MasterEntryView;

    open spec fn view(&self) -> MasterEntryView {
        MasterEntryView {
            char_code: self.char_code@,
            room_name: self.room_name@,
            bed_name: self.bed_name@,
            files: texts(self.files@),
        }
    }
}

/// The views of a run of entries, in order.
pub open spec fn entry_views(entries: Seq<MasterEntry>) -> Seq<MasterEntryView> {
    entries.map_values(|e: MasterEntry| e@)
}

/// The directory with the kind of panel it belongs to.
#[derive(Clone, Debug, PartialEq, Eq)]
pub struct MasterDirectory {
    pub master_type: String,
    pub entries: Vec<MasterEntry>,
}

/// The mathematical content of a `MasterDirectory`.
pub struct MasterDirectoryView {
    pub master_type: Seq<char>,
    pub entries: Seq<MasterEntryView>,
}

impl View for MasterDirectory {
    type V = MasterDirectoryView;

    open spec fn view(&self) -> MasterDirectoryView {
        MasterDirectoryView {
            master_type: self.master_type@,
            entries: entry_views(self.entries@),
        }
    }
}

/// Where a device is and what to play for it.
#[derive(Clone, Debug, PartialEq, Eq)]
pub struct Location {
    pub room: String,
    pub bed: String,
    pub files: Vec<String>,
}

/// The mathematical content of a `Location`.
pub struct LocationView {
    pub room: Seq<char>,
    pub bed: Seq<char>,
    pub files: Seq<Seq<char>>,
}

impl View for Location {
    type V = LocationView;

    open spec fn view(&self) -> LocationView {
        LocationView { room: self.room@, bed: self.bed@, files: texts(self.files@) }
    }
}

/// A file slot that names a file: neither empty nor the placeholder `-`.
pub open spec fn is_usable_file(f: Seq<char>) -> bool {
    f.len() > 0 && f != seq!['-']
}

/// The slots that name a file, in their order.
pub open spec fn usable_files(files: Seq<Seq<char>>) -> Seq<Seq<char>> {
    files.filter(|f: Seq<char>| is_usable_file(f))
}

/// The first entry under `code`, if there is one.
pub open spec fn first_entry(entries: Seq<MasterEntryView>, code: Seq<char>) -> Option<
    MasterEntryView,
>
    decreases entries.len(),
{
    if entries.len() == 0 {
        None
    } else if entries[0].char_code == code {
        Some(entries[0])
    } else {
        first_entry(entries.drop_first(), code)
    }
}

/// Where the directory puts `code`: room, bed and usable files of the
/// first entry under it, and nothing at all when no entry has it.
pub open spec fn locate(directory: MasterDirectoryView, code: Seq<char>) -> LocationView {
    match first_entry(directory.entries, code) {
        Some(e) => LocationView { room: e.room_name, bed: e.bed_name, files: usable_files(e.files) },
        None => LocationView { room: Seq::empty(), bed: Seq::empty(), files: Seq::empty() },
    }
}

/// How a call is shown: room and bed joined by ` - `, or the bare code
/// when the room is not known.
pub open spec fn display_for(room: Seq<char>, bed: Seq<char>, code: Seq<char>) -> Seq<char> {
    if room.len() > 0 {
        room + " - "@ + bed
    } else {
        code
    }
}

/// Renders the display text of a call.
pub fn display_text(room: &str, bed: &str, code: &str) -> (display: String)
    ensures
        display@ == display_for(room@, bed@, code@),
{
    if room.is_empty() {
        code.to_owned()
    } else {
        room.to_owned().concat(" - ").concat(bed)
    }
}

proof fn lemma_first_entry(entries: Seq<MasterEntryView>, code: Seq<char>, k: int)
    requires
        0 <= k <= entries.len(),
        forall|j: int| 0 <= j < k ==> (#[trigger] entries[j]).char_code != code,
        k < entries.len() ==> entries[k].char_code == code,
    ensures
        first_entry(entries, code) == if k < entries.len() {
            Some(entries[k])
        } else {
            None
        },
    decreases entries.len(),
{
    if entries.len() == 0 {
    } else if entries[0].char_code == code {
        if k > 0 {
            assert(entries[0].char_code != code);
        }
    } else {
        let rest = entries.drop_first();
        assert forall|j: int| 0 <= j < k - 1 implies (#[trigger] rest[j]).char_code != code by {
            assert(rest[j] == entries[j + 1]);
        }
        if k < entries.len() {
            assert(rest[k - 1] == entries[k]);
        }
        lemma_first_entry(rest, code, k - 1);
    }
}

/// Copies the slots that name a file.
pub fn notification_files(files: &Vec<String>) -> (usable: Vec<String>)
    ensures
        texts(usable@) == usable_files(texts(files@)),
{
    let n = files.len();
    let mut usable: Vec<String> = Vec::new();
    let mut i: usize = 0;
    proof {
        reveal(Seq::filter);
        assert(texts(files@).take(0) =~= Seq::<Seq<char>>::empty());
        assert(texts(usable@) =~= Seq::<Seq<char>>::empty());
    }
    while i < n
        invariant
            n == files@.len(),
            i <= n,
            texts(usable@) == usable_files(texts(files@).take(i as int)),
        decreases n - i,
    {
        let f = &files[i];
        let size = f.as_str().unicode_len();
        let placeholder = size == 1 && f.as_str().get_char(0) == '-';
        proof {
            reveal(Seq::filter);
            let longer = texts(files@).take(i + 1);
            assert(longer.drop_last() =~= texts(files@).take(i as int));
            assert(longer.last() == f@);
            assert(placeholder == (f@ =~= seq!['-']));
        }
        let ghost before = texts(usable@);
        if size > 0 && !placeholder {
            usable.push(f.clone());
            assert(texts(usable@) =~= before.push(f@));
        }
        i = i + 1;
    }
    assert(texts(files@).take(n as int) =~= texts(files@));
    usable
}

impl MasterDirectory {
    /// The threshold of the attached panel.
    pub fn threshold(&self) -> (t: i32)
        ensures
            t == threshold_for(self@.master_type),
    {
        threshold(self.master_type.as_str())
    }

    /// Looks a device code up.
    pub fn resolve(&self, code: &str) -> (location: Location)
        ensures
            location@ == locate(self@, code@),
    {
        let wanted = code.to_owned();
        let n = self.entries.len();
        let mut i: usize = 0;
        while i < n
            invariant
                n == self.entries@.len(),
                i <= n,
                wanted@ == code@,
                forall|j: int| 0 <= j < i ==> (#[trigger] self@.entries[j]).char_code != code@,
            decreases n - i,
        {
            let entry = &self.entries[i];
            if entry.char_code == wanted {
                proof {
                    lemma_first_entry(self@.entries, code@, i as int);
                }
                return Location {
                    room: entry.room_name.clone(),
                    bed: entry.bed_name.clone(),
                    files: notification_files(&entry.files),
                };
            }
            i = i + 1;
        }
        proof {
            lemma_first_entry(self@.entries, code@, n as int);
        }
        let location = Location { room: String::new(), bed: String::new(), files: Vec::new() };
        assert(texts(location.files@) =~= Seq::<Seq<char>>::empty());
        location
    }
}

} // verus!
