//! The entry model: what a directory listing holds, and how the records
//! of the file system become its entries.

use crate::commands::{FileCommand, FileCommandView};
use crate::events::{EventType, EventView};
use crate::fe::diagnostic::FeError;
use crate::path::{FsPath, PathView};
use crate::text::{bytes_clone, bytes_eq, opt_bytes_view};
pub use crate::utils::naming::get_valid_new_file;
pub use crate::utils::order::compare_entries;
use vstd::prelude::*;
use vstd::utf8::encode_utf8;

verus! {

/// An entry of the quick-access list: a bookmarked directory and the name
/// it is shown under.
#[derive(Debug, PartialEq, Eq)]
pub struct QuickAccessEntry {
    pub name: Vec<u8>,
    pub path: FsPath,
}

/// The mathematical value of a [`QuickAccessEntry`].
pub struct BookmarkView {
    pub name: Seq<u8>,
    pub path: PathView,
}

impl View for QuickAccessEntry {
    type V = BookmarkView;

    open spec fn view(&self) -> BookmarkView {
        BookmarkView { name: self.name@, path: self.path@ }
    }
}

impl DeepView for QuickAccessEntry {
    type V = BookmarkView;

    open spec fn deep_view(&self) -> BookmarkView {
        self.view()
    }
}

impl Clone for QuickAccessEntry {
    fn clone(&self) -> (copy: Self)
        ensures
            copy@ == self@,
    {
        QuickAccessEntry { name: bytes_clone(self.name.as_slice()), path: self.path.clone() }
    }
}

/// What a directory entry carries: nothing.
#[derive(Debug, Clone, Copy, PartialEq, Eq)]
pub struct Dir {}

/// What a file entry carries.
#[derive(Debug, PartialEq, Eq)]
pub struct File {
    pub path: FsPath,
    pub is_exe: bool,
    /// The size of the file in bytes.
    pub size: u64,
    /// When the file was last modified, in nanoseconds from the Unix
    /// epoch; negative before it.
    pub modified: i128,
}

/// The mathematical value of a [`File`].
pub struct FileView {
    pub path: PathView,
    pub is_exe: bool,
    pub size: u64,
    pub modified: i128,
}

impl View for File {
    type V = FileView;

    open spec fn view(&self) -> FileView {
        FileView {
            path: self.path@,
            is_exe: self.is_exe,
            size: self.size,
            modified: self.modified,
        }
    }
}

impl DeepView for File {
    type V = FileView;

    open spec fn deep_view(&self) -> FileView {
        self.view()
    }
}

impl Clone for File {
    fn clone(&self) -> (copy: Self)
        ensures
            copy@ == self@,
    {
        File {
            path: self.path.clone(),
            is_exe: self.is_exe,
            size: self.size,
            modified: self.modified,
        }
    }
}

/// The two kinds of entry.
#[derive(Debug, PartialEq, Eq)]
pub enum EntryKind {
    Dir(Dir),
    File(File),
}

/// The mathematical value of an [`EntryKind`].
pub enum KindView {
    Dir,
    File(FileView),
}

impl View for EntryKind {
    type V = KindView;

    open spec fn view(&self) -> KindView {
        match self {
            EntryKind::Dir(_) => KindView::Dir,
            EntryKind::File(file) => KindView::File(file@),
        }
    }
}

impl DeepView for EntryKind {
    type V = KindView;

    open spec fn deep_view(&self) -> KindView {
        self.view()
    }
}

impl Clone for EntryKind {
    fn clone(&self) -> (copy: Self)
        ensures
            copy@ == self@,
    {
        match self {
            EntryKind::Dir(_) => EntryKind::Dir(Dir {  }),
            EntryKind::File(file) => EntryKind::File(file.clone()),
        }
    }
}

/// An entry of a directory listing: a snapshot of what the file system
/// held when the directory was read.
#[derive(Debug, PartialEq, Eq)]
pub struct FeEntry {
    pub name: Vec<u8>,
    pub path: FsPath,
    pub entry_type: EntryKind,
}

/// The mathematical value of an [`FeEntry`].
pub struct EntryView {
    pub name: Seq<u8>,
    pub path: PathView,
    pub kind: KindView,
}

impl EntryView {
    /// Whether the entry is a directory.
    pub open spec fn is_dir(self) -> bool {
        self.kind is Dir
    }

    /// Whether the entry belongs to the listing of `dir`: its path is
    /// that of `dir` followed by its name.
    pub open spec fn listed_in(self, dir: PathView) -> bool {
        self.path == dir.child(self.name)
    }
}

impl View for FeEntry {
    type V = EntryView;

    open spec fn view(&self) -> EntryView {
        EntryView { name: self.name@, path: self.path@, kind: self.entry_type@ }
    }
}

impl DeepView for FeEntry {
    type V = EntryView;

    open spec fn deep_view(&self) -> EntryView {
        self.view()
    }
}

impl Clone for FeEntry {
    fn clone(&self) -> (copy: Self)
        ensures
            copy@ == self@,
    {
        FeEntry {
            name: bytes_clone(self.name.as_slice()),
            path: self.path.clone(),
            entry_type: self.entry_type.clone(),
        }
    }
}

/// Whether `extension` is among `extensions`, byte for byte in UTF-8.
pub open spec fn has_extension(extensions: Seq<Seq<char>>, extension: Seq<u8>) -> bool {
    exists|i: int| 0 <= i < extensions.len() && encode_utf8(#[trigger] extensions[i]) == extension
}

/// Whether a click on a file with the extension `extension` runs
/// `command`: the command says whether it is clickable, and it names the
/// extension.
pub open spec fn offers_click(command: FileCommandView, extension: Seq<u8>) -> bool {
    command.clickable is Some && command.extensions is Some && has_extension(
        command.extensions.unwrap(),
        extension,
    )
}

/// The first of `commands` that a click on a file with the extension
/// `extension` runs.
pub open spec fn first_clickable(commands: Seq<FileCommandView>, extension: Seq<u8>) -> Option<
    FileCommandView,
>
    decreases commands.len(),
{
    if commands.len() == 0 {
        None
    } else if offers_click(commands.first(), extension) {
        Some(commands.first())
    } else {
        first_clickable(commands.drop_first(), extension)
    }
}

/// The values of the commands that a vector holds, in order.
pub open spec fn file_command_views(commands: Seq<FileCommand>) -> Seq<FileCommandView> {
    Seq::new(commands.len(), |i: int| commands[i]@)
}

impl FileView {
    /// The extension of the file.
    pub open spec fn ext(self) -> Option<Seq<u8>> {
        self.path.extension()
    }

    /// Whether the file has one of `extensions`.
    pub open spec fn is_of_ext(self, extensions: Seq<Seq<char>>) -> bool {
        self.ext() is Some && has_extension(extensions, self.ext().unwrap())
    }

    /// Whether `command` is offered for the file: it names extensions,
    /// and that of the file is among them.
    pub open spec fn is_offered(self, command: FileCommandView) -> bool {
        command.extensions is Some && self.is_of_ext(command.extensions.unwrap())
    }

    /// The commands among `commands` that are offered for the file, in
    /// their order.
    pub open spec fn commands_for(self, commands: Seq<FileCommandView>) -> Seq<FileCommandView> {
        commands.filter(|command: FileCommandView| self.is_offered(command))
    }

    /// The event that a click on the file brings about: an executable is
    /// run; any other file is handed to the first command that is
    /// clickable for its extension; where there is none, nothing
    /// happens.
    pub open spec fn click_event(self, commands: Option<Seq<FileCommandView>>) -> Option<
        EventView,
    > {
        if self.is_exe {
            Some(EventView::Exec(self.path))
        } else if commands is None || self.ext() is None {
            None
        } else {
            match first_clickable(commands.unwrap(), self.ext().unwrap()) {
                Some(command) => Some(EventView::RunFileCmd(command, self.path)),
                None => None,
            }
        }
    }
}

/// Whether `extension` is among `extensions`.
pub fn extension_listed(extensions: &Vec<String>, extension: &[u8]) -> (listed: bool)
    ensures
        listed == has_extension(crate::commands::strings_view(extensions@), extension@),
{
    let ghost texts = crate::commands::strings_view(extensions@);
    let mut i: usize = 0;
    while i < extensions.len()
        invariant
            i <= extensions.len(),
            texts == crate::commands::strings_view(extensions@),
            forall|j: int| 0 <= j < i ==> encode_utf8(#[trigger] texts[j]) != extension@,
        decreases extensions.len() - i,
    {
        if bytes_eq(extensions[i].as_str().as_bytes(), extension) {
            assert(encode_utf8(texts[i as int]) == extension@);
            return true;
        }
        i += 1;
    }
    false
}

impl File {
    /// The extension of the file: what follows the last `.` of its name,
    /// unless the name has no `.` or only a leading one.
    pub fn ext(&self) -> (extension: Option<Vec<u8>>)
        ensures
            opt_bytes_view(extension) == self@.ext(),
    {
        self.path.extension()
    }

    /// Whether the file has one of the given extensions.
    pub fn is_of_ext(&self, extensions: Vec<String>) -> (listed: bool)
        ensures
            listed == self@.is_of_ext(crate::commands::strings_view(extensions@)),
    {
        match self.ext() {
            Some(extension) => extension_listed(&extensions, extension.as_slice()),
            None => false,
        }
    }

    /// The commands among `commands` that are offered for the file:
    /// those that name its extension, in their order.
    pub fn commands_for(&self, commands: &Vec<FileCommand>) -> (offered: Vec<FileCommand>)
        ensures
            file_command_views(offered@) == self@.commands_for(file_command_views(commands@)),
    {
        let ghost all = file_command_views(commands@);
        let ghost file = self@;
        let ghost offers = |command: FileCommandView| file.is_offered(command);
        let ext = self.ext();
        let mut offered: Vec<FileCommand> = Vec::new();
        let mut i: usize = 0;
        proof {
            reveal(Seq::filter);
            assert(all.take(0) =~= Seq::empty());
            assert(file_command_views(offered@) =~= all.take(0).filter(offers));
        }
        while i < commands.len()
            invariant
                i <= commands.len(),
                all == file_command_views(commands@),
                file == self@,
                offers == |command: FileCommandView| file.is_offered(command),
                opt_bytes_view(ext) == self@.ext(),
                file_command_views(offered@) == all.take(i as int).filter(offers),
            decreases commands.len() - i,
        {
            let ghost before = file_command_views(offered@);
            proof {
                assert(all.take(i + 1) =~= all.take(i as int).push(all[i as int]));
                all.take(i as int).lemma_filter_push(all[i as int], offers);
            }
            let listed = match (&commands[i].extensions, &ext) {
                (Some(extensions), Some(extension)) => extension_listed(
                    extensions,
                    extension.as_slice(),
                ),
                _ => false,
            };
            if listed {
                offered.push(commands[i].clone());
                assert(file_command_views(offered@) =~= before.push(all[i as int]));
            }
            i += 1;
        }
        assert(all.take(i as int) =~= all);
        offered
    }

    /// The event that a click on the file brings about, if any.
    pub fn is_clickable(&self, commands: &Option<Vec<FileCommand>>) -> (event: Option<EventType>)
        ensures
            crate::events::opt_event_view(event) == self@.click_event(
                opt_file_command_views(*commands),
            ),
    {
        if self.is_exe {
            return Some(EventType::Exec(self.path.clone()));
        }
        let cmds = match commands {
            Some(cmds) => cmds,
            None => {
                return None;
            },
        };
        let ext = match self.ext() {
            Some(ext) => ext,
            None => {
                return None;
            },
        };
        let ghost all = file_command_views(cmds@);
        let mut i: usize = 0;
        assert(all.skip(0) =~= all);
        while i < cmds.len()
            invariant
                i <= cmds.len(),
                all == file_command_views(cmds@),
                !self.is_exe,
                opt_file_command_views(*commands) == Some(all),
                self@.ext() == Some(ext@),
                first_clickable(all, ext@) == first_clickable(all.skip(i as int), ext@),
            decreases cmds.len() - i,
        {
            let cmd = &cmds[i];
            proof {
                assert(all.skip(i as int).first() == cmd@);
                assert(all.skip(i as int).drop_first() =~= all.skip(i + 1));
            }
            let offered = match (&cmd.clickable, &cmd.extensions) {
                (Some(_), Some(exts)) => extension_listed(exts, ext.as_slice()),
                _ => false,
            };
            if offered {
                return Some(EventType::RunFileCmd(cmd.clone(), self.path.clone()));
            }
            i += 1;
        }
        None
    }

    /// Whether two files have the same value.
    pub fn same_as(&self, other: &File) -> (same: bool)
        ensures
            same == (self@ == other@),
    {
        self.path.same_as(&other.path) && self.is_exe == other.is_exe && self.size == other.size
            && self.modified == other.modified
    }
}

impl EntryKind {
    /// Whether two kinds have the same value.
    pub fn same_as(&self, other: &EntryKind) -> (same: bool)
        ensures
            same == (self@ == other@),
    {
        match (self, other) {
            (EntryKind::Dir(_), EntryKind::Dir(_)) => true,
            (EntryKind::File(a), EntryKind::File(b)) => a.same_as(b),
            _ => false,
        }
    }
}

impl FeEntry {
    /// Whether two entries have the same value.
    pub fn same_as(&self, other: &FeEntry) -> (same: bool)
        ensures
            same == (self@ == other@),
    {
        bytes_eq(self.name.as_slice(), other.name.as_slice()) && self.path.same_as(&other.path)
            && self.entry_type.same_as(&other.entry_type)
    }

    /// Whether the entry is a directory.
    pub fn is_dir(&self) -> (dir: bool)
        ensures
            dir == self@.is_dir(),
    {
        match self.entry_type {
            EntryKind::Dir(_) => true,
            EntryKind::File(_) => false,
        }
    }
}

/// The values of an optional list of file commands.
pub open spec fn opt_file_command_views(commands: Option<Vec<FileCommand>>) -> Option<
    Seq<FileCommandView>,
> {
    match commands {
        Some(list) => Some(file_command_views(list@)),
        None => None,
    }
}

/// The rule by which a file counts as executable.
#[derive(Debug, Clone, Copy, PartialEq, Eq, Structural)]
pub enum Platform {
    /// A file is executable where one of its execute bits is set.
    Posix,
    /// A file is executable where its extension is one of `exe`, `bat`,
    /// `cmd` and `com`.
    Windows,
}

/// What the file system says of an entry.
#[derive(Debug, Clone, Copy, PartialEq, Eq, Structural)]
pub struct Metadata {
    pub is_dir: bool,
    pub is_file: bool,
    /// The permission bits; 0 where the platform has none.
    pub mode: u32,
    /// The size in bytes.
    pub size: u64,
    /// The time of the last modification, in nanoseconds from the Unix
    /// epoch.
    pub modified: i128,
}

/// An entry as it comes out of a directory listing: its name, and its
/// metadata or the reason why they could not be read.
#[derive(Debug, PartialEq, Eq)]
pub struct DirRecord {
    pub name: Vec<u8>,
    pub metadata: Result<Metadata, String>,
}

/// The mathematical value of a [`DirRecord`].
pub struct RecordView {
    pub name: Seq<u8>,
    pub metadata: Result<Metadata, Seq<char>>,
}

impl View for DirRecord {
    type V = RecordView;

    open spec fn view(&self) -> RecordView {
        RecordView {
            name: self.name@,
            metadata: match self.metadata {
                Ok(metadata) => Ok(metadata),
                Err(reason) => Err(reason@),
            },
        }
    }
}

/// The values of the records that a vector holds, in order.
pub open spec fn record_views(records: Seq<DirRecord>) -> Seq<RecordView> {
    Seq::new(records.len(), |i: int| records[i]@)
}

/// The mask of the three execute bits of a POSIX mode.
pub const EXECUTE_BITS: u32 = 0o111;

/// Whether `extension` is one of the extensions that mark a Windows
/// executable.
pub open spec fn is_windows_exe_extension(extension: Seq<u8>) -> bool {
    ||| extension == seq![101u8, 120u8, 101u8]
    ||| extension == seq![98u8, 97u8, 116u8]
    ||| extension == seq![99u8, 109u8, 100u8]
    ||| extension == seq![99u8, 111u8, 109u8]
}

/// Whether the entry at `path` with the metadata `metadata` counts as
/// executable on `platform`.
pub open spec fn executable(path: PathView, metadata: Metadata, platform: Platform) -> bool {
    match platform {
        Platform::Posix => metadata.mode & EXECUTE_BITS != 0,
        Platform::Windows => metadata.is_file && path.extension() is Some
            && is_windows_exe_extension(path.extension().unwrap()),
    }
}

/// The entry that the record `name` with `metadata` stands for in the
/// listing of `dir`.
pub open spec fn entry_of(
    dir: PathView,
    name: Seq<u8>,
    metadata: Metadata,
    platform: Platform,
) -> EntryView {
    let path = dir.child(name);
    EntryView {
        name,
        path,
        kind: if metadata.is_dir {
            KindView::Dir
        } else {
            KindView::File(
                FileView {
                    path,
                    is_exe: executable(path, metadata, platform),
                    size: metadata.size,
                    modified: metadata.modified,
                },
            )
        },
    }
}

/// The entries that the records of a listing of `dir` stand for, or the
/// reason given by the first record that could not be read: a listing
/// comes whole or not at all.
pub open spec fn classified(dir: PathView, records: Seq<RecordView>, platform: Platform) -> Result<
    Seq<EntryView>,
    Seq<char>,
>
    decreases records.len(),
{
    if records.len() == 0 {
        Ok(Seq::empty())
    } else {
        match classified(dir, records.drop_last(), platform) {
            Err(reason) => Err(reason),
            Ok(entries) => match records.last().metadata {
                Err(reason) => Err(reason),
                Ok(metadata) => Ok(
                    entries.push(entry_of(dir, records.last().name, metadata, platform)),
                ),
            },
        }
    }
}

/// Whether the entry at `path` with the metadata `metadata` counts as
/// executable on `platform`.
pub fn is_exe(path: &FsPath, metadata: &Metadata, platform: Platform) -> (exe: bool)
    ensures
        exe == executable(path@, *metadata, platform),
{
    match platform {
        Platform::Posix => metadata.mode & EXECUTE_BITS != 0,
        Platform::Windows => {
            if !metadata.is_file {
                return false;
            }
            match path.extension() {
                Some(extension) => {
                    let e = extension.as_slice();
                    let found = e.len() == 3 && ((e[0] == 101 && e[1] == 120 && e[2] == 101)
                        || (e[0] == 98 && e[1] == 97 && e[2] == 116)
                        || (e[0] == 99 && e[1] == 109 && e[2] == 100)
                        || (e[0] == 99 && e[1] == 111 && e[2] == 109));
                    proof {
                        let exe = seq![101u8, 120u8, 101u8];
                        let bat = seq![98u8, 97u8, 116u8];
                        let cmd = seq![99u8, 109u8, 100u8];
                        let com = seq![99u8, 111u8, 109u8];
                        assert(exe.len() == 3 && exe[0] == 101 && exe[1] == 120 && exe[2] == 101);
                        assert(bat.len() == 3 && bat[0] == 98 && bat[1] == 97 && bat[2] == 116);
                        assert(cmd.len() == 3 && cmd[0] == 99 && cmd[1] == 109 && cmd[2] == 100);
                        assert(com.len() == 3 && com[0] == 99 && com[1] == 111 && com[2] == 109);
                        if found {
                            assert(e@ =~= exe || e@ =~= bat || e@ =~= cmd || e@ =~= com);
                        }
                    }
                    found
                },
                None => false,
            }
        },
    }
}

/// The entry that `record` stands for in the listing of `dir`, or the
/// reason why its metadata could not be read.
pub fn fs_to_fe_entry(dir: &FsPath, record: &DirRecord, platform: Platform) -> (entry: Result<
    FeEntry,
    FeError,
>)
    ensures
        match record@.metadata {
            Ok(metadata) => entry is Ok && entry.unwrap()@ == entry_of(
                dir@,
                record@.name,
                metadata,
                platform,
            ),
            Err(reason) => entry is Err && entry.unwrap_err() is Io && entry.unwrap_err().detail()
                == reason,
        },
{
    match &record.metadata {
        Ok(metadata) => {
            let path = dir.join(record.name.as_slice());
            let entry_type = if metadata.is_dir {
                EntryKind::Dir(Dir {  })
            } else {
                EntryKind::File(
                    File {
                        path: path.clone(),
                        is_exe: is_exe(&path, metadata, platform),
                        size: metadata.size,
                        modified: metadata.modified,
                    },
                )
            };
            Ok(FeEntry { name: bytes_clone(record.name.as_slice()), path, entry_type })
        },
        Err(reason) => Err(FeError::Io(reason.clone())),
    }
}

/// The entries that the records of a listing of `dir` stand for, in the
/// order of the listing, or the reason given by the first record that
/// could not be read.
pub fn load(dir: &FsPath, records: &Vec<DirRecord>, platform: Platform) -> (listing: Result<
    Vec<FeEntry>,
    FeError,
>)
    ensures
        match classified(dir@, record_views(records@), platform) {
            Ok(entries) => listing is Ok && entry_views(listing.unwrap()@) == entries,
            Err(reason) => listing is Err && listing.unwrap_err() is Io
                && listing.unwrap_err().detail() == reason,
        },
{
    let ghost all = record_views(records@);
    let mut entries: Vec<FeEntry> = Vec::new();
    let mut i: usize = 0;
    assert(all.take(0) =~= Seq::empty());
    assert(entry_views(entries@) =~= Seq::empty());
    while i < records.len()
        invariant
            i <= records.len(),
            all == record_views(records@),
            classified(dir@, all.take(i as int), platform) == Ok::<Seq<EntryView>, Seq<char>>(
                entry_views(entries@),
            ),
        decreases records.len() - i,
    {
        let ghost before = entry_views(entries@);
        proof {
            assert(all.take(i + 1).drop_last() =~= all.take(i as int));
            assert(all.take(i + 1).last() == records@[i as int]@);
        }
        match fs_to_fe_entry(dir, &records[i], platform) {
            Ok(entry) => {
                entries.push(entry);
                assert(entry_views(entries@) =~= before.push(entry@));
            },
            Err(err) => {
                proof {
                    lemma_classified_fails(dir@, all, platform, i + 1);
                }
                return Err(err);
            },
        }
        i += 1;
    }
    assert(all.take(i as int) =~= all);
    Ok(entries)
}

/// A listing that fails on its first `upto` records fails as a whole,
/// for the same reason.
pub proof fn lemma_classified_fails(
    dir: PathView,
    records: Seq<RecordView>,
    platform: Platform,
    upto: int,
)
    requires
        0 <= upto <= records.len(),
        classified(dir, records.take(upto), platform) is Err,
    ensures
        classified(dir, records, platform) == classified(dir, records.take(upto), platform),
    decreases records.len() - upto,
{
    if upto < records.len() {
        assert(records.take(upto + 1).drop_last() =~= records.take(upto));
        lemma_classified_fails(dir, records, platform, upto + 1);
    } else {
        assert(records.take(upto) =~= records);
    }
}

/// Every entry of a listing that was read lies in the directory that was
/// listed: its path is that of the directory followed by its name, and
/// where it is a file, the file has the same path.
pub proof fn lemma_classified_listed(dir: PathView, records: Seq<RecordView>, platform: Platform)
    requires
        classified(dir, records, platform) is Ok,
    ensures
        classified(dir, records, platform)->Ok_0.len() == records.len(),
        forall|i: int|
            0 <= i < records.len() ==> {
                let entry = #[trigger] classified(dir, records, platform)->Ok_0[i];
                &&& entry.name == records[i].name
                &&& entry.listed_in(dir)
                &&& (entry.kind matches KindView::File(file) ==> file.path == entry.path)
            },
    decreases records.len(),
{
    if records.len() > 0 {
        lemma_classified_listed(dir, records.drop_last(), platform);
    }
}

/// The direction of a sort.
#[derive(Debug, Clone, Copy, PartialEq, Eq, Structural)]
pub enum SortOrder {
    Asc,
    Desc,
}

impl SortOrder {
    /// The other direction.
    pub open spec fn toggled(self) -> SortOrder {
        match self {
            SortOrder::Asc => SortOrder::Desc,
            SortOrder::Desc => SortOrder::Asc,
        }
    }

    /// The other direction.
    pub fn toggle(&self) -> (other: SortOrder)
        ensures
            other == self.toggled(),
    {
        match self {
            SortOrder::Asc => SortOrder::Desc,
            SortOrder::Desc => SortOrder::Asc,
        }
    }

    /// The arrow that stands for the direction.
    pub fn icon(&self) -> (arrow: &'static str)
        ensures
            arrow@ == (match self {
                SortOrder::Asc => "⬆"@,
                SortOrder::Desc => "⬇"@,
            }),
    {
        match self {
            SortOrder::Asc => "⬆",
            SortOrder::Desc => "⬇",
        }
    }
}

/// The active sort: a key and a direction.
#[derive(Debug, Clone, Copy, PartialEq, Eq, Structural)]
pub enum DirSorting {
    FileNameAlphabetically(SortOrder),
    FileSize(SortOrder),
    LastModified(SortOrder),
}

/// A sort key without a direction.
#[derive(Debug, Clone, Copy, PartialEq, Eq, Structural)]
pub enum DirSortingType {
    FileNameAlphabetically,
    FileSize,
    LastModified,
}

impl<'a> From<&'a DirSorting> for DirSortingType {
    /// The key of the sort.
    fn from(sorting: &'a DirSorting) -> (key: Self) {
        match sorting {
            DirSorting::FileNameAlphabetically(_) => DirSortingType::FileNameAlphabetically,
            DirSorting::FileSize(_) => DirSortingType::FileSize,
            DirSorting::LastModified(_) => DirSortingType::LastModified,
        }
    }
}

impl<'a> vstd::std_specs::convert::FromSpecImpl<&'a DirSorting> for DirSortingType {
    open spec fn obeys_from_spec() -> bool {
        true
    }

    open spec fn from_spec(sorting: &'a DirSorting) -> Self {
        sorting.key()
    }
}

impl DirSorting {
    /// The key of the sort.
    pub open spec fn key(self) -> DirSortingType {
        match self {
            DirSorting::FileNameAlphabetically(_) => DirSortingType::FileNameAlphabetically,
            DirSorting::FileSize(_) => DirSortingType::FileSize,
            DirSorting::LastModified(_) => DirSortingType::LastModified,
        }
    }

    /// The direction of the sort.
    pub open spec fn order(self) -> SortOrder {
        match self {
            DirSorting::FileNameAlphabetically(order) => order,
            DirSorting::FileSize(order) => order,
            DirSorting::LastModified(order) => order,
        }
    }

    /// The sort with the same key and the other direction.
    pub open spec fn reversed(self) -> DirSorting {
        match self {
            DirSorting::FileNameAlphabetically(order) => DirSorting::FileNameAlphabetically(
                order.toggled(),
            ),
            DirSorting::FileSize(order) => DirSorting::FileSize(order.toggled()),
            DirSorting::LastModified(order) => DirSorting::LastModified(order.toggled()),
        }
    }

    /// The sort that a click on the header of `key` leads to: the other
    /// direction where `key` is the active key, and ascending otherwise.
    pub open spec fn selected(self, key: DirSortingType) -> DirSorting {
        let order = if self.key() == key {
            self.order().toggled()
        } else {
            SortOrder::Asc
        };
        match key {
            DirSortingType::FileNameAlphabetically => DirSorting::FileNameAlphabetically(order),
            DirSortingType::FileSize => DirSorting::FileSize(order),
            DirSortingType::LastModified => DirSorting::LastModified(order),
        }
    }

    /// The key of the sort.
    pub fn sorting_type(&self) -> (key: DirSortingType)
        ensures
            key == self.key(),
    {
        DirSortingType::from(self)
    }

    /// The direction of the sort.
    pub fn sort_order(&self) -> (order: SortOrder)
        ensures
            order == self.order(),
    {
        match self {
            DirSorting::FileNameAlphabetically(order) => *order,
            DirSorting::FileSize(order) => *order,
            DirSorting::LastModified(order) => *order,
        }
    }

    /// The sort that a click on the header of `key` leads to.
    pub fn select(&self, key: DirSortingType) -> (next: DirSorting)
        ensures
            next == self.selected(key),
    {
        let order = if self.sorting_type() == key {
            self.sort_order().toggle()
        } else {
            SortOrder::Asc
        };
        match key {
            DirSortingType::FileNameAlphabetically => DirSorting::FileNameAlphabetically(order),
            DirSortingType::FileSize => DirSorting::FileSize(order),
            DirSortingType::LastModified => DirSorting::LastModified(order),
        }
    }
}

/// The arrow on the header of the column `target` while `current` is the
/// active sort: up where `target` is the active key and the direction is
/// descending, down otherwise.
pub fn get_sort_icon(target: DirSortingType, current: &DirSorting) -> (arrow: &'static str)
    ensures
        arrow@ == (if current.key() == target && current.order() == SortOrder::Desc {
            "⬆"@
        } else {
            "⬇"@
        }),
{
    if current.sorting_type() == target {
        current.sort_order().toggle().icon()
    } else {
        "⬇"
    }
}

/// The values of the entries that a vector holds, in order.
pub open spec fn entry_views(entries: Seq<FeEntry>) -> Seq<EntryView> {
    Seq::new(entries.len(), |i: int| entries[i]@)
}

} // verus!
