//! Discovery: which files of the source tree are work, and where each goes.
//!
//! The caller walks the tree and reads the first bytes of every regular
//! file; it also says which targets exist already. From these the library
//! tells audio from cover art by content and by name, mirrors each path
//! under the destination root, and keeps what is still to be done.
//!
//! Two sources may lead to one target. The first to claim a target gets the
//! job; every later one is set aside as a collision, so that no two jobs of
//! a run ever write to the same path.

use crate::paths::{
    diff_paths, is_absolute, is_extension, is_separator, join, parent, path_is_absolute,
    path_join, path_parent, path_with_extension, relative_path, text_of, with_extension,
};
use crate::text::{contains_text, same_text};
use vstd::prelude::*;
use vstd::string::*;

verus! {

/// One unit of work: a file of the source tree and the path it is to
/// become under the destination root.
#[derive(Debug, Clone, PartialEq, Eq)]
pub struct FileMapping {
    pub source_file: String,
    pub target_file: String,
}

/// A mapping as contracts see it.
pub struct MappingView {
    pub source: Seq<char>,
    pub target: Seq<char>,
}

impl View for FileMapping {
    type V = MappingView;

    open spec fn view(&self) -> MappingView {
        MappingView { source: self.source_file@, target: self.target_file@ }
    }
}

impl DeepView for FileMapping {
    type V = MappingView;

    open spec fn deep_view(&self) -> MappingView {
        self@
    }
}

impl FileMapping {
    pub fn new(source_file: String, target_file: String) -> (mapping: Self)
        ensures
            mapping.source_file == source_file,
            mapping.target_file == target_file,
    {
        FileMapping { source_file, target_file }
    }
}

/// What the walk saw of one regular file.
#[derive(Debug, Clone, PartialEq, Eq)]
pub struct SourceEntry {
    /// The file's path, as the walk from the source root gave it.
    pub path: String,
    /// The last component of the path.
    pub file_name: String,
    /// The bytes the file starts with: twelve or more where it has them,
    /// none where it could not be read.
    pub leading_bytes: Vec<u8>,
}

/// A source entry as contracts see it.
pub struct EntryView {
    pub path: Seq<char>,
    pub file_name: Seq<char>,
    pub leading_bytes: Seq<u8>,
}

impl View for SourceEntry {
    type V = EntryView;

    open spec fn view(&self) -> EntryView {
        EntryView {
            path: self.path@,
            file_name: self.file_name@,
            leading_bytes: self.leading_bytes@,
        }
    }
}

impl DeepView for SourceEntry {
    type V = EntryView;

    open spec fn deep_view(&self) -> EntryView {
        self@
    }
}

/// What a file of the source tree is to the conversion.
#[derive(Debug, Copy, Clone, PartialEq, Eq, Structural)]
pub enum FileKind {
    /// An audio file to convert.
    AudioSource,
    /// Cover art to copy beside the converted files.
    CoverArt,
    /// Neither.
    Skip,
}

/// `hound::Error`, of which the library reads nothing: it only tells it
/// from success.
#[verifier::external_type_specification]
#[verifier::external_body]
pub struct ExWaveError(hound::Error);

/// Whether `bytes` start as a RIFF container of type WAVE does: the tag
/// `RIFF`, four bytes of length, the tag `WAVE`.
pub open spec fn has_wave_header(bytes: Seq<u8>) -> bool {
    &&& bytes.len() >= 12
    &&& bytes[0] == 0x52 && bytes[1] == 0x49 && bytes[2] == 0x46 && bytes[3] == 0x46
    &&& bytes[8] == 0x57 && bytes[9] == 0x41 && bytes[10] == 0x56 && bytes[11] == 0x45
}

/// The size that a RIFF header announces for its file: the little-endian
/// length in its bytes 4 to 7, and the eight bytes before the content that
/// the length counts.
pub open spec fn announced_size(bytes: Seq<u8>) -> int
    recommends
        bytes.len() >= 8,
{
    bytes[4] + bytes[5] * 0x100 + bytes[6] * 0x1_0000 + bytes[7] * 0x100_0000 + 8
}

/// Calls `hound::read_wave_header` on bytes held in memory. Trusted: it
/// succeeds exactly on twelve bytes or more that carry the two tags, and
/// then returns the announced size; reading from memory, it fails in no
/// other way.
#[verifier::external_body]
fn read_wave_header(bytes: &[u8]) -> (header: Result<u64, hound::Error>)
    ensures
        header.is_ok() == has_wave_header(bytes@),
        header matches Ok(size) ==> size == announced_size(bytes@),
{
    let mut reader = bytes;
    hound::read_wave_header(&mut reader)
}

/// Whether the bytes a file starts with are those of a WAVE file.
pub fn is_valid_wav_file(leading_bytes: &[u8]) -> (valid: bool)
    ensures
        valid == has_wave_header(leading_bytes@),
{
    match read_wave_header(leading_bytes) {
        Ok(_) => true,
        Err(_) => false,
    }
}

/// What a file is: audio by what it holds, whatever it is called; else
/// cover art by its exact name; else nothing.
pub open spec fn kind_of(
    leading_bytes: Seq<u8>,
    file_name: Seq<char>,
    cover_name: Seq<char>,
) -> FileKind {
    if has_wave_header(leading_bytes) {
        FileKind::AudioSource
    } else if file_name == cover_name {
        FileKind::CoverArt
    } else {
        FileKind::Skip
    }
}

/// Tells what a file is from the bytes it starts with and from its name.
pub fn classify(leading_bytes: &[u8], file_name: &str, cover_name: &str) -> (kind: FileKind)
    ensures
        kind == kind_of(leading_bytes@, file_name@, cover_name@),
        kind == FileKind::AudioSource <==> has_wave_header(leading_bytes@),
{
    if is_valid_wav_file(leading_bytes) {
        FileKind::AudioSource
    } else if same_text(file_name, cover_name) {
        FileKind::CoverArt
    } else {
        FileKind::Skip
    }
}

/// Whether a relative path starts by going up: it is `..`, or `..` and a
/// separator come first. Either separator counts, on every platform.
pub open spec fn leads_upwards(relative: Seq<char>) -> bool {
    &&& relative.len() >= 2
    &&& relative[0] == '.'
    &&& relative[1] == '.'
    &&& (relative.len() == 2 || is_separator(relative[2]))
}

/// Whether `relative` leads from a directory to something below it: it is
/// not empty, does not start anew from a root and does not go up.
pub open spec fn leads_below(relative: Seq<char>) -> bool {
    relative.len() > 0 && !path_is_absolute(relative) && !leads_upwards(relative)
}

/// The path that leads from the source root down to `source`; `None` where
/// `source` does not lie below the source root.
pub open spec fn path_below(source: Seq<char>, src_root: Seq<char>) -> Option<Seq<char>> {
    match relative_path(source, src_root) {
        Some(relative) if leads_below(relative) => Some(relative),
        _ => None,
    }
}

/// Where `source` goes: its path relative to the source root, adjoined to
/// the destination root, with the extension swapped where one is given.
/// `None` where `source` does not lie below the source root.
pub open spec fn target_of(
    source: Seq<char>,
    src_root: Seq<char>,
    dest_root: Seq<char>,
    extension: Option<Seq<char>>,
) -> Option<Seq<char>> {
    match path_below(source, src_root) {
        None => None,
        Some(relative) => Some(renamed(path_join(dest_root, relative), extension)),
    }
}

/// Tells whether a relative path starts by going up.
pub fn starts_upwards(relative: &str) -> (upwards: bool)
    ensures
        upwards == leads_upwards(relative@),
{
    let length = relative.unicode_len();
    if length < 2 {
        return false;
    }
    if relative.get_char(0) != '.' || relative.get_char(1) != '.' {
        return false;
    }
    if length == 2 {
        return true;
    }
    let third = relative.get_char(2);
    third == '/' || third == '\\'
}

/// Finds the path that leads from the source root down to a file.
pub fn relative_below(source_file: &str, src_root: &str) -> (relative: Option<String>)
    ensures
        text_of(relative) == path_below(source_file@, src_root@),
{
    match diff_paths(source_file, src_root) {
        None => None,
        Some(relative) => {
            if relative.as_str().is_empty() || is_absolute(relative.as_str())
                || starts_upwards(relative.as_str()) {
                None
            } else {
                Some(relative)
            }
        },
    }
}

/// `path` with the extension swapped where one is given, else as it is.
pub open spec fn renamed(path: Seq<char>, extension: Option<Seq<char>>) -> Seq<char> {
    match extension {
        Some(extension) => path_with_extension(path, extension),
        None => path,
    }
}

/// The characters of an optional text that is borrowed.
pub open spec fn borrowed_text(text: Option<&str>) -> Option<Seq<char>> {
    match text {
        Some(t) => Some(t@),
        None => None,
    }
}

/// Whether an extension, where one is given, can be given to a file.
pub open spec fn is_transform(extension: Option<Seq<char>>) -> bool {
    match extension {
        Some(extension) => is_extension(extension),
        None => true,
    }
}

/// Mirrors a path of the source tree under the destination root.
pub fn target_path(
    source_file: &str,
    src_root: &str,
    dest_root: &str,
    extension: Option<&str>,
) -> (target: Option<String>)
    requires
        is_transform(borrowed_text(extension)),
    ensures
        text_of(target) == target_of(source_file@, src_root@, dest_root@, borrowed_text(extension)),
{
    match relative_below(source_file, src_root) {
        None => None,
        Some(relative) => {
            let mirrored = join(dest_root, relative.as_str());
            Some(
                match extension {
                    Some(extension) => with_extension(mirrored.as_str(), extension),
                    None => mirrored,
                },
            )
        },
    }
}

/// The mapping from `source` to `target`, if there is a target and nothing
/// has taken it.
pub open spec fn mapping_unless_taken(
    source: Seq<char>,
    target: Option<Seq<char>>,
    taken: Seq<Seq<char>>,
) -> Option<MappingView> {
    match target {
        Some(target) if !taken.contains(target) => Some(MappingView { source, target }),
        _ => None,
    }
}

/// The view of an optional mapping.
pub open spec fn mapping_of(mapping: Option<FileMapping>) -> Option<MappingView> {
    match mapping {
        Some(m) => Some(m@),
        None => None,
    }
}

/// Makes the mapping from `source_file` to `target`, unless there is no
/// target or the target is among `taken`.
pub fn mapping_if_missing(
    source_file: &str,
    target: Option<String>,
    taken: &Vec<String>,
) -> (mapping: Option<FileMapping>)
    ensures
        mapping_of(mapping) == mapping_unless_taken(
            source_file@,
            text_of(target),
            taken.deep_view(),
        ),
{
    match target {
        None => None,
        Some(target) => {
            if contains_text(taken, &target) {
                None
            } else {
                Some(FileMapping::new(String::from_str(source_file), target))
            }
        },
    }
}

/// The work that `source` stands for: its mapping to its mirrored path,
/// unless that path exists already.
pub open spec fn missing_mapping(
    source: Seq<char>,
    src_root: Seq<char>,
    dest_root: Seq<char>,
    extension: Option<Seq<char>>,
    existing: Seq<Seq<char>>,
) -> Option<MappingView> {
    mapping_unless_taken(source, target_of(source, src_root, dest_root, extension), existing)
}

/// Maps a source file to its target, and keeps the mapping only where the
/// target does not exist yet.
pub fn on_missing_file(
    source_file: &str,
    src_root: &str,
    dest_root: &str,
    extension: Option<&str>,
    existing: &Vec<String>,
) -> (mapping: Option<FileMapping>)
    requires
        is_transform(borrowed_text(extension)),
    ensures
        mapping_of(mapping) == missing_mapping(
            source_file@,
            src_root@,
            dest_root@,
            borrowed_text(extension),
            existing.deep_view(),
        ),
{
    let target = target_path(source_file, src_root, dest_root, extension);
    mapping_if_missing(source_file, target, existing)
}

/// The targets of mappings, in their order.
pub open spec fn targets(mappings: Seq<MappingView>) -> Seq<Seq<char>> {
    mappings.map_values(|m: MappingView| m.target)
}

/// What a discovery goes by: the two roots, the extension of the target
/// format and the name that cover files bear.
pub struct Layout {
    pub src_root: Seq<char>,
    pub dest_root: Seq<char>,
    pub target_extension: Seq<char>,
    pub cover_name: Seq<char>,
}

/// The layout that four texts make.
pub open spec fn layout_of(
    src_root: &str,
    dest_root: &str,
    target_extension: &str,
    cover_name: &str,
) -> Layout {
    Layout {
        src_root: src_root@,
        dest_root: dest_root@,
        target_extension: target_extension@,
        cover_name: cover_name@,
    }
}

/// What discovery found.
#[derive(Debug, Clone, PartialEq, Eq)]
pub struct Discovery {
    /// The audio files to convert.
    pub audio_jobs: Vec<FileMapping>,
    /// The cover files to copy.
    pub cover_jobs: Vec<FileMapping>,
    /// The mappings set aside because an earlier job has their target.
    pub collisions: Vec<FileMapping>,
    /// How many audio files the source tree holds, converted already or not.
    pub audio_found: usize,
}

/// A discovery as contracts see it.
pub struct DiscoveryView {
    pub audio_jobs: Seq<MappingView>,
    pub cover_jobs: Seq<MappingView>,
    pub collisions: Seq<MappingView>,
    pub audio_found: nat,
}

impl View for Discovery {
    type V = DiscoveryView;

    open spec fn view(&self) -> DiscoveryView {
        DiscoveryView {
            audio_jobs: self.audio_jobs.deep_view(),
            cover_jobs: self.cover_jobs.deep_view(),
            collisions: self.collisions.deep_view(),
            audio_found: self.audio_found as nat,
        }
    }
}

impl DiscoveryView {
    /// The discovery of an empty tree.
    pub open spec fn nothing() -> DiscoveryView {
        DiscoveryView {
            audio_jobs: Seq::empty(),
            cover_jobs: Seq::empty(),
            collisions: Seq::empty(),
            audio_found: 0,
        }
    }

    /// Whether a job of this discovery writes to `target`.
    pub open spec fn claims(self, target: Seq<char>) -> bool {
        targets(self.audio_jobs).contains(target) || targets(self.cover_jobs).contains(target)
    }

    /// The targets of all jobs, audio before covers.
    pub open spec fn job_targets(self) -> Seq<Seq<char>> {
        targets(self.audio_jobs) + targets(self.cover_jobs)
    }

    /// This discovery after one more file: counted where it is audio; a job
    /// where it has a mapping to a free target; a collision where an earlier
    /// job has the target.
    pub open spec fn with_entry(
        self,
        kind: FileKind,
        mapping: Option<MappingView>,
    ) -> DiscoveryView {
        let audio_found = if kind == FileKind::AudioSource {
            self.audio_found + 1
        } else {
            self.audio_found
        };
        match mapping {
            None => DiscoveryView { audio_found, ..self },
            Some(mapping) => if self.claims(mapping.target) {
                DiscoveryView { audio_found, collisions: self.collisions.push(mapping), ..self }
            } else if kind == FileKind::AudioSource {
                DiscoveryView { audio_found, audio_jobs: self.audio_jobs.push(mapping), ..self }
            } else {
                DiscoveryView { audio_found, cover_jobs: self.cover_jobs.push(mapping), ..self }
            },
        }
    }
}

impl EntryView {
    /// What the file is under a layout.
    pub open spec fn kind(self, layout: Layout) -> FileKind {
        kind_of(self.leading_bytes, self.file_name, layout.cover_name)
    }

    /// Where the file is to go: audio with the extension of the target
    /// format, a cover under its own name; `None` for a file that is no work.
    pub open spec fn target(self, layout: Layout) -> Option<Seq<char>> {
        match self.kind(layout) {
            FileKind::AudioSource => target_of(
                self.path,
                layout.src_root,
                layout.dest_root,
                Some(layout.target_extension),
            ),
            FileKind::CoverArt => target_of(self.path, layout.src_root, layout.dest_root, None),
            FileKind::Skip => None,
        }
    }

    /// The work that the file stands for: its mapping, unless it is no work
    /// or its target exists already.
    pub open spec fn mapping(self, layout: Layout, existing: Seq<Seq<char>>) -> Option<
        MappingView,
    > {
        mapping_unless_taken(self.path, self.target(layout), existing)
    }
}

/// What discovery finds in `entries`, taken in their order, when the
/// targets in `existing` are there already.
pub open spec fn discovery(
    entries: Seq<EntryView>,
    layout: Layout,
    existing: Seq<Seq<char>>,
) -> DiscoveryView
    decreases entries.len(),
{
    if entries.len() == 0 {
        DiscoveryView::nothing()
    } else {
        discovery(entries.drop_last(), layout, existing).with_entry(
            entries.last().kind(layout),
            entries.last().mapping(layout, existing),
        )
    }
}

/// Where the file of an entry is to go, whether or not it is there already.
/// A caller that looks for each of these paths learns what exists.
pub fn planned_target(
    entry: &SourceEntry,
    src_root: &str,
    dest_root: &str,
    target_extension: &str,
    cover_name: &str,
) -> (target: Option<String>)
    requires
        is_extension(target_extension@),
    ensures
        text_of(target) == entry@.target(
            layout_of(src_root, dest_root, target_extension, cover_name),
        ),
{
    match classify(entry.leading_bytes.as_slice(), entry.file_name.as_str(), cover_name) {
        FileKind::Skip => None,
        FileKind::AudioSource => target_path(
            entry.path.as_str(),
            src_root,
            dest_root,
            Some(target_extension),
        ),
        FileKind::CoverArt => target_path(entry.path.as_str(), src_root, dest_root, None),
    }
}

/// Whether one of `jobs` writes to `target`.
fn has_target(jobs: &Vec<FileMapping>, target: &String) -> (found: bool)
    ensures
        found == targets(jobs.deep_view()).contains(target@),
{
    let mut i: usize = 0;
    while i < jobs.len()
        invariant
            i <= jobs.len(),
            forall|j: int| 0 <= j < i ==> targets(jobs.deep_view())[j] != target@,
        decreases jobs.len() - i,
    {
        if jobs[i].target_file == *target {
            assert(targets(jobs.deep_view())[i as int] == target@);
            return true;
        }
        i = i + 1;
    }
    false
}

/// Goes through what the walk saw and finds the work: the audio files to
/// convert and the covers to copy, each with its target, without those
/// whose target exists and without those whose target an earlier job has.
pub fn find_audio_files_and_covers(
    entries: &Vec<SourceEntry>,
    src_root: &str,
    dest_root: &str,
    target_extension: &str,
    cover_name: &str,
    existing: &Vec<String>,
) -> (found: Discovery)
    requires
        is_extension(target_extension@),
    ensures
        found@ == discovery(
            entries.deep_view(),
            layout_of(src_root, dest_root, target_extension, cover_name),
            existing.deep_view(),
        ),
{
    let mut audio_jobs: Vec<FileMapping> = Vec::new();
    let mut cover_jobs: Vec<FileMapping> = Vec::new();
    let mut collisions: Vec<FileMapping> = Vec::new();
    let mut audio_found: usize = 0;
    let ghost all = entries.deep_view();
    let ghost layout = layout_of(src_root, dest_root, target_extension, cover_name);
    let ghost mut so_far = DiscoveryView::nothing();
    let mut i: usize = 0;
    assert(all.take(0) =~= Seq::<EntryView>::empty());
    while i < entries.len()
        invariant
            i <= entries.len(),
            all == entries.deep_view(),
            layout == layout_of(src_root, dest_root, target_extension, cover_name),
            is_extension(target_extension@),
            audio_found <= i,
            so_far == discovery(all.take(i as int), layout, existing.deep_view()),
            so_far.audio_jobs == audio_jobs.deep_view(),
            so_far.cover_jobs == cover_jobs.deep_view(),
            so_far.collisions == collisions.deep_view(),
            so_far.audio_found == audio_found,
        decreases entries.len() - i,
    {
        let entry = &entries[i];
        let kind = classify(entry.leading_bytes.as_slice(), entry.file_name.as_str(), cover_name);
        let found = match kind {
            FileKind::Skip => None,
            FileKind::AudioSource => on_missing_file(
                entry.path.as_str(),
                src_root,
                dest_root,
                Some(target_extension),
                existing,
            ),
            FileKind::CoverArt => on_missing_file(
                entry.path.as_str(),
                src_root,
                dest_root,
                None,
                existing,
            ),
        };
        proof {
            assert(all.take(i + 1).drop_last() =~= all.take(i as int));
            assert(all.take(i + 1).last() == entry@);
            assert(mapping_of(found) == entry@.mapping(layout, existing.deep_view()));
            so_far = so_far.with_entry(kind, mapping_of(found));
        }
        if kind == FileKind::AudioSource {
            audio_found = audio_found + 1;
        }
        match found {
            None => {},
            Some(mapping) => {
                let ghost one = mapping@;
                if has_target(&audio_jobs, &mapping.target_file) || has_target(
                    &cover_jobs,
                    &mapping.target_file,
                ) {
                    let ghost before = collisions.deep_view();
                    collisions.push(mapping);
                    assert(collisions.deep_view() =~= before.push(one));
                } else if kind == FileKind::AudioSource {
                    let ghost before = audio_jobs.deep_view();
                    audio_jobs.push(mapping);
                    assert(audio_jobs.deep_view() =~= before.push(one));
                } else {
                    let ghost before = cover_jobs.deep_view();
                    cover_jobs.push(mapping);
                    assert(cover_jobs.deep_view() =~= before.push(one));
                }
            },
        }
        i = i + 1;
    }
    assert(all.take(i as int) =~= all);
    Discovery { audio_jobs, cover_jobs, collisions, audio_found }
}

/// Whether no two jobs of a discovery write to the same target, no job
/// writes to a target that exists, and every collision is with a job.
pub open spec fn is_race_free(found: DiscoveryView, existing: Seq<Seq<char>>) -> bool {
    &&& targets(found.audio_jobs).no_duplicates()
    &&& targets(found.cover_jobs).no_duplicates()
    &&& forall|t: Seq<char>|
        !(targets(found.audio_jobs).contains(t) && targets(found.cover_jobs).contains(t))
    &&& forall|t: Seq<char>| found.claims(t) ==> !existing.contains(t)
    &&& forall|i: int|
        0 <= i < found.collisions.len() ==> found.claims(#[trigger] found.collisions[i].target)
            && !existing.contains(found.collisions[i].target)
}

proof fn lemma_pushed_target(mappings: Seq<MappingView>, mapping: MappingView)
    ensures
        targets(mappings.push(mapping)) == targets(mappings).push(mapping.target),
        forall|t: Seq<char>|
            targets(mappings.push(mapping)).contains(t) <==> (targets(mappings).contains(t) || t
                == mapping.target),
{
    let longer = targets(mappings.push(mapping));
    let pushed = targets(mappings).push(mapping.target);
    assert(longer =~= pushed);
    assert forall|t: Seq<char>| pushed.contains(t) <==> (targets(mappings).contains(t) || t
        == mapping.target) by {
        if targets(mappings).contains(t) {
            let i = choose|i: int| 0 <= i < targets(mappings).len() && targets(mappings)[i] == t;
            assert(pushed[i] == t);
        }
        if t == mapping.target {
            assert(pushed[pushed.len() - 1] == t);
        }
    }
}

proof fn lemma_entry_keeps_race_free(
    found: DiscoveryView,
    kind: FileKind,
    mapping: Option<MappingView>,
    existing: Seq<Seq<char>>,
)
    requires
        is_race_free(found, existing),
        mapping matches Some(m) ==> !existing.contains(m.target),
    ensures
        is_race_free(found.with_entry(kind, mapping), existing),
        forall|t: Seq<char>| found.claims(t) ==> found.with_entry(kind, mapping).claims(t),
        mapping matches Some(m) ==> found.with_entry(kind, mapping).claims(m.target),
{
    let next = found.with_entry(kind, mapping);
    match mapping {
        None => {},
        Some(m) => {
            lemma_pushed_target(found.audio_jobs, m);
            lemma_pushed_target(found.cover_jobs, m);
            if found.claims(m.target) {
                assert forall|i: int| 0 <= i < next.collisions.len() implies next.claims(
                    #[trigger] next.collisions[i].target,
                ) && !existing.contains(next.collisions[i].target) by {
                    if i < found.collisions.len() {
                        assert(next.collisions[i] == found.collisions[i]);
                    }
                }
            } else {
                assert forall|i: int| 0 <= i < next.collisions.len() implies next.claims(
                    #[trigger] next.collisions[i].target,
                ) && !existing.contains(next.collisions[i].target) by {
                    assert(found.claims(found.collisions[i].target));
                }
            }
        },
    }
}

/// No two jobs that discovery hands out write to the same target, and none
/// writes to a target that exists already. A mapping is set aside as a
/// collision only where a job has its target.
pub proof fn lemma_discovery_is_race_free(
    entries: Seq<EntryView>,
    layout: Layout,
    existing: Seq<Seq<char>>,
)
    ensures
        is_race_free(discovery(entries, layout, existing), existing),
        discovery(entries, layout, existing).job_targets().no_duplicates(),
    decreases entries.len(),
{
    let found = discovery(entries, layout, existing);
    if entries.len() > 0 {
        lemma_discovery_is_race_free(entries.drop_last(), layout, existing);
        lemma_entry_keeps_race_free(
            discovery(entries.drop_last(), layout, existing),
            entries.last().kind(layout),
            entries.last().mapping(layout, existing),
            existing,
        );
    }
    let audio = targets(found.audio_jobs);
    let covers = targets(found.cover_jobs);
    assert forall|i: int, j: int| 0 <= i < audio.len() && 0 <= j < covers.len() implies audio[i]
        != covers[j] by {
        if audio[i] == covers[j] {
            assert(audio.contains(audio[i]));
            assert(covers.contains(audio[i]));
        }
    }
    vstd::seq_lib::lemma_no_dup_in_concat(audio, covers);
}

/// Whether `mapping` is the work of one of `entries` that is of `kind`.
pub open spec fn comes_from(
    mapping: MappingView,
    kind: FileKind,
    entries: Seq<EntryView>,
    layout: Layout,
    existing: Seq<Seq<char>>,
) -> bool {
    exists|i: int|
        0 <= i < entries.len() && (#[trigger] entries[i]).kind(layout) == kind
            && entries[i].mapping(layout, existing) == Some(mapping)
}

/// Discovery makes nothing up: every audio job is the work of an audio
/// file among the entries, and every cover job the work of a cover file.
/// So no job is in both lists. There are no more audio jobs than audio
/// files, and no more audio files than entries.
pub proof fn lemma_jobs_come_from_entries(
    entries: Seq<EntryView>,
    layout: Layout,
    existing: Seq<Seq<char>>,
)
    ensures
        ({
            let found = discovery(entries, layout, existing);
            &&& forall|j: int|
                0 <= j < found.audio_jobs.len() ==> comes_from(
                    #[trigger] found.audio_jobs[j],
                    FileKind::AudioSource,
                    entries,
                    layout,
                    existing,
                )
            &&& forall|j: int|
                0 <= j < found.cover_jobs.len() ==> comes_from(
                    #[trigger] found.cover_jobs[j],
                    FileKind::CoverArt,
                    entries,
                    layout,
                    existing,
                )
            &&& found.audio_jobs.len() <= found.audio_found <= entries.len()
            &&& found.audio_jobs.len() + found.cover_jobs.len() + found.collisions.len()
                <= entries.len()
        }),
    decreases entries.len(),
{
    if entries.len() > 0 {
        let earlier = entries.drop_last();
        let before = discovery(earlier, layout, existing);
        let found = discovery(entries, layout, existing);
        let last = entries.len() - 1;
        lemma_jobs_come_from_entries(earlier, layout, existing);
        assert forall|m: MappingView, kind: FileKind|
            comes_from(m, kind, earlier, layout, existing) implies comes_from(
            m,
            kind,
            entries,
            layout,
            existing,
        ) by {
            let i = choose|i: int|
                0 <= i < earlier.len() && (#[trigger] earlier[i]).kind(layout) == kind
                    && earlier[i].mapping(layout, existing) == Some(m);
            assert(entries[i] == earlier[i]);
        }
        assert forall|j: int| 0 <= j < found.audio_jobs.len() implies comes_from(
            #[trigger] found.audio_jobs[j],
            FileKind::AudioSource,
            entries,
            layout,
            existing,
        ) by {
            if j < before.audio_jobs.len() {
                assert(found.audio_jobs[j] == before.audio_jobs[j]);
            } else {
                assert(entries[last].mapping(layout, existing) == Some(found.audio_jobs[j]));
            }
        }
        assert forall|j: int| 0 <= j < found.cover_jobs.len() implies comes_from(
            #[trigger] found.cover_jobs[j],
            FileKind::CoverArt,
            entries,
            layout,
            existing,
        ) by {
            if j < before.cover_jobs.len() {
                assert(found.cover_jobs[j] == before.cover_jobs[j]);
            } else {
                assert(entries[last].mapping(layout, existing) == Some(found.cover_jobs[j]));
            }
        }
    }
}

/// Whether the work of `entry`, if it is any, is among what was found: as
/// a job of its kind, or as a collision.
pub open spec fn is_accounted_for(
    entry: EntryView,
    layout: Layout,
    existing: Seq<Seq<char>>,
    found: DiscoveryView,
) -> bool {
    match entry.mapping(layout, existing) {
        None => true,
        Some(m) => {
            ||| found.collisions.contains(m)
            ||| entry.kind(layout) == FileKind::AudioSource && found.audio_jobs.contains(m)
            ||| entry.kind(layout) == FileKind::CoverArt && found.cover_jobs.contains(m)
        },
    }
}

proof fn lemma_longer_holds_all(shorter: Seq<MappingView>, longer: Seq<MappingView>)
    requires
        shorter == longer || exists|m: MappingView| longer == shorter.push(m),
    ensures
        forall|m: MappingView| shorter.contains(m) ==> longer.contains(m),
{
    assert forall|m: MappingView| shorter.contains(m) implies longer.contains(m) by {
        let k = choose|k: int| 0 <= k < shorter.len() && shorter[k] == m;
        assert(longer[k] == m);
    }
}

/// Discovery loses nothing: the work of every entry is a job of its kind,
/// or a collision.
pub proof fn lemma_every_entry_is_accounted_for(
    entries: Seq<EntryView>,
    layout: Layout,
    existing: Seq<Seq<char>>,
)
    ensures
        forall|i: int|
            0 <= i < entries.len() ==> is_accounted_for(
                #[trigger] entries[i],
                layout,
                existing,
                discovery(entries, layout, existing),
            ),
    decreases entries.len(),
{
    if entries.len() > 0 {
        let earlier = entries.drop_last();
        let before = discovery(earlier, layout, existing);
        let found = discovery(entries, layout, existing);
        lemma_every_entry_is_accounted_for(earlier, layout, existing);
        lemma_longer_holds_all(before.collisions, found.collisions);
        lemma_longer_holds_all(before.audio_jobs, found.audio_jobs);
        lemma_longer_holds_all(before.cover_jobs, found.cover_jobs);
        assert forall|i: int| 0 <= i < entries.len() implies is_accounted_for(
            #[trigger] entries[i],
            layout,
            existing,
            found,
        ) by {
            match entries[i].mapping(layout, existing) {
                None => {},
                Some(m) => {
                    if i < earlier.len() {
                        assert(entries[i] == earlier[i]);
                    } else if before.claims(m.target) {
                        assert(found.collisions[found.collisions.len() - 1] == m);
                    } else if entries[i].kind(layout) == FileKind::AudioSource {
                        assert(found.audio_jobs[found.audio_jobs.len() - 1] == m);
                    } else {
                        assert(found.cover_jobs[found.cover_jobs.len() - 1] == m);
                    }
                },
            }
        }
    }
}

proof fn lemma_every_target_is_taken(
    entries: Seq<EntryView>,
    layout: Layout,
    existing: Seq<Seq<char>>,
)
    ensures
        is_race_free(discovery(entries, layout, existing), existing),
        forall|i: int|
            0 <= i < entries.len() ==> ((#[trigger] entries[i]).target(layout) matches Some(t)
                ==> existing.contains(t) || discovery(entries, layout, existing).claims(t)),
    decreases entries.len(),
{
    let found = discovery(entries, layout, existing);
    if entries.len() > 0 {
        let earlier = entries.drop_last();
        lemma_every_target_is_taken(earlier, layout, existing);
        lemma_entry_keeps_race_free(
            discovery(earlier, layout, existing),
            entries.last().kind(layout),
            entries.last().mapping(layout, existing),
            existing,
        );
        assert forall|i: int| 0 <= i < entries.len() implies ((#[trigger] entries[i]).target(
            layout,
        ) matches Some(t) ==> existing.contains(t) || found.claims(t)) by {
            if i < entries.len() - 1 {
                assert(entries[i] == earlier[i]);
            }
        }
    }
}

proof fn lemma_nothing_left(
    entries: Seq<EntryView>,
    layout: Layout,
    taken: Seq<Seq<char>>,
    other: Seq<Seq<char>>,
)
    requires
        forall|i: int|
            0 <= i < entries.len() ==> ((#[trigger] entries[i]).target(layout) matches Some(t)
                ==> taken.contains(t)),
    ensures
        ({
            let found = discovery(entries, layout, taken);
            &&& found.audio_jobs.len() == 0
            &&& found.cover_jobs.len() == 0
            &&& found.collisions.len() == 0
            &&& found.audio_found == discovery(entries, layout, other).audio_found
        }),
    decreases entries.len(),
{
    if entries.len() > 0 {
        let earlier = entries.drop_last();
        assert forall|i: int| 0 <= i < earlier.len() implies ((#[trigger] earlier[i]).target(
            layout,
        ) matches Some(t) ==> taken.contains(t)) by {
            assert(earlier[i] == entries[i]);
        }
        lemma_nothing_left(earlier, layout, taken, other);
        assert(entries.last() == entries[entries.len() - 1]);
    }
}

/// Running discovery again, once every job of a first run has written its
/// target and nothing else has changed, finds no job and no collision.
pub proof fn lemma_rerun_finds_nothing(
    entries: Seq<EntryView>,
    layout: Layout,
    existing: Seq<Seq<char>>,
)
    ensures
        ({
            let first = discovery(entries, layout, existing);
            let second = discovery(entries, layout, existing + first.job_targets());
            &&& second.audio_jobs.len() == 0
            &&& second.cover_jobs.len() == 0
            &&& second.collisions.len() == 0
            &&& second.audio_found == first.audio_found
        }),
{
    let first = discovery(entries, layout, existing);
    let after = existing + first.job_targets();
    lemma_every_target_is_taken(entries, layout, existing);
    assert forall|i: int| 0 <= i < entries.len() implies ((#[trigger] entries[i]).target(
        layout,
    ) matches Some(t) ==> after.contains(t)) by {
        match entries[i].target(layout) {
            None => {},
            Some(t) => {
                let audio = targets(first.audio_jobs);
                let covers = targets(first.cover_jobs);
                if existing.contains(t) {
                    let k = choose|k: int| 0 <= k < existing.len() && existing[k] == t;
                    assert(after[k] == t);
                } else if audio.contains(t) {
                    let k = choose|k: int| 0 <= k < audio.len() && audio[k] == t;
                    assert(after[existing.len() + k] == t);
                } else {
                    assert(covers.contains(t));
                    let k = choose|k: int| 0 <= k < covers.len() && covers[k] == t;
                    assert(after[existing.len() + audio.len() + k] == t);
                }
            },
        }
    }
    lemma_nothing_left(entries, layout, after, existing);
}

/// `list`, and `item` behind it where there is one that `list` lacks.
pub open spec fn with_new(list: Seq<Seq<char>>, item: Option<Seq<char>>) -> Seq<Seq<char>> {
    match item {
        Some(item) if !list.contains(item) => list.push(item),
        _ => list,
    }
}

/// Puts `item` at the end of `list`, unless there is none or `list` holds it.
pub fn push_if_new(list: &mut Vec<String>, item: Option<String>)
    ensures
        final(list).deep_view() == with_new(old(list).deep_view(), text_of(item)),
{
    let ghost before = list.deep_view();
    match item {
        None => {},
        Some(item) => {
            if !contains_text(list, &item) {
                let ghost text = item@;
                list.push(item);
                assert(list.deep_view() =~= before.push(text));
            }
        },
    }
}

/// The directories that the targets of `mappings` lie in, each once, in the
/// order in which the mappings first name them.
pub open spec fn directories_of(mappings: Seq<MappingView>) -> Seq<Seq<char>>
    decreases mappings.len(),
{
    if mappings.len() == 0 {
        Seq::empty()
    } else {
        with_new(directories_of(mappings.drop_last()), path_parent(mappings.last().target))
    }
}

/// No directory is named twice, and the directory of every target is named.
pub proof fn lemma_directories_cover_targets(mappings: Seq<MappingView>)
    ensures
        directories_of(mappings).no_duplicates(),
        forall|i: int|
            0 <= i < mappings.len() ==> (#[trigger] path_parent(mappings[i].target) matches Some(
                directory,
            ) ==> directories_of(mappings).contains(directory)),
    decreases mappings.len(),
{
    if mappings.len() > 0 {
        let shorter = mappings.drop_last();
        let before = directories_of(shorter);
        let all = directories_of(mappings);
        lemma_directories_cover_targets(shorter);
        assert forall|i: int| 0 <= i < mappings.len() implies (#[trigger] path_parent(
            mappings[i].target,
        ) matches Some(directory) ==> all.contains(directory)) by {
            match path_parent(mappings[i].target) {
                None => {},
                Some(directory) => {
                    if i < shorter.len() {
                        assert(mappings[i] == shorter[i]);
                        let k = choose|k: int| 0 <= k < before.len() && before[k] == directory;
                        assert(all[k] == directory);
                    } else if before.contains(directory) {
                    } else {
                        assert(all[all.len() - 1] == directory);
                    }
                },
            }
        }
    }
}

/// The directories that have to be there before any of the targets is
/// written: the parent of each target, once.
pub fn create_directories(mappings: &Vec<FileMapping>) -> (directories: Vec<String>)
    ensures
        directories.deep_view() == directories_of(mappings.deep_view()),
{
    let mut directories: Vec<String> = Vec::new();
    let ghost all = mappings.deep_view();
    let mut i: usize = 0;
    assert(all.take(0) =~= Seq::<MappingView>::empty());
    assert(directories.deep_view() =~= Seq::<Seq<char>>::empty());
    while i < mappings.len()
        invariant
            i <= mappings.len(),
            all == mappings.deep_view(),
            directories.deep_view() == directories_of(all.take(i as int)),
        decreases mappings.len() - i,
    {
        assert(all.take(i + 1).drop_last() =~= all.take(i as int));
        push_if_new(&mut directories, parent(mappings[i].target_file.as_str()));
        i = i + 1;
    }
    assert(all.take(i as int) =~= all);
    directories
}

} // verus!
