use wav_to_flac::files::{
    classify, create_directories, find_audio_files_and_covers, is_valid_wav_file,
    mapping_if_missing, on_missing_file, planned_target, push_if_new, relative_below,
    starts_upwards, target_path, FileKind, FileMapping, SourceEntry,
};

const WAVE: &[u8] = b"RIFF\x24\x08\x00\x00WAVEfmt \x10\x00\x00\x00";

fn entry(path: &str, leading_bytes: &[u8]) -> SourceEntry {
    let file_name = path.rsplit('/').next().unwrap().to_string();
    SourceEntry { path: path.to_string(), file_name, leading_bytes: leading_bytes.to_vec() }
}

fn mapping(source: &str, target: &str) -> FileMapping {
    FileMapping::new(source.to_string(), target.to_string())
}

fn pairs(mappings: &Vec<FileMapping>) -> Vec<(String, String)> {
    mappings.iter().map(|m| (m.source_file.clone(), m.target_file.clone())).collect()
}

fn pair(source: &str, target: &str) -> (String, String) {
    (source.to_string(), target.to_string())
}

#[test]
fn new_mapping_holds_both_paths() {
    let m = FileMapping::new("/src/a.wav".to_string(), "/dst/a.flac".to_string());
    assert_eq!(m.source_file, "/src/a.wav");
    assert_eq!(m.target_file, "/dst/a.flac");
}

#[test]
fn wave_header_is_twelve_bytes_with_two_tags() {
    assert!(is_valid_wav_file(b"RIFF\x00\x00\x00\x00WAVE"));
    assert!(is_valid_wav_file(WAVE));
    assert!(!is_valid_wav_file(b"RIFF\x00\x00\x00\x00WAV"));
    assert!(!is_valid_wav_file(b"RIFX\x00\x00\x00\x00WAVE"));
    assert!(!is_valid_wav_file(b"RIFF\x00\x00\x00\x00AVI "));
    assert!(!is_valid_wav_file(b"riff\x00\x00\x00\x00wave"));
    assert!(!is_valid_wav_file(b"RIFF"));
    assert!(!is_valid_wav_file(b""));
}

#[test]
fn corrupted_header_with_wav_extension_is_skipped() {
    assert_eq!(classify(b"RIFFgarbage, not a header", "song.wav", "cover.jpg"), FileKind::Skip);
    assert_eq!(classify(b"", "song.wav", "cover.jpg"), FileKind::Skip);
}

#[test]
fn valid_header_without_extension_is_audio() {
    assert_eq!(classify(WAVE, "song", "cover.jpg"), FileKind::AudioSource);
    assert_eq!(classify(WAVE, "song.txt", "cover.jpg"), FileKind::AudioSource);
}

#[test]
fn cover_is_told_by_its_exact_name() {
    assert_eq!(classify(b"\xff\xd8\xff", "cover.jpg", "cover.jpg"), FileKind::CoverArt);
    assert_eq!(classify(b"", "cover.jpg", "cover.jpg"), FileKind::CoverArt);
    assert_eq!(classify(b"\xff\xd8\xff", "Cover.jpg", "cover.jpg"), FileKind::Skip);
    assert_eq!(classify(b"\xff\xd8\xff", "cover.jpg.bak", "cover.jpg"), FileKind::Skip);
    assert_eq!(classify(b"\xff\xd8\xff", "folder.png", "folder.png"), FileKind::CoverArt);
}

#[test]
fn audio_content_wins_over_the_cover_name() {
    assert_eq!(classify(WAVE, "cover.jpg", "cover.jpg"), FileKind::AudioSource);
}

#[test]
fn target_mirrors_the_source_path() {
    assert_eq!(
        target_path("/src/A/B/01 Song.wav", "/src", "/dst", Some("flac")),
        Some("/dst/A/B/01 Song.flac".to_string())
    );
    assert_eq!(
        target_path("/src/A/B/01 Song.wav", "/src", "/dst", Some("m4a")),
        Some("/dst/A/B/01 Song.m4a".to_string())
    );
}

#[test]
fn target_of_a_cover_keeps_its_name() {
    assert_eq!(
        target_path("/src/A/B/cover.jpg", "/src", "/dst", None),
        Some("/dst/A/B/cover.jpg".to_string())
    );
}

#[test]
fn target_gets_an_extension_where_the_source_has_none() {
    assert_eq!(
        target_path("/src/A/song", "/src", "/dst", Some("flac")),
        Some("/dst/A/song.flac".to_string())
    );
}

#[test]
fn target_with_relative_roots() {
    assert_eq!(
        target_path("in/A/1 x.wav", "in", "out", Some("flac")),
        Some("out/A/1 x.flac".to_string())
    );
    assert_eq!(
        target_path("/src/A/1 x.wav", "/src/", "/dst/", Some("flac")),
        Some("/dst/A/1 x.flac".to_string())
    );
}

#[test]
fn source_outside_the_root_has_no_target() {
    assert_eq!(target_path("/elsewhere/a.wav", "/src", "/dst", Some("flac")), None);
    assert_eq!(target_path("/srcs/a.wav", "/src", "/dst", Some("flac")), None);
    assert_eq!(target_path("/a.wav", "/src/deep", "/dst", None), None);
    assert_eq!(target_path("a.wav", "/src", "/dst", Some("flac")), None);
    assert_eq!(target_path("/src/a.wav", "src", "/dst", Some("flac")), None);
    assert_eq!(target_path("/src", "/src", "/dst", Some("flac")), None);
}

#[test]
fn relative_path_below_the_root() {
    assert_eq!(relative_below("/src/A/B/c.wav", "/src"), Some("A/B/c.wav".to_string()));
    assert_eq!(relative_below("/src/..hidden/c.wav", "/src"), Some("..hidden/c.wav".to_string()));
    assert_eq!(relative_below("/other/c.wav", "/src"), None);
}

#[test]
fn going_up_is_told_by_the_first_component() {
    assert!(starts_upwards(".."));
    assert!(starts_upwards("../a"));
    assert!(starts_upwards("..\\a"));
    assert!(!starts_upwards("..a"));
    assert!(!starts_upwards("a/.."));
    assert!(!starts_upwards("."));
    assert!(!starts_upwards(""));
}

#[test]
fn mapping_is_made_only_for_a_free_target() {
    let taken = vec!["/dst/a.flac".to_string()];
    assert_eq!(mapping_if_missing("/src/a.wav", Some("/dst/a.flac".to_string()), &taken), None);
    assert_eq!(mapping_if_missing("/src/a.wav", None, &taken), None);
    assert_eq!(
        mapping_if_missing("/src/b.wav", Some("/dst/b.flac".to_string()), &taken),
        Some(mapping("/src/b.wav", "/dst/b.flac"))
    );
}

#[test]
fn existing_target_yields_no_mapping() {
    let existing = vec!["/dst/A/1 x.flac".to_string()];
    assert_eq!(on_missing_file("/src/A/1 x.wav", "/src", "/dst", Some("flac"), &existing), None);
    assert_eq!(
        on_missing_file("/src/A/2 y.wav", "/src", "/dst", Some("flac"), &existing),
        Some(mapping("/src/A/2 y.wav", "/dst/A/2 y.flac"))
    );
    assert_eq!(
        on_missing_file("/src/A/1 x.wav", "/src", "/dst", None, &existing),
        Some(mapping("/src/A/1 x.wav", "/dst/A/1 x.wav"))
    );
}

#[test]
fn planned_target_goes_by_the_kind_of_file() {
    assert_eq!(
        planned_target(&entry("/src/A/1 x.wav", WAVE), "/src", "/dst", "flac", "cover.jpg"),
        Some("/dst/A/1 x.flac".to_string())
    );
    assert_eq!(
        planned_target(&entry("/src/A/cover.jpg", b"\xff"), "/src", "/dst", "flac", "cover.jpg"),
        Some("/dst/A/cover.jpg".to_string())
    );
    assert_eq!(
        planned_target(&entry("/src/A/notes.txt", b"hello"), "/src", "/dst", "flac", "cover.jpg"),
        None
    );
}

fn tree() -> Vec<SourceEntry> {
    vec![
        entry("/src/Artist/Album/01 One.wav", WAVE),
        entry("/src/Artist/Album/cover.jpg", b"\xff\xd8\xff\xe0"),
        entry("/src/Artist/Album/notes.txt", b"plain text"),
        entry("/src/Artist/Album/02 Two", WAVE),
        entry("/src/Artist/Album/03 Broken.wav", b"RIFF"),
        entry("/src/Artist/Other/01 Solo.wav", WAVE),
    ]
}

#[test]
fn discovery_buckets_audio_and_covers() {
    let found = find_audio_files_and_covers(&tree(), "/src", "/dst", "flac", "cover.jpg", &vec![]);
    assert_eq!(
        pairs(&found.audio_jobs),
        vec![
            pair("/src/Artist/Album/01 One.wav", "/dst/Artist/Album/01 One.flac"),
            pair("/src/Artist/Album/02 Two", "/dst/Artist/Album/02 Two.flac"),
            pair("/src/Artist/Other/01 Solo.wav", "/dst/Artist/Other/01 Solo.flac"),
        ]
    );
    assert_eq!(
        pairs(&found.cover_jobs),
        vec![pair("/src/Artist/Album/cover.jpg", "/dst/Artist/Album/cover.jpg")]
    );
    assert!(found.collisions.is_empty());
    assert_eq!(found.audio_found, 3);
}

#[test]
fn discovery_of_nothing_is_empty() {
    let found = find_audio_files_and_covers(&vec![], "/src", "/dst", "flac", "cover.jpg", &vec![]);
    assert!(found.audio_jobs.is_empty());
    assert!(found.cover_jobs.is_empty());
    assert!(found.collisions.is_empty());
    assert_eq!(found.audio_found, 0);
}

#[test]
fn discovery_leaves_out_existing_targets() {
    let existing =
        vec!["/dst/Artist/Album/01 One.flac".to_string(), "/dst/Artist/Album/cover.jpg".to_string()];
    let found =
        find_audio_files_and_covers(&tree(), "/src", "/dst", "flac", "cover.jpg", &existing);
    assert_eq!(
        pairs(&found.audio_jobs),
        vec![
            pair("/src/Artist/Album/02 Two", "/dst/Artist/Album/02 Two.flac"),
            pair("/src/Artist/Other/01 Solo.wav", "/dst/Artist/Other/01 Solo.flac"),
        ]
    );
    assert!(found.cover_jobs.is_empty());
    assert!(found.collisions.is_empty());
    assert_eq!(found.audio_found, 3);
}

#[test]
fn second_discovery_after_a_full_run_finds_nothing() {
    let first = find_audio_files_and_covers(&tree(), "/src", "/dst", "flac", "cover.jpg", &vec![]);
    let mut existing: Vec<String> = Vec::new();
    for job in first.audio_jobs.iter().chain(first.cover_jobs.iter()) {
        existing.push(job.target_file.clone());
    }
    let second =
        find_audio_files_and_covers(&tree(), "/src", "/dst", "flac", "cover.jpg", &existing);
    assert!(second.audio_jobs.is_empty());
    assert!(second.cover_jobs.is_empty());
    assert!(second.collisions.is_empty());
    assert_eq!(second.audio_found, first.audio_found);
}

#[test]
fn second_of_two_sources_with_one_target_is_set_aside() {
    let entries = vec![
        entry("/src/A/01 Song.wav", WAVE),
        entry("/src/A/01 Song.wave", WAVE),
        entry("/src/A/02 Next.wav", WAVE),
    ];
    let found = find_audio_files_and_covers(&entries, "/src", "/dst", "flac", "cover.jpg", &vec![]);
    assert_eq!(
        pairs(&found.audio_jobs),
        vec![
            pair("/src/A/01 Song.wav", "/dst/A/01 Song.flac"),
            pair("/src/A/02 Next.wav", "/dst/A/02 Next.flac"),
        ]
    );
    assert_eq!(pairs(&found.collisions), vec![pair("/src/A/01 Song.wave", "/dst/A/01 Song.flac")]);
    assert_eq!(found.audio_found, 3);
}

#[test]
fn collision_policy_holds_between_audio_and_cover() {
    let entries = vec![entry("/src/A/art.flac", b"\x00\x01"), entry("/src/A/art.wav", WAVE)];
    let found = find_audio_files_and_covers(&entries, "/src", "/dst", "flac", "art.flac", &vec![]);
    assert_eq!(pairs(&found.cover_jobs), vec![pair("/src/A/art.flac", "/dst/A/art.flac")]);
    assert!(found.audio_jobs.is_empty());
    assert_eq!(pairs(&found.collisions), vec![pair("/src/A/art.wav", "/dst/A/art.flac")]);
}

#[test]
fn collision_with_an_existing_target_is_no_collision() {
    let entries = vec![entry("/src/A/01 Song.wav", WAVE), entry("/src/A/01 Song.wave", WAVE)];
    let existing = vec!["/dst/A/01 Song.flac".to_string()];
    let found =
        find_audio_files_and_covers(&entries, "/src", "/dst", "flac", "cover.jpg", &existing);
    assert!(found.audio_jobs.is_empty());
    assert!(found.collisions.is_empty());
    assert_eq!(found.audio_found, 2);
}

#[test]
fn jobs_of_a_discovery_have_distinct_targets() {
    let entries = vec![
        entry("/src/A/x.wav", WAVE),
        entry("/src/A/x.wv", WAVE),
        entry("/src/A/x", WAVE),
        entry("/src/A/x.flac", b""),
        entry("/src/B/x.wav", WAVE),
    ];
    let found = find_audio_files_and_covers(&entries, "/src", "/dst", "flac", "x.flac", &vec![]);
    let mut targets: Vec<String> = Vec::new();
    for job in found.audio_jobs.iter().chain(found.cover_jobs.iter()) {
        assert!(!targets.contains(&job.target_file));
        targets.push(job.target_file.clone());
    }
    assert_eq!(targets, vec!["/dst/A/x.flac".to_string(), "/dst/B/x.flac".to_string()]);
    assert_eq!(found.collisions.len(), 3);
}

#[test]
fn files_outside_the_root_are_no_work() {
    let entries = vec![entry("/elsewhere/01 Song.wav", WAVE), entry("/src/01 Song.wav", WAVE)];
    let found = find_audio_files_and_covers(&entries, "/src", "/dst", "flac", "cover.jpg", &vec![]);
    assert_eq!(pairs(&found.audio_jobs), vec![pair("/src/01 Song.wav", "/dst/01 Song.flac")]);
    assert_eq!(found.audio_found, 2);
}

#[test]
fn directories_are_the_parents_of_the_targets_each_once() {
    let mappings = vec![
        mapping("/src/A/B/1 x.wav", "/dst/A/B/1 x.flac"),
        mapping("/src/A/B/2 y.wav", "/dst/A/B/2 y.flac"),
        mapping("/src/A/C/1 z.wav", "/dst/A/C/1 z.flac"),
        mapping("/src/A/B/3 w.wav", "/dst/A/B/3 w.flac"),
        mapping("/src/top.wav", "/dst/top.flac"),
    ];
    assert_eq!(
        create_directories(&mappings),
        vec!["/dst/A/B".to_string(), "/dst/A/C".to_string(), "/dst".to_string()]
    );
}

#[test]
fn no_directories_for_no_mappings_or_rootless_targets() {
    assert_eq!(create_directories(&vec![]), Vec::<String>::new());
    assert_eq!(create_directories(&vec![mapping("/src/a", "/")]), Vec::<String>::new());
}

#[test]
fn push_if_new_keeps_first_occurrences() {
    let mut list = vec!["a".to_string()];
    push_if_new(&mut list, Some("b".to_string()));
    push_if_new(&mut list, Some("a".to_string()));
    push_if_new(&mut list, None);
    push_if_new(&mut list, Some("c".to_string()));
    assert_eq!(list, vec!["a".to_string(), "b".to_string(), "c".to_string()]);
}
