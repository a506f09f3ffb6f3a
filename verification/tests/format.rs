use osu_collect::catalog::{
    api_url_for, collect_checksums, generate_collection_folder_name, Beatmap, Beatmapset,
    Collection, Uploader,
};
use osu_collect::cli::Cli;
use osu_collect::config::Config;
use osu_collect::error::{ConfigError, IndexError};
use osu_collect::index::encode_collection_db;

fn sample_collection() -> Collection {
    Collection {
        id: 1,
        name: "Test".to_string(),
        uploader: Uploader { id: 10, username: "someone".to_string() },
        beatmapsets: vec![
            Beatmapset {
                id: 100,
                beatmaps: vec![
                    Beatmap { id: 1000, checksum: "abc".to_string() },
                    Beatmap { id: 1001, checksum: "def".to_string() },
                ],
            },
            Beatmapset { id: 101, beatmaps: vec![] },
        ],
    }
}

fn read_u32(bytes: &[u8], at: usize) -> u32 {
    u32::from_le_bytes([bytes[at], bytes[at + 1], bytes[at + 2], bytes[at + 3]])
}

#[test]
fn index_round_trip() {
    let collection = sample_collection();
    let hashes = collect_checksums(&collection);
    assert_eq!(hashes, vec!["abc".to_string(), "def".to_string()]);

    let bytes = encode_collection_db(20211103, "Test", &hashes).expect("encodes");

    // Read the bytes back, following the documented layout.
    let mut at = 0usize;
    let version = read_u32(&bytes, at);
    at += 4;
    assert_eq!(version, 20211103);
    let collections = read_u32(&bytes, at);
    at += 4;
    assert_eq!(collections, 1);
    let name_len = read_u32(&bytes, at) as usize;
    at += 4;
    let name = std::str::from_utf8(&bytes[at..at + name_len]).unwrap();
    at += name_len;
    assert_eq!(name, "Test");
    let hash_count = read_u32(&bytes, at) as usize;
    at += 4;
    assert_eq!(hash_count, 2);
    let mut read_hashes = Vec::new();
    for _ in 0..hash_count {
        let len = read_u32(&bytes, at) as usize;
        at += 4;
        read_hashes.push(std::str::from_utf8(&bytes[at..at + len]).unwrap().to_string());
        at += len;
    }
    assert_eq!(read_hashes, vec!["abc".to_string(), "def".to_string()]);
    assert_eq!(at, bytes.len());
}

#[test]
fn index_layout_is_exact() {
    let bytes = encode_collection_db(2, "N", &vec!["ab".to_string()]).expect("encodes");
    assert_eq!(
        bytes,
        vec![
            2, 0, 0, 0, // version
            1, 0, 0, 0, // collection count
            1, 0, 0, 0, b'N', // name
            1, 0, 0, 0, // hash count
            2, 0, 0, 0, b'a', b'b', // hash
        ]
    );
}

#[test]
fn index_requires_a_name() {
    let r = encode_collection_db(1, "", &vec!["abc".to_string()]);
    assert_eq!(r, Err(IndexError::EmptyName));
}

#[test]
fn index_of_empty_hash_list() {
    let bytes = encode_collection_db(1, "X", &Vec::new()).expect("encodes");
    assert_eq!(bytes.len(), 4 + 4 + 4 + 1 + 4);
    assert_eq!(read_u32(&bytes, 13), 0);
}

#[test]
fn checksums_flatten_in_order() {
    let collection = Collection {
        id: 3,
        name: "c".to_string(),
        uploader: Uploader { id: 1, username: "u".to_string() },
        beatmapsets: vec![
            Beatmapset {
                id: 1,
                beatmaps: vec![Beatmap { id: 1, checksum: "x".to_string() }],
            },
            Beatmapset {
                id: 2,
                beatmaps: vec![
                    Beatmap { id: 2, checksum: "y".to_string() },
                    Beatmap { id: 3, checksum: "z".to_string() },
                ],
            },
        ],
    };
    assert_eq!(
        collect_checksums(&collection),
        vec!["x".to_string(), "y".to_string(), "z".to_string()]
    );
}

#[test]
fn folder_name_is_sanitized_name_and_id() {
    let mut collection = sample_collection();
    collection.name = "My/Coll: best?".to_string();
    collection.id = 5;
    assert_eq!(generate_collection_folder_name(&collection), "My_Coll_ best_-5");
}

#[test]
fn api_url_embeds_the_id() {
    assert_eq!(api_url_for(77), "https://osucollector.com/api/collections/77");
    assert_eq!(api_url_for(0), "https://osucollector.com/api/collections/0");
}

#[test]
fn default_config_is_valid() {
    let config = Config::default();
    assert_eq!(config.mirror.url, "https://api.nerinyan.moe/d/{id}");
    assert!(!config.download.skip_existing);
    assert_eq!(config.download.concurrent, 1);
    assert_eq!(config.validate(), Ok(()));
    assert!(!config.needs_concurrency_warning());
}

#[test]
fn config_requires_the_id_token() {
    let mut config = Config::default();
    config.mirror.url = "https://mirror.example/d/".to_string();
    assert_eq!(config.validate(), Err(ConfigError::MissingIdToken));
}

#[test]
fn config_requires_an_http_scheme() {
    let mut config = Config::default();
    config.mirror.url = "ftp://mirror.example/{id}".to_string();
    assert_eq!(config.validate(), Err(ConfigError::BadScheme));
    config.mirror.url = "http://mirror.example/{id}".to_string();
    assert_eq!(config.validate(), Ok(()));
}

#[test]
fn config_rejects_zero_concurrency() {
    let mut config = Config::default();
    config.download.concurrent = 0;
    assert_eq!(config.validate(), Err(ConfigError::ZeroConcurrency));
}

#[test]
fn high_concurrency_only_warns() {
    let mut config = Config::default();
    config.download.concurrent = 51;
    assert_eq!(config.validate(), Ok(()));
    assert!(config.needs_concurrency_warning());
}

#[test]
fn cli_overrides_merge_into_config() {
    let config = Config::default();
    let merged = config.merge_with_cli(Some("https://other.example/{id}".to_string()), true);
    assert_eq!(merged.mirror.url, "https://other.example/{id}");
    assert!(merged.download.skip_existing);
    assert_eq!(merged.download.concurrent, 1);

    let untouched = Config::default().merge_with_cli(None, false);
    assert_eq!(untouched.mirror.url, "https://api.nerinyan.moe/d/{id}");
    assert!(!untouched.download.skip_existing);
}

#[test]
fn conflicting_cli_flags_are_rejected() {
    let cli = Cli {
        collection: "1".to_string(),
        directory: ".".to_string(),
        mirror: None,
        yes: true,
        skip_existing: true,
    };
    assert_eq!(cli.validate(), Err(ConfigError::ConflictingFlags));
    let ok = Cli { yes: false, ..cli };
    assert_eq!(ok.validate(), Ok(()));
}
