use debrep::config::direct::{Direct, DirectPath};
use debrep::config::repos::Repo;
use debrep::config::source::Source;
use debrep::config::text::{find_dot, str_eq, text_is};
use debrep::config::{default_component, Config, ConfigError, ConfigFetch};

fn sample() -> Config {
    Config {
        archive: "bionic".to_string(),
        version: "18.04".to_string(),
        origin: "example".to_string(),
        label: "Example".to_string(),
        email: "repo@example.org".to_string(),
        direct: Some(vec![
            Direct {
                name: "atom".to_string(),
                version: "1.27".to_string(),
                urls: vec![DirectPath {
                    name: None,
                    url: "https://example.org/atom.deb".to_string(),
                    checksum: None,
                }],
            },
            Direct {
                name: "code".to_string(),
                version: "1.24".to_string(),
                urls: vec![
                    DirectPath {
                        name: Some("code-amd64".to_string()),
                        url: "https://example.org/code_amd64.deb".to_string(),
                        checksum: Some("00".to_string()),
                    },
                    DirectPath {
                        name: Some("code-i386".to_string()),
                        url: "https://example.org/code_i386.deb".to_string(),
                        checksum: None,
                    },
                ],
            },
        ]),
        source: Some(vec![Source { name: "system76-driver".to_string(), version: "18.04.1".to_string() }]),
        repos: Some(vec![Repo {
            repo: "http://ppa.example.org".to_string(),
            version: "bionic".to_string(),
            packages: vec!["hello".to_string()],
        }]),
        default_component: default_component(),
    }
}

fn bare() -> Config {
    Config {
        archive: "a".to_string(),
        version: "v".to_string(),
        origin: "o".to_string(),
        label: "l".to_string(),
        email: "e".to_string(),
        direct: None,
        source: None,
        repos: None,
        default_component: default_component(),
    }
}

fn fetched(config: &Config, key: &str) -> Option<String> {
    config.fetch(key).map(|text| text.into_owned())
}

#[test]
fn default_component_is_main() {
    assert_eq!(default_component(), "main");
}

#[test]
fn text_helpers() {
    assert!(str_eq("abc", "abc"));
    assert!(!str_eq("abc", "abd"));
    assert!(!str_eq("abc", "ab"));
    assert!(str_eq("", ""));
    assert!(text_is("J\u{f6}rg", &[0x4a, 0xc3, 0xb6, 0x72, 0x67]));
    assert!(!text_is("abc", b"abC"));
    assert_eq!(find_dot(b"atom.version"), 4);
    assert_eq!(find_dot(b"atom"), 4);
    assert_eq!(find_dot(b".x"), 0);
    assert_eq!(find_dot(b""), 0);
}

#[test]
fn direct_exists_by_package_or_file_name() {
    let config = sample();
    assert!(config.direct_exists("atom"));
    assert!(config.direct_exists("code"));
    assert!(config.direct_exists("code-amd64"));
    assert!(config.direct_exists("code-i386"));
    assert!(!config.direct_exists("code-arm64"));
    assert!(!config.direct_exists("system76-driver"));
    assert!(!config.direct_exists(""));
    assert!(!bare().direct_exists("atom"));
}

#[test]
fn source_exists_by_name() {
    let config = sample();
    assert!(config.source_exists("system76-driver"));
    assert!(!config.source_exists("atom"));
    assert!(!config.source_exists("System76-driver"));
    assert!(!bare().source_exists("system76-driver"));
}

#[test]
fn package_exists_in_either_list() {
    let config = sample();
    assert!(config.package_exists("atom"));
    assert!(config.package_exists("code-i386"));
    assert!(config.package_exists("system76-driver"));
    assert!(!config.package_exists("hello"));
    assert!(!bare().package_exists("atom"));
}

#[test]
fn fetch_reads_the_fields_of_the_record() {
    let config = sample();
    assert_eq!(fetched(&config, "archive"), Some("bionic".to_string()));
    assert_eq!(fetched(&config, "version"), Some("18.04".to_string()));
    assert_eq!(fetched(&config, "origin"), Some("example".to_string()));
    assert_eq!(fetched(&config, "label"), Some("Example".to_string()));
    assert_eq!(fetched(&config, "email"), Some("repo@example.org".to_string()));
    assert_eq!(fetched(&config, "Archive"), None);
    assert_eq!(fetched(&config, "default_component"), None);
    assert_eq!(fetched(&config, ""), None);
}

#[test]
fn fetch_reads_the_fields_of_packages_and_projects() {
    let config = sample();
    assert_eq!(fetched(&config, "direct.atom.version"), Some("1.27".to_string()));
    assert_eq!(fetched(&config, "direct.code.name"), Some("code".to_string()));
    assert_eq!(fetched(&config, "direct.code.url"), None);
    assert_eq!(fetched(&config, "direct.none.version"), None);
    assert_eq!(fetched(&config, "source.system76-driver.version"), Some("18.04.1".to_string()));
    assert_eq!(fetched(&config, "source.atom.version"), None);
    assert_eq!(fetched(&config, "direct.system76-driver.version"), None);
    assert_eq!(fetched(&bare(), "direct.atom.version"), None);
    assert_eq!(fetched(&bare(), "source.atom.version"), None);
}

#[test]
fn fetch_shows_whole_records() {
    let config = sample();
    let all = fetched(&config, "direct").unwrap();
    assert!(all.contains("atom"));
    assert!(all.contains("code-i386"));
    let one = fetched(&config, "direct.code").unwrap();
    assert!(one.contains("code-amd64"));
    assert!(!one.contains("atom"));
    let dotted = fetched(&config, "direct.code.").unwrap();
    assert_eq!(dotted, one);
    let project = fetched(&config, "source.system76-driver").unwrap();
    assert!(project.contains("18.04.1"));
    assert!(fetched(&bare(), "direct").is_some());
}

#[test]
fn update_sets_the_fields_of_the_record() {
    let mut config = sample();
    assert_eq!(config.update("archive", "cosmic".to_string()), Ok(()));
    assert_eq!(config.update("version", "18.10".to_string()), Ok(()));
    assert_eq!(config.update("origin", "o2".to_string()), Ok(()));
    assert_eq!(config.update("label", "l2".to_string()), Ok(()));
    assert_eq!(config.update("email", "e2".to_string()), Ok(()));
    assert_eq!(config.archive, "cosmic");
    assert_eq!(config.version, "18.10");
    assert_eq!(config.origin, "o2");
    assert_eq!(config.label, "l2");
    assert_eq!(config.email, "e2");
    assert_eq!(config.default_component, "main");
    assert_eq!(config.direct.as_ref().unwrap()[0].version, "1.27");
}

#[test]
fn update_sets_the_fields_of_packages_and_projects() {
    let mut config = sample();
    assert_eq!(config.update("direct.code.version", "1.25".to_string()), Ok(()));
    assert_eq!(config.direct.as_ref().unwrap()[1].version, "1.25");
    assert_eq!(config.direct.as_ref().unwrap()[0].version, "1.27");
    assert_eq!(config.update("direct.atom.name", "atom-beta".to_string()), Ok(()));
    assert_eq!(config.direct.as_ref().unwrap()[0].name, "atom-beta");
    assert_eq!(fetched(&config, "direct.atom-beta.version"), Some("1.27".to_string()));
    assert_eq!(config.update("source.system76-driver.version", "18.10.1".to_string()), Ok(()));
    assert_eq!(config.source.as_ref().unwrap()[0].version, "18.10.1");
    assert_eq!(config.archive, "bionic");
}

#[test]
fn update_refuses_unknown_keys() {
    let mut config = sample();
    assert_eq!(config.update("direct", "x".to_string()), Err(ConfigError::InvalidKey));
    assert_eq!(config.update("direct.code", "x".to_string()), Err(ConfigError::InvalidKey));
    assert_eq!(config.update("direct.code.", "x".to_string()), Err(ConfigError::InvalidKey));
    assert_eq!(config.update("direct.code.url", "x".to_string()), Err(ConfigError::InvalidKey));
    assert_eq!(config.update("direct.none.version", "x".to_string()), Err(ConfigError::InvalidKey));
    assert_eq!(config.update("source.atom.version", "x".to_string()), Err(ConfigError::InvalidKey));
    assert_eq!(config.update("repos", "x".to_string()), Err(ConfigError::InvalidKey));
    assert_eq!(config.update("", "x".to_string()), Err(ConfigError::InvalidKey));
    assert_eq!(config.direct.as_ref().unwrap().len(), 2);
    assert_eq!(config.direct.as_ref().unwrap()[1].version, "1.24");
    assert_eq!(config.direct.as_ref().unwrap()[1].urls.len(), 2);
    assert_eq!(config.source.as_ref().unwrap()[0].version, "18.04.1");
    let mut none = bare();
    assert_eq!(none.update("direct.atom.version", "x".to_string()), Err(ConfigError::InvalidKey));
    assert!(none.direct.is_none());
}

#[test]
fn packages_and_projects_answer_for_themselves() {
    let mut direct = Direct { name: "atom".to_string(), version: "1".to_string(), urls: Vec::new() };
    assert_eq!(direct.fetch("name").map(|t| t.into_owned()), Some("atom".to_string()));
    assert_eq!(direct.fetch("version").map(|t| t.into_owned()), Some("1".to_string()));
    assert_eq!(direct.fetch("urls").map(|t| t.into_owned()), None);
    assert_eq!(direct.update("version", "2".to_string()), Ok(()));
    assert_eq!(direct.version, "2");
    assert_eq!(direct.update("urls", "2".to_string()), Err(ConfigError::InvalidKey));
    assert!(direct.goes_by("atom"));
    assert!(!direct.goes_by("atom2"));
    let mut source = Source { name: "drv".to_string(), version: "1".to_string() };
    assert_eq!(source.fetch("name").map(|t| t.into_owned()), Some("drv".to_string()));
    assert_eq!(source.update("name", "drv2".to_string()), Ok(()));
    assert_eq!(source.name, "drv2");
    assert_eq!(source.update("path", "x".to_string()), Err(ConfigError::InvalidKey));
}
