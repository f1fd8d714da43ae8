use soundboard::downloader::{more_to_download, status, Status};
use soundboard::pa_ctl;
use soundboard::pulseauto;

#[test]
fn pa_module_unloads_exactly_once() {
    let mut m = pa_ctl::Module::load(String::from("module-null-sink"), String::from("17"));
    assert_eq!(m.id().as_str(), "17");
    // The first unload asks the caller to issue the command; later ones do
    // not, so the command can never run twice for one handle.
    assert!(m.unload());
    assert!(!m.unload());
    assert_eq!(m.id().as_str(), "17");
}

#[test]
fn pulse_module_keeps_its_index() {
    let m = pulseauto::Module::load(23);
    assert_eq!(m.unload(), 23);
    assert_eq!(m.unload(), 23);
}

#[test]
fn status_is_latest_only_on_equal_versions() {
    assert!(matches!(
        status(Some(String::from("1.2")), String::from("1.2")),
        Status::Latest(v) if v == "1.2"
    ));
    assert!(matches!(
        status(Some(String::from("1.1")), String::from("1.2")),
        Status::Updatable(Some(c), l) if c == "1.1" && l == "1.2"
    ));
    assert!(matches!(
        status(None, String::from("1.2")),
        Status::Updatable(None, l) if l == "1.2"
    ));
}

#[test]
fn download_continues_until_announced_length_is_reached() {
    assert!(more_to_download(Some(10), 0));
    assert!(more_to_download(Some(10), 9));
    assert!(!more_to_download(Some(10), 10));
    assert!(!more_to_download(Some(10), 11));
    // With no announced length, only the stream's end stops the loop.
    assert!(more_to_download(None, 123456));
}
