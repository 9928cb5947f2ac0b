use atlas_extract::archive::Multiplexer;
use atlas_extract::errors::Error;

fn make_zip(entries: &[(&str, &[u8])]) -> Vec<u8> {
    let mut w = zip::ZipWriter::new(std::io::Cursor::new(Vec::new()));
    let opts = zip::write::SimpleFileOptions::default();
    for (name, data) in entries {
        w.start_file(*name, opts).unwrap();
        std::io::Write::write_all(&mut w, data).unwrap();
    }
    w.finish().unwrap().into_inner()
}

#[test]
fn first_declared_archive_wins() {
    let a = make_zip(&[("foo/bar.png", b"from archive A")]);
    let b = make_zip(&[("foo/bar.png", b"from archive B")]);
    let mut mux = Multiplexer::open(vec![
        ("a.zip".to_string(), a, vec!["foo".to_string()]),
        ("b.zip".to_string(), b, vec!["foo".to_string()]),
    ])
    .unwrap();
    assert_eq!(mux.find("bar.png"), Some(b"from archive A".to_vec()));
}

#[test]
fn earlier_prefix_wins_within_an_archive() {
    let a = make_zip(&[("p1/x.png", b"one"), ("p2/x.png", b"two")]);
    let mut mux = Multiplexer::open(vec![(
        "a.zip".to_string(),
        a,
        vec!["p2".to_string(), "p1".to_string()],
    )])
    .unwrap();
    assert_eq!(mux.find("x.png"), Some(b"two".to_vec()));
}

#[test]
fn absent_name_is_not_found() {
    let a = make_zip(&[("foo/bar.png", b"content")]);
    let b = make_zip(&[("other/baz.png", b"content")]);
    let mut mux = Multiplexer::open(vec![
        ("a.zip".to_string(), a, vec!["foo".to_string()]),
        ("b.zip".to_string(), b, vec!["other".to_string()]),
    ])
    .unwrap();
    assert_eq!(mux.find("nope.png"), None);
}

#[test]
fn prefixes_limit_the_search() {
    let a = make_zip(&[("hidden/bar.png", b"content")]);
    let mut mux = Multiplexer::open(vec![("a.zip".to_string(), a, vec!["foo".to_string()])])
        .unwrap();
    assert_eq!(mux.find("bar.png"), None);
}

#[test]
fn invalid_archive_names_the_offending_file() {
    let good = make_zip(&[("foo/bar.png", b"content")]);
    let r = Multiplexer::open(vec![
        ("good.zip".to_string(), good, vec!["foo".to_string()]),
        ("bad.zip".to_string(), vec![1, 2, 3], vec!["foo".to_string()]),
    ]);
    assert_eq!(r.err(), Some(Error::ArchiveOpen("bad.zip".to_string())));
}
