use data_eng_interview::csv_writer::CsvWriter;
use data_eng_interview::{Logo, Site};

#[test]
fn test_writer() {
    let mut writer = CsvWriter::new();

    writer.add_record("birth, age, gender");
    writer.add_record("null, 43, male");
    writer.add_record("05/21, 23, female");

    assert_eq!(
        writer.into_inner(),
        "birth, age, gender\nnull, 43, male\n05/21, 23, female\n"
    )
}

#[test]
fn empty_writer_holds_nothing() {
    assert_eq!(CsvWriter::new().into_inner(), "");
}

#[test]
fn site_to_csv_writes_null_for_missing_images() {
    let site = Site::new("not a domain".to_string());
    assert_eq!(site.to_csv(), "not a domain, null, null");
}

#[test]
fn site_to_csv_writes_urls() {
    let site = Site {
        domain: "https://wix.com/".to_string(),
        logo: Some(Logo::new("/logo.png".to_string())),
        favicon: Some(Logo::new("/favicon.ico".to_string())),
    };
    assert_eq!(site.to_csv(), "https://wix.com/, /logo.png, /favicon.ico");
}

#[test]
fn add_sites_writes_one_line_each() {
    let sites = vec![
        Site::new("a.com".to_string()),
        Site {
            domain: "b.com".to_string(),
            logo: None,
            favicon: Some(Logo::new("/f.svg".to_string())),
        },
    ];
    let mut writer = CsvWriter::new();
    writer.add_sites(&sites);
    assert_eq!(writer.into_inner(), "a.com, null, null\nb.com, null, /f.svg\n");
}

#[test]
fn logo_new_has_no_metadata() {
    let logo = Logo::new("x.png".to_string());
    assert_eq!(logo.url, "x.png");
    assert_eq!(logo.mime, None);
    assert_eq!(logo.width, None);
    assert_eq!(logo.height, None);
}
